use vstd::prelude::*;

use crate::text::{append_str, chars_of, push_char};

verus! {

/// Whether two texts are equal.
pub fn str_equal(a: &str, b: &str) -> (r: bool)
    ensures
        r == (a@ == b@),
{
    let x = chars_of(a);
    let y = chars_of(b);
    if x.len() != y.len() {
        return false;
    }
    let mut i: usize = 0;
    while i < x.len()
        invariant
            i <= x.len(),
            x@ == a@,
            y@ == b@,
            x.len() == y.len(),
            forall|k: int| 0 <= k < i ==> x@[k] == y@[k],
        decreases x.len() - i,
    {
        if x[i] != y[i] {
            return false;
        }
        i = i + 1;
    }
    assert(x@ =~= y@);
    true
}

/// The sign-in providers a user account can come from.
#[derive(Debug, Clone, Copy, PartialEq, Eq, Structural)]
pub enum Provider {
    All,
    Phone,
    Email,
    Google,
    Microsoft,
    LinkedIn,
    Shopify,
    Hubspot,
    SalesForce,
    Zapier,
    Klaviyo,
    DefaultProvider,
}

/// How a provider is displayed: the name of its variant.
pub open spec fn provider_name(p: Provider) -> Seq<char> {
    match p {
        Provider::All => "All"@,
        Provider::Phone => "Phone"@,
        Provider::Email => "Email"@,
        Provider::Google => "Google"@,
        Provider::Microsoft => "Microsoft"@,
        Provider::LinkedIn => "LinkedIn"@,
        Provider::Shopify => "Shopify"@,
        Provider::Hubspot => "Hubspot"@,
        Provider::SalesForce => "SalesForce"@,
        Provider::Zapier => "Zapier"@,
        Provider::Klaviyo => "Klaviyo"@,
        Provider::DefaultProvider => "DefaultProvider"@,
    }
}

/// The provider a text names: the display name of any provider but the
/// default one.
pub open spec fn parse_provider(s: Seq<char>) -> Option<Provider> {
    if s == "All"@ {
        Some(Provider::All)
    } else if s == "Phone"@ {
        Some(Provider::Phone)
    } else if s == "Email"@ {
        Some(Provider::Email)
    } else if s == "Google"@ {
        Some(Provider::Google)
    } else if s == "Microsoft"@ {
        Some(Provider::Microsoft)
    } else if s == "LinkedIn"@ {
        Some(Provider::LinkedIn)
    } else if s == "Shopify"@ {
        Some(Provider::Shopify)
    } else if s == "Hubspot"@ {
        Some(Provider::Hubspot)
    } else if s == "Klaviyo"@ {
        Some(Provider::Klaviyo)
    } else if s == "SalesForce"@ {
        Some(Provider::SalesForce)
    } else if s == "Zapier"@ {
        Some(Provider::Zapier)
    } else {
        None
    }
}

impl Provider {
    /// Parses the display name of a provider; the default provider and any
    /// other text are refused.
    pub fn from_str(input: &str) -> (r: Result<Provider, ()>)
        ensures
            r == match parse_provider(input@) {
                Some(p) => Ok::<Provider, ()>(p),
                None => Err(()),
            },
    {
        if str_equal(input, "All") {
            Ok(Provider::All)
        } else if str_equal(input, "Phone") {
            Ok(Provider::Phone)
        } else if str_equal(input, "Email") {
            Ok(Provider::Email)
        } else if str_equal(input, "Google") {
            Ok(Provider::Google)
        } else if str_equal(input, "Microsoft") {
            Ok(Provider::Microsoft)
        } else if str_equal(input, "LinkedIn") {
            Ok(Provider::LinkedIn)
        } else if str_equal(input, "Shopify") {
            Ok(Provider::Shopify)
        } else if str_equal(input, "Hubspot") {
            Ok(Provider::Hubspot)
        } else if str_equal(input, "Klaviyo") {
            Ok(Provider::Klaviyo)
        } else if str_equal(input, "SalesForce") {
            Ok(Provider::SalesForce)
        } else if str_equal(input, "Zapier") {
            Ok(Provider::Zapier)
        } else {
            Err(())
        }
    }

    /// The display name of the provider.
    pub fn to_display_string(&self) -> (r: String)
        ensures
            r@ == provider_name(*self),
    {
        let mut r = String::new();
        match self {
            Provider::All => append_str(&mut r, "All"),
            Provider::Phone => append_str(&mut r, "Phone"),
            Provider::Email => append_str(&mut r, "Email"),
            Provider::Google => append_str(&mut r, "Google"),
            Provider::Microsoft => append_str(&mut r, "Microsoft"),
            Provider::LinkedIn => append_str(&mut r, "LinkedIn"),
            Provider::Shopify => append_str(&mut r, "Shopify"),
            Provider::Hubspot => append_str(&mut r, "Hubspot"),
            Provider::SalesForce => append_str(&mut r, "SalesForce"),
            Provider::Zapier => append_str(&mut r, "Zapier"),
            Provider::Klaviyo => append_str(&mut r, "Klaviyo"),
            Provider::DefaultProvider => append_str(&mut r, "DefaultProvider"),
        }
        assert(r@ =~= provider_name(*self));
        r
    }
}

impl Default for Provider {
    fn default() -> (p: Self)
        ensures
            p == Provider::DefaultProvider,
    {
        Provider::DefaultProvider
    }
}

/// Parsing the display name of a provider gives the provider back, for every
/// provider but the default one, whose display name is refused.
pub proof fn law_provider_round_trip(p: Provider)
    ensures
        p != Provider::DefaultProvider ==> parse_provider(provider_name(p)) == Some(p),
        parse_provider(provider_name(Provider::DefaultProvider)) is None,
{
    reveal_strlit("All");
    reveal_strlit("Phone");
    reveal_strlit("Email");
    reveal_strlit("Google");
    reveal_strlit("Microsoft");
    reveal_strlit("LinkedIn");
    reveal_strlit("Shopify");
    reveal_strlit("Hubspot");
    reveal_strlit("SalesForce");
    reveal_strlit("Zapier");
    reveal_strlit("Klaviyo");
    reveal_strlit("DefaultProvider");
    assert("All"@[0] == 'A');
    assert("Phone"@[0] == 'P');
    assert("Email"@[0] == 'E');
    assert("Google"@[0] == 'G');
    assert("Microsoft"@[0] == 'M');
    assert("LinkedIn"@[0] == 'L');
    assert("Shopify"@[0] == 'S');
    assert("Hubspot"@[0] == 'H');
    assert("SalesForce"@[0] == 'S');
    assert("Zapier"@[0] == 'Z');
    assert("Klaviyo"@[0] == 'K');
    assert("DefaultProvider"@[0] == 'D');
    assert("Shopify"@.len() == 7);
    assert("SalesForce"@.len() == 10);
}


/// The kinds of message sent over the broker.
#[derive(Debug, Clone, Copy, PartialEq, Eq, Structural)]
pub enum RdType {
    Notify,
    Workspace,
    Post,
    Like,
    Comment,
    Credit,
    VideoGen,
    VoiceGen,
    Plan,
    Quota,
    DefaultType,
}

/// What a broker message does.
#[derive(Debug, Clone, Copy, PartialEq, Eq, Structural)]
pub enum RdSubType {
    Create,
    Get,
    Update,
    Delete,
    Add,
    Remove,
    List,
    Error,
    DefaultSubType,
}

/// How a message kind is displayed: the name of its variant.
pub open spec fn rd_type_name(t: RdType) -> Seq<char> {
    match t {
        RdType::Notify => "Notify"@,
        RdType::Workspace => "Workspace"@,
        RdType::Post => "Post"@,
        RdType::Like => "Like"@,
        RdType::Comment => "Comment"@,
        RdType::Credit => "Credit"@,
        RdType::VideoGen => "VideoGen"@,
        RdType::VoiceGen => "VoiceGen"@,
        RdType::Plan => "Plan"@,
        RdType::Quota => "Quota"@,
        RdType::DefaultType => "DefaultType"@,
    }
}

/// How a message action is displayed: the name of its variant.
pub open spec fn rd_sub_type_name(t: RdSubType) -> Seq<char> {
    match t {
        RdSubType::Create => "Create"@,
        RdSubType::Get => "Get"@,
        RdSubType::Update => "Update"@,
        RdSubType::Delete => "Delete"@,
        RdSubType::Add => "Add"@,
        RdSubType::Remove => "Remove"@,
        RdSubType::List => "List"@,
        RdSubType::Error => "Error"@,
        RdSubType::DefaultSubType => "DefaultSubType"@,
    }
}

impl RdType {
    /// The display name of the message kind.
    pub fn to_display_string(&self) -> (r: String)
        ensures
            r@ == rd_type_name(*self),
    {
        let mut r = String::new();
        match self {
            RdType::Notify => append_str(&mut r, "Notify"),
            RdType::Workspace => append_str(&mut r, "Workspace"),
            RdType::Post => append_str(&mut r, "Post"),
            RdType::Like => append_str(&mut r, "Like"),
            RdType::Comment => append_str(&mut r, "Comment"),
            RdType::Credit => append_str(&mut r, "Credit"),
            RdType::VideoGen => append_str(&mut r, "VideoGen"),
            RdType::VoiceGen => append_str(&mut r, "VoiceGen"),
            RdType::Plan => append_str(&mut r, "Plan"),
            RdType::Quota => append_str(&mut r, "Quota"),
            RdType::DefaultType => append_str(&mut r, "DefaultType"),
        }
        assert(r@ =~= rd_type_name(*self));
        r
    }
}

impl RdSubType {
    /// The display name of the message action.
    pub fn to_display_string(&self) -> (r: String)
        ensures
            r@ == rd_sub_type_name(*self),
    {
        let mut r = String::new();
        match self {
            RdSubType::Create => append_str(&mut r, "Create"),
            RdSubType::Get => append_str(&mut r, "Get"),
            RdSubType::Update => append_str(&mut r, "Update"),
            RdSubType::Delete => append_str(&mut r, "Delete"),
            RdSubType::Add => append_str(&mut r, "Add"),
            RdSubType::Remove => append_str(&mut r, "Remove"),
            RdSubType::List => append_str(&mut r, "List"),
            RdSubType::Error => append_str(&mut r, "Error"),
            RdSubType::DefaultSubType => append_str(&mut r, "DefaultSubType"),
        }
        assert(r@ =~= rd_sub_type_name(*self));
        r
    }
}

impl Default for RdType {
    fn default() -> (t: Self)
        ensures
            t == RdType::DefaultType,
    {
        RdType::DefaultType
    }
}

impl Default for RdSubType {
    fn default() -> (t: Self)
        ensures
            t == RdSubType::DefaultSubType,
    {
        RdSubType::DefaultSubType
    }
}

/// The errors an API answer can carry.
#[derive(Debug, Clone, Copy, PartialEq, Eq, Structural)]
pub enum ApiError {
    NotFound,
    BadRequest,
    Forbidden,
    InternalServerError,
}

/// The error an answer code stands for: 404, 403 and 400 have their own,
/// every other code is an internal server error.
pub open spec fn error_for_code(code: i64) -> ApiError {
    if code == 404 {
        ApiError::NotFound
    } else if code == 403 {
        ApiError::Forbidden
    } else if code == 400 {
        ApiError::BadRequest
    } else {
        ApiError::InternalServerError
    }
}

/// The HTTP status an error is answered with.
pub open spec fn status_of(e: ApiError) -> u16 {
    match e {
        ApiError::NotFound => 404,
        ApiError::Forbidden => 403,
        ApiError::BadRequest => 400,
        ApiError::InternalServerError => 500,
    }
}

/// How an error describes itself.
pub open spec fn api_error_message(e: ApiError) -> Seq<char> {
    match e {
        ApiError::NotFound => "not found"@,
        ApiError::BadRequest => "bad request"@,
        ApiError::Forbidden => "forbidden"@,
        ApiError::InternalServerError => "Internal Server error"@,
    }
}

/// The error an answer code stands for.
pub fn api_error_from_code(code: i64) -> (e: ApiError)
    ensures
        e == error_for_code(code),
{
    if code == 404 {
        ApiError::NotFound
    } else if code == 403 {
        ApiError::Forbidden
    } else if code == 400 {
        ApiError::BadRequest
    } else {
        ApiError::InternalServerError
    }
}

impl ApiError {
    /// The HTTP status the error is answered with.
    pub fn status_code(&self) -> (s: u16)
        ensures
            s == status_of(*self),
    {
        match self {
            ApiError::NotFound => 404,
            ApiError::Forbidden => 403,
            ApiError::BadRequest => 400,
            ApiError::InternalServerError => 500,
        }
    }

    /// How the error describes itself.
    pub fn message(&self) -> (m: String)
        ensures
            m@ == api_error_message(*self),
    {
        let mut m = String::new();
        match self {
            ApiError::NotFound => append_str(&mut m, "not found"),
            ApiError::BadRequest => append_str(&mut m, "bad request"),
            ApiError::Forbidden => append_str(&mut m, "forbidden"),
            ApiError::InternalServerError => append_str(&mut m, "Internal Server error"),
        }
        assert(m@ =~= api_error_message(*self));
        m
    }
}

/// An error answer is sent with the status its code names: 400, 403, 404 and
/// 500 come back as they are, every other code as 500.
pub proof fn law_error_status(code: i64)
    ensures
        status_of(error_for_code(code)) == if code == 400 || code == 403 || code == 404 || code
            == 500 {
            code
        } else {
            500
        },
{
}

/// The decimal digit `d`.
pub open spec fn digit(d: int) -> char {
    if d == 0 {
        '0'
    } else if d == 1 {
        '1'
    } else if d == 2 {
        '2'
    } else if d == 3 {
        '3'
    } else if d == 4 {
        '4'
    } else if d == 5 {
        '5'
    } else if d == 6 {
        '6'
    } else if d == 7 {
        '7'
    } else if d == 8 {
        '8'
    } else {
        '9'
    }
}

/// The decimal digits of `n`, most significant first, without leading zeros.
pub open spec fn digits_of(n: nat) -> Seq<char>
    decreases n,
{
    if n < 10 {
        seq![digit(n as int)]
    } else {
        digits_of(n / 10).push(digit((n % 10) as int))
    }
}

/// The decimal text of an integer, with a leading minus sign when negative.
pub open spec fn decimal(x: int) -> Seq<char> {
    if x < 0 {
        seq!['-'] + digits_of((-x) as nat)
    } else {
        digits_of(x as nat)
    }
}

fn digit_char(d: u64) -> (c: char)
    requires
        d < 10,
    ensures
        c == digit(d as int),
{
    if d == 0 {
        '0'
    } else if d == 1 {
        '1'
    } else if d == 2 {
        '2'
    } else if d == 3 {
        '3'
    } else if d == 4 {
        '4'
    } else if d == 5 {
        '5'
    } else if d == 6 {
        '6'
    } else if d == 7 {
        '7'
    } else if d == 8 {
        '8'
    } else {
        '9'
    }
}

fn digits_exec(n: u64) -> (s: String)
    ensures
        s@ == digits_of(n as nat),
    decreases n,
{
    if n < 10 {
        let mut s = String::new();
        push_char(&mut s, digit_char(n));
        assert(s@ =~= seq![digit(n as int)]);
        s
    } else {
        let mut s = digits_exec(n / 10);
        push_char(&mut s, digit_char(n % 10));
        s
    }
}

/// The decimal text of `x`.
pub fn i64_to_decimal(x: i64) -> (s: String)
    ensures
        s@ == decimal(x as int),
{
    if x < 0 {
        let mag: u64 = (-(x as i128)) as u64;
        let d = digits_exec(mag);
        let mut s = String::new();
        push_char(&mut s, '-');
        crate::audio::append_string(&mut s, &d);
        assert(s@ =~= seq!['-'] + digits_of((-(x as int)) as nat));
        s
    } else {
        digits_exec(x as u64)
    }
}

/// The JSON text of an API answer: an object with the code and, as `result`,
/// the body's JSON text.
pub open spec fn envelope(code: i64, body: Seq<char>) -> Seq<char> {
    "{\"code\":"@ + decimal(code as int) + ",\"result\":"@ + body + "}"@
}

/// Frames the JSON text of a body into the answer object `{"code":..,"result":..}`.
pub fn response_envelope(code: i64, body_json: &str) -> (s: String)
    ensures
        s@ == envelope(code, body_json@),
{
    let mut s = String::new();
    append_str(&mut s, "{\"code\":");
    let d = i64_to_decimal(code);
    crate::audio::append_string(&mut s, &d);
    append_str(&mut s, ",\"result\":");
    append_str(&mut s, body_json);
    append_str(&mut s, "}");
    s
}

/// A failed request, as the answer is made from it: the API error it carries,
/// where it carries one, and the text it displays.
pub struct ResponseError {
    pub error: Option<ApiError>,
    pub message: String,
}

/// The status a failed request is answered with: that of the API error it
/// carries, 500 where it carries none.
pub open spec fn response_status(e: Option<ApiError>) -> u16 {
    match e {
        Some(a) => status_of(a),
        None => 500,
    }
}

impl ResponseError {
    /// The status the failure is answered with.
    pub fn status_code(&self) -> (s: u16)
        ensures
            s == response_status(self.error),
    {
        match &self.error {
            Some(a) => a.status_code(),
            None => 500,
        }
    }

    /// The HTTP answer: the status, and the displayed text for body.
    pub fn into_response(self) -> (r: (u16, String))
        ensures
            r.0 == response_status(self.error),
            r.1@ == self.message@,
    {
        let s = self.status_code();
        (s, self.message)
    }
}

/// The failure for an answer code and the JSON text of its body: it carries
/// the error the code stands for, and displays the answer object
/// `{"code":..,"result":..}`.
pub fn into_response(code: i64, body_json: &str) -> (r: ResponseError)
    ensures
        r.error == Some(error_for_code(code)),
        r.message@ == envelope(code, body_json@),
{
    ResponseError { error: Some(api_error_from_code(code)), message: response_envelope(code, body_json) }
}

/// What a refused request is answered: a failure made from an answer code
/// goes out with the status that code names (400, 403, 404 and 500 as they
/// are, every other code as 500); a failure that carries no API error goes
/// out as 500.
pub proof fn law_refusal_status(code: i64)
    ensures
        response_status(Some(error_for_code(code))) == if code == 400 || code == 403 || code == 404
            || code == 500 {
            code
        } else {
            500
        },
        response_status(None) == 500,
{
}

} // verus!
