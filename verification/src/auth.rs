use vstd::prelude::*;

use crate::requests::text_of;

verus! {

/// The claims of an access token.
pub struct Claims {
    pub sub: String,
    pub company: String,
    pub exp: usize,
}

/// Why a token could not be decoded, as far as the answer tells it apart.
#[derive(Debug, Clone, Copy, PartialEq, Eq, Structural)]
pub enum TokenError {
    InvalidToken,
    InvalidIssuer,
    Other,
}

/// The message a decoding failure is reported with.
pub open spec fn token_error_message(e: TokenError) -> Seq<char> {
    match e {
        TokenError::InvalidToken => "Token is invalid"@,
        TokenError::InvalidIssuer => "Issuer is invalid"@,
        TokenError::Other => "Some other errors"@,
    }
}

/// The user a decoded token speaks for: the subject of its claims, which must
/// not be empty; a decoding failure is reported by its kind.
pub open spec fn token_user_spec(decoded: Result<Claims, TokenError>) -> Result<Seq<char>, Seq<char>> {
    match decoded {
        Err(e) => Err(token_error_message(e)),
        Ok(c) => if c.sub@.len() == 0 {
            Err("User id is empty"@)
        } else {
            Ok(c.sub@)
        },
    }
}

/// The user a decoded token speaks for, before the token is checked with the
/// authentication service.
pub fn token_user(decoded: Result<Claims, TokenError>) -> (r: Result<String, String>)
    ensures
        match r {
            Ok(u) => token_user_spec(decoded) == Ok::<Seq<char>, Seq<char>>(u@),
            Err(m) => token_user_spec(decoded) == Err::<Seq<char>, Seq<char>>(m@),
        },
{
    match decoded {
        Err(TokenError::InvalidToken) => Err(text_of("Token is invalid")),
        Err(TokenError::InvalidIssuer) => Err(text_of("Issuer is invalid")),
        Err(TokenError::Other) => Err(text_of("Some other errors")),
        Ok(c) => {
            if c.sub.as_str().is_empty() {
                Err(text_of("User id is empty"))
            } else {
                Ok(c.sub)
            }
        },
    }
}

/// The authentication service's answer to a token check: the role it grants
/// where the status is `success`, and `Authentication failed` otherwise.
pub fn token_check_result(status: &str, role: String) -> (r: Result<String, String>)
    ensures
        status@ == "success"@ ==> r == Ok::<String, String>(role),
        status@ != "success"@ ==> (r matches Err(m) && m@ == "Authentication failed"@),
{
    if crate::server::str_equal(status, "success") {
        Ok(role)
    } else {
        Err(text_of("Authentication failed"))
    }
}

} // verus!
