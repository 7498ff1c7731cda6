use vstd::prelude::*;

use crate::text::append_str;

verus! {

/// A string holding `s`.
pub fn text_of(s: &str) -> (r: String)
    ensures
        r@ == s@,
{
    let mut r = String::new();
    append_str(&mut r, s);
    r
}

/// `r` is the error with message `msg`.
pub open spec fn is_err_with<T>(r: Result<T, String>, msg: Seq<char>) -> bool {
    match r {
        Err(m) => m@ == msg,
        Ok(_) => false,
    }
}

/// A batch of names to speak in the voice of a template recording.
pub struct BatchUploadParam {
    pub template_region: String,
    pub template_bucket: String,
    pub template_key: String,
    pub output_region: String,
    pub output_bucket: String,
    pub transcripts: Vec<String>,
}

/// A template and audio assets to clean up.
pub struct AudioProcessInfo {
    pub template_region: String,
    pub template_bucket: String,
    pub template_key: String,
    pub audio_region: String,
    pub audio_bucket: String,
    pub audio_assets: Vec<String>,
    pub denoise: bool,
    pub amplitude_equalize: bool,
    pub silence_removal: bool,
    pub output_region: String,
    pub output_bucket: String,
}

/// A recording whose pauses are wanted.
pub struct AudioPauseInfo {
    pub audio_region: String,
    pub audio_bucket: String,
    pub audio_key: String,
}

/// A crowd worker.
pub struct MturkIdInfo {
    pub mturk_id: String,
}

/// A crowd worker's recording of a transcript, to be checked.
pub struct MturkProcessInfo {
    pub mturk_id: String,
    pub transcript: String,
    pub transcript_id: String,
    pub file_path: String,
    pub duration: String,
    pub s3_bucket: String,
    pub s3_key: String,
}

/// A crowd worker's recording being uploaded.
pub struct MturkUploadInfo {
    pub mturk_id: String,
    pub transcript: String,
    pub transcript_id: String,
}

/// A stored recording.
pub struct ExtractInfo {
    pub region: String,
    pub bucket: String,
    pub key: String,
}

/// A row of the transcripts sheet.
pub struct TranscriptCsvInfo {
    pub s3_links: String,
    pub names: String,
    pub created: String,
    pub done: String,
    pub modified: String,
}

/// Checks a cleanup request: the template's bucket, key and region must all
/// be given. Answers whether only the template video is to be denoised (denoise
/// asked, silence removal and amplitude equalising not).
pub fn check_process_audio(p: &AudioProcessInfo) -> (r: Result<bool, String>)
    ensures
        (p.template_bucket@.len() == 0 || p.template_key@.len() == 0 || p.template_region@.len()
            == 0) ==> is_err_with(r, "template must be existed!"@),
        !(p.template_bucket@.len() == 0 || p.template_key@.len() == 0
            || p.template_region@.len() == 0) ==> r == Ok::<bool, String>(
            p.denoise && !p.silence_removal && !p.amplitude_equalize,
        ),
{
    if p.template_bucket.as_str().is_empty() || p.template_key.as_str().is_empty()
        || p.template_region.as_str().is_empty() {
        return Err(text_of("template must be existed!"));
    }
    Ok(p.denoise && !p.silence_removal && !p.amplitude_equalize)
}

/// Checks a pause request: the bucket, then the key, must be given.
pub fn check_pause_request(p: &AudioPauseInfo) -> (r: Result<(), String>)
    ensures
        p.audio_bucket@.len() == 0 ==> is_err_with(r, "audio bucket is empty!"@),
        p.audio_bucket@.len() != 0 && p.audio_key@.len() == 0 ==> is_err_with(r, "audio key is empty!"@),
        p.audio_bucket@.len() != 0 && p.audio_key@.len() != 0 ==> r is Ok,
{
    if p.audio_bucket.as_str().is_empty() {
        return Err(text_of("audio bucket is empty!"));
    }
    if p.audio_key.as_str().is_empty() {
        return Err(text_of("audio key is empty!"));
    }
    Ok(())
}

/// Checks a batch for the name generator: the template's bucket, then its key,
/// then at least one name.
pub fn check_batch_request(p: &BatchUploadParam) -> (r: Result<(), String>)
    ensures
        p.template_bucket@.len() == 0 ==> is_err_with(r, "template bucket is empty!"@),
        p.template_bucket@.len() != 0 && p.template_key@.len() == 0 ==> is_err_with(r, "template key is empty!"@),
        p.template_bucket@.len() != 0 && p.template_key@.len() != 0 && p.transcripts.len() == 0
            ==> is_err_with(r, "transcripts are empty!"@),
        p.template_bucket@.len() != 0 && p.template_key@.len() != 0 && p.transcripts.len() != 0
            ==> r is Ok,
{
    if p.template_bucket.as_str().is_empty() {
        return Err(text_of("template bucket is empty!"));
    }
    if p.template_key.as_str().is_empty() {
        return Err(text_of("template key is empty!"));
    }
    if p.transcripts.len() == 0 {
        return Err(text_of("transcripts are empty!"));
    }
    Ok(())
}

/// Checks a batch for the voice-cloning generator: the template's region comes
/// first, then the checks of [`check_batch_request`].
pub fn check_huggingface_request(p: &BatchUploadParam) -> (r: Result<(), String>)
    ensures
        p.template_region@.len() == 0 ==> is_err_with(r, "template region is empty!"@),
        p.template_region@.len() != 0 && p.template_bucket@.len() == 0 ==> is_err_with(r, "template bucket is empty!"@),
        p.template_region@.len() != 0 && p.template_bucket@.len() != 0 && p.template_key@.len()
            == 0 ==> is_err_with(r, "template key is empty!"@),
        p.template_region@.len() != 0 && p.template_bucket@.len() != 0 && p.template_key@.len()
            != 0 && p.transcripts.len() == 0 ==> is_err_with(r, "transcripts are empty!"@),
        p.template_region@.len() != 0 && p.template_bucket@.len() != 0 && p.template_key@.len()
            != 0 && p.transcripts.len() != 0 ==> r is Ok,
{
    if p.template_region.as_str().is_empty() {
        return Err(text_of("template region is empty!"));
    }
    check_batch_request(p)
}

/// Checks that a worker id is given.
pub fn check_mturk_id(p: &MturkIdInfo) -> (r: Result<(), String>)
    ensures
        p.mturk_id@.len() == 0 ==> is_err_with(r, "mturk_id is empty!"@),
        p.mturk_id@.len() != 0 ==> r is Ok,
{
    if p.mturk_id.as_str().is_empty() {
        return Err(text_of("mturk_id is empty!"));
    }
    Ok(())
}

/// Checks a worker's recording: the worker id, the transcript, its id and the
/// file path must be given, in that order.
pub fn check_mturk_process(p: &MturkProcessInfo) -> (r: Result<(), String>)
    ensures
        p.mturk_id@.len() == 0 ==> is_err_with(r, "mturk_id is empty!"@),
        p.mturk_id@.len() != 0 && p.transcript@.len() == 0 ==> is_err_with(r, "transcript is empty!"@),
        p.mturk_id@.len() != 0 && p.transcript@.len() != 0 && p.transcript_id@.len() == 0
            ==> is_err_with(r, "transcript_id is empty!"@),
        p.mturk_id@.len() != 0 && p.transcript@.len() != 0 && p.transcript_id@.len() != 0
            && p.file_path@.len() == 0 ==> is_err_with(r, "file_path is empty!"@),
        p.mturk_id@.len() != 0 && p.transcript@.len() != 0 && p.transcript_id@.len() != 0
            && p.file_path@.len() != 0 ==> r is Ok,
{
    if p.mturk_id.as_str().is_empty() {
        return Err(text_of("mturk_id is empty!"));
    }
    if p.transcript.as_str().is_empty() {
        return Err(text_of("transcript is empty!"));
    }
    if p.transcript_id.as_str().is_empty() {
        return Err(text_of("transcript_id is empty!"));
    }
    if p.file_path.as_str().is_empty() {
        return Err(text_of("file_path is empty!"));
    }
    Ok(())
}


/// Where a worker's recording stands.
#[derive(Debug, Clone, Copy, PartialEq, Eq, Structural)]
pub enum MturkStatus {
    Success,
    Pending,
    Failed,
}

/// How a status is stored: `0` success, `1` failed, `2` pending.
pub open spec fn mturk_status_code(s: MturkStatus) -> Seq<char> {
    match s {
        MturkStatus::Success => "0"@,
        MturkStatus::Failed => "1"@,
        MturkStatus::Pending => "2"@,
    }
}

impl MturkStatus {
    /// How the status is stored.
    pub fn code(&self) -> (r: String)
        ensures
            r@ == mturk_status_code(*self),
    {
        match self {
            MturkStatus::Success => text_of("0"),
            MturkStatus::Failed => text_of("1"),
            MturkStatus::Pending => text_of("2"),
        }
    }
}

/// The answers to a worker's recording.
#[derive(Debug, Clone, Copy, PartialEq, Eq, Structural)]
pub enum MturkReply {
    MediaInvalid,
    MediaNotSupported,
    TranscriptNotMatched,
    Processed,
    DownloadFailed,
}

/// The text of an answer.
pub open spec fn mturk_reply_text(r: MturkReply) -> Seq<char> {
    match r {
        MturkReply::MediaInvalid => "media is invalid!"@,
        MturkReply::MediaNotSupported => "media not supported!"@,
        MturkReply::TranscriptNotMatched => "trancript is not matched!"@,
        MturkReply::Processed => "succeed to process!"@,
        MturkReply::DownloadFailed => "downloading is failed."@,
    }
}

impl MturkReply {
    /// Whether the answer reports an error (under `error`, with code 400) or
    /// success (under `success`, with code 200).
    pub fn is_error(&self) -> (b: bool)
        ensures
            b == (*self != MturkReply::Processed),
    {
        match self {
            MturkReply::Processed => false,
            _ => true,
        }
    }

    /// The answer's code: 200 for success, 400 for errors.
    pub fn http_code(&self) -> (c: i64)
        ensures
            c == if *self == MturkReply::Processed {
                200i64
            } else {
                400i64
            },
    {
        match self {
            MturkReply::Processed => 200,
            _ => 400,
        }
    }

    /// The answer's text.
    pub fn text(&self) -> (t: String)
        ensures
            t@ == mturk_reply_text(*self),
    {
        match self {
            MturkReply::MediaInvalid => text_of("media is invalid!"),
            MturkReply::MediaNotSupported => text_of("media not supported!"),
            MturkReply::TranscriptNotMatched => text_of("trancript is not matched!"),
            MturkReply::Processed => text_of("succeed to process!"),
            MturkReply::DownloadFailed => text_of("downloading is failed."),
        }
    }
}

/// Where the check of a worker's recording has got to.
#[derive(Debug, Clone, Copy, PartialEq, Eq, Structural)]
pub enum MturkStage {
    AwaitRecognition,
    AwaitSimilarity,
    AwaitDownload,
    Finished,
}

/// What the outside world reports back to the check.
pub enum MturkEvent {
    /// The recogniser's answer: whether it was empty, and the transcript it
    /// holds (empty where it could not be read).
    Recognition { response_empty: bool, transcript: String },
    /// The aligner's answer: whether it was empty, whether its transcript was
    /// empty, and whether every alignment scored at least one half.
    Similarity { response_empty: bool, transcript_empty: bool, all_aligned: bool },
    /// Whether the recording was downloaded and registered.
    Download { ok: bool },
}

/// What the check asks for next.
#[derive(Debug, Clone, Copy, PartialEq, Eq, Structural)]
pub enum MturkAction {
    /// Ask the aligner how well the recording follows the expected transcript.
    CheckSimilarity,
    /// Download and register the recording.
    Download,
    /// Record the status and answer.
    Respond { status: MturkStatus, reply: MturkReply },
}

/// One step of the check of a worker's recording of `expected`: an empty or
/// unreadable recognition fails; a recognised transcript that matches goes to
/// the download, one that does not goes to the aligner; an empty or unreadable
/// alignment, or one scored below one half anywhere, fails; a download
/// succeeds or fails. An event that does not fit the stage changes nothing.
pub open spec fn mturk_step_spec(expected: Seq<char>, stage: MturkStage, event: MturkEvent) -> (MturkStage, Option<MturkAction>) {
    let fail = |reply: MturkReply|
        (MturkStage::Finished, Some(MturkAction::Respond { status: MturkStatus::Failed, reply }));
    match (stage, event) {
        (MturkStage::AwaitRecognition, MturkEvent::Recognition { response_empty, transcript }) => {
            if response_empty {
                fail(MturkReply::MediaInvalid)
            } else if transcript@.len() == 0 {
                fail(MturkReply::MediaNotSupported)
            } else if crate::text::transcript_matches_spec(transcript@, expected) {
                (MturkStage::AwaitDownload, Some(MturkAction::Download))
            } else {
                (MturkStage::AwaitSimilarity, Some(MturkAction::CheckSimilarity))
            }
        },
        (
            MturkStage::AwaitSimilarity,
            MturkEvent::Similarity { response_empty, transcript_empty, all_aligned },
        ) => {
            if response_empty {
                fail(MturkReply::TranscriptNotMatched)
            } else if transcript_empty {
                fail(MturkReply::MediaNotSupported)
            } else if !all_aligned {
                fail(MturkReply::TranscriptNotMatched)
            } else {
                (MturkStage::AwaitDownload, Some(MturkAction::Download))
            }
        },
        (MturkStage::AwaitDownload, MturkEvent::Download { ok }) => {
            if ok {
                (
                    MturkStage::Finished,
                    Some(
                        MturkAction::Respond {
                            status: MturkStatus::Success,
                            reply: MturkReply::Processed,
                        },
                    ),
                )
            } else {
                fail(MturkReply::DownloadFailed)
            }
        },
        _ => (stage, None),
    }
}

/// One step of the check of a worker's recording of `expected`.
pub fn mturk_step(expected: &str, stage: MturkStage, event: MturkEvent) -> (r: (MturkStage, Option<MturkAction>))
    ensures
        r == mturk_step_spec(expected@, stage, event),
{
    let failed = MturkStage::Finished;
    match (stage, event) {
        (MturkStage::AwaitRecognition, MturkEvent::Recognition { response_empty, transcript }) => {
            if response_empty {
                (failed, Some(MturkAction::Respond { status: MturkStatus::Failed, reply: MturkReply::MediaInvalid }))
            } else if transcript.as_str().is_empty() {
                (failed, Some(MturkAction::Respond { status: MturkStatus::Failed, reply: MturkReply::MediaNotSupported }))
            } else if crate::text::transcript_matches(transcript.as_str(), expected) {
                (MturkStage::AwaitDownload, Some(MturkAction::Download))
            } else {
                (MturkStage::AwaitSimilarity, Some(MturkAction::CheckSimilarity))
            }
        },
        (
            MturkStage::AwaitSimilarity,
            MturkEvent::Similarity { response_empty, transcript_empty, all_aligned },
        ) => {
            if response_empty {
                (failed, Some(MturkAction::Respond { status: MturkStatus::Failed, reply: MturkReply::TranscriptNotMatched }))
            } else if transcript_empty {
                (failed, Some(MturkAction::Respond { status: MturkStatus::Failed, reply: MturkReply::MediaNotSupported }))
            } else if !all_aligned {
                (failed, Some(MturkAction::Respond { status: MturkStatus::Failed, reply: MturkReply::TranscriptNotMatched }))
            } else {
                (MturkStage::AwaitDownload, Some(MturkAction::Download))
            }
        },
        (MturkStage::AwaitDownload, MturkEvent::Download { ok }) => {
            if ok {
                (
                    MturkStage::Finished,
                    Some(MturkAction::Respond { status: MturkStatus::Success, reply: MturkReply::Processed }),
                )
            } else {
                (failed, Some(MturkAction::Respond { status: MturkStatus::Failed, reply: MturkReply::DownloadFailed }))
            }
        },
        _ => (stage, None),
    }
}

/// The event is a readable recognition whose transcript matches `expected`.
pub open spec fn recognised_match(event: MturkEvent, expected: Seq<char>) -> bool {
    match event {
        MturkEvent::Recognition { response_empty, transcript } => !response_empty && transcript@.len()
            != 0 && crate::text::transcript_matches_spec(transcript@, expected),
        _ => false,
    }
}

/// A recording is accepted only at the download stage, once the download
/// succeeded; the download stage is reached only from a recognised transcript
/// that matches or from an alignment that is present, readable and scored at
/// least one half everywhere; once finished, nothing changes.
pub proof fn law_mturk_acceptance(expected: Seq<char>, stage: MturkStage, event: MturkEvent)
    ensures
        ({
            let (next, action) = mturk_step_spec(expected, stage, event);
            &&& (action == Some(MturkAction::Respond { status: MturkStatus::Success, reply: MturkReply::Processed }))
                <==> (stage == MturkStage::AwaitDownload && event == MturkEvent::Download { ok: true })
            &&& (next == MturkStage::AwaitDownload && stage != MturkStage::AwaitDownload) ==> (
                (stage == MturkStage::AwaitRecognition && recognised_match(event, expected))
                || (stage == MturkStage::AwaitSimilarity && event == MturkEvent::Similarity {
                    response_empty: false,
                    transcript_empty: false,
                    all_aligned: true,
                }))
            &&& stage == MturkStage::Finished ==> next == MturkStage::Finished && action is None
        }),
{
}

/// A worker signing in.
pub struct MturkLoginInfo {
    pub mturk_id: String,
    pub password: String,
}

/// A worker opening an account.
pub struct MturkSignupInfo {
    pub mturk_id: String,
    pub password: String,
    pub paypal: String,
}

/// A worker's new PayPal address.
pub struct MturkPaypalInfo {
    pub mturk_id: String,
    pub paypal: String,
}

/// A payment to add to a worker's total.
pub struct MturkPaymentInfo {
    pub mturk_id: String,
    pub payment_amount: i64,
}

/// The answers to a worker's account requests.
#[derive(Debug, Clone, Copy, PartialEq, Eq, Structural)]
pub enum AccountReply {
    LoggedIn,
    LoginInvalid,
    IdTaken,
    SignedUp,
    SignupFailed,
    Updated,
    UserMissing,
    UserInfoMissing,
}

/// The text of an account answer.
pub open spec fn account_reply_text(r: AccountReply) -> Seq<char> {
    match r {
        AccountReply::LoggedIn => "sccuess"@,
        AccountReply::LoginInvalid => "mturk id or password is invalid!"@,
        AccountReply::IdTaken => "mturk id is already existed!"@,
        AccountReply::SignedUp => "success"@,
        AccountReply::SignupFailed => "failed to signup."@,
        AccountReply::Updated => "success"@,
        AccountReply::UserMissing => "mturk user isn't existed!."@,
        AccountReply::UserInfoMissing => "failed to get mturk user info."@,
    }
}

/// The account answers that report success.
pub open spec fn account_reply_ok(r: AccountReply) -> bool {
    r == AccountReply::LoggedIn || r == AccountReply::SignedUp || r == AccountReply::Updated
}

impl AccountReply {
    /// Whether the answer reports an error (under `error`, with code 400) or
    /// success (under `status`, with code 200).
    pub fn is_error(&self) -> (b: bool)
        ensures
            b == !account_reply_ok(*self),
    {
        match self {
            AccountReply::LoggedIn | AccountReply::SignedUp | AccountReply::Updated => false,
            _ => true,
        }
    }

    /// The answer's code: 200 for success, 400 for errors.
    pub fn http_code(&self) -> (c: i64)
        ensures
            c == if account_reply_ok(*self) {
                200i64
            } else {
                400i64
            },
    {
        if self.is_error() {
            400
        } else {
            200
        }
    }

    /// The answer's text.
    pub fn text(&self) -> (t: String)
        ensures
            t@ == account_reply_text(*self),
    {
        match self {
            AccountReply::LoggedIn => text_of("sccuess"),
            AccountReply::LoginInvalid => text_of("mturk id or password is invalid!"),
            AccountReply::IdTaken => text_of("mturk id is already existed!"),
            AccountReply::SignedUp => text_of("success"),
            AccountReply::SignupFailed => text_of("failed to signup."),
            AccountReply::Updated => text_of("success"),
            AccountReply::UserMissing => text_of("mturk user isn't existed!."),
            AccountReply::UserInfoMissing => text_of("failed to get mturk user info."),
        }
    }
}

/// The answer to a sign-in: it succeeds only where a worker with that id and
/// password was found.
pub fn login_reply(user_found: bool) -> (r: AccountReply)
    ensures
        r == if user_found {
            AccountReply::LoggedIn
        } else {
            AccountReply::LoginInvalid
        },
{
    if user_found {
        AccountReply::LoggedIn
    } else {
        AccountReply::LoginInvalid
    }
}

/// Whether a new account is to be created: only for an id that no worker has.
pub fn signup_should_create(id_taken: bool) -> (b: bool)
    ensures
        b == !id_taken,
{
    !id_taken
}

/// The answer to a sign-up: an id already held is refused whatever else
/// happened; otherwise it succeeds where the account was created.
pub fn signup_reply(id_taken: bool, created: bool) -> (r: AccountReply)
    ensures
        r == if id_taken {
            AccountReply::IdTaken
        } else if created {
            AccountReply::SignedUp
        } else {
            AccountReply::SignupFailed
        },
{
    if id_taken {
        AccountReply::IdTaken
    } else if created {
        AccountReply::SignedUp
    } else {
        AccountReply::SignupFailed
    }
}

/// The answer to a change of an existing worker's details (PayPal address or
/// payment): done where the worker exists, refused otherwise.
pub fn update_reply(user_found: bool) -> (r: AccountReply)
    ensures
        r == if user_found {
            AccountReply::Updated
        } else {
            AccountReply::UserMissing
        },
{
    if user_found {
        AccountReply::Updated
    } else {
        AccountReply::UserMissing
    }
}

/// The worker's new payment total: the stored total plus the payment, for a
/// worker that exists; a missing worker is refused.
pub fn payment_total(current_total: Option<i64>, payment_amount: i64) -> (r: Result<i64, AccountReply>)
    requires
        current_total matches Some(t) ==> i64::MIN <= t + payment_amount <= i64::MAX,
    ensures
        match current_total {
            Some(t) => r == Ok::<i64, AccountReply>((t + payment_amount) as i64),
            None => r == Err::<i64, AccountReply>(AccountReply::UserMissing),
        },
{
    match current_total {
        Some(t) => Ok(t + payment_amount),
        None => Err(AccountReply::UserMissing),
    }
}

/// What the lip-sync model is run on: the model file, the template video, the
/// audio to speak and where the result goes.
pub struct LipsyncInputInfo {
    pub model: String,
    pub video: String,
    pub audio: String,
    pub output: String,
}

/// A template video and audio assets to lip-sync it to.
pub struct LipsyncInfo {
    pub template_region: String,
    pub template_bucket: String,
    pub template_key: String,
    pub audio_region: String,
    pub audio_bucket: String,
    pub audio_assets: Vec<String>,
    pub output_region: String,
    pub output_bucket: String,
}

/// The lip-sync run for a video and an audio file: always with the
/// `wav2lip.pth` model.
pub fn lipsync_input(video: String, audio: String, output: String) -> (r: LipsyncInputInfo)
    ensures
        r.model@ == "wav2lip.pth"@,
        r.video == video,
        r.audio == audio,
        r.output == output,
{
    LipsyncInputInfo { model: text_of("wav2lip.pth"), video, audio, output }
}

/// What the `csv` crate reads from a file's bytes with its default settings
/// and no header row set apart: every record with its fields, in order, or
/// `None` where reading fails (text that is not UTF-8, or a record whose field
/// count differs from the first record's).
pub uninterp spec fn csv_records_of(bytes: Seq<u8>) -> Option<Seq<Seq<Seq<char>>>>;

/// The records read, each as the views of its fields.
pub open spec fn record_views(r: Option<Vec<Vec<String>>>) -> Option<Seq<Seq<Seq<char>>>> {
    match r {
        Some(v) => Some(v@.map_values(|rec: Vec<String>| crate::text::views(rec@))),
        None => None,
    }
}

/// Reads the records of CSV bytes with `csv::ReaderBuilder` (header row not
/// set apart) and its `records` iterator, each field copied into a `String`.
/// The contract names the result `csv_records_of(bytes@)` and says nothing
/// else of it.
#[verifier::external_body]
fn csv_records(bytes: &Vec<u8>) -> (r: Option<Vec<Vec<String>>>)
    ensures
        record_views(r) == csv_records_of(bytes@),
{
    let mut rdr = csv::ReaderBuilder::new().has_headers(false).from_reader(bytes.as_slice());
    rdr.records()
        .map(|rec| rec.map(|fields| fields.iter().map(|f| f.to_string()).collect::<Vec<String>>()))
        .collect::<Result<Vec<Vec<String>>, csv::Error>>()
        .ok()
}

/// A row of the transcripts sheet as plain values.
pub open spec fn csv_info_view(t: TranscriptCsvInfo) -> (Seq<char>, Seq<char>, Seq<char>, Seq<char>, Seq<char>) {
    (t.s3_links@, t.names@, t.created@, t.done@, t.modified@)
}

/// The records after the header row (none where there is no record at all).
pub open spec fn after_header(rs: Seq<Seq<Seq<char>>>) -> Seq<Seq<Seq<char>>> {
    if rs.len() == 0 {
        Seq::empty()
    } else {
        rs.skip(1)
    }
}

/// The rows of the transcripts sheet from its records: the records after the
/// header, each as its first five fields; `None` where reading failed or a
/// record after the header has fewer than five fields.
pub open spec fn transcript_rows_spec(recs: Option<Seq<Seq<Seq<char>>>>) -> Option<
    Seq<(Seq<char>, Seq<char>, Seq<char>, Seq<char>, Seq<char>)>,
> {
    match recs {
        None => None,
        Some(rs) => {
            let body = after_header(rs);
            if forall|k: int| 0 <= k < body.len() ==> #[trigger] body[k].len() >= 5 {
                Some(body.map_values(|f: Seq<Seq<char>>| (f[0], f[1], f[2], f[3], f[4])))
            } else {
                None
            }
        },
    }
}

/// The rows of the transcripts sheet in the bytes of its CSV file.
pub fn transcript_rows(csv_bytes: &Vec<u8>) -> (r: Option<Vec<TranscriptCsvInfo>>)
    ensures
        match r {
            Some(v) => transcript_rows_spec(csv_records_of(csv_bytes@)) == Some(
                v@.map_values(|t: TranscriptCsvInfo| csv_info_view(t)),
            ),
            None => transcript_rows_spec(csv_records_of(csv_bytes@)) is None,
        },
{
    let recs = match csv_records(csv_bytes) {
        Some(v) => v,
        None => return None,
    };
    let ghost rs = recs@.map_values(|rec: Vec<String>| crate::text::views(rec@));
    assert(record_views(Some(recs)) == Some(rs));
    if recs.len() == 0 {
        let out: Vec<TranscriptCsvInfo> = Vec::new();
        assert(out@.map_values(|t: TranscriptCsvInfo| csv_info_view(t)) =~= Seq::empty());
        assert(Seq::<Seq<Seq<char>>>::empty().map_values(|f: Seq<Seq<char>>| (f[0], f[1], f[2], f[3], f[4])) =~= Seq::empty());
        return Some(out);
    }
    let ghost body = after_header(rs);
    let mut out: Vec<TranscriptCsvInfo> = Vec::new();
    let mut i: usize = 1;
    while i < recs.len()
        invariant
            1 <= i <= recs.len(),
            rs == recs@.map_values(|rec: Vec<String>| crate::text::views(rec@)),
            body == after_header(rs),
            csv_records_of(csv_bytes@) == Some(rs),
            out.len() == i - 1,
            forall|k: int| 0 <= k < i - 1 ==> #[trigger] body[k].len() >= 5,
            out@.map_values(|t: TranscriptCsvInfo| csv_info_view(t)) =~= body.take(i - 1).map_values(
                |f: Seq<Seq<char>>| (f[0], f[1], f[2], f[3], f[4]),
            ),
        decreases recs.len() - i,
    {
        let rec = &recs[i];
        assert(body[i - 1] == crate::text::views(rec@));
        if rec.len() < 5 {
            assert(body[i - 1].len() < 5);
            assert(csv_records_of(csv_bytes@) == Some(rs));
            return None;
        }
        let row = TranscriptCsvInfo {
            s3_links: rec[0].clone(),
            names: rec[1].clone(),
            created: rec[2].clone(),
            done: rec[3].clone(),
            modified: rec[4].clone(),
        };
        out.push(row);
        assert(body.take(i as int).map_values(|f: Seq<Seq<char>>| (f[0], f[1], f[2], f[3], f[4])) =~= body.take(i - 1).map_values(
            |f: Seq<Seq<char>>| (f[0], f[1], f[2], f[3], f[4]),
        ).push((body[i - 1][0], body[i - 1][1], body[i - 1][2], body[i - 1][3], body[i - 1][4])));
        i = i + 1;
    }
    assert(body.take(recs.len() - 1) =~= body);
    Some(out)
}

/// Where the handling of one audio asset of a batch has got to.
#[derive(Debug, Clone, Copy, PartialEq, Eq, Structural)]
pub enum AssetStage {
    AwaitDownload,
    AwaitProcessing,
    AwaitUpload,
    Done,
}

/// What the outside world reports back while an asset is handled.
pub enum AssetEvent {
    /// Whether the downloaded file is missing or empty.
    Downloaded { empty: bool },
    /// Whether the processing (cleanup, or the lip-sync run) succeeded.
    Processed { ok: bool },
    /// The key the result was uploaded under (empty where the upload failed).
    Uploaded { key: String },
}

/// What the handling of an asset asks for next.
pub enum AssetAction {
    /// Process the downloaded file.
    Process,
    /// Upload the result.
    Upload,
    /// Record the asset as failed (an empty path).
    Fail,
    /// Record the asset under this key.
    Record { key: String },
}

/// One step of the handling of an asset: an empty download or a failed
/// processing records it as failed; otherwise the result is uploaded and the
/// key it went to is recorded. An event that does not fit the stage changes
/// nothing.
pub open spec fn asset_step_spec(stage: AssetStage, event: AssetEvent) -> (AssetStage, Option<AssetAction>) {
    match (stage, event) {
        (AssetStage::AwaitDownload, AssetEvent::Downloaded { empty }) => if empty {
            (AssetStage::Done, Some(AssetAction::Fail))
        } else {
            (AssetStage::AwaitProcessing, Some(AssetAction::Process))
        },
        (AssetStage::AwaitProcessing, AssetEvent::Processed { ok }) => if ok {
            (AssetStage::AwaitUpload, Some(AssetAction::Upload))
        } else {
            (AssetStage::Done, Some(AssetAction::Fail))
        },
        (AssetStage::AwaitUpload, AssetEvent::Uploaded { key }) => (
            AssetStage::Done,
            Some(AssetAction::Record { key }),
        ),
        _ => (stage, None),
    }
}

/// One step of the handling of an asset of a batch.
pub fn asset_step(stage: AssetStage, event: AssetEvent) -> (r: (AssetStage, Option<AssetAction>))
    ensures
        r == asset_step_spec(stage, event),
{
    match (stage, event) {
        (AssetStage::AwaitDownload, AssetEvent::Downloaded { empty }) => if empty {
            (AssetStage::Done, Some(AssetAction::Fail))
        } else {
            (AssetStage::AwaitProcessing, Some(AssetAction::Process))
        },
        (AssetStage::AwaitProcessing, AssetEvent::Processed { ok }) => if ok {
            (AssetStage::AwaitUpload, Some(AssetAction::Upload))
        } else {
            (AssetStage::Done, Some(AssetAction::Fail))
        },
        (AssetStage::AwaitUpload, AssetEvent::Uploaded { key }) => (
            AssetStage::Done,
            Some(AssetAction::Record { key }),
        ),
        _ => (stage, None),
    }
}

/// How far a recording check has got: recognition, then alignment, then
/// download, then finished.
pub open spec fn mturk_stage_rank(s: MturkStage) -> int {
    match s {
        MturkStage::AwaitRecognition => 0,
        MturkStage::AwaitSimilarity => 1,
        MturkStage::AwaitDownload => 2,
        MturkStage::Finished => 3,
    }
}

/// A check that answers finishes, and records `Success` exactly with the
/// `Processed` reply and `Failed` with every error reply; no answer leaves a
/// recording pending. Every step that asks for something moves the check
/// strictly forward, and a step that asks for nothing changes nothing, so a
/// check ends after at most three answered events.
pub proof fn law_mturk_outcome(expected: Seq<char>, stage: MturkStage, event: MturkEvent)
    ensures
        ({
            let (next, action) = mturk_step_spec(expected, stage, event);
            &&& (action matches Some(MturkAction::Respond { status, reply }) ==> {
                &&& next == MturkStage::Finished
                &&& status != MturkStatus::Pending
                &&& (status == MturkStatus::Success <==> reply == MturkReply::Processed)
                &&& (reply != MturkReply::Processed ==> status == MturkStatus::Failed)
            })
            &&& (action is Some ==> mturk_stage_rank(next) > mturk_stage_rank(stage))
            &&& (action is None ==> next == stage)
        }),
{
}

/// How far the handling of an asset has got.
pub open spec fn asset_stage_rank(s: AssetStage) -> int {
    match s {
        AssetStage::AwaitDownload => 0,
        AssetStage::AwaitProcessing => 1,
        AssetStage::AwaitUpload => 2,
        AssetStage::Done => 3,
    }
}

/// Every step of an asset that asks for something moves it strictly
/// forward, and a step that asks for nothing changes nothing; an asset is
/// recorded (failed or under a key) only when it is done, and the key
/// recorded is the one the upload reported.
pub proof fn law_asset_progress(stage: AssetStage, event: AssetEvent)
    ensures
        ({
            let (next, action) = asset_step_spec(stage, event);
            &&& (action is Some ==> asset_stage_rank(next) > asset_stage_rank(stage))
            &&& (action is None ==> next == stage)
            &&& (action matches Some(AssetAction::Fail) ==> next == AssetStage::Done)
            &&& (action matches Some(AssetAction::Record { key }) ==> next == AssetStage::Done && event
                == AssetEvent::Uploaded { key })
        }),
{
}

} // verus!
