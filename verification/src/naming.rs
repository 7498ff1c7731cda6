use vstd::prelude::*;

use crate::audio::append_string;
use crate::text::{append_str, push_char};

verus! {

/// What `base64::encode` gives for the UTF-8 bytes of a text (standard
/// alphabet, with padding).
pub uninterp spec fn base64_text(s: Seq<char>) -> Seq<char>;

/// Calls `base64::encode` on the bytes of `s`. The contract names the result
/// `base64_text(s@)` and says nothing else of it.
#[verifier::external_body]
fn base64_encode(s: &str) -> (r: String)
    ensures
        r@ == base64_text(s@),
{
    base64::encode(s)
}

/// `a/b/c`.
pub open spec fn slash3(a: Seq<char>, b: Seq<char>, c: Seq<char>) -> Seq<char> {
    a + seq!['/'] + b + seq!['/'] + c
}

fn join3(a: &String, b: &String, c: &String) -> (r: String)
    ensures
        r@ == slash3(a@, b@, c@),
{
    let mut r = String::new();
    append_string(&mut r, a);
    push_char(&mut r, '/');
    append_string(&mut r, b);
    push_char(&mut r, '/');
    append_string(&mut r, c);
    r
}

/// An object of the storage buckets: its key, and the file name it is served
/// under.
pub struct StorageObject {
    pub key: String,
    pub file_name: String,
}

/// Where a downloaded template is kept locally:
/// `Names/Temp/<base64 of region/bucket/key>.wav`.
pub fn temp_template_path(region: &String, bucket: &String, key: &String) -> (r: String)
    ensures
        r@ == "Names/Temp/"@ + base64_text(slash3(region@, bucket@, key@)) + ".wav"@,
{
    let id = join3(region, bucket, key);
    let enc = base64_encode(id.as_str());
    let mut r = String::new();
    append_str(&mut r, "Names/Temp/");
    append_string(&mut r, &enc);
    append_str(&mut r, ".wav");
    r
}

/// The processed template stored under `generated_audio/`, named by its source
/// and extension.
pub fn generated_template_object(
    template_region: &String,
    template_bucket: &String,
    template_key: &String,
    extension: &String,
) -> (r: StorageObject)
    ensures
        r.file_name@ == base64_text(slash3(template_region@, template_bucket@, template_key@))
            + seq!['.'] + extension@,
        r.key@ == "generated_audio/"@ + r.file_name@,
{
    let id = join3(template_region, template_bucket, template_key);
    let mut file_name = base64_encode(id.as_str());
    push_char(&mut file_name, '.');
    append_string(&mut file_name, extension);
    let mut key = String::new();
    append_str(&mut key, "generated_audio/");
    append_string(&mut key, &file_name);
    StorageObject { key, file_name }
}

/// `<base64 of template>@<base64 of audio><ext>`.
pub open spec fn pair_name(template: Seq<char>, audio: Seq<char>, ext: Seq<char>) -> Seq<char> {
    base64_text(template) + seq!['@'] + base64_text(audio) + ext
}

fn pair_object(
    folder: &str,
    template: &String,
    audio: &String,
    ext: &str,
) -> (r: StorageObject)
    ensures
        r.file_name@ == pair_name(template@, audio@, ext@),
        r.key@ == folder@ + r.file_name@,
{
    let mut file_name = base64_encode(template.as_str());
    push_char(&mut file_name, '@');
    let enc = base64_encode(audio.as_str());
    append_string(&mut file_name, &enc);
    append_str(&mut file_name, ext);
    let mut key = String::new();
    append_str(&mut key, folder);
    append_string(&mut key, &file_name);
    StorageObject { key, file_name }
}

/// A processed audio asset, stored under `generated_audio/` and named by its
/// template and its source.
pub fn generated_asset_object(
    template_region: &String,
    template_bucket: &String,
    template_key: &String,
    audio_region: &String,
    audio_bucket: &String,
    audio_key: &String,
) -> (r: StorageObject)
    ensures
        r.file_name@ == pair_name(
            slash3(template_region@, template_bucket@, template_key@),
            slash3(audio_region@, audio_bucket@, audio_key@),
            ".wav"@,
        ),
        r.key@ == "generated_audio/"@ + r.file_name@,
{
    let t = join3(template_region, template_bucket, template_key);
    let a = join3(audio_region, audio_bucket, audio_key);
    pair_object("generated_audio/", &t, &a, ".wav")
}

/// A lip-synced video, stored under `generated_video/` and named by its
/// template and its audio.
pub fn generated_video_object(
    template_region: &String,
    template_bucket: &String,
    template_key: &String,
    audio_region: &String,
    audio_bucket: &String,
    audio_key: &String,
) -> (r: StorageObject)
    ensures
        r.file_name@ == pair_name(
            slash3(template_region@, template_bucket@, template_key@),
            slash3(audio_region@, audio_bucket@, audio_key@),
            ".mp4"@,
        ),
        r.key@ == "generated_video/"@ + r.file_name@,
{
    let t = join3(template_region, template_bucket, template_key);
    let a = join3(audio_region, audio_bucket, audio_key);
    pair_object("generated_video/", &t, &a, ".mp4")
}

/// A generated name recording, stored under `generated_audio/` and named by
/// the base64 of its template's source and the name it speaks.
pub fn generated_name_object(template_source: &String, user_key: &String) -> (r: StorageObject)
    ensures
        r.file_name@ == base64_text(template_source@) + seq!['@'] + user_key@ + ".wav"@,
        r.key@ == "generated_audio/"@ + r.file_name@,
{
    let mut file_name = base64_encode(template_source.as_str());
    push_char(&mut file_name, '@');
    append_string(&mut file_name, user_key);
    append_str(&mut file_name, ".wav");
    let mut key = String::new();
    append_str(&mut key, "generated_audio/");
    append_string(&mut key, &file_name);
    StorageObject { key, file_name }
}

/// `bucket/key` (the template source of the batch generator).
pub fn bucket_key(bucket: &String, key: &String) -> (r: String)
    ensures
        r@ == bucket@ + seq!['/'] + key@,
{
    let mut r = bucket.clone();
    push_char(&mut r, '/');
    append_string(&mut r, key);
    r
}

/// `region/bucket/key` (the source of a template or an asset).
pub fn region_bucket_key(region: &String, bucket: &String, key: &String) -> (r: String)
    ensures
        r@ == slash3(region@, bucket@, key@),
{
    join3(region, bucket, key)
}

/// The cached recogniser files of a recording: the `.pcm` and the `.json`
/// under `transcript-cache-1/<bucket>/<key>.wav`.
pub fn whisper_cache_keys(bucket: &String, key: &String) -> (r: (String, String))
    ensures
        r.0@ == "transcript-cache-1/"@ + bucket@ + seq!['/'] + key@ + ".wav"@ + ".pcm"@,
        r.1@ == "transcript-cache-1/"@ + bucket@ + seq!['/'] + key@ + ".wav"@ + ".json"@,
{
    let mut base = String::new();
    append_str(&mut base, "transcript-cache-1/");
    append_string(&mut base, bucket);
    push_char(&mut base, '/');
    append_string(&mut base, key);
    append_str(&mut base, ".wav");
    let mut pcm = base.clone();
    append_str(&mut pcm, ".pcm");
    let mut json = base;
    append_str(&mut json, ".json");
    (pcm, json)
}

/// A worker's recording and its extracted audio, stored under
/// `Names/Mturk/<worker>/`: `<transcript>.webm` and `<transcript>.webm.wav`.
pub fn mturk_upload_objects(mturk_id: &String, transcript: &String) -> (r: (StorageObject, StorageObject))
    ensures
        r.0.file_name@ == transcript@ + ".webm"@,
        r.0.key@ == "Names/Mturk/"@ + mturk_id@ + seq!['/'] + r.0.file_name@,
        r.1.file_name@ == transcript@ + ".webm"@ + ".wav"@,
        r.1.key@ == "Names/Mturk/"@ + mturk_id@ + seq!['/'] + r.1.file_name@,
{
    let mut video_name = transcript.clone();
    append_str(&mut video_name, ".webm");
    let mut audio_name = video_name.clone();
    append_str(&mut audio_name, ".wav");
    let mut folder = String::new();
    append_str(&mut folder, "Names/Mturk/");
    append_string(&mut folder, mturk_id);
    push_char(&mut folder, '/');
    let mut video_key = folder.clone();
    append_string(&mut video_key, &video_name);
    let mut audio_key = folder;
    append_string(&mut audio_key, &audio_name);
    (
        StorageObject { key: video_key, file_name: video_name },
        StorageObject { key: audio_key, file_name: audio_name },
    )
}

/// The public address of an object: `https://<bucket>.s3.amazonaws.com/<key>`.
pub fn public_object_url(bucket: &String, key: &String) -> (r: String)
    ensures
        r@ == "https://"@ + bucket@ + ".s3.amazonaws.com/"@ + key@,
{
    let mut r = String::new();
    append_str(&mut r, "https://");
    append_string(&mut r, bucket);
    append_str(&mut r, ".s3.amazonaws.com/");
    append_string(&mut r, key);
    r
}

/// Where the recogniser is asked about a worker's recording:
/// `https://whisper.dev.bhuman.ai/<bucket>/<key>.wav`.
pub fn whisper_recording_url(bucket: &String, key: &String) -> (r: String)
    ensures
        r@ == "https://whisper.dev.bhuman.ai/"@ + bucket@ + seq!['/'] + key@ + ".wav"@,
{
    let mut r = String::new();
    append_str(&mut r, "https://whisper.dev.bhuman.ai/");
    append_string(&mut r, bucket);
    push_char(&mut r, '/');
    append_string(&mut r, key);
    append_str(&mut r, ".wav");
    r
}

/// `a/b`.
pub open spec fn slash2(a: Seq<char>, b: Seq<char>) -> Seq<char> {
    a + seq!['/'] + b
}

/// Where a template named by bucket and key alone is kept locally:
/// `Names/Temp/<base64 of bucket/key>.wav`.
pub fn temp_key_path(bucket: &String, key: &String) -> (r: String)
    ensures
        r@ == "Names/Temp/"@ + base64_text(slash2(bucket@, key@)) + ".wav"@,
{
    let mut id = String::new();
    append_string(&mut id, bucket);
    push_char(&mut id, '/');
    append_string(&mut id, key);
    assert(id@ =~= slash2(bucket@, key@));
    let enc = base64_encode(id.as_str());
    let mut r = String::new();
    append_str(&mut r, "Names/Temp/");
    append_string(&mut r, &enc);
    append_str(&mut r, ".wav");
    r
}

/// The start of every query on the stored name recordings by lowercased path.
pub open spec fn names_by_lower_path() -> Seq<char> {
    "SELECT * FROM audio_names WHERE lower(file_path) LIKE '"@
}

/// The query for the stored recordings whose lowercased path ends with the
/// lowercased name and `.wav`.
pub fn name_file_query(name: &str) -> (q: String)
    ensures
        q@ == names_by_lower_path() + "%"@ + crate::text::lowercase(name@) + ".wav'"@,
{
    let lower = crate::text::to_lowercase(name);
    let mut q = String::new();
    append_str(&mut q, "SELECT * FROM audio_names WHERE lower(file_path) LIKE '");
    append_str(&mut q, "%");
    append_string(&mut q, &lower);
    append_str(&mut q, ".wav'");
    q
}

/// The query for the stored recordings whose lowercased path ends with `/`,
/// the lowercased name and `.wav`: the name is a whole file name.
pub fn folder_name_file_query(name: &str) -> (q: String)
    ensures
        q@ == names_by_lower_path() + "%/"@ + crate::text::lowercase(name@) + ".wav'"@,
{
    let lower = crate::text::to_lowercase(name);
    let mut q = String::new();
    append_str(&mut q, "SELECT * FROM audio_names WHERE lower(file_path) LIKE '");
    append_str(&mut q, "%/");
    append_string(&mut q, &lower);
    append_str(&mut q, ".wav'");
    q
}

/// The query for the stored recordings whose lowercased path contains the
/// lowercased name anywhere.
pub fn name_search_query(name: &str) -> (q: String)
    ensures
        q@ == names_by_lower_path() + "%"@ + crate::text::lowercase(name@) + "%'"@,
{
    let lower = crate::text::to_lowercase(name);
    let mut q = String::new();
    append_str(&mut q, "SELECT * FROM audio_names WHERE lower(file_path) LIKE '");
    append_str(&mut q, "%");
    append_string(&mut q, &lower);
    append_str(&mut q, "%'");
    q
}

/// The query for the stored recordings whose path starts with a folder.
pub fn folder_files_query(folder_path: &String) -> (q: String)
    ensures
        q@ == "SELECT * FROM audio_names WHERE file_path LIKE '"@ + folder_path@ + "%'"@,
{
    let mut q = String::new();
    append_str(&mut q, "SELECT * FROM audio_names WHERE file_path LIKE '");
    append_string(&mut q, folder_path);
    append_str(&mut q, "%'");
    q
}

/// The query for a crowd worker's account.
pub fn mturk_user_query(mturk_id: &String) -> (q: String)
    ensures
        q@ == "SELECT * FROM audio_mturk_users WHERE mturk_id = '"@ + mturk_id@ + "'"@,
{
    let mut q = String::new();
    append_str(&mut q, "SELECT * FROM audio_mturk_users WHERE mturk_id = ");
    push_char(&mut q, '\'');
    append_string(&mut q, mturk_id);
    push_char(&mut q, '\'');
    assert(q@ =~= "SELECT * FROM audio_mturk_users WHERE mturk_id = '"@ + mturk_id@ + "'"@) by {
        reveal_strlit("SELECT * FROM audio_mturk_users WHERE mturk_id = '");
        reveal_strlit("SELECT * FROM audio_mturk_users WHERE mturk_id = ");
        reveal_strlit("'");
    }
    q
}

/// The folder of a stored recording `a/b/...`: `a/b/`, and the path of the
/// folder's voice code, `a/b/folder.csv`.
pub fn recording_folder(file_path: &String) -> (r: (String, String))
    requires
        crate::text::split_on(file_path@, '/').len() >= 2,
    ensures
        r.0@ == slash2(crate::text::split_on(file_path@, '/')[0], crate::text::split_on(file_path@, '/')[1]) + "/"@,
        r.1@ == slash2(crate::text::split_on(file_path@, '/')[0], crate::text::split_on(file_path@, '/')[1]) + "/folder.csv"@,
{
    let parts = crate::text::split_char(file_path.as_str(), '/');
    let ghost sp = crate::text::split_on(file_path@, '/');
    assert(parts@[0]@ == sp[0]);
    assert(parts@[1]@ == sp[1]);
    let mut folder = String::new();
    append_string(&mut folder, &parts[0]);
    push_char(&mut folder, '/');
    append_string(&mut folder, &parts[1]);
    let mut code = String::new();
    append_string(&mut code, &folder);
    append_str(&mut code, "/folder.csv");
    append_str(&mut folder, "/");
    (folder, code)
}

/// Whether the first four characters of a file, read as text, name a RIFF
/// (WAV) file: lowercased, they are `riff`.
pub fn is_riff_tag(tag: &str) -> (b: bool)
    ensures
        b == (crate::text::lowercase(tag@) == "riff"@),
{
    let lower = crate::text::to_lowercase(tag);
    crate::server::str_equal(lower.as_str(), "riff")
}

/// The first `k + 1` pieces of a path joined with `/`.
pub open spec fn path_prefix(parts: Seq<Seq<char>>, k: int) -> Seq<char>
    decreases k,
{
    if k <= 0 {
        parts[0]
    } else {
        path_prefix(parts, k - 1) + seq!['/'] + parts[k]
    }
}

/// The directories a file at `path` lies in, outermost first: for
/// `a/b/c.wav`, `a` and `a/b`.
pub fn ancestor_dirs(path: &str) -> (r: Vec<String>)
    ensures
        r.len() == crate::text::split_on(path@, '/').len() - 1,
        forall|k: int|
            0 <= k < r.len() ==> #[trigger] r@[k]@ == path_prefix(crate::text::split_on(path@, '/'), k),
{
    let parts = crate::text::split_char(path, '/');
    let ghost sp = crate::text::split_on(path@, '/');
    proof {
        crate::text::lemma_split_nonempty(path@, '/');
    }
    let mut r: Vec<String> = Vec::new();
    let mut dir = String::new();
    let mut i: usize = 0;
    while i + 1 < parts.len()
        invariant
            parts.len() >= 1,
            crate::text::views(parts@) == sp,
            i + 1 <= parts.len(),
            r.len() == i,
            i > 0 ==> dir@ == path_prefix(sp, i - 1),
            forall|k: int| 0 <= k < i ==> #[trigger] r@[k]@ == path_prefix(sp, k),
        decreases parts.len() - i,
    {
        assert(parts@[i as int]@ == sp[i as int]);
        if i == 0 {
            dir = parts[0].clone();
        } else {
            push_char(&mut dir, '/');
            append_string(&mut dir, &parts[i]);
        }
        assert(dir@ == path_prefix(sp, i as int));
        r.push(dir.clone());
        i = i + 1;
    }
    r
}

/// The query for the stored recording at exactly this path.
pub fn file_path_query(file_path: &String) -> (q: String)
    ensures
        q@ == "SELECT * FROM audio_names WHERE file_path = '"@ + file_path@ + "'"@,
{
    let mut q = String::new();
    append_str(&mut q, "SELECT * FROM audio_names WHERE file_path = ");
    push_char(&mut q, '\'');
    append_string(&mut q, file_path);
    push_char(&mut q, '\'');
    assert(q@ =~= "SELECT * FROM audio_names WHERE file_path = '"@ + file_path@ + "'"@) by {
        reveal_strlit("SELECT * FROM audio_names WHERE file_path = '");
        reveal_strlit("SELECT * FROM audio_names WHERE file_path = ");
        reveal_strlit("'");
    }
    q
}

/// The query for the pauses already found in a recording, by its
/// `region/bucket/key`.
pub fn pauses_query(region: &String, bucket: &String, key: &String) -> (q: String)
    ensures
        q@ == "SELECT * FROM audio_detect_pauses WHERE s3_path = '"@ + slash3(region@, bucket@, key@)
            + "'"@,
{
    let source = join3(region, bucket, key);
    let mut q = String::new();
    append_str(&mut q, "SELECT * FROM audio_detect_pauses WHERE s3_path = ");
    push_char(&mut q, '\'');
    append_string(&mut q, &source);
    push_char(&mut q, '\'');
    assert(q@ =~= "SELECT * FROM audio_detect_pauses WHERE s3_path = '"@ + slash3(region@, bucket@, key@)
        + "'"@) by {
        reveal_strlit("SELECT * FROM audio_detect_pauses WHERE s3_path = '");
        reveal_strlit("SELECT * FROM audio_detect_pauses WHERE s3_path = ");
        reveal_strlit("'");
    }
    q
}

/// The query for the recordings a crowd worker has sent.
pub fn mturk_audio_query(mturk_id: &String) -> (q: String)
    ensures
        q@ == "SELECT * FROM audio_mturk WHERE mturk_id = '"@ + mturk_id@ + "'"@,
{
    let mut q = String::new();
    append_str(&mut q, "SELECT * FROM audio_mturk WHERE mturk_id = ");
    push_char(&mut q, '\'');
    append_string(&mut q, mturk_id);
    push_char(&mut q, '\'');
    assert(q@ =~= "SELECT * FROM audio_mturk WHERE mturk_id = '"@ + mturk_id@ + "'"@) by {
        reveal_strlit("SELECT * FROM audio_mturk WHERE mturk_id = '");
        reveal_strlit("SELECT * FROM audio_mturk WHERE mturk_id = ");
        reveal_strlit("'");
    }
    q
}

/// The argument the lip-sync script is started with: the base64 of the JSON
/// text of its run.
pub fn lipsync_argument(params_json: &str) -> (r: String)
    ensures
        r@ == base64_text(params_json@),
{
    base64_encode(params_json)
}

} // verus!
