use voice_service::naming::{
    ancestor_dirs, file_path_query, lipsync_argument, mturk_audio_query, pauses_query,
    bucket_key, folder_files_query, folder_name_file_query, generated_asset_object,
    generated_name_object, generated_template_object, generated_video_object, is_riff_tag,
    mturk_upload_objects, mturk_user_query, name_file_query, name_search_query,
    public_object_url, recording_folder, region_bucket_key, temp_key_path, temp_template_path,
    whisper_cache_keys, whisper_recording_url,
};

fn s(x: &str) -> String {
    x.to_string()
}

#[test]
fn temp_paths_encode_the_source() {
    assert_eq!(temp_template_path(&s("a"), &s("b"), &s("c")), "Names/Temp/YS9iL2M=.wav");
    assert_eq!(temp_key_path(&s("b"), &s("k")), "Names/Temp/Yi9r.wav");
}

#[test]
fn generated_objects_are_named_by_their_sources() {
    let t = generated_template_object(&s("reg"), &s("bkt"), &s("tpl"), &s("mp4"));
    assert_eq!(t.file_name, "cmVnL2JrdC90cGw=.mp4");
    assert_eq!(t.key, "generated_audio/cmVnL2JrdC90cGw=.mp4");

    let a = generated_asset_object(&s("reg"), &s("bkt"), &s("tpl.mp4"), &s("reg"), &s("bkt"), &s("aud.wav"));
    assert_eq!(a.file_name, "cmVnL2JrdC90cGwubXA0@cmVnL2JrdC9hdWQud2F2.wav");
    assert_eq!(a.key, "generated_audio/cmVnL2JrdC90cGwubXA0@cmVnL2JrdC9hdWQud2F2.wav");

    let v = generated_video_object(&s("reg"), &s("bkt"), &s("tpl.mp4"), &s("reg"), &s("bkt"), &s("aud.wav"));
    assert_eq!(v.file_name, "cmVnL2JrdC90cGwubXA0@cmVnL2JrdC9hdWQud2F2.mp4");
    assert_eq!(v.key, "generated_video/cmVnL2JrdC90cGwubXA0@cmVnL2JrdC9hdWQud2F2.mp4");

    let n = generated_name_object(&s("bkt/tpl"), &s("John"));
    assert_eq!(n.file_name, "Ymt0L3RwbA==@John.wav");
    assert_eq!(n.key, "generated_audio/Ymt0L3RwbA==@John.wav");
}

#[test]
fn the_encoded_name_is_not_the_plain_source() {
    let t = generated_template_object(&s("r"), &s("b"), &s("t"), &s("wav"));
    assert_ne!(t.file_name, "r/b/t.wav");
    assert_eq!(t.file_name, "ci9iL3Q=.wav");
}

#[test]
fn sources_and_cache_keys() {
    assert_eq!(bucket_key(&s("bk"), &s("k")), "bk/k");
    assert_eq!(region_bucket_key(&s("us"), &s("bk"), &s("k")), "us/bk/k");
    let (pcm, json) = whisper_cache_keys(&s("bk"), &s("k1"));
    assert_eq!(pcm, "transcript-cache-1/bk/k1.wav.pcm");
    assert_eq!(json, "transcript-cache-1/bk/k1.wav.json");
}

#[test]
fn worker_uploads() {
    let (video, audio) = mturk_upload_objects(&s("w1"), &s("hello"));
    assert_eq!(video.file_name, "hello.webm");
    assert_eq!(video.key, "Names/Mturk/w1/hello.webm");
    assert_eq!(audio.file_name, "hello.webm.wav");
    assert_eq!(audio.key, "Names/Mturk/w1/hello.webm.wav");
}

#[test]
fn urls() {
    assert_eq!(public_object_url(&s("bk"), &s("a/b.wav")), "https://bk.s3.amazonaws.com/a/b.wav");
    assert_eq!(whisper_recording_url(&s("bk"), &s("k")), "https://whisper.dev.bhuman.ai/bk/k.wav");
}

#[test]
fn queries_lowercase_the_name() {
    assert_eq!(
        name_file_query("John"),
        "SELECT * FROM audio_names WHERE lower(file_path) LIKE '%john.wav'"
    );
    assert_eq!(
        folder_name_file_query("ÉLODIE"),
        "SELECT * FROM audio_names WHERE lower(file_path) LIKE '%/élodie.wav'"
    );
    assert_eq!(
        name_search_query("Jo"),
        "SELECT * FROM audio_names WHERE lower(file_path) LIKE '%jo%'"
    );
    assert_eq!(
        folder_files_query(&s("Names/f/")),
        "SELECT * FROM audio_names WHERE file_path LIKE 'Names/f/%'"
    );
    assert_eq!(mturk_user_query(&s("w1")), "SELECT * FROM audio_mturk_users WHERE mturk_id = 'w1'");
}

#[test]
fn folder_of_a_recording() {
    let (folder, code) = recording_folder(&s("Names/folder/123.wav"));
    assert_eq!(folder, "Names/folder/");
    assert_eq!(code, "Names/folder/folder.csv");
}

#[test]
fn riff_tags() {
    assert!(is_riff_tag("RIFF"));
    assert!(is_riff_tag("riff"));
    assert!(is_riff_tag("RiFf"));
    assert!(!is_riff_tag("WAVE"));
    assert!(!is_riff_tag("RIF"));
}

#[test]
fn more_queries() {
    assert_eq!(
        file_path_query(&s("Names/f/1.wav")),
        "SELECT * FROM audio_names WHERE file_path = 'Names/f/1.wav'"
    );
    assert_eq!(
        pauses_query(&s("us"), &s("bk"), &s("a.wav")),
        "SELECT * FROM audio_detect_pauses WHERE s3_path = 'us/bk/a.wav'"
    );
    assert_eq!(mturk_audio_query(&s("w9")), "SELECT * FROM audio_mturk WHERE mturk_id = 'w9'");
}

#[test]
fn ancestor_directories() {
    assert_eq!(ancestor_dirs("Pauses/Names/f/1.wav"), vec!["Pauses", "Pauses/Names", "Pauses/Names/f"]);
    assert_eq!(ancestor_dirs("x.wav"), Vec::<String>::new());
    assert_eq!(ancestor_dirs("a//b"), vec!["a", "a/"]);
}

#[test]
fn lipsync_argument_is_base64_of_the_run() {
    assert_eq!(lipsync_argument("{\"model\":\"wav2lip.pth\"}"), "eyJtb2RlbCI6IndhdjJsaXAucHRoIn0=");
    assert_ne!(lipsync_argument("abc"), "abc");
}
