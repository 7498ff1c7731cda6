use voice_service::requests::{
    asset_step, AssetAction, AssetEvent, AssetStage,
    check_batch_request, check_huggingface_request, check_mturk_id, check_mturk_process,
    check_pause_request, check_process_audio, transcript_rows, lipsync_input, login_reply, mturk_step,
    payment_total, signup_reply, signup_should_create, text_of, update_reply, AccountReply,
    AudioPauseInfo, AudioProcessInfo, BatchUploadParam, MturkAction, MturkEvent, MturkIdInfo,
    MturkProcessInfo, MturkReply, MturkStage, MturkStatus,
};

fn s(x: &str) -> String {
    x.to_string()
}

fn batch(region: &str, bucket: &str, key: &str, names: &[&str]) -> BatchUploadParam {
    BatchUploadParam {
        template_region: s(region),
        template_bucket: s(bucket),
        template_key: s(key),
        output_region: s("us"),
        output_bucket: s("out"),
        transcripts: names.iter().map(|n| s(n)).collect(),
    }
}

fn process(bucket: &str, denoise: bool, silence: bool, amp: bool) -> AudioProcessInfo {
    AudioProcessInfo {
        template_region: s("us"),
        template_bucket: s(bucket),
        template_key: s("t.mp4"),
        audio_region: s("us"),
        audio_bucket: s("a"),
        audio_assets: vec![s("x.wav")],
        denoise,
        amplitude_equalize: amp,
        silence_removal: silence,
        output_region: s("us"),
        output_bucket: s("o"),
    }
}

#[test]
fn text_of_copies() {
    assert_eq!(text_of("abc"), "abc");
}

#[test]
fn cleanup_requests() {
    assert_eq!(check_process_audio(&process("", true, false, false)), Err(s("template must be existed!")));
    assert_eq!(check_process_audio(&process("b", true, false, false)), Ok(true));
    assert_eq!(check_process_audio(&process("b", true, true, false)), Ok(false));
    assert_eq!(check_process_audio(&process("b", false, false, false)), Ok(false));
}

#[test]
fn pause_requests() {
    let p = |b: &str, k: &str| AudioPauseInfo { audio_region: s("us"), audio_bucket: s(b), audio_key: s(k) };
    assert_eq!(check_pause_request(&p("", "")), Err(s("audio bucket is empty!")));
    assert_eq!(check_pause_request(&p("b", "")), Err(s("audio key is empty!")));
    assert_eq!(check_pause_request(&p("b", "k")), Ok(()));
}

#[test]
fn batch_requests() {
    assert_eq!(check_batch_request(&batch("us", "", "k", &["a"])), Err(s("template bucket is empty!")));
    assert_eq!(check_batch_request(&batch("us", "b", "", &["a"])), Err(s("template key is empty!")));
    assert_eq!(check_batch_request(&batch("us", "b", "k", &[])), Err(s("transcripts are empty!")));
    assert_eq!(check_batch_request(&batch("", "b", "k", &["a"])), Ok(()));
    assert_eq!(check_huggingface_request(&batch("", "b", "k", &["a"])), Err(s("template region is empty!")));
    assert_eq!(check_huggingface_request(&batch("us", "", "k", &["a"])), Err(s("template bucket is empty!")));
    assert_eq!(check_huggingface_request(&batch("us", "b", "k", &["a"])), Ok(()));
}

#[test]
fn worker_requests() {
    assert_eq!(check_mturk_id(&MturkIdInfo { mturk_id: s("") }), Err(s("mturk_id is empty!")));
    assert_eq!(check_mturk_id(&MturkIdInfo { mturk_id: s("w") }), Ok(()));
    let p = |id: &str, t: &str, tid: &str, f: &str| MturkProcessInfo {
        mturk_id: s(id),
        transcript: s(t),
        transcript_id: s(tid),
        file_path: s(f),
        duration: s("3"),
        s3_bucket: s("b"),
        s3_key: s("k"),
    };
    assert_eq!(check_mturk_process(&p("", "t", "1", "f")), Err(s("mturk_id is empty!")));
    assert_eq!(check_mturk_process(&p("w", "", "1", "f")), Err(s("transcript is empty!")));
    assert_eq!(check_mturk_process(&p("w", "t", "", "f")), Err(s("transcript_id is empty!")));
    assert_eq!(check_mturk_process(&p("w", "t", "1", "")), Err(s("file_path is empty!")));
    assert_eq!(check_mturk_process(&p("w", "t", "1", "f")), Ok(()));
}

#[test]
fn status_codes_and_replies() {
    assert_eq!(MturkStatus::Success.code(), "0");
    assert_eq!(MturkStatus::Failed.code(), "1");
    assert_eq!(MturkStatus::Pending.code(), "2");
    assert!(!MturkReply::Processed.is_error());
    assert_eq!(MturkReply::Processed.http_code(), 200);
    assert_eq!(MturkReply::MediaInvalid.http_code(), 400);
    assert_eq!(MturkReply::TranscriptNotMatched.text(), "trancript is not matched!");
    assert_eq!(MturkReply::DownloadFailed.text(), "downloading is failed.");
}

#[test]
fn a_matching_recording_goes_straight_to_download() {
    let (stage, action) = mturk_step(
        "john",
        MturkStage::AwaitRecognition,
        MturkEvent::Recognition { response_empty: false, transcript: s("Hi, John.") },
    );
    assert_eq!(stage, MturkStage::AwaitDownload);
    assert_eq!(action, Some(MturkAction::Download));
    let (stage, action) = mturk_step("john", stage, MturkEvent::Download { ok: true });
    assert_eq!(stage, MturkStage::Finished);
    assert_eq!(
        action,
        Some(MturkAction::Respond { status: MturkStatus::Success, reply: MturkReply::Processed })
    );
}

#[test]
fn a_different_recording_is_aligned_first() {
    let (stage, action) = mturk_step(
        "john",
        MturkStage::AwaitRecognition,
        MturkEvent::Recognition { response_empty: false, transcript: s("Hi Jon") },
    );
    assert_eq!(stage, MturkStage::AwaitSimilarity);
    assert_eq!(action, Some(MturkAction::CheckSimilarity));
    let (stage2, action2) = mturk_step(
        "john",
        stage,
        MturkEvent::Similarity { response_empty: false, transcript_empty: false, all_aligned: false },
    );
    assert_eq!(stage2, MturkStage::Finished);
    assert_eq!(
        action2,
        Some(MturkAction::Respond { status: MturkStatus::Failed, reply: MturkReply::TranscriptNotMatched })
    );
    let (stage3, action3) = mturk_step(
        "john",
        MturkStage::AwaitSimilarity,
        MturkEvent::Similarity { response_empty: false, transcript_empty: false, all_aligned: true },
    );
    assert_eq!(stage3, MturkStage::AwaitDownload);
    assert_eq!(action3, Some(MturkAction::Download));
}

#[test]
fn failed_recognitions_and_downloads() {
    let (_, a) = mturk_step(
        "x",
        MturkStage::AwaitRecognition,
        MturkEvent::Recognition { response_empty: true, transcript: s("") },
    );
    assert_eq!(a, Some(MturkAction::Respond { status: MturkStatus::Failed, reply: MturkReply::MediaInvalid }));
    let (_, a) = mturk_step(
        "x",
        MturkStage::AwaitRecognition,
        MturkEvent::Recognition { response_empty: false, transcript: s("") },
    );
    assert_eq!(a, Some(MturkAction::Respond { status: MturkStatus::Failed, reply: MturkReply::MediaNotSupported }));
    let (_, a) = mturk_step("x", MturkStage::AwaitDownload, MturkEvent::Download { ok: false });
    assert_eq!(a, Some(MturkAction::Respond { status: MturkStatus::Failed, reply: MturkReply::DownloadFailed }));
}

#[test]
fn finished_checks_ignore_events() {
    let (stage, action) = mturk_step("x", MturkStage::Finished, MturkEvent::Download { ok: true });
    assert_eq!(stage, MturkStage::Finished);
    assert_eq!(action, None);
    let (stage, action) = mturk_step("x", MturkStage::AwaitDownload, MturkEvent::Recognition {
        response_empty: false,
        transcript: s("hix"),
    });
    assert_eq!(stage, MturkStage::AwaitDownload);
    assert_eq!(action, None);
}

#[test]
fn account_answers() {
    assert_eq!(login_reply(true), AccountReply::LoggedIn);
    assert_eq!(login_reply(false), AccountReply::LoginInvalid);
    assert_eq!(AccountReply::LoggedIn.text(), "sccuess");
    assert_eq!(AccountReply::LoginInvalid.text(), "mturk id or password is invalid!");
    assert_eq!(AccountReply::LoginInvalid.http_code(), 400);
    assert!(signup_should_create(false));
    assert!(!signup_should_create(true));
    assert_eq!(signup_reply(true, true), AccountReply::IdTaken);
    assert_eq!(signup_reply(false, true), AccountReply::SignedUp);
    assert_eq!(signup_reply(false, false), AccountReply::SignupFailed);
    assert_eq!(AccountReply::IdTaken.text(), "mturk id is already existed!");
    assert_eq!(AccountReply::SignupFailed.text(), "failed to signup.");
    assert_eq!(update_reply(true), AccountReply::Updated);
    assert_eq!(update_reply(false), AccountReply::UserMissing);
    assert_eq!(AccountReply::UserMissing.text(), "mturk user isn't existed!.");
    assert_eq!(AccountReply::Updated.http_code(), 200);
    assert!(!AccountReply::SignedUp.is_error());
    assert!(AccountReply::UserInfoMissing.is_error());
    assert_eq!(AccountReply::UserInfoMissing.text(), "failed to get mturk user info.");
}

#[test]
fn payments_add_to_the_total() {
    assert_eq!(payment_total(Some(100), 25), Ok(125));
    assert_eq!(payment_total(Some(10), -15), Ok(-5));
    assert_eq!(payment_total(None, 25), Err(AccountReply::UserMissing));
}

#[test]
fn lipsync_runs_use_wav2lip() {
    let r = lipsync_input(s("/v.webm"), s("/a.wav"), s("/o.mp4"));
    assert_eq!(r.model, "wav2lip.pth");
    assert_eq!(r.video, "/v.webm");
    assert_eq!(r.audio, "/a.wav");
    assert_eq!(r.output, "/o.mp4");
}

#[test]
fn transcript_rows_skip_the_header() {
    let csv = b"s3_links,names,created,done,modified\nbk.s3/a.wav,Ann,1,0,2\nbk.s3/b.wav,Bob,3,1,4\n".to_vec();
    let rows = transcript_rows(&csv).unwrap();
    assert_eq!(rows.len(), 2);
    assert_eq!(rows[0].s3_links, "bk.s3/a.wav");
    assert_eq!(rows[0].names, "Ann");
    assert_eq!(rows[1].created, "3");
    assert_eq!(rows[1].done, "1");
    assert_eq!(rows[1].modified, "4");
    assert_eq!(transcript_rows(&b"a,b,c,d,e\n".to_vec()).unwrap().len(), 0);
    assert_eq!(transcript_rows(&Vec::new()).unwrap().len(), 0);
}

#[test]
fn transcript_rows_refuse_short_or_uneven_records() {
    assert!(transcript_rows(&b"a,b,c\nx,y,z\n".to_vec()).is_none());
    assert!(transcript_rows(&b"a,b,c,d,e\nx,y\n".to_vec()).is_none());
    assert!(transcript_rows(&vec![b'a', 0xff, b'\n', b'b', b'\n']).is_none());
}

#[test]
fn assets_fail_on_an_empty_download_or_a_failed_processing() {
    let (st, a) = asset_step(AssetStage::AwaitDownload, AssetEvent::Downloaded { empty: true });
    assert_eq!(st, AssetStage::Done);
    assert!(matches!(a, Some(AssetAction::Fail)));
    let (st, a) = asset_step(AssetStage::AwaitDownload, AssetEvent::Downloaded { empty: false });
    assert_eq!(st, AssetStage::AwaitProcessing);
    assert!(matches!(a, Some(AssetAction::Process)));
    let (st2, a) = asset_step(st, AssetEvent::Processed { ok: false });
    assert_eq!(st2, AssetStage::Done);
    assert!(matches!(a, Some(AssetAction::Fail)));
    let (st, a) = asset_step(st, AssetEvent::Processed { ok: true });
    assert_eq!(st, AssetStage::AwaitUpload);
    assert!(matches!(a, Some(AssetAction::Upload)));
    let (st, a) = asset_step(st, AssetEvent::Uploaded { key: "generated_audio/x.wav".to_string() });
    assert_eq!(st, AssetStage::Done);
    match a {
        Some(AssetAction::Record { key }) => assert_eq!(key, "generated_audio/x.wav"),
        _ => panic!("expected the key"),
    }
    let (st, a) = asset_step(AssetStage::Done, AssetEvent::Processed { ok: true });
    assert_eq!(st, AssetStage::Done);
    assert!(a.is_none());
}
