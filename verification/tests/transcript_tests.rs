use voice_service::transcript::{
    group_cut_name, group_file_name, group_transcript_words, name_segments, row_step, RowAction, RowEvent,
    RowStage,
};

fn s(x: &str) -> String {
    x.to_string()
}

fn view(r: &[voice_service::transcript::TranscriptInfo]) -> Vec<(String, i64, i64)> {
    r.iter().map(|t| (t.transcript.clone(), t.start_time, t.end_time)).collect()
}

#[test]
fn close_words_join_a_group() {
    let words = vec![s("hello"), s("world"), s("again")];
    let al = vec![(0, 100), (1000, 2000), (10000, 11000)];
    let r = group_transcript_words(&words, &al);
    assert_eq!(view(&r), vec![(s("hello world"), 0, 2000), (s("again"), 10000, 11000)]);
}

#[test]
fn the_gap_is_strict() {
    let words = vec![s("a"), s("b"), s("c")];
    let al = vec![(0, 100), (2499, 2600), (5000, 5100)];
    let r = group_transcript_words(&words, &al);
    assert_eq!(view(&r), vec![(s("a b"), 0, 2600), (s("c"), 5000, 5100)]);
}

#[test]
fn alignments_beyond_the_words_are_skipped() {
    let words = vec![s("a")];
    let al = vec![(0, 10), (20, 30)];
    assert_eq!(view(&group_transcript_words(&words, &al)), vec![(s("a"), 0, 10)]);
    assert!(group_transcript_words(&words, &vec![]).is_empty());
}

#[test]
fn group_file_names_drop_the_first_word() {
    assert_eq!(group_file_name(&s("Hi John, Smith.")), " John Smith");
    assert_eq!(group_file_name(&s("Hi")), "");
    assert_eq!(group_file_name(&s("Hi (Ann) 'Lee'!")), " Ann Lee");
}

#[test]
fn names_are_the_last_word_of_each_sentence() {
    let al = vec![(0, 1), (2, 3), (4, 5), (6, 7)];
    let r = name_segments(&s("Hi Anna. Hi Bob."), &al);
    assert_eq!(view(&r), vec![(s("Anna"), 0, 3), (s("Bob"), 4, 7)]);
}

#[test]
fn grouping_keeps_every_aligned_word_in_order() {
    let words: Vec<String> = "one two three four five".split(' ').map(|w| w.to_string()).collect();
    let al = vec![(0, 10), (5000, 5100), (5200, 5300), (20000, 20100)];
    let r = group_transcript_words(&words, &al);
    let joined: Vec<String> = r.iter().map(|g| g.transcript.clone()).collect();
    assert_eq!(joined.join(" "), "one two three four");
    assert_eq!(view(&r), vec![(s("one"), 0, 10), (s("two three"), 5000, 5300), (s("four"), 20000, 20100)]);
}

#[test]
fn a_row_is_cut_only_after_every_step_succeeds() {
    let (st, a) = row_step(RowStage::CheckFolder, RowEvent::FolderChecked { exists: true });
    assert_eq!((st, a), (RowStage::Done, Some(RowAction::Skip)));
    let (st, a) = row_step(RowStage::CheckFolder, RowEvent::FolderChecked { exists: false });
    assert_eq!((st, a), (RowStage::AwaitDownload, Some(RowAction::CreateFolderAndDownload)));
    assert_eq!(row_step(st, RowEvent::Downloaded { path_empty: true }), (RowStage::Done, Some(RowAction::Skip)));
    let (st, a) = row_step(st, RowEvent::Downloaded { path_empty: false });
    assert_eq!((st, a), (RowStage::AwaitRecognition, Some(RowAction::Recognise)));
    assert_eq!(
        row_step(st, RowEvent::Recognised { response_empty: false, transcript_empty: true }),
        (RowStage::Done, Some(RowAction::Skip))
    );
    assert_eq!(
        row_step(st, RowEvent::Recognised { response_empty: false, transcript_empty: false }),
        (RowStage::Done, Some(RowAction::Cut))
    );
    assert_eq!(row_step(RowStage::Done, RowEvent::Downloaded { path_empty: false }), (RowStage::Done, None));
}

#[test]
fn empty_group_names_are_left() {
    assert_eq!(group_cut_name(&s("Hi")), None);
    assert_eq!(group_cut_name(&s("Hi John,")), Some(s(" John")));
}
