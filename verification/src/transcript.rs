use vstd::prelude::*;

use crate::text::{split_char, split_on, strip, strip_chars, views, push_char, append_str};
use crate::audio::append_string;

verus! {

/// A run of transcript words with the sample positions where it starts and
/// ends.
pub struct TranscriptInfo {
    pub transcript: String,
    pub start_time: i64,
    pub end_time: i64,
}

/// A word group as plain values: its text, start and end.
pub open spec fn info_view(t: TranscriptInfo) -> (Seq<char>, i64, i64) {
    (t.transcript@, t.start_time, t.end_time)
}

/// Words closer than this many samples to the end of the group before them
/// join that group.
pub open spec fn join_gap() -> int {
    2400
}

/// The word groups after the first `n` alignments: the first word opens the
/// first group; every later word that has an alignment joins the last group
/// (separated by a space, the group then ending where the word ends) when it
/// starts less than the joining gap after that group's end, and opens a new
/// group otherwise. Alignments beyond the last word are skipped.
pub open spec fn group_words(words: Seq<Seq<char>>, al: Seq<(i64, i64)>, n: int) -> Seq<(Seq<char>, i64, i64)>
    decreases n,
{
    if n <= 0 {
        Seq::empty()
    } else {
        let g = group_words(words, al, n - 1);
        let i = n - 1;
        if i == 0 {
            g.push((words[0], al[0].0, al[0].1))
        } else if words.len() <= i {
            g
        } else {
            let last = g.last();
            if al[i].0 - last.2 < join_gap() {
                g.update(g.len() - 1, (last.0 + seq![' '] + words[i], last.1, al[i].1))
            } else {
                g.push((words[i], al[i].0, al[i].1))
            }
        }
    }
}

proof fn lemma_group_words_nonempty(words: Seq<Seq<char>>, al: Seq<(i64, i64)>, n: int)
    requires
        n >= 1,
    ensures
        group_words(words, al, n).len() >= 1,
    decreases n,
{
    if n > 1 {
        lemma_group_words_nonempty(words, al, n - 1);
    }
}

/// Groups the words of a recognised transcript by their alignments (start and
/// end sample of each word).
pub fn group_transcript_words(words: &Vec<String>, alignments: &Vec<(i64, i64)>) -> (r: Vec<TranscriptInfo>)
    requires
        words.len() >= 1,
    ensures
        r@.map_values(|t: TranscriptInfo| info_view(t)) == group_words(
            views(words@),
            alignments@,
            alignments.len() as int,
        ),
{
    let ghost wv = views(words@);
    let mut r: Vec<TranscriptInfo> = Vec::new();
    let mut i: usize = 0;
    while i < alignments.len()
        invariant
            i <= alignments.len(),
            words.len() >= 1,
            wv == views(words@),
            r@.map_values(|t: TranscriptInfo| info_view(t)) == group_words(wv, alignments@, i as int),
            i >= 1 ==> r.len() >= 1,
        decreases alignments.len() - i,
    {
        let ghost before = r@.map_values(|t: TranscriptInfo| info_view(t));
        if i == 0 {
            r.push(
                TranscriptInfo {
                    transcript: words[0].clone(),
                    start_time: alignments[0].0,
                    end_time: alignments[0].1,
                },
            );
            assert(wv[0] == words@[0]@);
            assert(r@.map_values(|t: TranscriptInfo| info_view(t)) =~= before.push(
                (wv[0], alignments@[0].0, alignments@[0].1),
            ));
        } else if words.len() <= i {
        } else {
            let n = r.len();
            let last_end = r[n - 1].end_time;
            let start = alignments[i].0;
            if (start as i128) - (last_end as i128) < 2400 {
                let mut text = r[n - 1].transcript.clone();
                push_char(&mut text, ' ');
                append_string(&mut text, &words[i]);
                let first = r[n - 1].start_time;
                assert(wv[i as int] == words@[i as int]@);
                assert(before.last().0 == r@[n - 1].transcript@);
                assert(text@ =~= before.last().0 + seq![' '] + wv[i as int]);
                r.set(n - 1, TranscriptInfo { transcript: text, start_time: first, end_time: alignments[i].1 });
                assert(r@.map_values(|t: TranscriptInfo| info_view(t)) =~= before.update(
                    n - 1,
                    (before.last().0 + seq![' '] + wv[i as int], before.last().1, alignments@[i as int].1),
                ));
            } else {
                assert(wv[i as int] == words@[i as int]@);
                r.push(
                    TranscriptInfo {
                        transcript: words[i].clone(),
                        start_time: alignments[i].0,
                        end_time: alignments[i].1,
                    },
                );
                assert(r@.map_values(|t: TranscriptInfo| info_view(t)) =~= before.push(
                    (wv[i as int], alignments@[i as int].0, alignments@[i as int].1),
                ));
            }
        }
        i = i + 1;
    }
    r
}


/// Words joined with single spaces.
pub open spec fn join_words(ws: Seq<Seq<char>>) -> Seq<char>
    decreases ws.len(),
{
    if ws.len() == 0 {
        Seq::empty()
    } else if ws.len() == 1 {
        ws[0]
    } else {
        join_words(ws.drop_last()) + seq![' '] + ws.last()
    }
}

/// The texts of word groups.
pub open spec fn group_texts(g: Seq<(Seq<char>, i64, i64)>) -> Seq<Seq<char>> {
    g.map_values(|t: (Seq<char>, i64, i64)| t.0)
}

/// Grouping loses and reorders no word: the groups' texts, joined with
/// spaces, are the words that have an alignment, joined with spaces.
pub proof fn law_grouping_keeps_words(words: Seq<Seq<char>>, al: Seq<(i64, i64)>, n: int)
    requires
        words.len() >= 1,
        n >= 1,
    ensures
        join_words(group_texts(group_words(words, al, n))) == join_words(
            words.take(if n < words.len() { n } else { words.len() as int }),
        ),
    decreases n,
{
    let g = group_words(words, al, n);
    if n == 1 {
        assert(group_texts(g) =~= seq![words[0]]);
        assert(words.take(1) =~= seq![words[0]]);
    } else {
        let i = n - 1;
        let prev = group_words(words, al, n - 1);
        law_grouping_keeps_words(words, al, n - 1);
        lemma_group_words_nonempty(words, al, n - 1);
        if i < words.len() {
            let tp = group_texts(prev);
            let tg = group_texts(g);
            assert(words.take(n) =~= words.take(n - 1).push(words[i]));
            assert(words.take(n).drop_last() =~= words.take(n - 1));
            assert(join_words(words.take(n)) == join_words(words.take(n - 1)) + seq![' '] + words[i]);
            let last = prev.last();
            if al[i].0 - last.2 < join_gap() {
                assert(tg =~= tp.update(tp.len() - 1, last.0 + seq![' '] + words[i]));
                if tp.len() == 1 {
                    assert(join_words(tg) =~= join_words(tp) + seq![' '] + words[i]);
                } else {
                    assert(tg.drop_last() =~= tp.drop_last());
                    assert(join_words(tp) == join_words(tp.drop_last()) + seq![' '] + tp.last());
                    assert(join_words(tg) =~= join_words(tp) + seq![' '] + words[i]);
                }
            } else {
                assert(tg =~= tp.push(words[i]));
                assert(tg.drop_last() =~= tp);
                assert(join_words(tg) =~= join_words(tp) + seq![' '] + words[i]);
            }
        } else {
            assert(g == prev);
        }
    }
}

/// The punctuation dropped from each word of a group's file name.
pub open spec fn name_punctuation() -> Seq<char> {
    seq!['(', ')', ',', '"', '.', ';', '!', ' ', ':', '\'']
}

/// The words from the second on, each stripped of that punctuation and each
/// preceded by a space.
pub open spec fn joined_tail(names: Seq<Seq<char>>, k: int) -> Seq<char>
    decreases k,
{
    if k <= 1 {
        Seq::empty()
    } else {
        joined_tail(names, k - 1) + seq![' '] + strip(names[k - 1], name_punctuation())
    }
}

/// The file name (without extension) of a word group: its words split at
/// spaces, the first one left out, the others stripped of punctuation and each
/// preceded by a space.
pub open spec fn group_file_name_spec(text: Seq<char>) -> Seq<char> {
    joined_tail(split_on(text, ' '), split_on(text, ' ').len() as int)
}

/// The file name of a word group.
pub fn group_file_name(text: &String) -> (r: String)
    ensures
        r@ == group_file_name_spec(text@),
{
    let names = split_char(text.as_str(), ' ');
    let set: Vec<char> = vec!['(', ')', ',', '"', '.', ';', '!', ' ', ':', '\''];
    assert(set@ =~= name_punctuation());
    let ghost nv = views(names@);
    proof {
        crate::text::lemma_split_nonempty(text@, ' ');
    }
    let mut r = String::new();
    let mut j: usize = 1;
    while j < names.len()
        invariant
            1 <= j <= names.len(),
            nv == views(names@),
            nv == split_on(text@, ' '),
            set@ == name_punctuation(),
            r@ == joined_tail(nv, j as int),
        decreases names.len() - j,
    {
        push_char(&mut r, ' ');
        let w = strip_chars(names[j].as_str(), &set);
        append_string(&mut r, &w);
        assert(nv[j as int] == names@[j as int]@);
        j = j + 1;
        assert(r@ =~= joined_tail(nv, j as int));
    }
    r
}

/// For each non-empty sentence of a recognised transcript (split at full
/// stops), its last word (split at spaces) with the start of the alignment at
/// twice its index and the end of the one after.
pub open spec fn name_segments_spec(pieces: Seq<Seq<char>>, al: Seq<(i64, i64)>, n: int) -> Seq<(Seq<char>, i64, i64)>
    decreases n,
{
    if n <= 0 {
        Seq::empty()
    } else {
        let prev = name_segments_spec(pieces, al, n - 1);
        let i = n - 1;
        if pieces[i].len() == 0 {
            prev
        } else {
            let words = split_on(pieces[i], ' ');
            prev.push((words[words.len() - 1], al[2 * i].0, al[2 * i + 1].1))
        }
    }
}

/// The alignments reach far enough for every non-empty sentence.
pub open spec fn alignments_cover(pieces: Seq<Seq<char>>, al: Seq<(i64, i64)>) -> bool {
    forall|i: int| 0 <= i < pieces.len() && #[trigger] pieces[i].len() > 0 ==> 2 * i + 1 < al.len()
}

/// The names spoken in a recognised transcript with where each starts and
/// ends: per non-empty sentence, its last word.
pub fn name_segments(whisper_transcript: &String, alignments: &Vec<(i64, i64)>) -> (r: Vec<TranscriptInfo>)
    requires
        alignments_cover(split_on(whisper_transcript@, '.'), alignments@),
    ensures
        r@.map_values(|t: TranscriptInfo| info_view(t)) == name_segments_spec(
            split_on(whisper_transcript@, '.'),
            alignments@,
            split_on(whisper_transcript@, '.').len() as int,
        ),
{
    let pieces = split_char(whisper_transcript.as_str(), '.');
    let ghost pv = views(pieces@);
    let mut r: Vec<TranscriptInfo> = Vec::new();
    let mut i: usize = 0;
    while i < pieces.len()
        invariant
            i <= pieces.len(),
            pv == views(pieces@),
            pv == split_on(whisper_transcript@, '.'),
            alignments_cover(pv, alignments@),
            r@.map_values(|t: TranscriptInfo| info_view(t)) == name_segments_spec(pv, alignments@, i as int),
        decreases pieces.len() - i,
    {
        let ghost before = r@.map_values(|t: TranscriptInfo| info_view(t));
        assert(pv[i as int] == pieces@[i as int]@);
        let cs = crate::text::chars_of(pieces[i].as_str());
        if cs.len() > 0 {
            assert(pv[i as int].len() > 0);
            assert(2 * i + 1 < alignments.len());
            let words = split_char(pieces[i].as_str(), ' ');
            proof {
                crate::text::lemma_split_nonempty(pieces@[i as int]@, ' ');
            }
            let last = words[words.len() - 1].clone();
            r.push(
                TranscriptInfo {
                    transcript: last,
                    start_time: alignments[2 * i].0,
                    end_time: alignments[2 * i + 1].1,
                },
            );
            assert(r@.map_values(|t: TranscriptInfo| info_view(t)) =~= before.push(
                (
                    split_on(pv[i as int], ' ')[split_on(pv[i as int], ' ').len() - 1],
                    alignments@[2 * i].0,
                    alignments@[2 * i + 1].1,
                ),
            ));
        }
        i = i + 1;
    }
    r
}

/// Where the cutting of one row of the transcripts sheet has got to.
#[derive(Debug, Clone, Copy, PartialEq, Eq, Structural)]
pub enum RowStage {
    CheckFolder,
    AwaitDownload,
    AwaitRecognition,
    Done,
}

/// What the outside world reports back while a row is cut.
#[derive(Debug, Clone, Copy, PartialEq, Eq, Structural)]
pub enum RowEvent {
    /// Whether the row's folder already exists.
    FolderChecked { exists: bool },
    /// Whether the download gave no file.
    Downloaded { path_empty: bool },
    /// Whether the recogniser's answer was empty, and whether the transcript
    /// read from it was.
    Recognised { response_empty: bool, transcript_empty: bool },
}

/// What the cutting of a row asks for next.
#[derive(Debug, Clone, Copy, PartialEq, Eq, Structural)]
pub enum RowAction {
    /// Create the row's folder and download its recording.
    CreateFolderAndDownload,
    /// Ask the recogniser about the recording.
    Recognise,
    /// Cut the recording into its named word groups.
    Cut,
    /// Leave the row.
    Skip,
}

/// One step of the cutting of a row: a row whose folder exists is left; one
/// whose download gave no file, or whose recogniser answer or transcript is
/// empty, is left; otherwise it is cut. An event that does not fit the stage
/// changes nothing.
pub open spec fn row_step_spec(stage: RowStage, event: RowEvent) -> (RowStage, Option<RowAction>) {
    match (stage, event) {
        (RowStage::CheckFolder, RowEvent::FolderChecked { exists }) => if exists {
            (RowStage::Done, Some(RowAction::Skip))
        } else {
            (RowStage::AwaitDownload, Some(RowAction::CreateFolderAndDownload))
        },
        (RowStage::AwaitDownload, RowEvent::Downloaded { path_empty }) => if path_empty {
            (RowStage::Done, Some(RowAction::Skip))
        } else {
            (RowStage::AwaitRecognition, Some(RowAction::Recognise))
        },
        (RowStage::AwaitRecognition, RowEvent::Recognised { response_empty, transcript_empty }) => if response_empty
            || transcript_empty {
            (RowStage::Done, Some(RowAction::Skip))
        } else {
            (RowStage::Done, Some(RowAction::Cut))
        },
        _ => (stage, None),
    }
}

/// One step of the cutting of a row of the transcripts sheet.
pub fn row_step(stage: RowStage, event: RowEvent) -> (r: (RowStage, Option<RowAction>))
    ensures
        r == row_step_spec(stage, event),
{
    match (stage, event) {
        (RowStage::CheckFolder, RowEvent::FolderChecked { exists }) => if exists {
            (RowStage::Done, Some(RowAction::Skip))
        } else {
            (RowStage::AwaitDownload, Some(RowAction::CreateFolderAndDownload))
        },
        (RowStage::AwaitDownload, RowEvent::Downloaded { path_empty }) => if path_empty {
            (RowStage::Done, Some(RowAction::Skip))
        } else {
            (RowStage::AwaitRecognition, Some(RowAction::Recognise))
        },
        (RowStage::AwaitRecognition, RowEvent::Recognised { response_empty, transcript_empty }) => if response_empty
            || transcript_empty {
            (RowStage::Done, Some(RowAction::Skip))
        } else {
            (RowStage::Done, Some(RowAction::Cut))
        },
        _ => (stage, None),
    }
}

/// A row is cut only after its folder was missing, its download gave a file
/// and the recogniser gave a transcript; once done, nothing changes.
pub proof fn law_row_cut(stage: RowStage, event: RowEvent)
    ensures
        ({
            let (next, action) = row_step_spec(stage, event);
            &&& action == Some(RowAction::Cut) <==> (stage == RowStage::AwaitRecognition && event
                == RowEvent::Recognised { response_empty: false, transcript_empty: false })
            &&& stage == RowStage::Done ==> next == RowStage::Done && action is None
        }),
{
}

/// The file name a word group is cut to, or `None` where it comes out empty
/// and the group is left.
pub fn group_cut_name(text: &String) -> (r: Option<String>)
    ensures
        match r {
            Some(n) => n@ == group_file_name_spec(text@) && n@.len() > 0,
            None => group_file_name_spec(text@).len() == 0,
        },
{
    let name = group_file_name(text);
    if name.as_str().is_empty() {
        None
    } else {
        Some(name)
    }
}

/// How far the cutting of a row has got.
pub open spec fn row_stage_rank(s: RowStage) -> int {
    match s {
        RowStage::CheckFolder => 0,
        RowStage::AwaitDownload => 1,
        RowStage::AwaitRecognition => 2,
        RowStage::Done => 3,
    }
}

/// Every step of a row that asks for something moves it strictly forward, and
/// one that asks for nothing changes nothing, so a row ends after at most
/// three answered events. Any recogniser answer ends the row: it is left
/// where the answer or its transcript is empty, and cut otherwise; a row is
/// left or cut only when it is done.
pub proof fn law_row_progress(stage: RowStage, event: RowEvent)
    ensures
        ({
            let (next, action) = row_step_spec(stage, event);
            &&& (action is Some ==> row_stage_rank(next) > row_stage_rank(stage))
            &&& (action is None ==> next == stage)
            &&& (action == Some(RowAction::Skip) || action == Some(RowAction::Cut) ==> next == RowStage::Done)
            &&& (stage == RowStage::AwaitRecognition && event is Recognised ==> {
                &&& next == RowStage::Done
                &&& (action == Some(RowAction::Skip) <==> (event->response_empty || event->transcript_empty))
                &&& (action == Some(RowAction::Cut) <==> !(event->response_empty || event->transcript_empty))
            })
        }),
{
}

/// Word groups are kept apart by the joining gap: each group starts at least
/// that many samples after the group before it ends, and each group starts
/// where one of the alignments starts.
pub proof fn law_groups_apart(words: Seq<Seq<char>>, al: Seq<(i64, i64)>, n: int)
    requires
        words.len() >= 1,
        n <= al.len(),
    ensures
        forall|k: int|
            1 <= k < group_words(words, al, n).len() ==> #[trigger] group_words(words, al, n)[k].1
                - group_words(words, al, n)[k - 1].2 >= join_gap(),
        forall|k: int|
            #![trigger group_words(words, al, n)[k]]
            0 <= k < group_words(words, al, n).len() ==> exists|j: int|
                0 <= j < n && #[trigger] al[j].0 == group_words(words, al, n)[k].1,
    decreases n,
{
    if n >= 1 {
        law_groups_apart(words, al, n - 1);
        let g = group_words(words, al, n - 1);
        let h = group_words(words, al, n);
        let i = n - 1;
        if i == 0 {
            assert(h =~= g.push((words[0], al[0].0, al[0].1)));
            assert forall|k: int| #![trigger h[k]] 0 <= k < h.len() implies exists|j: int| 0 <= j < n && #[trigger] al[j].0 == h[k].1 by {
                assert(al[0].0 == h[k].1);
            }
        } else if words.len() <= i {
        } else {
            lemma_group_words_nonempty(words, al, n - 1);
            let last = g.last();
            assert forall|k: int| #![trigger h[k]] 0 <= k < h.len() implies exists|j: int| 0 <= j < n && #[trigger] al[j].0 == h[k].1 by {
                if k < g.len() {
                    assert(h[k].1 == g[k].1);
                    let j = choose|j: int| 0 <= j < n - 1 && #[trigger] al[j].0 == g[k].1;
                    assert(al[j].0 == h[k].1);
                } else {
                    assert(al[i].0 == h[k].1);
                }
            }
            assert forall|k: int| 1 <= k < h.len() implies #[trigger] h[k].1 - h[k - 1].2 >= join_gap() by {
                if al[i].0 - last.2 < join_gap() {
                    assert(h[k].1 == g[k].1);
                    if k - 1 < g.len() - 1 {
                        assert(h[k - 1] == g[k - 1]);
                    }
                    assert(g[k].1 - g[k - 1].2 >= join_gap());
                } else {
                    if k < g.len() {
                        assert(h[k] == g[k]);
                        assert(h[k - 1] == g[k - 1]);
                    }
                }
            }
        }
    }
}

} // verus!
