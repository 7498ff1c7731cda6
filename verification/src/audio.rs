use vstd::prelude::*;

use crate::text::{split_char, split_on, views, lemma_split_nonempty, push_char};

verus! {

/// The LibriTTS-style name of an episode path `a/b/c/d/...`:
/// `a/b/c/a_b_c_d`.
pub open spec fn libritts_name(parts: Seq<Seq<char>>) -> Seq<char> {
    parts[0] + seq!['/'] + parts[1] + seq!['/'] + parts[2] + seq!['/'] + parts[0] + seq!['_']
        + parts[1] + seq!['_'] + parts[2] + seq!['_'] + parts[3]
}

/// Appends the characters of `t` to `s`.
pub(crate) fn append_string(s: &mut String, t: &String)
    ensures
        final(s)@ == old(s)@ + t@,
{
    let cs = crate::text::chars_of(t.as_str());
    let mut i: usize = 0;
    while i < cs.len()
        invariant
            i <= cs.len(),
            cs@ == t@,
            s@ == old(s)@ + cs@.subrange(0, i as int),
        decreases cs.len() - i,
    {
        push_char(s, cs[i]);
        i = i + 1;
        assert(s@ =~= old(s)@ + cs@.subrange(0, i as int));
    }
    assert(cs@.subrange(0, cs.len() as int) =~= cs@);
}

/// Maps an episode path `a/b/c/d` (at least four `/`-separated pieces) to its
/// LibriTTS-style name `a/b/c/a_b_c_d`.
pub fn get_libritts_name(path: String) -> (r: String)
    requires
        split_on(path@, '/').len() >= 4,
    ensures
        r@ == libritts_name(split_on(path@, '/')),
{
    let parts = split_char(path.as_str(), '/');
    assert(parts@[0]@ == split_on(path@, '/')[0]);
    assert(parts@[1]@ == split_on(path@, '/')[1]);
    assert(parts@[2]@ == split_on(path@, '/')[2]);
    assert(parts@[3]@ == split_on(path@, '/')[3]);
    let mut r = String::new();
    append_string(&mut r, &parts[0]);
    push_char(&mut r, '/');
    append_string(&mut r, &parts[1]);
    push_char(&mut r, '/');
    append_string(&mut r, &parts[2]);
    push_char(&mut r, '/');
    append_string(&mut r, &parts[0]);
    push_char(&mut r, '_');
    append_string(&mut r, &parts[1]);
    push_char(&mut r, '_');
    append_string(&mut r, &parts[2]);
    push_char(&mut r, '_');
    append_string(&mut r, &parts[3]);
    assert(r@ =~= libritts_name(split_on(path@, '/')));
    r
}


/// The path a generated voice for `target` is written to.
pub fn generate_vst_path(target_path: &String) -> (r: String)
    ensures
        r@ == "VST/custom_test/"@ + target_path@ + "_gen.wav"@,
{
    let mut r = String::new();
    crate::text::append_str(&mut r, "VST/custom_test/");
    append_string(&mut r, target_path);
    crate::text::append_str(&mut r, "_gen.wav");
    r
}

/// Where the voice code of the recording `a/b/c...` is kept: `a/b/b.csv`,
/// or `a/b/c.csv` where that first form contains `Names/Temp`.
pub open spec fn voice_code_path_spec(parts: Seq<Seq<char>>) -> Seq<char> {
    let first = parts[0] + seq!['/'] + parts[1] + seq!['/'] + parts[1] + ".csv"@;
    if crate::text::contains_seq(first, "Names/Temp"@) {
        parts[0] + seq!['/'] + parts[1] + seq!['/'] + parts[2] + ".csv"@
    } else {
        first
    }
}

/// The voice-code path of a recording key (at least two `/`-separated
/// pieces, and three where the folder form names `Names/Temp`).
pub fn voice_code_path(key_value: &String) -> (r: String)
    requires
        split_on(key_value@, '/').len() >= 2,
        crate::text::contains_seq(
            split_on(key_value@, '/')[0] + seq!['/'] + split_on(key_value@, '/')[1] + seq!['/']
                + split_on(key_value@, '/')[1] + ".csv"@,
            "Names/Temp"@,
        ) ==> split_on(key_value@, '/').len() >= 3,
    ensures
        r@ == voice_code_path_spec(split_on(key_value@, '/')),
{
    let parts = split_char(key_value.as_str(), '/');
    let ghost sp = split_on(key_value@, '/');
    assert(parts@[0]@ == sp[0]);
    assert(parts@[1]@ == sp[1]);
    let mut first = String::new();
    append_string(&mut first, &parts[0]);
    push_char(&mut first, '/');
    append_string(&mut first, &parts[1]);
    push_char(&mut first, '/');
    append_string(&mut first, &parts[1]);
    crate::text::append_str(&mut first, ".csv");
    assert(first@ =~= sp[0] + seq!['/'] + sp[1] + seq!['/'] + sp[1] + ".csv"@);
    if crate::text::contains_str(first.as_str(), "Names/Temp") {
        assert(parts@[2]@ == sp[2]);
        let mut r = String::new();
        append_string(&mut r, &parts[0]);
        push_char(&mut r, '/');
        append_string(&mut r, &parts[1]);
        push_char(&mut r, '/');
        append_string(&mut r, &parts[2]);
        crate::text::append_str(&mut r, ".csv");
        assert(r@ =~= sp[0] + seq!['/'] + sp[1] + seq!['/'] + sp[2] + ".csv"@);
        r
    } else {
        first
    }
}

/// Whether a sample counts as quiet: its magnitude is below `below`.
pub open spec fn is_quiet(x: i32, below: u64) -> bool {
    (if x < 0 {
        -(x as int)
    } else {
        x as int
    }) < below
}

/// The state of the silence scan after a prefix of the samples: the runs found
/// so far, and the run being followed, if any (its first sample, and its last
/// one once it has more than one; 0 before that).
pub struct Scan {
    pub runs: Seq<(usize, usize)>,
    pub open: bool,
    pub start: usize,
    pub end: usize,
}

/// The runs found, with the run being followed added where it spans more
/// than `min_gap` samples beyond its first.
pub open spec fn close_run(st: Scan, min_gap: u64) -> Seq<(usize, usize)> {
    if st.open && st.end - st.start > min_gap {
        st.runs.push((st.start, st.end))
    } else {
        st.runs
    }
}

/// The silence scan over `raw`.
pub open spec fn scan(raw: Seq<i32>, below: u64, min_gap: u64) -> Scan
    decreases raw.len(),
{
    if raw.len() == 0 {
        Scan { runs: Seq::empty(), open: false, start: 0, end: 0 }
    } else {
        let st = scan(raw.drop_last(), below, min_gap);
        let i = (raw.len() - 1) as usize;
        if is_quiet(raw.last(), below) {
            if st.open {
                Scan { end: i, ..st }
            } else {
                Scan { open: true, start: i, end: 0, ..st }
            }
        } else {
            Scan { runs: close_run(st, min_gap), open: false, start: 0, end: 0 }
        }
    }
}

/// The silences of `raw`: the runs of quiet samples whose last index exceeds
/// their first by more than `min_gap`, as (first, last) index pairs in order.
pub open spec fn silence_runs(raw: Seq<i32>, below: u64, min_gap: u64) -> Seq<(usize, usize)> {
    close_run(scan(raw, below, min_gap), min_gap)
}

/// Finds the silences of a recording: maximal runs of samples whose magnitude
/// is below `below`, kept where the last index exceeds the first by more than
/// `min_gap`.
pub fn detect_silences(raw: &Vec<i32>, below: u64, min_gap: u64) -> (r: Vec<(usize, usize)>)
    requires
        raw.len() > 0,
        forall|i: int| 0 <= i < raw.len() ==> raw@[i] != i32::MIN,
    ensures
        r@ == silence_runs(raw@, below, min_gap),
{
    let mut runs: Vec<(usize, usize)> = Vec::new();
    let mut open = false;
    let mut start: usize = 0;
    let mut end: usize = 0;
    let mut i: usize = 0;
    while i < raw.len()
        invariant
            i <= raw.len(),
            forall|k: int| 0 <= k < raw.len() ==> raw@[k] != i32::MIN,
            (Scan { runs: runs@, open, start, end }) == scan(raw@.subrange(0, i as int), below, min_gap),
            open ==> start < i,
            open ==> end < i,
        decreases raw.len() - i,
    {
        assert(raw@.subrange(0, i + 1).drop_last() =~= raw@.subrange(0, i as int));
        let x = raw[i];
        let mag: u64 = if x < 0 {
            (-(x as i64)) as u64
        } else {
            x as u64
        };
        if mag < below {
            if open {
                end = i;
            } else {
                open = true;
                start = i;
                end = 0;
            }
        } else {
            if open && end > start && ((end - start) as u64) > min_gap {
                runs.push((start, end));
            }
            open = false;
            start = 0;
            end = 0;
        }
        i = i + 1;
    }
    assert(raw@.subrange(0, raw.len() as int) =~= raw@);
    if open && end > start && ((end - start) as u64) > min_gap {
        runs.push((start, end));
    }
    runs
}


/// Samples `s..=e` of `raw` are a silence: all quiet, not extendable on either
/// side, and the last index exceeds the first by more than `min_gap`.
pub open spec fn is_silence(raw: Seq<i32>, below: u64, min_gap: u64, s: int, e: int) -> bool {
    &&& 0 <= s < e < raw.len()
    &&& forall|k: int| s <= k <= e ==> #[trigger] is_quiet(raw[k], below)
    &&& (s == 0 || !is_quiet(raw[s - 1], below))
    &&& (e == raw.len() - 1 || !is_quiet(raw[e + 1], below))
    &&& e - s > min_gap
}

/// What the scan state says of the samples seen so far.
spec fn scan_inv(raw: Seq<i32>, below: u64, min_gap: u64, st: Scan) -> bool {
    &&& forall|i: int|
        0 <= i < st.runs.len() ==> is_silence(raw, below, min_gap, #[trigger] st.runs[i].0 as int, st.runs[i].1 as int)
            && st.runs[i].1 + 1 < raw.len()
    &&& forall|i: int, j: int|
        0 <= i < j < st.runs.len() ==> #[trigger] st.runs[i].1 < #[trigger] st.runs[j].0
    &&& if st.open {
        &&& st.start < raw.len()
        &&& forall|k: int| st.start <= k < raw.len() ==> #[trigger] is_quiet(raw[k], below)
        &&& (st.start == 0 || !is_quiet(raw[st.start - 1], below))
        &&& (st.start < raw.len() - 1 ==> st.end == raw.len() - 1)
        &&& (st.start == raw.len() - 1 ==> st.end == 0)
        &&& forall|i: int| 0 <= i < st.runs.len() ==> #[trigger] st.runs[i].1 + 1 < st.start
    } else {
        &&& st.start == 0
        &&& st.end == 0
        &&& (raw.len() == 0 || !is_quiet(raw.last(), below))
    }
}

proof fn lemma_scan_inv(raw: Seq<i32>, below: u64, min_gap: u64)
    requires
        raw.len() < usize::MAX,
    ensures
        scan_inv(raw, below, min_gap, scan(raw, below, min_gap)),
    decreases raw.len(),
{
    if raw.len() > 0 {
        let pre = raw.drop_last();
        lemma_scan_inv(pre, below, min_gap);
        let st = scan(pre, below, min_gap);
        let st2 = scan(raw, below, min_gap);
        let n = raw.len() - 1;
        assert forall|k: int| 0 <= k < pre.len() implies raw[k] == pre[k] by {}
        assert forall|i: int|
            0 <= i < st.runs.len() implies is_silence(raw, below, min_gap, #[trigger] st.runs[i].0 as int, st.runs[i].1 as int)
            && st.runs[i].1 + 1 < raw.len() by {
            let (a, b) = st.runs[i];
            assert(is_silence(pre, below, min_gap, a as int, b as int));
            assert forall|k: int| a <= k <= b implies #[trigger] is_quiet(raw[k], below) by {
                assert(is_quiet(pre[k], below));
            }
            assert(b + 1 < pre.len());
            assert(raw[b + 1] == pre[b + 1]);
        }
        if is_quiet(raw.last(), below) {
            assert(st2.runs == st.runs);
            if st.open {
                assert forall|k: int| st2.start <= k < raw.len() implies #[trigger] is_quiet(raw[k], below) by {
                    if k < n {
                        assert(is_quiet(pre[k], below));
                    }
                }
                if st.start > 0 {
                    assert(raw[st.start - 1] == pre[st.start - 1]);
                }
            } else {
                assert(st2.start == n);
                assert forall|k: int| st2.start <= k < raw.len() implies #[trigger] is_quiet(raw[k], below) by {
                    assert(k == n);
                }
                if n > 0 {
                    assert(raw[n - 1] == pre.last());
                }
                assert forall|i: int| 0 <= i < st2.runs.len() implies #[trigger] st2.runs[i].1 + 1 < st2.start by {
                    let a = st.runs[i].0;
                    assert(is_silence(pre, below, min_gap, a as int, st.runs[i].1 as int));
                }
            }
            assert(scan_inv(raw, below, min_gap, st2));
        } else {
            assert(st2.runs == close_run(st, min_gap));
            assert forall|i: int|
                0 <= i < st2.runs.len() implies is_silence(raw, below, min_gap, #[trigger] st2.runs[i].0 as int, st2.runs[i].1 as int)
                && st2.runs[i].1 + 1 < raw.len() by {
                if i < st.runs.len() {
                    assert(st2.runs[i] == st.runs[i]);
                } else {
                    let (a, b) = st2.runs[i];
                    assert(st.open);
                    assert(a == st.start && b == st.end);
                    assert(b == n - 1);
                    assert forall|k: int| a <= k <= b implies #[trigger] is_quiet(raw[k], below) by {
                        assert(is_quiet(pre[k], below));
                    }
                    if a > 0 {
                        assert(raw[a - 1] == pre[a - 1]);
                    }
                }
            }
            assert forall|i: int, j: int| 0 <= i < j < st2.runs.len() implies #[trigger] st2.runs[i].1 < #[trigger] st2.runs[j].0 by {
                if j < st.runs.len() {
                    assert(st2.runs[i] == st.runs[i]);
                    assert(st2.runs[j] == st.runs[j]);
                } else {
                    assert(st2.runs[i] == st.runs[i]);
                }
            }
            assert(scan_inv(raw, below, min_gap, st2));
        }
    }
}

/// Every reported silence is a maximal run of quiet samples that spans more
/// than `min_gap` samples beyond its first, and the silences come in order,
/// each ending before the next begins.
pub proof fn law_silences_sound(raw: Seq<i32>, below: u64, min_gap: u64)
    requires
        raw.len() < usize::MAX,
    ensures
        forall|i: int|
            0 <= i < silence_runs(raw, below, min_gap).len() ==> is_silence(
                raw,
                below,
                min_gap,
                #[trigger] silence_runs(raw, below, min_gap)[i].0 as int,
                silence_runs(raw, below, min_gap)[i].1 as int,
            ),
        forall|i: int, j: int|
            0 <= i < j < silence_runs(raw, below, min_gap).len() ==> #[trigger] silence_runs(
                raw,
                below,
                min_gap,
            )[i].1 < #[trigger] silence_runs(raw, below, min_gap)[j].0,
{
    lemma_scan_inv(raw, below, min_gap);
    let st = scan(raw, below, min_gap);
    let r = silence_runs(raw, below, min_gap);
    if st.open && st.end - st.start > min_gap {
        assert(st.end == raw.len() - 1);
        assert forall|i: int| 0 <= i < r.len() implies is_silence(
            raw,
            below,
            min_gap,
            #[trigger] r[i].0 as int,
            r[i].1 as int,
        ) by {
            if i < st.runs.len() {
                assert(r[i] == st.runs[i]);
            }
        }
        assert forall|i: int, j: int| 0 <= i < j < r.len() implies #[trigger] r[i].1 < #[trigger] r[j].0 by {
            if j < st.runs.len() {
                assert(r[i] == st.runs[i]);
                assert(r[j] == st.runs[j]);
            } else {
                assert(r[i] == st.runs[i]);
            }
        }
    }
}


/// The run `s..=e` is one of the reported runs.
pub open spec fn reported(runs: Seq<(usize, usize)>, s: int, e: int) -> bool {
    exists|i: int| 0 <= i < runs.len() && #[trigger] runs[i] == (s as usize, e as usize)
}

/// The scan's runs hold every silence that a loud sample has already closed.
proof fn lemma_scan_complete(raw: Seq<i32>, below: u64, min_gap: u64)
    requires
        raw.len() < usize::MAX,
    ensures
        forall|s: int, e: int|
            #[trigger] is_silence(raw, below, min_gap, s, e) && e + 1 < raw.len() ==> reported(
                scan(raw, below, min_gap).runs,
                s,
                e,
            ),
    decreases raw.len(),
{
    if raw.len() > 0 {
        let pre = raw.drop_last();
        lemma_scan_complete(pre, below, min_gap);
        lemma_scan_inv(pre, below, min_gap);
        let st = scan(pre, below, min_gap);
        let st2 = scan(raw, below, min_gap);
        let n = raw.len() - 1;
        assert forall|k: int| 0 <= k < pre.len() implies raw[k] == pre[k] by {}
        assert forall|s: int, e: int|
            #[trigger] is_silence(raw, below, min_gap, s, e) && e + 1 < raw.len() implies reported(st2.runs, s, e) by {
            assert(!is_quiet(raw[e + 1], below));
            if e + 1 < n {
                assert forall|k: int| s <= k <= e implies #[trigger] is_quiet(pre[k], below) by {
                    assert(is_quiet(raw[k], below));
                }
                if s > 0 {
                    assert(raw[s - 1] == pre[s - 1]);
                }
                assert(raw[e + 1] == pre[e + 1]);
                assert(is_silence(pre, below, min_gap, s, e));
                let i = choose|i: int| 0 <= i < st.runs.len() && #[trigger] st.runs[i] == (s as usize, e as usize);
                if is_quiet(raw.last(), below) {
                    assert(st2.runs == st.runs);
                } else {
                    assert(st2.runs == close_run(st, min_gap));
                    assert(st2.runs[i] == st.runs[i]);
                }
                assert(st2.runs[i] == (s as usize, e as usize));
            } else {
                assert(e == n - 1);
                assert(!is_quiet(raw.last(), below));
                assert(is_quiet(raw[e], below));
                assert(pre.last() == raw[e]);
                assert(st.open);
                if st.start < s {
                    assert(is_quiet(pre[s - 1], below));
                    assert(raw[s - 1] == pre[s - 1]);
                }
                if st.start > s {
                    assert(is_quiet(raw[st.start - 1], below));
                    assert(pre[st.start - 1] == raw[st.start - 1]);
                }
                assert(st.start == s);
                assert(st.end == e);
                assert(st2.runs == st.runs.push((st.start, st.end)));
                assert(st2.runs[st.runs.len() as int] == (s as usize, e as usize));
            }
        }
    }
}

/// Every silence of a recording is reported: a maximal run of quiet samples
/// whose last index exceeds its first by more than `min_gap` is among the
/// runs found, whether a loud sample ends it or the recording does.
pub proof fn law_silences_complete(raw: Seq<i32>, below: u64, min_gap: u64)
    requires
        raw.len() < usize::MAX,
    ensures
        forall|s: int, e: int|
            #[trigger] is_silence(raw, below, min_gap, s, e) ==> reported(
                silence_runs(raw, below, min_gap),
                s,
                e,
            ),
{
    lemma_scan_complete(raw, below, min_gap);
    lemma_scan_inv(raw, below, min_gap);
    let st = scan(raw, below, min_gap);
    let r = silence_runs(raw, below, min_gap);
    assert forall|s: int, e: int| #[trigger] is_silence(raw, below, min_gap, s, e) implies reported(r, s, e) by {
        if e + 1 < raw.len() {
            let i = choose|i: int| 0 <= i < st.runs.len() && #[trigger] st.runs[i] == (s as usize, e as usize);
            if st.open && st.end - st.start > min_gap {
                assert(r[i] == st.runs[i]);
            }
            assert(r[i] == (s as usize, e as usize));
        } else {
            assert(e == raw.len() - 1);
            assert(is_quiet(raw[e], below));
            assert(st.open);
            if st.start < s {
                assert(is_quiet(raw[s - 1], below));
            }
            if st.start > s {
                assert(is_quiet(raw[st.start - 1], below));
            }
            assert(st.start == s);
            assert(st.end == e);
            assert(r == st.runs.push((st.start, st.end)));
            assert(r[st.runs.len() as int] == (s as usize, e as usize));
        }
    }
}

/// Index `i` lies in one of the (first, last) ranges.
pub open spec fn in_some_range(ranges: Seq<(usize, usize)>, i: int) -> bool {
    exists|j: int| 0 <= j < ranges.len() && #[trigger] ranges[j].0 <= i <= ranges[j].1
}

/// The samples of `raw` whose index lies in none of the ranges, in order.
pub open spec fn kept_samples(raw: Seq<i32>, ranges: Seq<(usize, usize)>) -> Seq<i32>
    decreases raw.len(),
{
    if raw.len() == 0 {
        Seq::empty()
    } else {
        kept_samples(raw.drop_last(), ranges) + if in_some_range(ranges, raw.len() - 1) {
            Seq::<i32>::empty()
        } else {
            seq![raw.last()]
        }
    }
}

/// Drops the samples whose index lies in one of the ranges.
pub fn keep_unmarked(raw: &Vec<i32>, ranges: &Vec<(usize, usize)>) -> (r: Vec<i32>)
    ensures
        r@ == kept_samples(raw@, ranges@),
{
    let mut r: Vec<i32> = Vec::new();
    let mut i: usize = 0;
    while i < raw.len()
        invariant
            i <= raw.len(),
            r@ == kept_samples(raw@.subrange(0, i as int), ranges@),
        decreases raw.len() - i,
    {
        let mut marked = false;
        let mut j: usize = 0;
        while j < ranges.len()
            invariant
                j <= ranges.len(),
                i < raw.len(),
                marked == exists|k: int| 0 <= k < j && #[trigger] ranges@[k].0 <= i <= ranges@[k].1,
            decreases ranges.len() - j,
        {
            if ranges[j].0 <= i && i <= ranges[j].1 {
                marked = true;
            }
            j = j + 1;
        }
        assert(raw@.subrange(0, i + 1).drop_last() =~= raw@.subrange(0, i as int));
        if !marked {
            r.push(raw[i]);
        }
        i = i + 1;
        assert(r@ =~= kept_samples(raw@.subrange(0, i as int), ranges@));
    }
    assert(raw@.subrange(0, raw.len() as int) =~= raw@);
    r
}

/// Every index visited from `idx` in steps of `ch` below `end` is a sample
/// of a recording of `len` samples.
pub open spec fn frames_in_bounds(len: nat, idx: nat, end: nat, ch: nat) -> bool
    decreases (if idx < end { end - idx } else { 0 }),
{
    if ch == 0 || idx >= end {
        true
    } else {
        idx < len && frames_in_bounds(len, idx + ch, end, ch)
    }
}

/// The samples written for a segment: from `idx` in steps of `ch` while
/// below `end`, each sample written `ch` times.
pub open spec fn frames(s: Seq<i32>, idx: nat, end: nat, ch: nat) -> Seq<i32>
    decreases (if idx < end { end - idx } else { 0 }),
{
    if ch == 0 || idx >= end {
        Seq::empty()
    } else {
        Seq::new(ch, |k: int| s[idx as int]) + frames(s, idx + ch, end, ch)
    }
}

/// Whether every index the segment `start..end` visits in steps of
/// `channels` is a sample of `samples`.
pub fn segment_in_bounds(len: usize, start: usize, end: usize, channels: usize) -> (b: bool)
    requires
        channels > 0,
        len + channels <= usize::MAX,
    ensures
        b == frames_in_bounds(len as nat, start as nat, end as nat, channels as nat),
{
    let mut idx = start;
    while idx < end
        invariant
            channels > 0,
            len + channels <= usize::MAX,
            frames_in_bounds(len as nat, start as nat, end as nat, channels as nat)
                == frames_in_bounds(len as nat, idx as nat, end as nat, channels as nat),
        decreases (if idx < end { end - idx } else { 0 }),
    {
        if idx >= len {
            return false;
        }
        idx = idx + channels;
    }
    true
}

/// The samples to write for the segment `start..end` of a recording with
/// `channels` channels: every `channels`-th sample, each written once per
/// channel.
pub fn frame_samples(samples: &Vec<i32>, start: usize, end: usize, channels: usize) -> (r: Vec<i32>)
    requires
        channels > 0,
        samples.len() + channels <= usize::MAX,
        frames_in_bounds(samples.len() as nat, start as nat, end as nat, channels as nat),
    ensures
        r@ == frames(samples@, start as nat, end as nat, channels as nat),
{
    let mut r: Vec<i32> = Vec::new();
    let mut idx = start;
    while idx < end
        invariant
            channels > 0,
            samples.len() + channels <= usize::MAX,
            frames_in_bounds(samples.len() as nat, idx as nat, end as nat, channels as nat),
            r@ + frames(samples@, idx as nat, end as nat, channels as nat) == frames(
                samples@,
                start as nat,
                end as nat,
                channels as nat,
            ),
        decreases (if idx < end { end - idx } else { 0 }),
    {
        let x = samples[idx];
        let ghost before = r@;
        let mut k: usize = 0;
        while k < channels
            invariant
                k <= channels,
                r@ == before + Seq::new(k as nat, |q: int| x),
            decreases channels - k,
        {
            r.push(x);
            k = k + 1;
            assert(r@ =~= before + Seq::new(k as nat, |q: int| x));
        }
        assert(Seq::new(channels as nat, |q: int| x) =~= Seq::new(channels as nat, |q: int| samples@[idx as int]));
        assert(r@ + frames(samples@, (idx + channels) as nat, end as nat, channels as nat) =~= before + frames(
            samples@,
            idx as nat,
            end as nat,
            channels as nat,
        ));
        idx = idx + channels;
    }
    assert(r@ =~= r@ + frames(samples@, idx as nat, end as nat, channels as nat));
    r
}

pub proof fn lemma_frames_in_bounds_full(len: nat, idx: nat, ch: nat)
    requires
        ch > 0,
    ensures
        frames_in_bounds(len, idx, len, ch),
    decreases (if idx < len { len - idx } else { 0 }),
{
    if idx < len {
        lemma_frames_in_bounds_full(len, idx + ch, ch);
    }
}

pub proof fn lemma_kept_len(raw: Seq<i32>, ranges: Seq<(usize, usize)>)
    ensures
        kept_samples(raw, ranges).len() <= raw.len(),
    decreases raw.len(),
{
    if raw.len() > 0 {
        lemma_kept_len(raw.drop_last(), ranges);
    }
}

/// The samples a recording keeps once its silences are removed: where there are
/// ranges, the samples outside them, each `channels`-th written once per
/// channel; where there are none, the recording as it is.
pub open spec fn silence_removed(raw: Seq<i32>, ranges: Seq<(usize, usize)>, channels: nat) -> Seq<i32> {
    if ranges.len() > 0 {
        frames(kept_samples(raw, ranges), 0, kept_samples(raw, ranges).len(), channels)
    } else {
        raw
    }
}

/// The samples to write back once the given silent ranges are removed.
pub fn silence_removed_samples(raw: &Vec<i32>, ranges: &Vec<(usize, usize)>, channels: usize) -> (r: Vec<i32>)
    requires
        raw.len() > 0,
        channels > 0,
        raw.len() + channels <= usize::MAX,
    ensures
        r@ == silence_removed(raw@, ranges@, channels as nat),
{
    if ranges.len() > 0 {
        let kept = keep_unmarked(raw, ranges);
        proof {
            lemma_kept_len(raw@, ranges@);
            lemma_frames_in_bounds_full(kept.len() as nat, 0, channels as nat);
        }
        frame_samples(&kept, 0, kept.len(), channels)
    } else {
        let mut r: Vec<i32> = Vec::new();
        let mut i: usize = 0;
        while i < raw.len()
            invariant
                i <= raw.len(),
                r@ == raw@.subrange(0, i as int),
            decreases raw.len() - i,
        {
            r.push(raw[i]);
            i = i + 1;
            assert(r@ =~= raw@.subrange(0, i as int));
        }
        assert(r@ =~= raw@);
        r
    }
}

/// The wall clock of the machine, as std's `SystemTime`.
#[verifier::external_type_specification]
#[verifier::external_body]
pub struct ExSystemTime(std::time::SystemTime);

/// Reads the wall clock with `std::time::SystemTime::now`. Nothing is
/// claimed of the value: it depends on the machine and the moment.
#[verifier::external_body]
fn clock_now() -> (t: std::time::SystemTime) {
    std::time::SystemTime::now()
}

/// `SystemTime::duration_since(UNIX_EPOCH)`, with its error (a clock set
/// before the epoch) turned into `None`. Nothing is claimed of the
/// duration: it depends on the clock reading it is handed.
#[verifier::external_body]
fn since_unix_epoch(t: &std::time::SystemTime) -> (d: Option<core::time::Duration>) {
    t.duration_since(std::time::UNIX_EPOCH).ok()
}

/// `Duration::as_secs`: the whole seconds of a duration. Nothing is claimed
/// of the value, as the duration is opaque here.
#[verifier::external_body]
fn duration_secs(d: &core::time::Duration) -> (secs: u64) {
    d.as_secs()
}

/// `Duration::subsec_nanos`: the nanoseconds past the whole seconds, which
/// std documents as always under one second.
#[verifier::external_body]
fn duration_subsec_nanos(d: &core::time::Duration) -> (nanos: u32)
    ensures
        nanos < 1_000_000_000,
{
    d.subsec_nanos()
}

/// The whole milliseconds of a duration of `secs` seconds and `nanos`
/// nanoseconds, as `Duration::as_millis` counts them.
pub open spec fn millis_of(secs: u64, nanos: u32) -> int {
    secs * 1000 + nanos / 1_000_000
}

/// The whole milliseconds of a duration of `secs` seconds and `nanos`
/// nanoseconds (under one second).
pub fn duration_millis(secs: u64, nanos: u32) -> (ms: u128)
    requires
        nanos < 1_000_000_000,
    ensures
        ms == millis_of(secs, nanos),
{
    (secs as u128) * 1000 + ((nanos / 1_000_000) as u128)
}

/// Milliseconds since the Unix epoch by the wall clock: the whole
/// milliseconds of the time since the epoch, `None` where the clock is set
/// before the epoch. The reading itself depends on the machine and the moment.
pub fn get_system_time() -> (ms: Option<u128>)
    ensures
        ms matches Some(v) ==> v < (u64::MAX as int + 1) * 1000,
{
    let now = clock_now();
    match since_unix_epoch(&now) {
        Some(d) => {
            let secs = duration_secs(&d);
            let nanos = duration_subsec_nanos(&d);
            Some(duration_millis(secs, nanos))
        },
        None => None,
    }
}

} // verus!
