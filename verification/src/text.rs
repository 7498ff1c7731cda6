use vstd::prelude::*;

verus! {

/// The characters that carry Unicode's `White_Space` property, which is what
/// `char::is_whitespace` (and so `str::split_whitespace`) tests.
pub open spec fn spec_is_whitespace(c: char) -> bool {
    let u = c as u32;
    ||| 0x09 <= u <= 0x0d
    ||| u == 0x20
    ||| u == 0x85
    ||| u == 0xa0
    ||| u == 0x1680
    ||| 0x2000 <= u <= 0x200a
    ||| u == 0x2028
    ||| u == 0x2029
    ||| u == 0x202f
    ||| u == 0x205f
    ||| u == 0x3000
}

/// Whether `c` is Unicode white space.
pub fn is_whitespace(c: char) -> (r: bool)
    ensures
        r == spec_is_whitespace(c),
{
    let u = c as u32;
    (0x09 <= u && u <= 0x0d) || u == 0x20 || u == 0x85 || u == 0xa0 || u == 0x1680 || (0x2000
        <= u && u <= 0x200a) || u == 0x2028 || u == 0x2029 || u == 0x202f || u == 0x205f || u
        == 0x3000
}

/// Position `i` of `s` starts a word: it is not white space and either opens
/// the text or follows white space.
pub open spec fn starts_word(s: Seq<char>, i: int) -> bool {
    &&& !spec_is_whitespace(s[i])
    &&& (i == 0 || spec_is_whitespace(s[i - 1]))
}

/// The number of words of `s`, a word being a maximal run of characters that
/// are not white space.
pub open spec fn word_count(s: Seq<char>) -> nat
    decreases s.len(),
{
    if s.len() == 0 {
        0
    } else {
        word_count(s.drop_last()) + if starts_word(s, s.len() - 1) {
            1nat
        } else {
            0nat
        }
    }
}

/// The characters of `s`, in order.
pub fn chars_of(s: &str) -> (v: Vec<char>)
    ensures
        v@ == s@,
{
    let n = s.unicode_len();
    let mut v: Vec<char> = Vec::new();
    let mut i: usize = 0;
    while i < n
        invariant
            n == s@.len(),
            i <= n,
            v@ == s@.subrange(0, i as int),
        decreases n - i,
    {
        let c = s.get_char(i);
        v.push(c);
        i = i + 1;
        assert(v@ =~= s@.subrange(0, i as int));
    }
    assert(v@ =~= s@);
    v
}

/// Counts the words of a transcript, as `split_whitespace` delimits them.
pub fn count_words(transcript: String) -> (n: usize)
    ensures
        n == word_count(transcript@),
{
    let cs = chars_of(transcript.as_str());
    let mut n: usize = 0;
    let mut i: usize = 0;
    while i < cs.len()
        invariant
            cs@ == transcript@,
            i <= cs.len(),
            n == word_count(cs@.subrange(0, i as int)),
            n <= i,
        decreases cs.len() - i,
    {
        let ghost pre = cs@.subrange(0, i as int);
        let ghost next = cs@.subrange(0, i + 1);
        assert(next.drop_last() =~= pre);
        let start = !is_whitespace(cs[i]) && (i == 0 || is_whitespace(cs[i - 1]));
        assert(start == starts_word(next, i as int));
        if start {
            n = n + 1;
        }
        i = i + 1;
    }
    assert(cs@.subrange(0, cs.len() as int) =~= cs@);
    n
}


/// Appends one character to a string (`String::push`).
#[verifier::external_body]
pub(crate) fn push_char(s: &mut String, c: char)
    ensures
        final(s)@ == old(s)@.push(c),
{
    s.push(c)
}

/// The string whose characters are `cs`.
pub fn string_of(cs: &Vec<char>) -> (s: String)
    ensures
        s@ == cs@,
{
    let mut s = String::new();
    let mut i: usize = 0;
    while i < cs.len()
        invariant
            i <= cs.len(),
            s@ == cs@.subrange(0, i as int),
        decreases cs.len() - i,
    {
        push_char(&mut s, cs[i]);
        i = i + 1;
        assert(s@ =~= cs@.subrange(0, i as int));
    }
    assert(cs@.subrange(0, cs.len() as int) =~= cs@);
    s
}

/// The pieces of `s` between occurrences of `sep`, empty pieces included, as
/// `str::split` gives them for a one-character pattern.
pub open spec fn split_on(s: Seq<char>, sep: char) -> Seq<Seq<char>>
    decreases s.len(),
{
    if s.len() == 0 {
        seq![Seq::empty()]
    } else {
        let prev = split_on(s.drop_last(), sep);
        if s.last() == sep {
            prev.push(Seq::empty())
        } else {
            prev.update(prev.len() - 1, prev.last().push(s.last()))
        }
    }
}

pub proof fn lemma_split_nonempty(s: Seq<char>, sep: char)
    ensures
        split_on(s, sep).len() >= 1,
    decreases s.len(),
{
    if s.len() > 0 {
        lemma_split_nonempty(s.drop_last(), sep);
    }
}

/// Pieces joined with `sep` between each two.
pub open spec fn join_sep(ps: Seq<Seq<char>>, sep: char) -> Seq<char>
    decreases ps.len(),
{
    if ps.len() == 0 {
        Seq::empty()
    } else if ps.len() == 1 {
        ps[0]
    } else {
        join_sep(ps.drop_last(), sep) + seq![sep] + ps.last()
    }
}

/// Splitting at a character loses nothing: the pieces, joined again with
/// that character, give the text back, and no piece holds the character.
pub proof fn law_split_join(s: Seq<char>, sep: char)
    ensures
        join_sep(split_on(s, sep), sep) == s,
        forall|i: int| 0 <= i < split_on(s, sep).len() ==> !(#[trigger] split_on(s, sep)[i]).contains(sep),
    decreases s.len(),
{
    if s.len() > 0 {
        let t = s.drop_last();
        let c = s.last();
        law_split_join(t, sep);
        lemma_split_nonempty(t, sep);
        let prev = split_on(t, sep);
        let cur = split_on(s, sep);
        if c == sep {
            assert(cur.drop_last() =~= prev);
            assert(join_sep(cur, sep) =~= s);
            assert forall|i: int| 0 <= i < cur.len() implies !(#[trigger] cur[i]).contains(sep) by {
                if i < prev.len() {
                    assert(cur[i] == prev[i]);
                } else {
                    assert(cur[i] =~= Seq::<char>::empty());
                }
            }
        } else {
            let last = prev.last();
            assert(s =~= t.push(c));
            if prev.len() == 1 {
                assert(cur.len() == 1);
                assert(cur[0] == prev[0].push(c));
                assert(join_sep(prev, sep) == prev[0]);
                assert(join_sep(cur, sep) =~= s);
            } else {
                assert(cur.drop_last() =~= prev.drop_last());
                assert(join_sep(prev, sep) == join_sep(prev.drop_last(), sep) + seq![sep] + last);
                assert(join_sep(cur, sep) =~= s);
            }
            assert forall|i: int| 0 <= i < cur.len() implies !(#[trigger] cur[i]).contains(sep) by {
                if i < prev.len() - 1 {
                    assert(cur[i] == prev[i]);
                } else {
                    assert(cur[i] == last.push(c));
                    assert(!prev[prev.len() - 1].contains(sep));
                    if last.push(c).contains(sep) {
                        let j = choose|j: int| 0 <= j < last.push(c).len() && last.push(c)[j] == sep;
                        assert(last.contains(sep) || j == last.len()) by {
                            if j < last.len() {
                                assert(last[j] == sep);
                            }
                        }
                    }
                }
            }
        }
    }
}

/// The views of a sequence of strings.
pub open spec fn views(v: Seq<String>) -> Seq<Seq<char>> {
    v.map_values(|x: String| x@)
}

/// Splits `s` at every occurrence of `sep`.
pub fn split_char(s: &str, sep: char) -> (parts: Vec<String>)
    ensures
        views(parts@) == split_on(s@, sep),
{
    let cs = chars_of(s);
    let mut parts: Vec<String> = Vec::new();
    let mut cur = String::new();
    let mut i: usize = 0;
    proof {
        assert(cs@.subrange(0, 0) =~= Seq::<char>::empty());
        assert(views(parts@).push(cur@) =~= split_on(cs@.subrange(0, 0), sep));
    }
    while i < cs.len()
        invariant
            cs@ == s@,
            i <= cs.len(),
            views(parts@).push(cur@) == split_on(cs@.subrange(0, i as int), sep),
        decreases cs.len() - i,
    {
        let c = cs[i];
        let ghost pre = cs@.subrange(0, i as int);
        assert(cs@.subrange(0, i + 1).drop_last() =~= pre);
        if c == sep {
            let done = cur;
            parts.push(done);
            cur = String::new();
            assert(views(parts@).push(cur@) =~= split_on(pre, sep).push(Seq::empty()));
        } else {
            push_char(&mut cur, c);
            proof {
                lemma_split_nonempty(pre, sep);
            }
            assert(views(parts@).push(cur@) =~= split_on(pre, sep).update(
                split_on(pre, sep).len() - 1,
                split_on(pre, sep).last().push(c),
            ));
        }
        i = i + 1;
    }
    assert(cs@.subrange(0, cs.len() as int) =~= cs@);
    let ghost before = views(parts@);
    parts.push(cur);
    assert(views(parts@) =~= before.push(parts@.last()@));
    parts
}


/// Appends the characters of `t` to `s`.
pub fn append_str(s: &mut String, t: &str)
    ensures
        final(s)@ == old(s)@ + t@,
{
    let cs = chars_of(t);
    let mut i: usize = 0;
    while i < cs.len()
        invariant
            i <= cs.len(),
            cs@ == t@,
            s@ == old(s)@ + cs@.subrange(0, i as int),
        decreases cs.len() - i,
    {
        push_char(s, cs[i]);
        i = i + 1;
        assert(s@ =~= old(s)@ + cs@.subrange(0, i as int));
    }
    assert(cs@.subrange(0, cs.len() as int) =~= cs@);
}

/// `t` occurs in `s` starting at position `i`.
pub open spec fn occurs_at(s: Seq<char>, t: Seq<char>, i: int) -> bool {
    0 <= i && i + t.len() <= s.len() && s.subrange(i, i + t.len()) == t
}

/// `t` occurs somewhere in `s`.
pub open spec fn contains_seq(s: Seq<char>, t: Seq<char>) -> bool {
    exists|i: int| occurs_at(s, t, i)
}

/// Whether `t` occurs at position `i` of `s`.
fn matches_at(s: &Vec<char>, t: &Vec<char>, i: usize) -> (r: bool)
    requires
        i + t.len() <= s.len(),
    ensures
        r == occurs_at(s@, t@, i as int),
{
    let mut j: usize = 0;
    while j < t.len()
        invariant
            j <= t.len(),
            i + t.len() <= s.len(),
            forall|k: int| 0 <= k < j ==> s@[i + k] == t@[k],
        decreases t.len() - j,
    {
        if s[i + j] != t[j] {
            assert(s@.subrange(i as int, i + t.len())[j as int] != t@[j as int]);
            return false;
        }
        j = j + 1;
    }
    assert(s@.subrange(i as int, i + t.len()) =~= t@);
    true
}

/// Whether `t` occurs in `s` (`str::contains`).
pub fn contains_str(s: &str, t: &str) -> (r: bool)
    ensures
        r == contains_seq(s@, t@),
{
    let sc = chars_of(s);
    let tc = chars_of(t);
    if tc.len() > sc.len() {
        assert forall|i: int| !occurs_at(s@, t@, i) by {}
        return false;
    }
    let last = sc.len() - tc.len();
    let mut i: usize = 0;
    while i < last
        invariant
            last == sc.len() - tc.len(),
            tc.len() <= sc.len(),
            i <= last,
            sc@ == s@,
            tc@ == t@,
            forall|k: int| 0 <= k < i ==> !occurs_at(s@, t@, k),
        decreases last - i,
    {
        if matches_at(&sc, &tc, i) {
            return true;
        }
        i = i + 1;
    }
    if matches_at(&sc, &tc, last) {
        return true;
    }
    assert forall|k: int| !occurs_at(s@, t@, k) by {
        if 0 <= k < i {
        }
    }
    false
}


/// `s` without the characters that occur in `set`.
pub open spec fn strip(s: Seq<char>, set: Seq<char>) -> Seq<char>
    decreases s.len(),
{
    if s.len() == 0 {
        s
    } else {
        strip(s.drop_last(), set) + if set.contains(s.last()) {
            Seq::<char>::empty()
        } else {
            seq![s.last()]
        }
    }
}

/// Removes every character of `set` from `s` (`str::replace` with a slice of
/// characters and an empty replacement).
pub fn strip_chars(s: &str, set: &Vec<char>) -> (r: String)
    ensures
        r@ == strip(s@, set@),
{
    let cs = chars_of(s);
    let mut r = String::new();
    let mut i: usize = 0;
    while i < cs.len()
        invariant
            i <= cs.len(),
            cs@ == s@,
            r@ == strip(cs@.subrange(0, i as int), set@),
        decreases cs.len() - i,
    {
        let c = cs[i];
        let mut found = false;
        let mut j: usize = 0;
        while j < set.len()
            invariant
                j <= set.len(),
                found == exists|k: int| 0 <= k < j && set@[k] == c,
            decreases set.len() - j,
        {
            if set[j] == c {
                found = true;
            }
            j = j + 1;
        }
        assert(found == set@.contains(c));
        assert(cs@.subrange(0, i + 1).drop_last() =~= cs@.subrange(0, i as int));
        if !found {
            push_char(&mut r, c);
        }
        i = i + 1;
        assert(r@ =~= strip(cs@.subrange(0, i as int), set@));
    }
    assert(cs@.subrange(0, cs.len() as int) =~= cs@);
    r
}

/// What `str::to_lowercase` gives for a text: its full Unicode lowercase
/// mapping, which depends on the text alone.
pub uninterp spec fn lowercase(s: Seq<char>) -> Seq<char>;

/// Calls `str::to_lowercase`. The contract names the result `lowercase(s@)`
/// and says nothing else of it.
#[verifier::external_body]
pub(crate) fn to_lowercase(s: &str) -> (r: String)
    ensures
        r@ == lowercase(s@),
{
    s.to_lowercase()
}

/// The last-but-one line of a response (`split("\n")`), where the recogniser
/// puts its result.
pub fn whisper_result_line(response: &str) -> (r: String)
    requires
        split_on(response@, '\n').len() >= 2,
    ensures
        r@ == split_on(response@, '\n')[split_on(response@, '\n').len() - 2],
{
    let lines = split_char(response, '\n');
    let n = lines.len();
    assert(lines@[n - 2]@ == split_on(response@, '\n')[n - 2]);
    lines[n - 2].clone()
}

/// What the recogniser's result line holds, read by `serde_json` as an array
/// of JSON values: `None` where it is not such an array, `Some(None)` for an
/// empty array, and otherwise the JSON text `serde_json::to_string` writes for
/// its last element.
pub uninterp spec fn json_array_last_text(line: Seq<char>) -> Option<Option<Seq<char>>>;

/// The views of a nested optional string.
pub open spec fn opt_opt_view(r: Option<Option<String>>) -> Option<Option<Seq<char>>> {
    match r {
        Some(Some(t)) => Some(Some(t@)),
        Some(None) => Some(None),
        None => None,
    }
}

/// Parses a line with `serde_json::from_str` into a vector of
/// `serde_json::Value`, and writes its last element back with
/// `serde_json::to_string` (which cannot fail on a parsed value). The contract
/// names the result `json_array_last_text(line@)` and says nothing else of it.
#[verifier::external_body]
fn json_last_element(line: &str) -> (r: Option<Option<String>>)
    ensures
        opt_opt_view(r) == json_array_last_text(line@),
{
    match serde_json::from_str::<Vec<serde_json::Value>>(line) {
        Ok(items) => Some(items.last().map(|v| serde_json::to_string(v).unwrap())),
        Err(_) => None,
    }
}

/// The recogniser's last result: the JSON text of the last element of the
/// array on the last-but-one line of its answer, lowercased where asked;
/// `None` where that line is no JSON array, `Some(None)` where the array is
/// empty.
pub fn whisper_last_result(response: &str, lower: bool) -> (r: Option<Option<String>>)
    requires
        split_on(response@, '\n').len() >= 2,
    ensures
        opt_opt_view(r) == match json_array_last_text(
            split_on(response@, '\n')[split_on(response@, '\n').len() - 2],
        ) {
            Some(Some(t)) => Some(Some(if lower { lowercase(t) } else { t })),
            other => other,
        },
{
    let line = whisper_result_line(response);
    match json_last_element(line.as_str()) {
        Some(Some(t)) => {
            if lower {
                Some(Some(to_lowercase(t.as_str())))
            } else {
                Some(Some(t))
            }
        },
        Some(None) => Some(None),
        None => None,
    }
}

/// The punctuation dropped from a recognised transcript before it is compared.
pub open spec fn transcript_punctuation() -> Seq<char> {
    seq![' ', '(', ')', ',', '"', '.', ';', ':', '\'']
}

/// A recognised transcript matches an expected one when, without spaces and
/// that punctuation, and lowercased, it equals the lowercased `hi` followed
/// by the expected text.
pub open spec fn transcript_matches_spec(recognised: Seq<char>, expected: Seq<char>) -> bool {
    lowercase(strip(recognised, transcript_punctuation())) == lowercase("hi"@ + expected)
}

/// Whether the transcript recognised from a recording matches the one the
/// worker was asked to read.
pub fn transcript_matches(recognised: &str, expected: &str) -> (r: bool)
    ensures
        r == transcript_matches_spec(recognised@, expected@),
{
    let set: Vec<char> = vec![' ', '(', ')', ',', '"', '.', ';', ':', '\''];
    assert(set@ =~= transcript_punctuation());
    let stripped = strip_chars(recognised, &set);
    let normalized = to_lowercase(stripped.as_str());
    let mut hi = String::new();
    append_str(&mut hi, "hi");
    append_str(&mut hi, expected);
    let target = to_lowercase(hi.as_str());
    normalized == target
}


/// The pieces of `s` between the non-overlapping occurrences of `p`, found from
/// the left, as `str::split` gives them for a string pattern.
pub open spec fn split_str(s: Seq<char>, p: Seq<char>) -> Seq<Seq<char>>
    decreases s.len(),
{
    if p.len() == 0 || s.len() < p.len() {
        seq![s]
    } else if s.subrange(0, p.len() as int) == p {
        seq![Seq::<char>::empty()] + split_str(s.subrange(p.len() as int, s.len() as int), p)
    } else {
        let rest = split_str(s.subrange(1, s.len() as int), p);
        rest.update(0, seq![s[0]] + rest[0])
    }
}

pub proof fn lemma_split_str_nonempty(s: Seq<char>, p: Seq<char>)
    ensures
        split_str(s, p).len() >= 1,
    decreases s.len(),
{
    if p.len() == 0 || s.len() < p.len() {
    } else if s.subrange(0, p.len() as int) == p {
        lemma_split_str_nonempty(s.subrange(p.len() as int, s.len() as int), p);
    } else {
        lemma_split_str_nonempty(s.subrange(1, s.len() as int), p);
    }
}

/// The pieces of `parts` with `pre` put in front of the first one.
pub open spec fn prefix_first(parts: Seq<Seq<char>>, pre: Seq<char>) -> Seq<Seq<char>> {
    parts.update(0, pre + parts[0])
}

/// The characters of `cs` from `a` up to `b`, as a string.
fn substring_of(cs: &Vec<char>, a: usize, b: usize) -> (r: String)
    requires
        a <= b <= cs.len(),
    ensures
        r@ == cs@.subrange(a as int, b as int),
{
    let mut r = String::new();
    let mut i = a;
    while i < b
        invariant
            a <= i <= b,
            b <= cs.len(),
            r@ == cs@.subrange(a as int, i as int),
        decreases b - i,
    {
        push_char(&mut r, cs[i]);
        i = i + 1;
        assert(r@ =~= cs@.subrange(a as int, i as int));
    }
    r
}

/// Splits `s` at every non-overlapping occurrence of the pattern `p`.
pub fn split_pattern(s: &str, p: &str) -> (parts: Vec<String>)
    ensures
        views(parts@) == split_str(s@, p@),
{
    let cs = chars_of(s);
    let ps = chars_of(p);
    let n = cs.len();
    let m = ps.len();
    let mut parts: Vec<String> = Vec::new();
    if m == 0 || n < m {
        let whole = substring_of(&cs, 0, n);
        assert(cs@.subrange(0, n as int) =~= s@);
        parts.push(whole);
        assert(views(parts@) =~= seq![s@]);
        return parts;
    }
    let mut seg: usize = 0;
    let mut i: usize = 0;
    proof {
        lemma_split_str_nonempty(s@, p@);
        assert(cs@.skip(0) =~= cs@);
        assert(prefix_first(split_str(cs@.skip(0), p@), cs@.subrange(0, 0)) =~= split_str(s@, p@));
        assert(views(parts@) =~= Seq::<Seq<char>>::empty());
        assert(views(parts@) + prefix_first(split_str(cs@.skip(0), p@), cs@.subrange(0, 0))
            =~= split_str(s@, p@));
    }
    while i <= n - m
        invariant
            cs@ == s@,
            ps@ == p@,
            n == cs.len(),
            m == ps.len(),
            m > 0,
            m <= n,
            seg <= i <= n,
            views(parts@) + prefix_first(split_str(cs@.skip(i as int), p@), cs@.subrange(seg as int, i as int))
                == split_str(s@, p@),
        decreases n - i,
    {
        let ghost rest = cs@.skip(i as int);
        let ghost pre = cs@.subrange(seg as int, i as int);
        assert(rest.len() >= m);
        if matches_at(&cs, &ps, i) {
            assert(rest.subrange(0, m as int) =~= cs@.subrange(i as int, i + m));
            assert(rest.subrange(m as int, rest.len() as int) =~= cs@.skip(i + m));
            proof {
                lemma_split_str_nonempty(cs@.skip(i + m), p@);
            }
            let piece = substring_of(&cs, seg, i);
            let ghost before = views(parts@);
            parts.push(piece);
            assert(views(parts@) =~= before.push(pre));
            i = i + m;
            seg = i;
            assert(prefix_first(split_str(rest, p@), pre) =~= seq![pre] + prefix_first(
                split_str(cs@.skip(i as int), p@),
                cs@.subrange(seg as int, i as int),
            ));
            assert(views(parts@) + prefix_first(split_str(cs@.skip(i as int), p@), cs@.subrange(seg as int, i as int))
                =~= before + prefix_first(split_str(rest, p@), pre));
        } else {
            assert(rest.subrange(0, m as int) != p@) by {
                assert(rest.subrange(0, m as int) =~= cs@.subrange(i as int, i + m));
            }
            assert(rest.subrange(1, rest.len() as int) =~= cs@.skip(i + 1));
            proof {
                lemma_split_str_nonempty(cs@.skip(i + 1), p@);
                let rest2 = split_str(cs@.skip(i + 1), p@);
                assert(split_str(rest, p@) == rest2.update(0, seq![rest[0]] + rest2[0]));
                assert(cs@.subrange(seg as int, i + 1) =~= pre + seq![rest[0]]);
                assert(pre + (seq![rest[0]] + rest2[0]) =~= (pre + seq![rest[0]]) + rest2[0]);
            }
            assert(prefix_first(split_str(rest, p@), pre) =~= prefix_first(
                split_str(cs@.skip(i + 1), p@),
                cs@.subrange(seg as int, i + 1),
            ));
            i = i + 1;
        }
    }
    let ghost rest = cs@.skip(i as int);
    assert(split_str(rest, p@) == seq![rest]);
    let last = substring_of(&cs, seg, n);
    let ghost before = views(parts@);
    parts.push(last);
    assert(cs@.subrange(seg as int, i as int) + rest =~= cs@.subrange(seg as int, n as int));
    assert(views(parts@) =~= before + prefix_first(split_str(rest, p@), cs@.subrange(seg as int, i as int)));
    parts
}

/// The sentences of a transcript piece list: the non-empty pieces, each with a
/// full stop put back.
pub open spec fn sentences_of(parts: Seq<Seq<char>>) -> Seq<Seq<char>>
    decreases parts.len(),
{
    if parts.len() == 0 {
        Seq::empty()
    } else {
        sentences_of(parts.drop_last()) + if parts.last().len() == 0 {
            Seq::<Seq<char>>::empty()
        } else {
            seq![parts.last() + seq!['.']]
        }
    }
}

/// Splits a transcript into sentences at `". "`, dropping empty pieces and
/// ending each sentence with a full stop.
pub fn split_sentences(transcript: &str) -> (r: Vec<String>)
    ensures
        views(r@) == sentences_of(split_str(transcript@, ". "@)),
{
    let parts = split_pattern(transcript, ". ");
    let mut r: Vec<String> = Vec::new();
    let mut i: usize = 0;
    while i < parts.len()
        invariant
            i <= parts.len(),
            views(parts@) == split_str(transcript@, ". "@),
            views(r@) == sentences_of(views(parts@).subrange(0, i as int)),
        decreases parts.len() - i,
    {
        assert(views(parts@).subrange(0, i + 1).drop_last() =~= views(parts@).subrange(0, i as int));
        let piece = &parts[i];
        let cs = chars_of(piece.as_str());
        if cs.len() > 0 {
            let mut sentence = piece.clone();
            push_char(&mut sentence, '.');
            let ghost before = views(r@);
            assert(sentence@ =~= parts@[i as int]@ + seq!['.']);
            r.push(sentence);
            assert(views(r@) =~= before.push(parts@[i as int]@ + seq!['.']));
        }
        i = i + 1;
        assert(views(r@) =~= sentences_of(views(parts@).subrange(0, i as int)));
    }
    assert(views(parts@).subrange(0, parts.len() as int) =~= views(parts@));
    r
}


/// A text whose last character is not white space has at least one word.
pub proof fn lemma_word_count_pos(s: Seq<char>)
    requires
        s.len() > 0,
        !spec_is_whitespace(s.last()),
    ensures
        word_count(s) >= 1,
    decreases s.len(),
{
    if !starts_word(s, s.len() - 1) {
        let t = s.drop_last();
        assert(t.last() == s[s.len() - 2]);
        lemma_word_count_pos(t);
    }
}

/// Every sentence of a transcript has at least one word (its full stop at
/// least).
pub proof fn law_sentences_have_words(parts: Seq<Seq<char>>)
    ensures
        forall|k: int|
            0 <= k < sentences_of(parts).len() ==> #[trigger] word_count(sentences_of(parts)[k]) >= 1,
    decreases parts.len(),
{
    if parts.len() > 0 {
        law_sentences_have_words(parts.drop_last());
        let prev = sentences_of(parts.drop_last());
        let cur = sentences_of(parts);
        assert forall|k: int| 0 <= k < cur.len() implies #[trigger] word_count(cur[k]) >= 1 by {
            if k < prev.len() {
                assert(cur[k] == prev[k]);
            } else {
                let x = parts.last() + seq!['.'];
                assert(cur[k] == x);
                assert(x.last() == '.');
                lemma_word_count_pos(x);
            }
        }
    }
}

/// The number of words in the sentences before the `k`-th.
pub open spec fn words_before(sents: Seq<Seq<char>>, k: int) -> nat
    decreases k,
{
    if k <= 0 {
        0
    } else {
        words_before(sents, k - 1) + word_count(sents[k - 1])
    }
}

/// For each sentence, the indexes of its first and last word in the word list
/// of the whole transcript.
pub fn sentence_word_spans(sentences: &Vec<String>) -> (r: Vec<(usize, usize)>)
    requires
        forall|k: int| 0 <= k < sentences.len() ==> #[trigger] word_count(sentences@[k]@) >= 1,
        words_before(views(sentences@), sentences.len() as int) <= usize::MAX,
    ensures
        r.len() == sentences.len(),
        forall|k: int|
            0 <= k < r.len() ==> #[trigger] r@[k] == (
                words_before(views(sentences@), k) as usize,
                (words_before(views(sentences@), k) + word_count(sentences@[k]@) - 1) as usize,
            ),
{
    let ghost sv = views(sentences@);
    let mut r: Vec<(usize, usize)> = Vec::new();
    let mut index: usize = 0;
    let mut k: usize = 0;
    while k < sentences.len()
        invariant
            k <= sentences.len(),
            sv == views(sentences@),
            r.len() == k,
            index == words_before(sv, k as int),
            forall|j: int| 0 <= j < sentences.len() ==> #[trigger] word_count(sentences@[j]@) >= 1,
            words_before(sv, sentences.len() as int) <= usize::MAX,
            forall|j: int|
                0 <= j < k ==> #[trigger] r@[j] == (
                    words_before(sv, j) as usize,
                    (words_before(sv, j) + word_count(sentences@[j]@) - 1) as usize,
                ),
        decreases sentences.len() - k,
    {
        proof {
            lemma_words_before_mono(sv, k + 1, sentences.len() as int);
        }
        let count = count_words(sentences[k].clone());
        assert(sv[k as int] == sentences@[k as int]@);
        r.push((index, index + count - 1));
        index = index + count;
        k = k + 1;
    }
    r
}

proof fn lemma_words_before_mono(s: Seq<Seq<char>>, a: int, b: int)
    requires
        0 <= a <= b,
    ensures
        words_before(s, a) <= words_before(s, b),
    decreases b - a,
{
    if a < b {
        lemma_words_before_mono(s, a, b - 1);
    }
}

} // verus!
