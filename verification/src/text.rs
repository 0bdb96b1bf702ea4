//! Text primitives over sequences of characters: substring search, lines,
//! whitespace-separated tokens and trimming.

use vstd::prelude::*;
use vstd::string::StrSliceExecFns;

verus! {

/// Whether `c` is white space (the Unicode property White_Space).
pub open spec fn is_space(c: char) -> bool {
    let u = c as u32;
    ||| 0x09 <= u <= 0x0D
    ||| u == 0x20
    ||| u == 0x85
    ||| u == 0xA0
    ||| u == 0x1680
    ||| 0x2000 <= u <= 0x200A
    ||| u == 0x2028
    ||| u == 0x2029
    ||| u == 0x202F
    ||| u == 0x205F
    ||| u == 0x3000
}

/// Whether `needle` stands in `hay` at position `at`.
pub open spec fn occurs_at(hay: Seq<char>, needle: Seq<char>, at: int) -> bool {
    &&& 0 <= at
    &&& at + needle.len() <= hay.len()
    &&& hay.subrange(at, at + needle.len()) == needle
}

/// Whether `needle` stands somewhere in `hay`. The empty sequence stands in
/// every sequence.
pub open spec fn occurs(hay: Seq<char>, needle: Seq<char>) -> bool {
    exists|at: int| occurs_at(hay, needle, at)
}

/// A line's content once its line feed is gone: a carriage return that stood
/// just before the line feed goes with it.
pub open spec fn without_cr(line: Seq<char>) -> Seq<char> {
    if line.len() > 0 && line.last() == '\r' {
        line.drop_last()
    } else {
        line
    }
}

/// The lines of `s` that end at or after position `at`, where the line that
/// is being read began at `start`.
pub open spec fn lines_scan(s: Seq<char>, start: int, at: int) -> Seq<Seq<char>>
    decreases s.len() - at,
{
    if at >= s.len() {
        if start < s.len() {
            seq![s.subrange(start, s.len() as int)]
        } else {
            Seq::empty()
        }
    } else if s[at] == '\n' {
        seq![without_cr(s.subrange(start, at))] + lines_scan(s, at + 1, at + 1)
    } else {
        lines_scan(s, start, at + 1)
    }
}

/// The lines of `s`. A line ends at a line feed, or at a carriage return
/// followed by a line feed; neither belongs to the line. What follows the last
/// line feed is a line too unless it is empty.
pub open spec fn lines(s: Seq<char>) -> Seq<Seq<char>> {
    lines_scan(s, 0, 0)
}

/// The tokens of `s` that end at or after position `at`, where the characters
/// from `start` up to `at` are the token that is being read.
pub open spec fn tokens_scan(s: Seq<char>, start: int, at: int) -> Seq<Seq<char>>
    decreases s.len() - at,
{
    let pending = if start < at && at <= s.len() {
        seq![s.subrange(start, at)]
    } else {
        Seq::empty()
    };
    if at >= s.len() {
        pending
    } else if is_space(s[at]) {
        pending + tokens_scan(s, at + 1, at + 1)
    } else {
        tokens_scan(s, start, at + 1)
    }
}

/// The tokens of `s`: its maximal runs of characters that are not white
/// space, in order.
pub open spec fn tokens(s: Seq<char>) -> Seq<Seq<char>> {
    tokens_scan(s, 0, 0)
}

/// The first position at or after `at` that holds no white space, or the
/// length of `s`.
pub open spec fn skip_spaces(s: Seq<char>, at: int) -> int
    decreases s.len() - at,
{
    if at >= s.len() {
        s.len() as int
    } else if is_space(s[at]) {
        skip_spaces(s, at + 1)
    } else {
        at
    }
}

/// The end of the last run of characters before `end` that are not white
/// space, or 0.
pub open spec fn drop_spaces(s: Seq<char>, end: int) -> int
    decreases end,
{
    if end <= 0 {
        0
    } else if is_space(s[end - 1]) {
        drop_spaces(s, end - 1)
    } else {
        end
    }
}

/// `s` without the white space at its two ends.
pub open spec fn trimmed(s: Seq<char>) -> Seq<char> {
    let from = skip_spaces(s, 0);
    let to = drop_spaces(s, s.len() as int);
    if from < to {
        s.subrange(from, to)
    } else {
        Seq::empty()
    }
}

/// Whether `piece` is a stretch of `s`.
pub open spec fn within(piece: Seq<char>, s: Seq<char>) -> bool {
    exists|from: int, to: int| 0 <= from <= to <= s.len() && piece == #[trigger] s.subrange(from, to)
}

/// What stands in a stretch of a text stands in the text.
pub proof fn lemma_occurs_within(piece: Seq<char>, s: Seq<char>, needle: Seq<char>)
    requires
        within(piece, s),
        occurs(piece, needle),
    ensures
        occurs(s, needle),
{
    let (from, to) = choose|from: int, to: int|
        0 <= from <= to <= s.len() && piece == #[trigger] s.subrange(from, to);
    let at = choose|at: int| occurs_at(piece, needle, at);
    assert(s.subrange(from + at, from + at + needle.len()) =~= piece.subrange(
        at,
        at + needle.len(),
    ));
    assert(occurs_at(s, needle, from + at));
}

proof fn lemma_lines_scan_within(s: Seq<char>, start: int, at: int, k: int)
    requires
        0 <= start <= at <= s.len(),
        0 <= k < lines_scan(s, start, at).len(),
    ensures
        within(lines_scan(s, start, at)[k], s),
    decreases s.len() - at,
{
    if at >= s.len() {
        assert(lines_scan(s, start, at)[k] == s.subrange(start, s.len() as int));
    } else if s[at] == '\n' {
        if k == 0 {
            let whole = s.subrange(start, at);
            if whole.len() > 0 && whole.last() == '\r' {
                assert(without_cr(whole) =~= s.subrange(start, at - 1));
            } else {
                assert(without_cr(whole) == s.subrange(start, at));
            }
        } else {
            lemma_lines_scan_within(s, at + 1, at + 1, k - 1);
        }
    } else {
        lemma_lines_scan_within(s, start, at + 1, k);
    }
}

/// Every line of a text is a stretch of it.
pub proof fn lemma_lines_within(s: Seq<char>, k: int)
    requires
        0 <= k < lines(s).len(),
    ensures
        within(lines(s)[k], s),
{
    lemma_lines_scan_within(s, 0, 0, k);
}

proof fn lemma_lines_scan_hold_no_line_feed(s: Seq<char>, start: int, at: int, k: int)
    requires
        0 <= start <= at <= s.len(),
        forall|j: int| start <= j < at ==> s[j] != '\n',
        0 <= k < lines_scan(s, start, at).len(),
    ensures
        forall|j: int|
            0 <= j < lines_scan(s, start, at)[k].len() ==> lines_scan(s, start, at)[k][j] != '\n',
    decreases s.len() - at,
{
    if at >= s.len() {
    } else if s[at] == '\n' {
        if k > 0 {
            lemma_lines_scan_hold_no_line_feed(s, at + 1, at + 1, k - 1);
        }
    } else {
        lemma_lines_scan_hold_no_line_feed(s, start, at + 1, k);
    }
}

/// No line of a text holds a line feed.
pub proof fn lemma_lines_hold_no_line_feed(s: Seq<char>, k: int)
    requires
        0 <= k < lines(s).len(),
    ensures
        forall|j: int| 0 <= j < lines(s)[k].len() ==> lines(s)[k][j] != '\n',
{
    lemma_lines_scan_hold_no_line_feed(s, 0, 0, k);
}

proof fn lemma_tokens_scan_are_words(s: Seq<char>, start: int, at: int, k: int)
    requires
        0 <= start <= at <= s.len(),
        forall|j: int| start <= j < at ==> !is_space(s[j]),
        0 <= k < tokens_scan(s, start, at).len(),
    ensures
        tokens_scan(s, start, at)[k].len() > 0,
        forall|j: int|
            0 <= j < tokens_scan(s, start, at)[k].len() ==> !is_space(
                tokens_scan(s, start, at)[k][j],
            ),
    decreases s.len() - at,
{
    if at >= s.len() {
    } else if is_space(s[at]) {
        if start < at {
            if k > 0 {
                lemma_tokens_scan_are_words(s, at + 1, at + 1, k - 1);
            }
        } else {
            lemma_tokens_scan_are_words(s, at + 1, at + 1, k);
        }
    } else {
        lemma_tokens_scan_are_words(s, start, at + 1, k);
    }
}

/// Every token of a text holds at least one character and no white space.
pub proof fn lemma_tokens_are_words(s: Seq<char>, k: int)
    requires
        0 <= k < tokens(s).len(),
    ensures
        tokens(s)[k].len() > 0,
        forall|j: int| 0 <= j < tokens(s)[k].len() ==> !is_space(tokens(s)[k][j]),
{
    lemma_tokens_scan_are_words(s, 0, 0, k);
}

proof fn lemma_open_token_comes_out(s: Seq<char>, start: int, at: int)
    requires
        0 <= start < at <= s.len(),
    ensures
        tokens_scan(s, start, at).len() > 0,
    decreases s.len() - at,
{
    if at < s.len() && !is_space(s[at]) {
        lemma_open_token_comes_out(s, start, at + 1);
    }
}

proof fn lemma_tokens_scan_reach_word(s: Seq<char>, start: int, at: int, j: int)
    requires
        0 <= start <= at <= j < s.len(),
        !is_space(s[j]),
    ensures
        tokens_scan(s, start, at).len() > 0,
    decreases s.len() - at,
{
    if start < at {
        lemma_open_token_comes_out(s, start, at);
    } else if is_space(s[at]) {
        lemma_tokens_scan_reach_word(s, at + 1, at + 1, j);
    } else {
        lemma_open_token_comes_out(s, start, at + 1);
    }
}

/// A text that holds a character that is not white space has a token.
pub proof fn lemma_word_makes_a_token(s: Seq<char>, j: int)
    requires
        0 <= j < s.len(),
        !is_space(s[j]),
    ensures
        tokens(s).len() > 0,
{
    lemma_tokens_scan_reach_word(s, 0, 0, j);
}

/// What a vector of strings holds, each string as its characters.
pub open spec fn views(v: Seq<String>) -> Seq<Seq<char>> {
    v.map_values(|s: String| s@)
}

/// Tests a character for white space.
pub fn is_space_char(c: char) -> (b: bool)
    ensures
        b == is_space(c),
{
    let u: u32 = c as u32;
    (0x09 <= u && u <= 0x0D) || u == 0x20 || u == 0x85 || u == 0xA0 || u == 0x1680 || (0x2000 <= u
        && u <= 0x200A) || u == 0x2028 || u == 0x2029 || u == 0x202F || u == 0x205F || u == 0x3000
}

/// The characters of a string, in order.
pub fn chars_of(s: &str) -> (v: Vec<char>)
    ensures
        v@ == s@,
{
    let mut v: Vec<char> = Vec::new();
    for c in it: s.chars()
        invariant
            v@ == it.seq().take(it.index() as int),
            it.seq() == s@,
    {
        v.push(c);
    }
    v
}

fn matches_at(hay: &Vec<char>, needle: &Vec<char>, at: usize) -> (b: bool)
    requires
        at + needle.len() <= hay.len(),
    ensures
        b == occurs_at(hay@, needle@, at as int),
{
    let mut j: usize = 0;
    while j < needle.len()
        invariant
            at + needle.len() <= hay.len(),
            j <= needle.len(),
            forall|k: int| 0 <= k < j ==> hay@[at + k] == needle@[k],
        decreases needle.len() - j,
    {
        if hay[at + j] != needle[j] {
            assert(hay@.subrange(at as int, at + needle.len())[j as int] != needle@[j as int]);
            return false;
        }
        j += 1;
    }
    assert(hay@.subrange(at as int, at + needle.len()) =~= needle@);
    true
}

/// Substring search on character vectors.
pub fn occurs_in(hay: &Vec<char>, needle: &Vec<char>) -> (b: bool)
    ensures
        b == occurs(hay@, needle@),
{
    if needle.len() > hay.len() {
        return false;
    }
    let last: usize = hay.len() - needle.len();
    let mut at: usize = 0;
    loop
        invariant
            last == hay.len() - needle.len(),
            at <= last,
            forall|k: int| 0 <= k < at ==> !occurs_at(hay@, needle@, k),
        decreases last - at,
    {
        if matches_at(hay, needle, at) {
            return true;
        }
        if at == last {
            return false;
        }
        at += 1;
    }
}

/// Whether `needle` stands somewhere in `hay`.
pub fn contains(hay: &str, needle: &str) -> (b: bool)
    ensures
        b == occurs(hay@, needle@),
{
    let h = chars_of(hay);
    let n = chars_of(needle);
    occurs_in(&h, &n)
}

/// The lines of a text, in order.
pub fn split_lines(text: &str) -> (out: Vec<String>)
    ensures
        views(out@) == lines(text@),
{
    let chars = chars_of(text);
    let n: usize = chars.len();
    let mut out: Vec<String> = Vec::new();
    let mut start: usize = 0;
    let mut at: usize = 0;
    assert(views(out@) + lines_scan(text@, 0, 0) =~= lines(text@));
    while at < n
        invariant
            chars@ == text@,
            n == chars.len(),
            start <= at <= n,
            views(out@) + lines_scan(text@, start as int, at as int) == lines(text@),
        decreases n - at,
    {
        if chars[at] == '\n' {
            let mut end: usize = at;
            if start < at && chars[at - 1] == '\r' {
                end = at - 1;
            }
            let line = text.substring_char(start, end).to_owned();
            proof {
                let whole = text@.subrange(start as int, at as int);
                assert(line@ =~= without_cr(whole));
                let rest = lines_scan(text@, at + 1, at + 1);
                assert(views(out@.push(line)) =~= views(out@).push(line@));
                assert(views(out@).push(line@) + rest =~= views(out@) + (seq![line@] + rest));
            }
            out.push(line);
            start = at + 1;
        }
        at += 1;
    }
    if start < n {
        let line = text.substring_char(start, n).to_owned();
        proof {
            assert(views(out@.push(line)) =~= views(out@).push(line@));
            assert(views(out@).push(line@) =~= views(out@) + seq![line@]);
        }
        out.push(line);
    } else {
        assert(views(out@) + Seq::<Seq<char>>::empty() =~= views(out@));
    }
    out
}

/// The whitespace-separated tokens of a text, in order.
pub fn split_whitespace(text: &str) -> (out: Vec<String>)
    ensures
        views(out@) == tokens(text@),
{
    let chars = chars_of(text);
    let n: usize = chars.len();
    let mut out: Vec<String> = Vec::new();
    let mut start: usize = 0;
    let mut at: usize = 0;
    assert(views(out@) + tokens_scan(text@, 0, 0) =~= tokens(text@));
    while at < n
        invariant
            chars@ == text@,
            n == chars.len(),
            start <= at <= n,
            views(out@) + tokens_scan(text@, start as int, at as int) == tokens(text@),
        decreases n - at,
    {
        if is_space_char(chars[at]) {
            let ghost rest = tokens_scan(text@, at + 1, at + 1);
            if start < at {
                let token = text.substring_char(start, at).to_owned();
                proof {
                    assert(views(out@.push(token)) =~= views(out@).push(token@));
                    assert(views(out@).push(token@) + rest =~= views(out@) + (seq![token@] + rest));
                }
                out.push(token);
            } else {
                assert(Seq::<Seq<char>>::empty() + rest =~= rest);
            }
            start = at + 1;
        }
        at += 1;
    }
    if start < n {
        let token = text.substring_char(start, n).to_owned();
        proof {
            assert(views(out@.push(token)) =~= views(out@).push(token@));
            assert(views(out@).push(token@) =~= views(out@) + seq![token@]);
        }
        out.push(token);
    } else {
        assert(views(out@) + Seq::<Seq<char>>::empty() =~= views(out@));
    }
    out
}

/// A text without the white space at its two ends.
pub fn trim(text: &str) -> (out: &str)
    ensures
        out@ == trimmed(text@),
{
    let chars = chars_of(text);
    let n: usize = chars.len();
    let mut from: usize = 0;
    while from < n && is_space_char(chars[from])
        invariant
            chars@ == text@,
            n == chars.len(),
            from <= n,
            skip_spaces(text@, from as int) == skip_spaces(text@, 0),
        decreases n - from,
    {
        from += 1;
    }
    let mut to: usize = n;
    while to > 0 && is_space_char(chars[to - 1])
        invariant
            chars@ == text@,
            n == chars.len(),
            to <= n,
            drop_spaces(text@, to as int) == drop_spaces(text@, n as int),
        decreases to,
    {
        to -= 1;
    }
    if from < to {
        text.substring_char(from, to)
    } else {
        text.substring_char(0, 0)
    }
}

} // verus!
