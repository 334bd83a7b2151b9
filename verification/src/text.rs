//! Texts and byte strings: white space, trimming, lines, searching and equality.

use vstd::prelude::*;
use vstd::string::*;

verus! {

broadcast use vstd::string::group_string_axioms;

/// The characters that Unicode gives the property `White_Space`.
pub open spec fn is_white_space(c: char) -> bool {
    let u = c as u32;
    ||| 0x9 <= u <= 0xd
    ||| u == 0x20
    ||| u == 0x85
    ||| u == 0xa0
    ||| u == 0x1680
    ||| 0x2000 <= u <= 0x200a
    ||| u == 0x2028
    ||| u == 0x2029
    ||| u == 0x202f
    ||| u == 0x205f
    ||| u == 0x3000
}

/// Whether `c` is white space.
pub fn whitespace(c: char) -> (yes: bool)
    ensures
        yes == is_white_space(c),
{
    let u: u32 = c as u32;
    (0x9 <= u && u <= 0xd) || u == 0x20 || u == 0x85 || u == 0xa0 || u == 0x1680 || (0x2000 <= u
        && u <= 0x200a) || u == 0x2028 || u == 0x2029 || u == 0x202f || u == 0x205f || u == 0x3000
}

/// The characters of `s`, one by one.
pub fn chars_of(s: &str) -> (chars: Vec<char>)
    ensures
        chars@ == s@,
{
    let mut chars: Vec<char> = Vec::new();
    for c in it: s.chars()
        invariant
            it.seq() == s@,
            chars@ == s@.take(it.index()),
    {
        chars.push(c);
    }
    chars
}

/// The index of the first `x` in `s`, or the length of `s` if there is none.
pub open spec fn position<T>(s: Seq<T>, x: T) -> int
    decreases s.len(),
{
    if s.len() == 0 || s[0] == x {
        0
    } else {
        1 + position(s.drop_first(), x)
    }
}

/// What `position` says: `x` stands there unless it is the end, and nowhere before.
pub proof fn lemma_position<T>(s: Seq<T>, x: T)
    ensures
        0 <= position(s, x) <= s.len(),
        position(s, x) < s.len() ==> s[position(s, x)] == x,
        forall|i: int| 0 <= i < position(s, x) ==> s[i] != x,
    decreases s.len(),
{
    if s.len() != 0 && s[0] != x {
        let rest = s.drop_first();
        lemma_position(rest, x);
        assert forall|i: int| 0 <= i < position(s, x) implies s[i] != x by {
            if i > 0 {
                assert(s[i] == rest[i - 1]);
            }
        }
    }
}

/// An index that is what `lemma_position` says is `position`.
pub proof fn lemma_position_is<T>(s: Seq<T>, x: T, n: int)
    requires
        0 <= n <= s.len(),
        n < s.len() ==> s[n] == x,
        forall|i: int| 0 <= i < n ==> s[i] != x,
    ensures
        position(s, x) == n,
{
    lemma_position(s, x);
    let p = position(s, x);
    if p < n {
        assert(s[p] != x);
    } else if n < p {
        assert(s[n] != x);
    }
}

/// The index of the first `x` in `s`, or the length of `s` if there is none.
pub fn find_char(s: &Vec<char>, x: char) -> (at: usize)
    ensures
        at == position(s@, x),
{
    let mut at: usize = 0;
    while at < s.len() && s[at] != x
        invariant
            at <= s.len(),
            forall|i: int| 0 <= i < at ==> s@[i] != x,
        decreases s.len() - at,
    {
        at += 1;
    }
    proof {
        lemma_position_is(s@, x, at as int);
    }
    at
}

/// `s` without the white space at its start.
pub open spec fn trim_start(s: Seq<char>) -> Seq<char>
    decreases s.len(),
{
    if s.len() > 0 && is_white_space(s[0]) {
        trim_start(s.drop_first())
    } else {
        s
    }
}

/// `s` without the white space at its end.
pub open spec fn trim_end(s: Seq<char>) -> Seq<char>
    decreases s.len(),
{
    if s.len() > 0 && is_white_space(s.last()) {
        trim_end(s.drop_last())
    } else {
        s
    }
}

/// `s` without the white space at its start and at its end.
pub open spec fn trimmed(s: Seq<char>) -> Seq<char> {
    trim_end(trim_start(s))
}

/// If there is white space up to `i` and none at `i`, `trim_start` leaves what starts there.
proof fn lemma_trim_start_is(s: Seq<char>, i: int)
    requires
        0 <= i <= s.len(),
        i < s.len() ==> !is_white_space(s[i]),
        forall|k: int| 0 <= k < i ==> is_white_space(#[trigger] s[k]),
    ensures
        trim_start(s) == s.skip(i),
    decreases i,
{
    if i > 0 {
        assert(is_white_space(s[0]));
        let rest = s.drop_first();
        assert forall|k: int| 0 <= k < i - 1 implies is_white_space(#[trigger] rest[k]) by {
            assert(rest[k] == s[k + 1]);
        }
        lemma_trim_start_is(rest, i - 1);
        assert(rest.skip(i - 1) =~= s.skip(i));
    } else {
        assert(s.skip(0) =~= s);
    }
}

/// If there is white space from `j` on and none right before, `trim_end` leaves what ends there.
proof fn lemma_trim_end_is(s: Seq<char>, j: int)
    requires
        0 <= j <= s.len(),
        j > 0 ==> !is_white_space(s[j - 1]),
        forall|k: int| j <= k < s.len() ==> is_white_space(#[trigger] s[k]),
    ensures
        trim_end(s) == s.take(j),
    decreases s.len() - j,
{
    if j < s.len() {
        assert(is_white_space(s[s.len() - 1]));
        let rest = s.drop_last();
        assert forall|k: int| j <= k < rest.len() implies is_white_space(#[trigger] rest[k]) by {
            assert(rest[k] == s[k]);
        }
        lemma_trim_end_is(rest, j);
        assert(rest.take(j) =~= s.take(j));
    } else {
        assert(s.take(j) =~= s);
    }
}

/// What `trim_end` keeps is a front of `s`; behind it there is only white space.
pub proof fn lemma_trim_end(s: Seq<char>)
    ensures
        trim_end(s).len() <= s.len(),
        trim_end(s) == s.take(trim_end(s).len() as int),
        forall|k: int| trim_end(s).len() <= k < s.len() ==> is_white_space(#[trigger] s[k]),
    decreases s.len(),
{
    if s.len() > 0 && is_white_space(s.last()) {
        let rest = s.drop_last();
        lemma_trim_end(rest);
        let n = trim_end(rest).len() as int;
        assert(rest.take(n) =~= s.take(n));
        assert forall|k: int| n <= k < s.len() implies is_white_space(#[trigger] s[k]) by {
            if k < rest.len() {
                assert(rest[k] == s[k]);
            }
        }
    } else {
        assert(s.take(s.len() as int) =~= s);
    }
}

/// What `trim_end` keeps does not end in white space.
pub proof fn lemma_trim_end_last(s: Seq<char>)
    ensures
        trim_end(s).len() > 0 ==> !is_white_space(trim_end(s).last()),
    decreases s.len(),
{
    if s.len() > 0 && is_white_space(s.last()) {
        lemma_trim_end_last(s.drop_last());
    }
}

/// What `trim_start` keeps is a back of `s`; before it there is only white space.
pub proof fn lemma_trim_start(s: Seq<char>)
    ensures
        trim_start(s).len() <= s.len(),
        trim_start(s) == s.skip(s.len() - trim_start(s).len()),
        forall|k: int|
            0 <= k < s.len() - trim_start(s).len() ==> is_white_space(#[trigger] s[k]),
    decreases s.len(),
{
    if s.len() > 0 && is_white_space(s[0]) {
        let rest = s.drop_first();
        lemma_trim_start(rest);
        let n = rest.len() - trim_start(rest).len();
        assert(rest.skip(n) =~= s.skip(n + 1));
        assert forall|k: int| 0 <= k < n + 1 implies is_white_space(#[trigger] s[k]) by {
            if k > 0 {
                assert(rest[k - 1] == s[k]);
            }
        }
    } else {
        assert(s.skip(0) =~= s);
    }
}

/// A text with a character in it that is not white space is not trimmed away.
pub proof fn lemma_trimmed_keeps(s: Seq<char>, i: int)
    requires
        0 <= i < s.len(),
        !is_white_space(s[i]),
    ensures
        trimmed(s).len() > 0,
{
    lemma_trim_start(s);
    let t = trim_start(s);
    let n = s.len() - t.len();
    assert(i >= n);
    assert(t[i - n] == s[i]);
    lemma_trim_end(t);
}

/// White space at the end makes no difference to what is left after trimming.
pub proof fn lemma_trimmed_ignores_end(s: Seq<char>)
    requires
        s.len() > 0,
        is_white_space(s.last()),
    ensures
        trimmed(s) == trimmed(s.drop_last()),
    decreases s.len(),
{
    if is_white_space(s[0]) {
        if s.len() > 1 {
            lemma_trimmed_ignores_end(s.drop_first());
            assert(s.drop_first().drop_last() =~= s.drop_last().drop_first());
        } else {
            assert(s.drop_first() =~= Seq::<char>::empty());
            assert(s.drop_last() =~= Seq::<char>::empty());
        }
    } else {
        assert(s.drop_last()[0] == s[0]);
    }
}

/// Trimming what was trimmed changes nothing.
pub proof fn trimming_is_idempotent(s: Seq<char>)
    ensures
        trimmed(trimmed(s)) == trimmed(s),
{
    let t = trim_start(s);
    lemma_trim_start_first(s);
    lemma_trim_end(t);
    lemma_trim_end_last(t);
    if trimmed(s).len() > 0 {
        assert(trimmed(s)[0] == t[0]);
    }
}

/// What `trim_start` keeps does not start with white space.
proof fn lemma_trim_start_first(s: Seq<char>)
    ensures
        trim_start(s).len() > 0 ==> !is_white_space(trim_start(s)[0]),
    decreases s.len(),
{
    if s.len() > 0 && is_white_space(s[0]) {
        lemma_trim_start_first(s.drop_first());
    }
}

/// The bounds of what is left of `s` between the white space at its two ends.
fn trim_bounds(s: &Vec<char>) -> (bounds: (usize, usize))
    ensures
        bounds.0 <= bounds.1 <= s.len(),
        s@.subrange(bounds.0 as int, bounds.1 as int) == trimmed(s@),
{
    let mut from: usize = 0;
    while from < s.len() && whitespace(s[from])
        invariant
            from <= s.len(),
            forall|k: int| 0 <= k < from ==> is_white_space(#[trigger] s@[k]),
        decreases s.len() - from,
    {
        from += 1;
    }
    proof {
        lemma_trim_start_is(s@, from as int);
    }
    let mut to: usize = s.len();
    while to > from && whitespace(s[to - 1])
        invariant
            from <= to <= s.len(),
            forall|k: int| to <= k < s.len() ==> is_white_space(#[trigger] s@[k]),
        decreases to,
    {
        to -= 1;
    }
    proof {
        let rest = s@.skip(from as int);
        assert forall|k: int| to - from <= k < rest.len() implies is_white_space(
            #[trigger] rest[k],
        ) by {
            assert(rest[k] == s@[k + from]);
        }
        lemma_trim_end_is(rest, to - from);
        assert(rest.take(to - from) =~= s@.subrange(from as int, to as int));
    }
    (from, to)
}

/// `s` without the white space at its start and at its end.
pub fn trim(s: &str) -> (t: &str)
    ensures
        t@ == trimmed(s@),
{
    let chars: Vec<char> = chars_of(s);
    let bounds: (usize, usize) = trim_bounds(&chars);
    s.substring_char(bounds.0, bounds.1)
}

/// Whether two texts hold the same characters.
pub fn same_text(a: &str, b: &str) -> (same: bool)
    ensures
        same == (a@ == b@),
{
    let xs: &[u8] = a.as_bytes();
    let ys: &[u8] = b.as_bytes();
    let same: bool = same_bytes(xs, ys);
    proof {
        vstd::utf8::encode_utf8_decode_utf8(a@);
        vstd::utf8::encode_utf8_decode_utf8(b@);
    }
    same
}

/// Whether two byte strings hold the same bytes.
pub fn same_bytes(a: &[u8], b: &[u8]) -> (same: bool)
    ensures
        same == (a@ == b@),
{
    if a.len() != b.len() {
        return false;
    }
    let mut i: usize = 0;
    while i < a.len()
        invariant
            a.len() == b.len(),
            i <= a.len(),
            forall|k: int| 0 <= k < i ==> a@[k] == b@[k],
        decreases a.len() - i,
    {
        if a[i] != b[i] {
            return false;
        }
        i += 1;
    }
    assert(a@ =~= b@);
    true
}

/// The views of a list of texts.
pub open spec fn views(list: Seq<&str>) -> Seq<Seq<char>> {
    list.map_values(|s: &str| s@)
}

/// The views of a list of owned texts.
pub open spec fn owned_views(list: Seq<String>) -> Seq<Seq<char>> {
    list.map_values(|s: String| s@)
}

/// The view of an optional text.
pub open spec fn opt_view(text: Option<String>) -> Option<Seq<char>> {
    match text {
        Some(s) => Some(s@),
        None => None,
    }
}

/// `s` without the one carriage return that may end it.
pub open spec fn without_return(s: Seq<char>) -> Seq<char> {
    if s.len() > 0 && s.last() == '\r' {
        s.drop_last()
    } else {
        s
    }
}

/// The lines of `s`: what stands before each line feed, without a carriage return
/// right before that line feed, and what stands after the last one if that is not empty.
pub open spec fn lines_of(s: Seq<char>) -> Seq<Seq<char>>
    decreases s.len(),
{
    let end = position(s, '\n');
    if s.len() == 0 {
        Seq::empty()
    } else if 0 <= end < s.len() {
        seq![without_return(s.take(end))] + lines_of(s.skip(end + 1))
    } else {
        seq![s]
    }
}

/// The lines of `s`.
pub fn lines(s: &str) -> (list: Vec<&str>)
    ensures
        views(list@) == lines_of(s@),
{
    let chars: Vec<char> = chars_of(s);
    let len: usize = chars.len();
    let mut list: Vec<&str> = Vec::new();
    let mut start: usize = 0;
    proof {
        assert(s@.skip(0) =~= s@);
        assert(views(list@) + lines_of(s@) =~= lines_of(s@));
    }
    while start < len
        invariant
            chars@ == s@,
            len == s@.len(),
            start <= len,
            views(list@) + lines_of(s@.skip(start as int)) == lines_of(s@),
        decreases len - start,
    {
        let ghost rest = s@.skip(start as int);
        let ghost before = list@;
        let mut end: usize = start;
        while end < len && chars[end] != '\n'
            invariant
                chars@ == s@,
                len == s@.len(),
                start <= end <= len,
                rest == s@.skip(start as int),
                forall|i: int| 0 <= i < end - start ==> rest[i] != '\n',
            decreases len - end,
        {
            end += 1;
        }
        proof {
            lemma_position_is(rest, '\n', end - start);
        }
        if end == len {
            let line: &str = s.substring_char(start, end);
            list.push(line);
            proof {
                assert(line@ =~= rest);
                assert(views(list@) =~= views(before).push(rest));
                assert(s@.skip(len as int) =~= Seq::<char>::empty());
                assert(views(list@) + lines_of(s@.skip(len as int)) =~= views(before) + seq![
                    rest,
                ]);
            }
            start = len;
        } else {
            let stop: usize = if end > start && chars[end - 1] == '\r' {
                end - 1
            } else {
                end
            };
            let line: &str = s.substring_char(start, stop);
            list.push(line);
            proof {
                assert(line@ =~= without_return(rest.take(end - start)));
                assert(views(list@) =~= views(before).push(line@));
                assert(rest.skip(end - start + 1) =~= s@.skip(end + 1));
                assert(views(list@) + lines_of(s@.skip(end + 1)) =~= views(before) + (seq![line@]
                    + lines_of(rest.skip(end - start + 1))));
            }
            start = end + 1;
        }
    }
    proof {
        assert(s@.skip(len as int) =~= Seq::<char>::empty());
        assert(views(list@) + Seq::<Seq<char>>::empty() =~= views(list@));
    }
    list
}

/// A line in front of a text is its first line.
pub proof fn lemma_lines_of_line_and_rest(line: Seq<char>, rest: Seq<char>)
    requires
        !line.contains('\n'),
    ensures
        lines_of(line + seq!['\n'] + rest) == seq![without_return(line)] + lines_of(rest),
{
    let s = line + seq!['\n'] + rest;
    let n = line.len() as int;
    assert(s[n] == '\n');
    assert forall|i: int| 0 <= i < n implies s[i] != '\n' by {
        assert(s[i] == line[i]);
        assert(line.contains(line[i]));
    }
    lemma_position_is(s, '\n', n);
    assert(s.take(n) =~= line);
    assert(s.skip(n + 1) =~= rest);
}

/// A text without a line feed is one line.
pub proof fn lemma_lines_of_one(line: Seq<char>)
    requires
        line.len() > 0,
        !line.contains('\n'),
    ensures
        lines_of(line) == seq![line],
{
    assert forall|i: int| 0 <= i < line.len() implies line[i] != '\n' by {
        assert(line.contains(line[i]));
    }
    lemma_position_is(line, '\n', line.len() as int);
}

/// Whether `part` occurs somewhere in `whole`.
pub open spec fn occurs_in(part: Seq<char>, whole: Seq<char>) -> bool {
    exists|at: int| #[trigger] occurs_at(part, whole, at)
}

/// Whether `part` stands in `whole` from index `at` on.
pub open spec fn occurs_at(part: Seq<char>, whole: Seq<char>, at: int) -> bool {
    &&& 0 <= at
    &&& at + part.len() <= whole.len()
    &&& whole.subrange(at, at + part.len()) == part
}

/// Whether `part` occurs somewhere in `whole`.
pub fn contains_text(whole: &str, part: &str) -> (found: bool)
    ensures
        found == occurs_in(part@, whole@),
{
    let w: Vec<char> = chars_of(whole);
    let p: Vec<char> = chars_of(part);
    if p.len() > w.len() {
        return false;
    }
    let last: usize = w.len() - p.len();
    let mut at: usize = 0;
    loop
        invariant
            w@ == whole@,
            p@ == part@,
            p.len() <= w.len(),
            last == w.len() - p.len(),
            at <= last,
            forall|k: int| 0 <= k < at ==> !#[trigger] occurs_at(part@, whole@, k),
        decreases last - at,
    {
        let mut i: usize = 0;
        while i < p.len() && w[at + i] == p[i]
            invariant
                i <= p.len(),
                p.len() <= w.len(),
                at <= w.len() - p.len(),
                forall|k: int| 0 <= k < i ==> w@[at + k] == p@[k],
            decreases p.len() - i,
        {
            i += 1;
        }
        if i == p.len() {
            assert(whole@.subrange(at as int, at + part@.len()) =~= part@);
            assert(occurs_at(part@, whole@, at as int));
            return true;
        }
        proof {
            assert(whole@.subrange(at as int, at + part@.len())[i as int] != part@[i as int]);
            assert(!occurs_at(part@, whole@, at as int));
        }
        if at == last {
            return false;
        }
        at += 1;
    }
}

/// Trimming takes away the white space around a text and nothing else.
pub proof fn trimming_takes_white_space_only(
    before: Seq<char>,
    core: Seq<char>,
    behind: Seq<char>,
)
    requires
        forall|i: int| 0 <= i < before.len() ==> is_white_space(#[trigger] before[i]),
        forall|i: int| 0 <= i < behind.len() ==> is_white_space(#[trigger] behind[i]),
        core.len() > 0 ==> !is_white_space(core[0]) && !is_white_space(core.last()),
    ensures
        trimmed(before + core + behind) == core,
{
    let s = before + core + behind;
    let n = before.len() as int;
    if core.len() > 0 {
        assert(s[n] == core[0]);
        assert forall|k: int| 0 <= k < n implies is_white_space(#[trigger] s[k]) by {
            assert(s[k] == before[k]);
        }
        lemma_trim_start_is(s, n);
        let t = s.skip(n);
        let m = core.len() as int;
        assert(t[m - 1] == core.last());
        assert forall|k: int| m <= k < t.len() implies is_white_space(#[trigger] t[k]) by {
            assert(t[k] == behind[k - m]);
        }
        lemma_trim_end_is(t, m);
        assert(t.take(m) =~= core);
    } else {
        assert forall|k: int| 0 <= k < s.len() implies is_white_space(#[trigger] s[k]) by {
            if k < n {
                assert(s[k] == before[k]);
            } else {
                assert(s[k] == behind[k - n]);
            }
        }
        lemma_trim_start_is(s, s.len() as int);
        assert(s.skip(s.len() as int) =~= Seq::<char>::empty());
        assert(core =~= Seq::<char>::empty());
    }
}

/// A line ends at a line feed, or at a carriage return and a line feed together. A carriage return
/// that no line feed follows stays in its line. Nothing has no lines.
pub proof fn lines_end_at_line_feeds(line: Seq<char>, rest: Seq<char>)
    requires
        !line.contains('\n'),
    ensures
        lines_of(line + seq!['\r', '\n'] + rest) == seq![line] + lines_of(rest),
        line.len() == 0 || line.last() != '\r' ==> lines_of(line + seq!['\n'] + rest) == seq![line]
            + lines_of(rest),
        line.len() > 0 ==> lines_of(line) == seq![line],
        lines_of(Seq::empty()) == Seq::<Seq<char>>::empty(),
{
    let returned = line.push('\r');
    assert(!returned.contains('\n')) by {
        if returned.contains('\n') {
            let i = choose|i: int| 0 <= i < returned.len() && returned[i] == '\n';
            assert(line[i] == '\n');
        }
    }
    lemma_lines_of_line_and_rest(returned, rest);
    lemma_lines_of_line_and_rest(line, rest);
    assert(line + seq!['\r', '\n'] + rest =~= returned + seq!['\n'] + rest);
    assert(returned.drop_last() =~= line);
    if line.len() > 0 {
        lemma_lines_of_one(line);
    }
}

/// A part occurs in a text exactly if the text is something, the part, and something.
pub proof fn parts_occur_where_they_stand(
    before: Seq<char>,
    part: Seq<char>,
    behind: Seq<char>,
    whole: Seq<char>,
)
    ensures
        occurs_in(part, before + part + behind),
        occurs_in(part, whole) ==> exists|at: int|
            0 <= at <= whole.len() - part.len() && whole == #[trigger] whole.take(at) + part
                + whole.skip(at + part.len()),
{
    let full = before + part + behind;
    let n = before.len() as int;
    assert(full.subrange(n, n + part.len()) =~= part);
    assert(occurs_at(part, full, n));
    if occurs_in(part, whole) {
        let at = choose|at: int| #[trigger] occurs_at(part, whole, at);
        let found = whole.subrange(at, at + part.len());
        assert(whole =~= whole.take(at) + found + whole.skip(at + part.len()));
    }
}

/// Lists of texts are seen text by text, and so is a text that may be missing.
pub proof fn text_views_are_faithful(
    borrowed: Seq<&str>,
    owned: Seq<String>,
    text: String,
)
    ensures
        views(borrowed).len() == borrowed.len(),
        forall|i: int| 0 <= i < borrowed.len() ==> #[trigger] views(borrowed)[i] == borrowed[i]@,
        owned_views(owned).len() == owned.len(),
        forall|i: int| 0 <= i < owned.len() ==> #[trigger] owned_views(owned)[i] == owned[i]@,
        opt_view(Some(text)) == Some(text@),
        opt_view(None) is None,
{
}

/// What stands behind the last line feed of a text is its last line, if there is anything.
pub proof fn the_last_line_is_behind_the_last_line_feed(body: Seq<char>, line: Seq<char>)
    requires
        body.len() > 0 ==> body.last() == '\n',
        line.len() > 0,
        !line.contains('\n'),
    ensures
        lines_of(body + line).len() > 0,
        lines_of(body + line).last() == line,
    decreases body.len(),
{
    if body.len() == 0 {
        assert(body + line =~= line);
        lemma_lines_of_one(line);
    } else {
        lemma_position(body, '\n');
        let end = position(body, '\n');
        if end == body.len() {
            assert(body[body.len() - 1] != '\n');
        }
        let first = body.take(end);
        let rest = body.skip(end + 1);
        if rest.len() > 0 {
            assert(rest.last() == body.last());
        }
        the_last_line_is_behind_the_last_line_feed(rest, line);
        assert(!first.contains('\n'));
        lemma_lines_of_line_and_rest(first, rest + line);
        assert(body + line =~= first + seq!['\n'] + (rest + line));
        let tail = lines_of(rest + line);
        assert((seq![without_return(first)] + tail).last() == tail.last());
    }
}

/// The last line of a text that does not end in a line feed is not empty.
pub proof fn last_lines_are_not_empty(s: Seq<char>)
    requires
        s.len() > 0,
        s.last() != '\n',
    ensures
        lines_of(s).len() > 0,
        lines_of(s).last().len() > 0,
    decreases s.len(),
{
    lemma_position(s, '\n');
    let end = position(s, '\n');
    if end < s.len() {
        let rest = s.skip(end + 1);
        if rest.len() == 0 {
            assert(s.last() == '\n');
        }
        assert(rest.last() == s.last());
        last_lines_are_not_empty(rest);
        assert((seq![without_return(s.take(end))] + lines_of(rest)).last() == lines_of(
            rest,
        ).last());
    }
}

} // verus!
