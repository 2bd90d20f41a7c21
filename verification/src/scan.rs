//! Scanning lines of text: white space, words, and the first place where a
//! piece of text occurs.

use crate::text::{first_other_from, slice_to_string, to_chars};
use vstd::prelude::*;
use vstd::string::*;

verus! {

/// Whether `c` is white space: one of the characters of Unicode's `White_Space` property.
pub open spec fn is_white_space(c: char) -> bool {
    let code = c as u32;
    ||| 0x09 <= code <= 0x0d
    ||| code == 0x20
    ||| code == 0x85
    ||| code == 0xa0
    ||| code == 0x1680
    ||| 0x2000 <= code <= 0x200a
    ||| code == 0x2028
    ||| code == 0x2029
    ||| code == 0x202f
    ||| code == 0x205f
    ||| code == 0x3000
}

/// Index of the first character at or after `from` that is not white space; `s.len()` when all are.
pub open spec fn first_visible_from(s: Seq<char>, from: int) -> int
    decreases s.len() - from,
{
    if from < 0 || from >= s.len() {
        s.len() as int
    } else if !is_white_space(s[from]) {
        from
    } else {
        first_visible_from(s, from + 1)
    }
}

/// End of the last character before `upto` that is not white space; `0` when all are.
pub open spec fn last_visible_upto(s: Seq<char>, upto: int) -> int
    decreases upto,
{
    if upto <= 0 || upto > s.len() {
        0
    } else if !is_white_space(s[upto - 1]) {
        upto
    } else {
        last_visible_upto(s, upto - 1)
    }
}

/// `s` without the white space at its ends.
pub open spec fn trimmed(s: Seq<char>) -> Seq<char> {
    let start = first_visible_from(s, 0);
    if start >= s.len() {
        Seq::empty()
    } else {
        s.subrange(start, last_visible_upto(s, s.len() as int))
    }
}

/// End of the last character before `upto` that is not `c`; `0` when all are.
pub open spec fn last_unlike_upto(s: Seq<char>, c: char, upto: int) -> int
    decreases upto,
{
    if upto <= 0 || upto > s.len() {
        0
    } else if s[upto - 1] != c {
        upto
    } else {
        last_unlike_upto(s, c, upto - 1)
    }
}

/// `s` without the runs of `c` at its ends.
pub open spec fn trimmed_of(s: Seq<char>, c: char) -> Seq<char> {
    let start = first_other_from(s, c, 0);
    if start >= s.len() {
        Seq::empty()
    } else {
        s.subrange(start, last_unlike_upto(s, c, s.len() as int))
    }
}

/// Whether `p` stands in `s` at index `i`.
pub open spec fn occurs_at(s: Seq<char>, p: Seq<char>, i: int) -> bool {
    0 <= i && i + p.len() <= s.len() && s.subrange(i, i + p.len()) == p
}

/// Index of the first place at or after `from` where `p` stands in `s`; `-1` when there is none.
pub open spec fn first_occurrence_from(s: Seq<char>, p: Seq<char>, from: int) -> int
    decreases s.len() + 1 - from,
{
    if from < 0 || from + p.len() > s.len() {
        -1
    } else if occurs_at(s, p, from) {
        from
    } else {
        first_occurrence_from(s, p, from + 1)
    }
}

/// Index of the first place where `p` stands in `s`; `-1` when there is none.
pub open spec fn first_occurrence(s: Seq<char>, p: Seq<char>) -> int {
    first_occurrence_from(s, p, 0)
}

/// Whether `p` stands somewhere in `s`.
pub open spec fn has(s: Seq<char>, p: Seq<char>) -> bool {
    first_occurrence(s, p) >= 0
}

/// The piece of `line` between the first `mark` and the next, or the end.
pub open spec fn after_mark(line: Seq<char>, mark: Seq<char>) -> Option<Seq<char>> {
    let at = first_occurrence(line, mark);
    if at < 0 {
        None
    } else {
        let rest = line.skip(at + mark.len());
        let next = first_occurrence(rest, mark);
        if next < 0 {
            Some(rest)
        } else {
            Some(rest.take(next))
        }
    }
}

/// The words of `s` from index `i` on, where `start` is the index at which
/// the word that `i` is in began, or `-1` when `i` is not in a word. A word
/// is a longest run of characters that are not white space.
pub open spec fn words_from(s: Seq<char>, i: int, start: int) -> Seq<Seq<char>>
    decreases s.len() - i,
{
    if i < 0 || i >= s.len() {
        if start >= 0 {
            seq![s.subrange(start, s.len() as int)]
        } else {
            Seq::empty()
        }
    } else if is_white_space(s[i]) {
        if start >= 0 {
            seq![s.subrange(start, i)] + words_from(s, i + 1, -1)
        } else {
            words_from(s, i + 1, -1)
        }
    } else {
        words_from(
            s,
            i + 1,
            if start >= 0 {
                start
            } else {
                i
            },
        )
    }
}

/// The words of `s`, in order.
pub open spec fn words(s: Seq<char>) -> Seq<Seq<char>> {
    words_from(s, 0, -1)
}

/// Where the first occurrence is: `p` stands there, and nowhere before.
pub proof fn lemma_first_occurrence_from(s: Seq<char>, p: Seq<char>, from: int)
    requires
        0 <= from,
    ensures
        first_occurrence_from(s, p, from) == -1 || (from <= first_occurrence_from(s, p, from)
            && occurs_at(s, p, first_occurrence_from(s, p, from))),
        first_occurrence_from(s, p, from) == -1 ==> forall|j: int|
            from <= j ==> !occurs_at(s, p, j),
        forall|j: int| from <= j < first_occurrence_from(s, p, from) ==> !occurs_at(s, p, j),
    decreases s.len() + 1 - from,
{
    if from + p.len() <= s.len() && !occurs_at(s, p, from) {
        lemma_first_occurrence_from(s, p, from + 1);
    }
}

proof fn lemma_last_visible(s: Seq<char>, upto: int)
    requires
        0 <= upto <= s.len(),
    ensures
        0 <= last_visible_upto(s, upto) <= upto,
        forall|j: int| 0 <= j < upto && !is_white_space(s[j]) ==> j < last_visible_upto(s, upto),
    decreases upto,
{
    if upto > 0 && is_white_space(s[upto - 1]) {
        lemma_last_visible(s, upto - 1);
    }
}

proof fn lemma_last_unlike(s: Seq<char>, c: char, upto: int)
    requires
        0 <= upto <= s.len(),
    ensures
        0 <= last_unlike_upto(s, c, upto) <= upto,
        forall|j: int| 0 <= j < upto && s[j] != c ==> j < last_unlike_upto(s, c, upto),
    decreases upto,
{
    if upto > 0 && s[upto - 1] == c {
        lemma_last_unlike(s, c, upto - 1);
    }
}

/// Whether `c` is white space.
pub fn is_space(c: char) -> (r: bool)
    ensures
        r == is_white_space(c),
{
    let code: u32 = c as u32;
    (0x09 <= code && code <= 0x0d) || code == 0x20 || code == 0x85 || code == 0xa0 || code
        == 0x1680 || (0x2000 <= code && code <= 0x200a) || code == 0x2028 || code == 0x2029
        || code == 0x202f || code == 0x205f || code == 0x3000
}

/// `s` without the white space at its ends.
pub fn trim(s: &str) -> (r: String)
    ensures
        r@ == trimmed(s@),
{
    let x = to_chars(s);
    let n = x.len();
    let mut start: usize = 0;
    while start < n && is_space(x[start])
        invariant
            start <= n,
            n == x.len(),
            x@ == s@,
            first_visible_from(s@, start as int) == first_visible_from(s@, 0),
        decreases n - start,
    {
        start = start + 1;
    }
    if start >= n {
        return String::new();
    }
    let mut end: usize = n;
    while end > 0 && is_space(x[end - 1])
        invariant
            end <= n,
            n == x.len(),
            x@ == s@,
            last_visible_upto(s@, end as int) == last_visible_upto(s@, n as int),
        decreases end,
    {
        end = end - 1;
    }
    proof {
        lemma_last_visible(s@, n as int);
    }
    slice_to_string(s, start, end)
}

/// `s` without the runs of `c` at its ends.
pub fn trim_char(s: &str, c: char) -> (r: String)
    ensures
        r@ == trimmed_of(s@, c),
{
    let x = to_chars(s);
    let n = x.len();
    let mut start: usize = 0;
    while start < n && x[start] == c
        invariant
            start <= n,
            n == x.len(),
            x@ == s@,
            first_other_from(s@, c, start as int) == first_other_from(s@, c, 0),
        decreases n - start,
    {
        start = start + 1;
    }
    if start >= n {
        return String::new();
    }
    let mut end: usize = n;
    while end > 0 && x[end - 1] == c
        invariant
            end <= n,
            n == x.len(),
            x@ == s@,
            last_unlike_upto(s@, c, end as int) == last_unlike_upto(s@, c, n as int),
        decreases end,
    {
        end = end - 1;
    }
    proof {
        lemma_last_unlike(s@, c, n as int);
    }
    slice_to_string(s, start, end)
}

fn matches_at(x: &Vec<char>, y: &Vec<char>, i: usize) -> (r: bool)
    requires
        i + y.len() <= x.len(),
    ensures
        r == occurs_at(x@, y@, i as int),
{
    let mut j: usize = 0;
    while j < y.len()
        invariant
            i + y.len() <= x.len(),
            j <= y.len(),
            forall|k: int| 0 <= k < j ==> x@[i + k] == y@[k],
        decreases y.len() - j,
    {
        if x[i + j] != y[j] {
            assert(x@.subrange(i as int, i + y.len())[j as int] != y@[j as int]);
            return false;
        }
        j = j + 1;
    }
    assert(x@.subrange(i as int, i + y.len()) =~= y@);
    true
}

/// Index of the first place where `p` stands in `s`, counted in characters.
pub fn find(s: &str, p: &str) -> (r: Option<usize>)
    ensures
        match r {
            Some(i) => first_occurrence(s@, p@) == i,
            None => first_occurrence(s@, p@) == -1,
        },
{
    let x = to_chars(s);
    let y = to_chars(p);
    if y.len() > x.len() {
        return None;
    }
    let last: usize = x.len() - y.len();
    let mut i: usize = 0;
    loop
        invariant
            x@ == s@,
            y@ == p@,
            y.len() <= x.len(),
            last == x.len() - y.len(),
            i <= last,
            first_occurrence_from(s@, p@, i as int) == first_occurrence(s@, p@),
        decreases last - i,
    {
        if matches_at(&x, &y, i) {
            return Some(i);
        }
        if i == last {
            assert(first_occurrence_from(s@, p@, i + 1) == -1);
            return None;
        }
        i = i + 1;
    }
}

/// The piece of `line` between the first `mark` and the next, or the end.
pub fn read_after_mark(line: &str, mark: &str) -> (r: Option<String>)
    ensures
        r.deep_view() == after_mark(line@, mark@),
{
    match find(line, mark) {
        None => None,
        Some(at) => {
            proof {
                lemma_first_occurrence_from(line@, mark@, 0);
            }
            let n = line.unicode_len();
            let m = mark.unicode_len();
            let rest = slice_to_string(line, at + m, n);
            match find(rest.as_str(), mark) {
                None => Some(rest),
                Some(next) => {
                    proof {
                        lemma_first_occurrence_from(rest@, mark@, 0);
                    }
                    Some(slice_to_string(rest.as_str(), 0, next))
                },
            }
        },
    }
}

/// Whether `p` stands somewhere in `s`.
pub fn contains(s: &str, p: &str) -> (r: bool)
    ensures
        r == has(s@, p@),
{
    find(s, p).is_some()
}

/// The pieces that `sep` parts `s` into, from index `i` on, where `start`
/// is the index at which the piece that `i` is in began.
pub open spec fn pieces_from(s: Seq<char>, sep: char, i: int, start: int) -> Seq<Seq<char>>
    decreases s.len() - i,
{
    if i < 0 || i >= s.len() {
        seq![s.subrange(start, s.len() as int)]
    } else if s[i] == sep {
        seq![s.subrange(start, i)] + pieces_from(s, sep, i + 1, i + 1)
    } else {
        pieces_from(s, sep, i + 1, start)
    }
}

/// The pieces that `sep` parts `s` into: one more than there are `sep` in `s`.
pub open spec fn pieces(s: Seq<char>, sep: char) -> Seq<Seq<char>> {
    pieces_from(s, sep, 0, 0)
}

/// A line without the carriage return at its end.
pub open spec fn without_return(line: Seq<char>) -> Seq<char> {
    if line.len() > 0 && line.last() == '\r' {
        line.drop_last()
    } else {
        line
    }
}

/// The lines of `s` from index `i` on, where `start` is the index at which
/// the line that `i` is in began. A line ends with a line feed, or with a
/// carriage return and a line feed; the last line may end without either.
pub open spec fn lines_from(s: Seq<char>, i: int, start: int) -> Seq<Seq<char>>
    decreases s.len() - i,
{
    if i < 0 || i >= s.len() {
        if start < s.len() {
            seq![s.subrange(start, s.len() as int)]
        } else {
            Seq::empty()
        }
    } else if s[i] == '\n' {
        seq![without_return(s.subrange(start, i))] + lines_from(s, i + 1, i + 1)
    } else {
        lines_from(s, i + 1, start)
    }
}

/// The lines of `s`, without their line endings.
pub open spec fn lines(s: Seq<char>) -> Seq<Seq<char>> {
    lines_from(s, 0, 0)
}

/// The pieces that `sep` parts `s` into.
pub fn split_char(s: &str, sep: char) -> (r: Vec<String>)
    ensures
        r.deep_view() == pieces(s@, sep),
{
    let x = to_chars(s);
    let n = x.len();
    let mut out: Vec<String> = Vec::new();
    let mut i: usize = 0;
    let mut start: usize = 0;
    while i < n
        invariant
            start <= i <= n,
            n == x.len(),
            x@ == s@,
            out.deep_view() + pieces_from(s@, sep, i as int, start as int) == pieces(s@, sep),
        decreases n - i,
    {
        let ghost before = out.deep_view();
        if x[i] == sep {
            let piece = slice_to_string(s, start, i);
            out.push(piece);
            assert(out.deep_view() =~= before.push(s@.subrange(start as int, i as int)));
            assert(before.push(s@.subrange(start as int, i as int)) + pieces_from(
                s@,
                sep,
                i + 1,
                i + 1,
            ) =~= before + (seq![s@.subrange(start as int, i as int)] + pieces_from(
                s@,
                sep,
                i + 1,
                i + 1,
            )));
            start = i + 1;
        }
        i = i + 1;
    }
    let ghost before = out.deep_view();
    let piece = slice_to_string(s, start, n);
    out.push(piece);
    assert(out.deep_view() =~= before.push(s@.subrange(start as int, n as int)));
    assert(before.push(s@.subrange(start as int, n as int)) =~= before + seq![
        s@.subrange(start as int, n as int),
    ]);
    out
}

/// The lines of `s`, without their line endings.
pub fn split_lines(s: &str) -> (r: Vec<String>)
    ensures
        r.deep_view() == lines(s@),
{
    let x = to_chars(s);
    let n = x.len();
    let mut out: Vec<String> = Vec::new();
    let mut i: usize = 0;
    let mut start: usize = 0;
    while i < n
        invariant
            start <= i <= n,
            n == x.len(),
            x@ == s@,
            out.deep_view() + lines_from(s@, i as int, start as int) == lines(s@),
        decreases n - i,
    {
        let ghost before = out.deep_view();
        if x[i] == '\n' {
            let end: usize = if i > start && x[i - 1] == '\r' {
                i - 1
            } else {
                i
            };
            let line = slice_to_string(s, start, end);
            assert(line@ =~= without_return(s@.subrange(start as int, i as int)));
            out.push(line);
            assert(out.deep_view() =~= before.push(line@));
            assert(before.push(line@) + lines_from(s@, i + 1, i + 1) =~= before + (seq![line@]
                + lines_from(s@, i + 1, i + 1)));
            start = i + 1;
        }
        i = i + 1;
    }
    if start < n {
        let ghost before = out.deep_view();
        let line = slice_to_string(s, start, n);
        out.push(line);
        assert(out.deep_view() =~= before.push(s@.subrange(start as int, n as int)));
        assert(before.push(s@.subrange(start as int, n as int)) =~= before + seq![
            s@.subrange(start as int, n as int),
        ]);
    } else {
        assert(out.deep_view() + Seq::<Seq<char>>::empty() =~= out.deep_view());
    }
    out
}

/// The words of `s`, in order.
pub fn split_words(s: &str) -> (r: Vec<String>)
    ensures
        r.deep_view() == words(s@),
{
    let x = to_chars(s);
    let n = x.len();
    let mut out: Vec<String> = Vec::new();
    let mut i: usize = 0;
    let mut start: usize = 0;
    let mut inside = false;
    while i < n
        invariant
            i <= n,
            n == x.len(),
            x@ == s@,
            inside ==> start <= i,
            out.deep_view() + words_from(
                s@,
                i as int,
                if inside {
                    start as int
                } else {
                    -1
                },
            ) == words(s@),
        decreases n - i,
    {
        let ghost before = out.deep_view();
        if is_space(x[i]) {
            if inside {
                let word = slice_to_string(s, start, i);
                out.push(word);
                inside = false;
                assert(out.deep_view() =~= before.push(s@.subrange(start as int, i as int)));
                assert(before.push(s@.subrange(start as int, i as int)) + words_from(
                    s@,
                    i + 1,
                    -1,
                ) =~= before + (seq![s@.subrange(start as int, i as int)] + words_from(
                    s@,
                    i + 1,
                    -1,
                )));
            }
        } else if !inside {
            inside = true;
            start = i;
        }
        i = i + 1;
    }
    if inside {
        let ghost before = out.deep_view();
        let word = slice_to_string(s, start, n);
        out.push(word);
        assert(out.deep_view() =~= before.push(s@.subrange(start as int, n as int)));
        assert(before.push(s@.subrange(start as int, n as int)) =~= before + seq![
            s@.subrange(start as int, n as int),
        ]);
    } else {
        assert(out.deep_view() + Seq::<Seq<char>>::empty() =~= out.deep_view());
    }
    out
}

} // verus!
