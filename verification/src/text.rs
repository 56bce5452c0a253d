//! Text as sequences of characters: copying, prefixes and splitting.

use vstd::prelude::*;

verus! {

/// Whether `text` begins with `prefix`.
pub open spec fn begins_with(text: Seq<char>, prefix: Seq<char>) -> bool {
    prefix.len() <= text.len() && text.subrange(0, prefix.len() as int) == prefix
}

/// The characters of `s`.
pub fn chars_of(s: &str) -> (v: Vec<char>)
    ensures
        v@ == s@,
{
    let mut v: Vec<char> = Vec::new();
    for c in it: s.chars()
        invariant
            v@ == it.seq().take(it.index() as int),
            it.seq() == s@,
    {
        v.push(c);
    }
    v
}

/// A copy of an optional text.
pub fn copy_text(text: &Option<String>) -> (r: Option<String>)
    ensures
        r.deep_view() == text.deep_view(),
{
    match text {
        Some(s) => Some(s.clone()),
        None => None,
    }
}

/// A copy of a list of texts.
pub fn copy_texts(texts: &Vec<String>) -> (r: Vec<String>)
    ensures
        r.deep_view() == texts.deep_view(),
{
    let mut r: Vec<String> = Vec::new();
    let mut i: usize = 0;
    while i < texts.len()
        invariant
            i <= texts@.len(),
            r.deep_view() == texts.deep_view().take(i as int),
        decreases texts@.len() - i,
    {
        let ghost before = r.deep_view();
        r.push(texts[i].clone());
        assert(r.deep_view() =~= before.push(texts@[i as int]@));
        assert(texts.deep_view().take(i + 1) =~= texts.deep_view().take(i as int).push(
            texts@[i as int]@,
        ));
        i += 1;
    }
    assert(texts.deep_view().take(i as int) =~= texts.deep_view());
    r
}

/// Whether `text` begins with `prefix`.
pub fn starts_with(text: &str, prefix: &str) -> (r: bool)
    ensures
        r == begins_with(text@, prefix@),
{
    let t = chars_of(text);
    let p = chars_of(prefix);
    if p.len() > t.len() {
        return false;
    }
    let mut i: usize = 0;
    while i < p.len()
        invariant
            i <= p@.len() <= t@.len(),
            t@ == text@,
            p@ == prefix@,
            t@.subrange(0, i as int) == p@.subrange(0, i as int),
        decreases p@.len() - i,
    {
        if t[i] != p[i] {
            assert(t@.subrange(0, p@.len() as int)[i as int] != p@[i as int]);
            return false;
        }
        assert(t@.subrange(0, i + 1) =~= t@.subrange(0, i as int).push(t@[i as int]));
        assert(p@.subrange(0, i + 1) =~= p@.subrange(0, i as int).push(p@[i as int]));
        i += 1;
    }
    assert(p@.subrange(0, p@.len() as int) =~= p@);
    true
}

/// What separates the pieces of a text.
#[derive(Clone, Copy, PartialEq, Eq, Debug, Structural)]
pub enum Separator {
    /// This character.
    Char(char),
    /// Any white space.
    Whitespace,
}

/// White space: the characters that Unicode classes as `White_Space`.
pub open spec fn is_space(c: char) -> bool {
    let n = c as u32;
    ||| 0x09 <= n <= 0x0d
    ||| n == 0x20
    ||| n == 0x85
    ||| n == 0xa0
    ||| n == 0x1680
    ||| 0x2000 <= n <= 0x200a
    ||| n == 0x2028
    ||| n == 0x2029
    ||| n == 0x202f
    ||| n == 0x205f
    ||| n == 0x3000
}

pub open spec fn separates(sep: Separator, c: char) -> bool {
    match sep {
        Separator::Char(x) => c == x,
        Separator::Whitespace => is_space(c),
    }
}

/// The position of the first separator at or after `from`, or the length
/// of `s` if there is none.
pub open spec fn first_separator(s: Seq<char>, sep: Separator, from: int) -> int
    decreases s.len() - from,
{
    if from >= s.len() {
        s.len() as int
    } else if separates(sep, s[from]) {
        from
    } else {
        first_separator(s, sep, from + 1)
    }
}

/// The pieces of `s` between its separators, empty pieces included. There
/// is always one piece more than there are separators.
pub open spec fn split_by(s: Seq<char>, sep: Separator) -> Seq<Seq<char>>
    decreases s.len(),
{
    let at = first_separator(s, sep, 0);
    if at < 0 || at >= s.len() {
        seq![s]
    } else {
        seq![s.subrange(0, at)] + split_by(s.subrange(at + 1, s.len() as int), sep)
    }
}

/// The pieces that are not empty, in order.
pub open spec fn non_empty(pieces: Seq<Seq<char>>) -> Seq<Seq<char>>
    decreases pieces.len(),
{
    if pieces.len() == 0 {
        Seq::empty()
    } else if pieces.last().len() > 0 {
        non_empty(pieces.drop_last()).push(pieces.last())
    } else {
        non_empty(pieces.drop_last())
    }
}

/// The words of `s`: what stands between runs of white space.
pub open spec fn words(s: Seq<char>) -> Seq<Seq<char>> {
    non_empty(split_by(s, Separator::Whitespace))
}

/// Each of `pieces` split in turn, the results one after the other.
pub open spec fn split_each(pieces: Seq<Seq<char>>, sep: Separator) -> Seq<Seq<char>>
    decreases pieces.len(),
{
    if pieces.len() == 0 {
        Seq::empty()
    } else {
        split_each(pieces.drop_last(), sep) + split_by(pieces.last(), sep)
    }
}

/// `s` without the white space at its start.
pub open spec fn trim_start(s: Seq<char>) -> Seq<char>
    decreases s.len(),
{
    if s.len() > 0 && is_space(s[0]) {
        trim_start(s.subrange(1, s.len() as int))
    } else {
        s
    }
}

/// `s` without the white space at its end.
pub open spec fn trim_end(s: Seq<char>) -> Seq<char>
    decreases s.len(),
{
    if s.len() > 0 && is_space(s.last()) {
        trim_end(s.drop_last())
    } else {
        s
    }
}

/// `s` without the white space at its start and at its end.
pub open spec fn trimmed(s: Seq<char>) -> Seq<char> {
    trim_end(trim_start(s))
}

/// Each of `pieces`, trimmed.
pub open spec fn trimmed_all(pieces: Seq<Seq<char>>) -> Seq<Seq<char>> {
    Seq::new(pieces.len(), |i: int| trimmed(pieces[i]))
}

/// Whether `pattern` occurs in `text`.
pub open spec fn occurs_in(text: Seq<char>, pattern: Seq<char>) -> bool {
    exists|i: int|
        0 <= i && i + pattern.len() <= text.len() && #[trigger] text.subrange(
            i,
            i + pattern.len(),
        ) == pattern
}

/// A position that no separator comes before, and that holds one or is the
/// end, is what `first_separator` finds.
pub proof fn lemma_first_separator_is(s: Seq<char>, sep: Separator, from: int, at: int)
    requires
        0 <= from <= at <= s.len(),
        forall|k: int| from <= k < at ==> !separates(sep, #[trigger] s[k]),
        at < s.len() ==> separates(sep, s[at]),
    ensures
        first_separator(s, sep, from) == at,
    decreases at - from,
{
    if from < at {
        assert(!separates(sep, s[from]));
        lemma_first_separator_is(s, sep, from + 1, at);
    }
}

/// Whether `c` is white space.
pub fn is_whitespace(c: char) -> (r: bool)
    ensures
        r == is_space(c),
{
    let n = c as u32;
    (0x09 <= n && n <= 0x0d) || n == 0x20 || n == 0x85 || n == 0xa0 || n == 0x1680 || (0x2000 <= n
        && n <= 0x200a) || n == 0x2028 || n == 0x2029 || n == 0x202f || n == 0x205f || n == 0x3000
}

/// Whether `c` separates pieces.
pub fn is_separator(sep: Separator, c: char) -> (r: bool)
    ensures
        r == separates(sep, c),
{
    match sep {
        Separator::Char(x) => c == x,
        Separator::Whitespace => is_whitespace(c),
    }
}

/// Splits `text` at each separator. Empty pieces are kept.
pub fn split(text: &str, sep: Separator) -> (pieces: Vec<String>)
    ensures
        pieces.deep_view() == split_by(text@, sep),
{
    let chars = chars_of(text);
    let n = chars.len();
    let mut pieces: Vec<String> = Vec::new();
    let mut start: usize = 0;
    let mut i: usize = 0;
    assert(text@.subrange(0, n as int) =~= text@);
    assert(pieces.deep_view() + split_by(text@, sep) =~= split_by(text@, sep));
    while i < n
        invariant
            start <= i <= n,
            n == text@.len(),
            chars@ == text@,
            split_by(text@, sep) == pieces.deep_view() + split_by(
                text@.subrange(start as int, n as int),
                sep,
            ),
            forall|k: int| start <= k < i ==> !separates(sep, #[trigger] text@[k]),
        decreases n - i,
    {
        if is_separator(sep, chars[i]) {
            let ghost rest = text@.subrange(start as int, n as int);
            let ghost before = pieces.deep_view();
            proof {
                assert forall|k: int| 0 <= k < i - start implies !separates(
                    sep,
                    #[trigger] rest[k],
                ) by {
                    assert(rest[k] == text@[start + k]);
                }
                assert(rest[i - start] == text@[i as int]);
                lemma_first_separator_is(rest, sep, 0, i - start);
                assert(rest.subrange(0, i - start) =~= text@.subrange(start as int, i as int));
                assert(rest.subrange(i - start + 1, rest.len() as int) =~= text@.subrange(
                    i + 1,
                    n as int,
                ));
            }
            let piece = text.substring_char(start, i).to_owned();
            pieces.push(piece);
            proof {
                assert(pieces.deep_view() =~= before.push(
                    text@.subrange(start as int, i as int),
                ));
                assert(before + (seq![text@.subrange(start as int, i as int)] + split_by(
                    text@.subrange(i + 1, n as int),
                    sep,
                )) =~= pieces.deep_view() + split_by(text@.subrange(i + 1, n as int), sep));
            }
            start = i + 1;
        }
        i += 1;
    }
    let ghost rest = text@.subrange(start as int, n as int);
    let ghost before = pieces.deep_view();
    proof {
        assert forall|k: int| 0 <= k < rest.len() implies !separates(sep, #[trigger] rest[k]) by {
            assert(rest[k] == text@[start + k]);
        }
        lemma_first_separator_is(rest, sep, 0, rest.len() as int);
    }
    let piece = text.substring_char(start, n).to_owned();
    pieces.push(piece);
    assert(pieces.deep_view() =~= before + seq![rest]);
    pieces
}

/// The pieces that are not empty, in order.
pub fn drop_empty(pieces: Vec<String>) -> (kept: Vec<String>)
    ensures
        kept.deep_view() == non_empty(pieces.deep_view()),
{
    let mut kept: Vec<String> = Vec::new();
    let mut i: usize = 0;
    assert(pieces.deep_view().take(0) =~= Seq::<Seq<char>>::empty());
    assert(kept.deep_view() =~= non_empty(pieces.deep_view().take(0)));
    while i < pieces.len()
        invariant
            i <= pieces@.len(),
            kept.deep_view() == non_empty(pieces.deep_view().take(i as int)),
        decreases pieces@.len() - i,
    {
        let ghost before = kept.deep_view();
        assert(pieces.deep_view().take(i + 1).drop_last() =~= pieces.deep_view().take(i as int));
        assert(pieces.deep_view().take(i + 1).last() == pieces@[i as int]@);
        if pieces[i].as_str().unicode_len() > 0 {
            kept.push(pieces[i].clone());
            assert(kept.deep_view() =~= before.push(pieces@[i as int]@));
        }
        i += 1;
    }
    assert(pieces.deep_view().take(i as int) =~= pieces.deep_view());
    kept
}

/// The words of `text`: what stands between runs of white space.
pub fn split_whitespace(text: &str) -> (r: Vec<String>)
    ensures
        r.deep_view() == words(text@),
{
    drop_empty(split(text, Separator::Whitespace))
}

/// Splits each of `pieces` in turn and puts the results one after the
/// other.
pub fn split_all(pieces: &Vec<String>, sep: Separator) -> (r: Vec<String>)
    ensures
        r.deep_view() == split_each(pieces.deep_view(), sep),
{
    let mut r: Vec<String> = Vec::new();
    let mut i: usize = 0;
    assert(pieces.deep_view().take(0) =~= Seq::<Seq<char>>::empty());
    assert(r.deep_view() =~= split_each(pieces.deep_view().take(0), sep));
    while i < pieces.len()
        invariant
            i <= pieces@.len(),
            r.deep_view() == split_each(pieces.deep_view().take(i as int), sep),
        decreases pieces@.len() - i,
    {
        assert(pieces.deep_view().take(i + 1).drop_last() =~= pieces.deep_view().take(i as int));
        assert(pieces.deep_view().take(i + 1).last() == pieces@[i as int]@);
        let mut parts = split(pieces[i].as_str(), sep);
        let ghost before = r.deep_view();
        let ghost added = parts.deep_view();
        r.append(&mut parts);
        assert(r.deep_view() =~= before + added);
        i += 1;
    }
    assert(pieces.deep_view().take(i as int) =~= pieces.deep_view());
    r
}

/// `text` without the white space at its start and at its end.
pub fn trim(text: &str) -> (r: String)
    ensures
        r@ == trimmed(text@),
{
    let chars = chars_of(text);
    let n = chars.len();
    let mut from: usize = 0;
    assert(text@.subrange(0, n as int) =~= text@);
    while from < n && is_whitespace(chars[from])
        invariant
            from <= n,
            n == text@.len(),
            chars@ == text@,
            trim_start(text@) == trim_start(text@.subrange(from as int, n as int)),
        decreases n - from,
    {
        let ghost rest = text@.subrange(from as int, n as int);
        assert(rest[0] == text@[from as int]);
        assert(rest.subrange(1, rest.len() as int) =~= text@.subrange(from + 1, n as int));
        from += 1;
    }
    let ghost head = text@.subrange(from as int, n as int);
    assert(from < n ==> head[0] == text@[from as int]);
    assert(trim_start(text@) == head);
    let mut to: usize = n;
    while to > from && is_whitespace(chars[to - 1])
        invariant
            from <= to <= n,
            n == text@.len(),
            chars@ == text@,
            trim_end(head) == trim_end(text@.subrange(from as int, to as int)),
        decreases to,
    {
        let ghost rest = text@.subrange(from as int, to as int);
        assert(rest.last() == text@[to - 1]);
        assert(rest.drop_last() =~= text@.subrange(from as int, to - 1));
        to -= 1;
    }
    let ghost kept = text@.subrange(from as int, to as int);
    assert(to > from ==> kept.last() == text@[to - 1]);
    assert(trim_end(head) == kept);
    text.substring_char(from, to).to_owned()
}

/// Trims each of `pieces`.
pub fn trim_all(pieces: &Vec<String>) -> (r: Vec<String>)
    ensures
        r.deep_view() == trimmed_all(pieces.deep_view()),
{
    let mut r: Vec<String> = Vec::new();
    let mut i: usize = 0;
    while i < pieces.len()
        invariant
            i <= pieces@.len(),
            r@.len() == i,
            forall|k: int| 0 <= k < i ==> (#[trigger] r@[k])@ == trimmed(pieces@[k]@),
        decreases pieces@.len() - i,
    {
        r.push(trim(pieces[i].as_str()));
        i += 1;
    }
    assert(r.deep_view() =~= trimmed_all(pieces.deep_view()));
    r
}

/// Whether `pattern` occurs at position `at` of `text`.
fn occurs_at(text: &Vec<char>, pattern: &Vec<char>, at: usize) -> (r: bool)
    requires
        at + pattern@.len() <= text@.len(),
    ensures
        r == (text@.subrange(at as int, at + pattern@.len()) == pattern@),
{
    let n = text.len();
    let mut k: usize = 0;
    while k < pattern.len()
        invariant
            k <= pattern@.len(),
            at + pattern@.len() <= text@.len() == n,
            forall|j: int| 0 <= j < k ==> text@[at + j] == #[trigger] pattern@[j],
        decreases pattern@.len() - k,
    {
        if text[at + k] != pattern[k] {
            assert(text@.subrange(at as int, at + pattern@.len())[k as int] != pattern@[k as int]);
            return false;
        }
        k += 1;
    }
    assert(text@.subrange(at as int, at + pattern@.len()) =~= pattern@);
    true
}

/// Whether `pattern` occurs in `text`.
pub fn contains(text: &str, pattern: &str) -> (r: bool)
    ensures
        r == occurs_in(text@, pattern@),
{
    let t = chars_of(text);
    let p = chars_of(pattern);
    if p.len() > t.len() {
        assert forall|i: int| 0 <= i && i + pattern@.len() <= text@.len() implies #[trigger] text@.subrange(
            i,
            i + pattern@.len(),
        ) != pattern@ by {}
        return false;
    }
    let last = t.len() - p.len();
    let mut i: usize = 0;
    loop
        invariant
            i <= last,
            last + p@.len() == t@.len(),
            t@ == text@,
            p@ == pattern@,
            forall|j: int| 0 <= j < i ==> #[trigger] text@.subrange(j, j + pattern@.len()) != pattern@,
        decreases last - i,
    {
        if occurs_at(&t, &p, i) {
            assert(text@.subrange(i as int, i + pattern@.len()) == pattern@);
            return true;
        }
        if i == last {
            return false;
        }
        i += 1;
    }
}

/// `text` without `prefix` at its start, if it begins with it.
pub fn strip_prefix(text: &str, prefix: &str) -> (r: Option<String>)
    ensures
        r is Some == begins_with(text@, prefix@),
        r matches Some(rest) ==> rest@ == text@.subrange(prefix@.len() as int, text@.len() as int),
{
    if starts_with(text, prefix) {
        let from = prefix.unicode_len();
        let to = text.unicode_len();
        Some(text.substring_char(from, to).to_owned())
    } else {
        None
    }
}

/// Whether two texts are the same.
pub fn same_text(a: &str, b: &str) -> (r: bool)
    ensures
        r == (a@ == b@),
{
    let x = a.to_owned();
    let y = b.to_owned();
    x == y
}

} // verus!
