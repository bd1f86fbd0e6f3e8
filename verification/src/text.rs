//! Character classes and small helpers on text held as a vector of characters.

use vstd::prelude::*;

verus! {

/// An ASCII decimal digit, `0` to `9`.
pub open spec fn is_digit(c: char) -> bool {
    '0' <= c && c <= '9'
}

/// ASCII white space: space, tab, line feed, form feed, carriage return.
pub open spec fn is_space(c: char) -> bool {
    c == ' ' || c == '\t' || c == '\n' || c == '\x0C' || c == '\r'
}

/// The numeric value of a digit character.
pub open spec fn digit_value(c: char) -> u8 {
    (c as u32 - '0' as u32) as u8
}

/// Every character is a digit.
pub open spec fn all_digits(s: Seq<char>) -> bool {
    forall|i: int| 0 <= i < s.len() ==> is_digit(#[trigger] s[i])
}

/// The values of the characters of `s`, read as digits.
pub open spec fn digit_values(s: Seq<char>) -> Seq<u8> {
    Seq::new(s.len(), |i: int| digit_value(s[i]))
}

/// The digits of `s`, in order, everything else left out.
pub open spec fn digits_in(s: Seq<char>) -> Seq<char>
    decreases s.len(),
{
    if s.len() == 0 {
        Seq::empty()
    } else if is_digit(s.last()) {
        digits_in(s.drop_last()).push(s.last())
    } else {
        digits_in(s.drop_last())
    }
}

/// The characters at which a piece of text is divided.
#[derive(Clone, Copy, Debug, PartialEq, Eq)]
pub enum Mark {
    /// The decimal point.
    Point,
    /// The letter that introduces an exponent, in either case.
    Exponent,
    /// A decimal point or white space.
    Break,
}

/// Whether `c` is a mark of the given kind.
pub open spec fn is_mark(kind: Mark, c: char) -> bool {
    match kind {
        Mark::Point => c == '.',
        Mark::Exponent => c == 'e' || c == 'E',
        Mark::Break => c == '.' || is_space(c),
    }
}

/// The index of the first mark of the given kind in `s`, or the length of `s`
/// if it holds none.
pub open spec fn first_mark(s: Seq<char>, kind: Mark) -> int
    decreases s.len(),
{
    if s.len() == 0 || is_mark(kind, s[0]) {
        0
    } else {
        1 + first_mark(s.drop_first(), kind)
    }
}

/// What follows the character at index `i`; nothing, if `s` ends before it.
pub open spec fn after(s: Seq<char>, i: int) -> Seq<char> {
    if 0 <= i < s.len() {
        s.skip(i + 1)
    } else {
        Seq::empty()
    }
}

/// The first mark stands where no mark stands before it.
pub proof fn lemma_first_mark(s: Seq<char>, kind: Mark)
    ensures
        0 <= first_mark(s, kind) <= s.len(),
        forall|j: int| 0 <= j < first_mark(s, kind) ==> !is_mark(kind, #[trigger] s[j]),
        first_mark(s, kind) < s.len() ==> is_mark(kind, s[first_mark(s, kind)]),
    decreases s.len(),
{
    if s.len() == 0 || is_mark(kind, s[0]) {
    } else {
        let rest = s.drop_first();
        lemma_first_mark(rest, kind);
        assert forall|j: int| 0 <= j < first_mark(s, kind) implies !is_mark(
            kind,
            #[trigger] s[j],
        ) by {
            if j > 0 {
                assert(s[j] == rest[j - 1]);
            }
        }
        assert(first_mark(s, kind) < s.len() ==> s[first_mark(s, kind)] == rest[first_mark(
            rest,
            kind,
        )]);
    }
}

/// An index with no mark before it, and a mark or the end of the text at it,
/// is the first mark's.
pub proof fn lemma_first_mark_is(s: Seq<char>, kind: Mark, i: int)
    requires
        0 <= i <= s.len(),
        forall|j: int| 0 <= j < i ==> !is_mark(kind, #[trigger] s[j]),
        i < s.len() ==> is_mark(kind, s[i]),
    ensures
        first_mark(s, kind) == i,
    decreases s.len(),
{
    if i > 0 {
        let rest = s.drop_first();
        lemma_first_mark_is(rest, kind, i - 1);
    }
}

/// What is kept of a text holds digits only, and all of them if the text holds
/// nothing else.
pub proof fn lemma_digits_in(s: Seq<char>)
    ensures
        all_digits(digits_in(s)),
        digits_in(s).len() <= s.len(),
        all_digits(s) ==> digits_in(s) == s,
        digits_in(s).len() == 0 <==> (forall|i: int| 0 <= i < s.len() ==> !is_digit(#[trigger] s[i])),
    decreases s.len(),
{
    if s.len() > 0 {
        let front = s.drop_last();
        lemma_digits_in(front);
        if digits_in(s).len() == 0 {
            assert forall|i: int| 0 <= i < s.len() implies !is_digit(#[trigger] s[i]) by {
                if i < front.len() {
                    assert(front[i] == s[i]);
                }
            }
        }
    }
}

/// Whether `c` is an ASCII decimal digit.
pub(crate) fn char_is_digit(c: char) -> (b: bool)
    ensures
        b == is_digit(c),
{
    '0' <= c && c <= '9'
}

/// Whether `c` is ASCII white space.
pub(crate) fn char_is_space(c: char) -> (b: bool)
    ensures
        b == is_space(c),
{
    c == ' ' || c == '\t' || c == '\n' || c == '\x0C' || c == '\r'
}

/// Whether `c` is a mark of the given kind.
pub(crate) fn char_is_mark(kind: Mark, c: char) -> (b: bool)
    ensures
        b == is_mark(kind, c),
{
    match kind {
        Mark::Point => c == '.',
        Mark::Exponent => c == 'e' || c == 'E',
        Mark::Break => c == '.' || char_is_space(c),
    }
}

/// The numeric value of a digit character.
pub(crate) fn char_digit_value(c: char) -> (d: u8)
    requires
        is_digit(c),
    ensures
        d == digit_value(c),
        d < 10,
{
    ((c as u32) - ('0' as u32)) as u8
}

/// The characters of `s`, in order.
pub(crate) fn chars_of(s: &str) -> (v: Vec<char>)
    ensures
        v@ == s@,
{
    let mut v: Vec<char> = Vec::new();
    for c in it: s.chars()
        invariant
            v@ == it.seq().take(it.index() as int),
    {
        v.push(c);
    }
    v
}

/// A copy of the characters from index `from` up to, not including, `to`.
pub(crate) fn copy_range(text: &Vec<char>, from: usize, to: usize) -> (piece: Vec<char>)
    requires
        from <= to <= text.len(),
    ensures
        piece@ == text@.subrange(from as int, to as int),
{
    let mut piece: Vec<char> = Vec::new();
    let mut i: usize = from;
    while i < to
        invariant
            from <= i <= to <= text.len(),
            piece@ == text@.subrange(from as int, i as int),
        decreases to - i,
    {
        piece.push(text[i]);
        i = i + 1;
    }
    piece
}

/// A copy of what follows the character at index `i`.
pub(crate) fn copy_after(text: &Vec<char>, i: usize) -> (piece: Vec<char>)
    ensures
        piece@ == after(text@, i as int),
{
    if i < text.len() {
        copy_range(text, i + 1, text.len())
    } else {
        Vec::new()
    }
}

/// Finds the first mark of the given kind.
pub(crate) fn find_mark(text: &Vec<char>, kind: Mark) -> (i: usize)
    ensures
        i == first_mark(text@, kind),
        i <= text.len(),
{
    let mut i: usize = 0;
    while i < text.len() && !char_is_mark(kind, text[i])
        invariant
            i <= text.len(),
            forall|j: int| 0 <= j < i ==> !is_mark(kind, #[trigger] text@[j]),
        decreases text.len() - i,
    {
        i = i + 1;
    }
    proof {
        lemma_first_mark_is(text@, kind, i as int);
    }
    i
}

/// Appends the digit values of `chars` to `out`, if `chars` holds digits only.
pub(crate) fn push_digit_values(out: &mut Vec<u8>, chars: &Vec<char>) -> (ok: bool)
    ensures
        ok == all_digits(chars@),
        ok ==> final(out)@ == old(out)@ + digit_values(chars@),
{
    let mut i: usize = 0;
    while i < chars.len()
        invariant
            i <= chars.len(),
            all_digits(chars@.take(i as int)),
            out@ == old(out)@ + digit_values(chars@.take(i as int)),
        decreases chars.len() - i,
    {
        let c: char = chars[i];
        if !char_is_digit(c) {
            return false;
        }
        out.push(char_digit_value(c));
        proof {
            assert(digit_values(chars@.take(i + 1)) == digit_values(chars@.take(i as int)).push(
                digit_value(c),
            ));
        }
        i = i + 1;
    }
    proof {
        assert(chars@.take(chars.len() as int) == chars@);
    }
    true
}

} // verus!
