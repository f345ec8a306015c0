//! Character-level helpers shared by the parsers: the characters of a
//! string, white space and trimming, the first place of a character.

use vstd::prelude::*;
use vstd::string::*;

verus! {

/// The characters that Unicode classes as white space (`White_Space`).
pub open spec fn is_whitespace(c: char) -> bool {
    ||| '\u{9}' <= c <= '\u{d}'
    ||| c == ' '
    ||| c == '\u{85}'
    ||| c == '\u{a0}'
    ||| c == '\u{1680}'
    ||| '\u{2000}' <= c <= '\u{200a}'
    ||| c == '\u{2028}'
    ||| c == '\u{2029}'
    ||| c == '\u{202f}'
    ||| c == '\u{205f}'
    ||| c == '\u{3000}'
}

/// `s` without its leading white space.
pub open spec fn trim_start(s: Seq<char>) -> Seq<char>
    decreases s.len(),
{
    if s.len() > 0 && is_whitespace(s.first()) {
        trim_start(s.drop_first())
    } else {
        s
    }
}

/// `s` without its trailing white space.
pub open spec fn trim_end(s: Seq<char>) -> Seq<char>
    decreases s.len(),
{
    if s.len() > 0 && is_whitespace(s.last()) {
        trim_end(s.drop_last())
    } else {
        s
    }
}

/// `s` without leading and trailing white space.
pub open spec fn trimmed(s: Seq<char>) -> Seq<char> {
    trim_end(trim_start(s))
}

/// What `trim_start` drops is white space at the front, and it drops all of
/// it.
pub proof fn lemma_trim_start(s: Seq<char>) -> (start: int)
    ensures
        0 <= start <= s.len(),
        trim_start(s) == s.skip(start),
        forall|i: int| 0 <= i < start ==> is_whitespace(#[trigger] s[i]),
        start < s.len() ==> !is_whitespace(s[start]),
    decreases s.len(),
{
    if s.len() > 0 && is_whitespace(s.first()) {
        let inner = lemma_trim_start(s.drop_first());
        assert(s.drop_first().skip(inner) =~= s.skip(inner + 1));
        assert forall|i: int| 0 <= i < inner + 1 implies is_whitespace(#[trigger] s[i]) by {
            if i > 0 {
                assert(s[i] == s.drop_first()[i - 1]);
            }
        }
        if inner + 1 < s.len() {
            assert(s[inner + 1] == s.drop_first()[inner]);
        }
        inner + 1
    } else {
        assert(s.skip(0) =~= s);
        0
    }
}

/// What `trim_end` drops is white space at the back, and it drops all of it.
pub proof fn lemma_trim_end(s: Seq<char>) -> (end: int)
    ensures
        0 <= end <= s.len(),
        trim_end(s) == s.take(end),
        forall|i: int| end <= i < s.len() ==> is_whitespace(#[trigger] s[i]),
        end > 0 ==> !is_whitespace(s[end - 1]),
    decreases s.len(),
{
    if s.len() > 0 && is_whitespace(s.last()) {
        let inner = lemma_trim_end(s.drop_last());
        assert(s.drop_last().take(inner) =~= s.take(inner));
        assert forall|i: int| inner <= i < s.len() implies is_whitespace(#[trigger] s[i]) by {
            if i < s.len() - 1 {
                assert(s[i] == s.drop_last()[i]);
            }
        }
        if inner > 0 {
            assert(s[inner - 1] == s.drop_last()[inner - 1]);
        }
        inner
    } else {
        assert(s.take(s.len() as int) =~= s);
        s.len() as int
    }
}

/// Trimming keeps one stretch of the text: all that was dropped before and
/// after it is white space, and what is kept neither begins nor ends with
/// white space.
pub proof fn law_trimmed(s: Seq<char>) -> (bounds: (int, int))
    ensures
        0 <= bounds.0 <= bounds.1 <= s.len(),
        trimmed(s) == s.subrange(bounds.0, bounds.1),
        forall|i: int| 0 <= i < bounds.0 ==> is_whitespace(#[trigger] s[i]),
        forall|i: int| bounds.1 <= i < s.len() ==> is_whitespace(#[trigger] s[i]),
        trimmed(s).len() > 0 ==> !is_whitespace(trimmed(s).first()) && !is_whitespace(
            trimmed(s).last(),
        ),
{
    let start = lemma_trim_start(s);
    let rest = s.skip(start);
    let kept = lemma_trim_end(rest);
    assert(rest.take(kept) =~= s.subrange(start, start + kept));
    assert forall|i: int| start + kept <= i < s.len() implies is_whitespace(#[trigger] s[i]) by {
        assert(s[i] == rest[i - start]);
    }
    if kept > 0 {
        assert(trimmed(s).first() == s[start]);
        assert(trimmed(s).last() == rest[kept - 1]);
    }
    (start, start + kept)
}

/// A text that neither begins nor ends with white space is its own trim.
pub proof fn lemma_trimmed_unchanged(s: Seq<char>)
    requires
        s.len() > 0 ==> !is_whitespace(s.first()) && !is_whitespace(s.last()),
    ensures
        trimmed(s) == s,
{
}

/// The position of the first `c` in `s`, or the length of `s` if there is none.
pub open spec fn first_index_of(s: Seq<char>, c: char) -> int
    decreases s.len(),
{
    if s.len() == 0 || s.first() == c {
        0
    } else {
        1 + first_index_of(s.drop_first(), c)
    }
}

/// The first position of a character lies within the text, or at its end.
pub proof fn lemma_first_index_bounds(s: Seq<char>, c: char)
    ensures
        0 <= first_index_of(s, c) <= s.len(),
    decreases s.len(),
{
    if s.len() > 0 && s.first() != c {
        lemma_first_index_bounds(s.drop_first(), c);
    }
}

/// The characters of a string slice, in order.
pub fn chars_of(text: &str) -> (chars: Vec<char>)
    ensures
        chars@ == text@,
{
    let mut chars: Vec<char> = Vec::new();
    for c in it: text.chars()
        invariant
            chars@ == it.seq().take(it.index() as int),
            it.seq() == text@,
    {
        chars.push(c);
    }
    chars
}

/// Tells whether `c` is white space.
pub fn whitespace(c: char) -> (r: bool)
    ensures
        r == is_whitespace(c),
{
    ('\u{9}' <= c && c <= '\u{d}') || c == ' ' || c == '\u{85}' || c == '\u{a0}' || c == '\u{1680}'
        || ('\u{2000}' <= c && c <= '\u{200a}') || c == '\u{2028}' || c == '\u{2029}' || c
        == '\u{202f}' || c == '\u{205f}' || c == '\u{3000}'
}

/// The bounds of the part of `chars[from..to]` that is left once its leading
/// and trailing white space is removed.
pub fn trim_range(chars: &Vec<char>, from: usize, to: usize) -> (bounds: (usize, usize))
    requires
        from <= to <= chars.len(),
    ensures
        from <= bounds.0 <= bounds.1 <= to,
        chars@.subrange(bounds.0 as int, bounds.1 as int) == trimmed(
            chars@.subrange(from as int, to as int),
        ),
{
    let ghost piece = chars@.subrange(from as int, to as int);
    let mut start: usize = from;
    assert(piece.skip(0) =~= piece);
    while start < to && whitespace(chars[start])
        invariant
            from <= start <= to <= chars.len(),
            piece == chars@.subrange(from as int, to as int),
            trim_start(piece) == trim_start(piece.skip(start - from)),
        decreases to - start,
    {
        assert(piece.skip(start - from).drop_first() =~= piece.skip(start - from + 1));
        start += 1;
    }
    assert(trim_start(piece) == piece.skip(start - from));
    let mut end: usize = to;
    assert(chars@.subrange(start as int, to as int) =~= piece.skip(start - from));
    while end > start && whitespace(chars[end - 1])
        invariant
            from <= start <= end <= to <= chars.len(),
            trimmed(piece) == trim_end(chars@.subrange(start as int, end as int)),
        decreases end,
    {
        assert(chars@.subrange(start as int, end as int).drop_last() =~= chars@.subrange(
            start as int,
            end - 1,
        ));
        end -= 1;
    }
    (start, end)
}

/// The bounds of the part of `chars` that is left once leading and trailing
/// white space is removed.
pub fn trim_bounds(chars: &Vec<char>) -> (bounds: (usize, usize))
    ensures
        bounds.0 <= bounds.1 <= chars.len(),
        chars@.subrange(bounds.0 as int, bounds.1 as int) == trimmed(chars@),
{
    assert(chars@.subrange(0, chars.len() as int) =~= chars@);
    trim_range(chars, 0, chars.len())
}

/// The part of `text` between its leading and trailing white space.
pub fn trim(text: &str) -> (out: &str)
    ensures
        out@ == trimmed(text@),
{
    let chars = chars_of(text);
    let (start, end) = trim_bounds(&chars);
    text.substring_char(start, end)
}

/// The position of the first `c` at or after `from`, or the length of
/// `chars` if there is none.
pub(crate) fn find_char(chars: &Vec<char>, from: usize, c: char) -> (at: usize)
    requires
        from <= chars.len(),
    ensures
        from <= at <= chars.len(),
        at - from == first_index_of(chars@.skip(from as int), c),
{
    let mut at: usize = from;
    while at < chars.len() && chars[at] != c
        invariant
            from <= at <= chars.len(),
            first_index_of(chars@.skip(from as int), c) == (at - from) + first_index_of(
                chars@.skip(at as int),
                c,
            ),
        decreases chars.len() - at,
    {
        assert(chars@.skip(at as int).drop_first() =~= chars@.skip(at + 1));
        at += 1;
    }
    at
}

/// Calls `String::push`, which by its documentation appends the character
/// to the end of the string.
#[verifier::external_body]
pub(crate) fn push_char(text: &mut String, c: char)
    ensures
        final(text)@ == old(text)@.push(c),
{
    text.push(c);
}

} // verus!
