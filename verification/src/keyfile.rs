//! The text form of a signing key: a JSON array of byte values, such as
//! `[12, 255, 0]`.
//!
//! The array stands between one `[` and one `]`, with nothing but white
//! space before and after. Its values are separated by commas; white space
//! around a value means nothing. A value is a whole number from 0 to 255 in
//! digits alone: no sign, no leading zero, no fraction, no exponent. The
//! empty array `[]` lists no bytes.

use crate::digits::{
    decimal_text, is_digit, lemma_decimal_text, lemma_decimal_text_first, parse_u8, u8_text_value,
};
use crate::text::{chars_of, lemma_trimmed_unchanged, trim_bounds, trim_range, trimmed};
use vstd::prelude::*;

verus! {

/// The pieces of `s` that lie between its commas. There is always one piece
/// more than there are commas; a piece may be empty.
pub open spec fn split_commas(s: Seq<char>) -> Seq<Seq<char>>
    decreases s.len(),
{
    if s.len() == 0 {
        seq![Seq::<char>::empty()]
    } else {
        let before = split_commas(s.drop_last());
        if s.last() == ',' {
            before.push(Seq::<char>::empty())
        } else {
            before.drop_last().push(before.last().push(s.last()))
        }
    }
}

/// The pieces written one after the other, with a comma between each two.
pub open spec fn join_commas(pieces: Seq<Seq<char>>) -> Seq<char>
    decreases pieces.len(),
{
    if pieces.len() == 0 {
        Seq::<char>::empty()
    } else if pieces.len() == 1 {
        pieces[0]
    } else {
        join_commas(pieces.drop_last()) + seq![','] + pieces.last()
    }
}

/// Cutting at the commas loses nothing and leaves no comma: there is at
/// least one piece, no piece holds a comma, and the pieces joined by commas
/// are the text that was cut.
pub proof fn law_split_commas(s: Seq<char>)
    ensures
        split_commas(s).len() >= 1,
        forall|i: int, j: int|
            0 <= i < split_commas(s).len() && 0 <= j < split_commas(s)[i].len()
                ==> #[trigger] split_commas(s)[i][j] != ',',
        join_commas(split_commas(s)) == s,
    decreases s.len(),
{
    if s.len() > 0 {
        let before = split_commas(s.drop_last());
        let pieces = split_commas(s);
        law_split_commas(s.drop_last());
        if s.last() == ',' {
            assert(pieces.drop_last() =~= before);
            assert(join_commas(pieces) =~= s.drop_last() + seq![','] + Seq::<char>::empty());
            assert(s =~= s.drop_last() + seq![','] + Seq::<char>::empty());
        } else {
            let last = before.last().push(s.last());
            assert(pieces.last() == last);
            assert(pieces.drop_last() =~= before.drop_last());
            if before.len() == 1 {
                assert(join_commas(pieces) =~= s.drop_last().push(s.last()));
            } else {
                assert(join_commas(pieces) =~= (join_commas(before.drop_last()) + seq![',']
                    + before.last()).push(s.last()));
            }
            assert(s =~= s.drop_last().push(s.last()));
            assert forall|i: int, j: int|
                0 <= i < pieces.len() && 0 <= j < pieces[i].len() implies #[trigger] pieces[i][j]
                != ',' by {
                if i < pieces.len() - 1 {
                    assert(pieces[i] == before[i]);
                } else if j < before.last().len() {
                    assert(pieces[i][j] == before[before.len() - 1][j]);
                }
            }
        }
    } else {
        assert(join_commas(split_commas(s)) =~= s);
    }
}

/// The text stands between one `[` and one `]`: once the white space around
/// it is dropped, it begins with `[`, ends with `]`, and holds no other
/// bracket.
pub open spec fn is_bracketed(buffer: Seq<char>) -> bool {
    let body = trimmed(buffer);
    &&& body.len() >= 2
    &&& body.first() == '['
    &&& body.last() == ']'
    &&& forall|i: int| 0 < i < body.len() - 1 ==> #[trigger] body[i] != '[' && body[i] != ']'
}

/// What stands between the brackets.
pub open spec fn array_inner(buffer: Seq<char>) -> Seq<char> {
    trimmed(buffer).subrange(1, trimmed(buffer).len() - 1)
}

/// The pieces of a key text: what stands between the brackets, cut at the
/// commas. Between brackets that hold nothing but white space there is no
/// piece.
pub open spec fn keypair_pieces(buffer: Seq<char>) -> Seq<Seq<char>> {
    if trimmed(array_inner(buffer)).len() == 0 {
        Seq::<Seq<char>>::empty()
    } else {
        split_commas(array_inner(buffer))
    }
}

/// The byte that a piece denotes: with the white space around it dropped,
/// one or more digits without sign and without leading zero, whose value is
/// at most 255.
pub open spec fn byte_value(piece: Seq<char>) -> Option<u8> {
    let digits = trimmed(piece);
    if digits.len() > 0 && digits.first() != '+' && (digits.len() == 1 || digits.first() != '0') {
        u8_text_value(digits)
    } else {
        None
    }
}

/// A key text is well formed when it is bracketed and every piece denotes a
/// byte.
pub open spec fn is_keypair_text(buffer: Seq<char>) -> bool {
    &&& is_bracketed(buffer)
    &&& forall|i: int|
        0 <= i < keypair_pieces(buffer).len() ==> byte_value(
            #[trigger] keypair_pieces(buffer)[i],
        ) is Some
}

/// The bytes that a well-formed key text lists, in order: as many as there
/// are pieces, whether or not that is the number a key needs.
pub open spec fn keypair_bytes(buffer: Seq<char>) -> Seq<u8> {
    Seq::new(keypair_pieces(buffer).len(), |i: int| byte_value(keypair_pieces(buffer)[i]).unwrap())
}

/// Reads `chars[from..to]` as one value of the array.
fn read_byte(chars: &Vec<char>, from: usize, to: usize) -> (r: Option<u8>)
    requires
        from <= to <= chars.len(),
    ensures
        r == byte_value(chars@.subrange(from as int, to as int)),
{
    let (first, last) = trim_range(chars, from, to);
    if first == last || chars[first] == '+' || (last - first > 1 && chars[first] == '0') {
        None
    } else {
        parse_u8(chars, first, last)
    }
}

/// Tells whether `chars[from..to]` holds a bracket.
fn holds_bracket(chars: &Vec<char>, from: usize, to: usize) -> (r: bool)
    requires
        from <= to <= chars.len(),
    ensures
        r == exists|i: int| from <= i < to && (chars@[i] == '[' || chars@[i] == ']'),
{
    let mut i: usize = from;
    while i < to
        invariant
            from <= i <= to <= chars.len(),
            forall|j: int| from <= j < i ==> chars@[j] != '[' && chars@[j] != ']',
        decreases to - i,
    {
        if chars[i] == '[' || chars[i] == ']' {
            return true;
        }
        i += 1;
    }
    false
}

/// Reads a key text. Returns the bytes it lists, however many, or `None`
/// when the text is not bracketed or some piece denotes no byte.
pub fn parse_keypair(buffer: &str) -> (r: Option<Vec<u8>>)
    ensures
        r is Some <==> is_keypair_text(buffer@),
        r matches Some(bytes) ==> bytes@ == keypair_bytes(buffer@),
{
    let chars = chars_of(buffer);
    let (start, end) = trim_bounds(&chars);
    let ghost body = trimmed(buffer@);
    if end - start < 2 || chars[start] != '[' || chars[end - 1] != ']' {
        return None;
    }
    let from: usize = start + 1;
    let to: usize = end - 1;
    if holds_bracket(&chars, from, to) {
        proof {
            let i = choose|i: int| from <= i < to && (chars@[i] == '[' || chars@[i] == ']');
            assert(body[i - start] == chars@[i]);
        }
        return None;
    }
    assert(is_bracketed(buffer@)) by {
        assert forall|i: int| 0 < i < body.len() - 1 implies #[trigger] body[i] != '[' && body[i]
            != ']' by {
            assert(body[i] == chars@[i + start]);
        }
    }
    let ghost inner = array_inner(buffer@);
    assert(inner =~= chars@.subrange(from as int, to as int));
    let (inner_start, inner_end) = trim_range(&chars, from, to);
    if inner_start == inner_end {
        let bytes: Vec<u8> = Vec::new();
        assert(bytes@ =~= keypair_bytes(buffer@));
        return Some(bytes);
    }
    let mut bytes: Vec<u8> = Vec::new();
    let mut ok: bool = true;
    let mut piece_start: usize = from;
    let mut i: usize = from;
    let ghost mut done: Seq<Seq<char>> = Seq::empty();
    let ghost mut bad: int = 0;
    assert(inner.take(0) =~= Seq::<char>::empty());
    assert(split_commas(inner.take(0)) =~= done.push(inner.subrange(0, 0)));
    while i < to
        invariant
            from <= piece_start <= i <= to <= chars.len(),
            inner == chars@.subrange(from as int, to as int),
            split_commas(inner.take(i - from)) == done.push(
                inner.subrange(piece_start - from, i - from),
            ),
            bytes.len() == done.len(),
            ok ==> forall|j: int|
                0 <= j < done.len() ==> byte_value(#[trigger] done[j]) == Some(bytes[j]),
            !ok ==> 0 <= bad < done.len() && byte_value(done[bad]) is None,
        decreases to - i,
    {
        let c: char = chars[i];
        let ghost piece = inner.subrange(piece_start - from, i - from);
        proof {
            assert(inner.take(i - from + 1).drop_last() =~= inner.take(i - from));
            assert(inner.take(i - from + 1).last() == c);
        }
        if c == ',' {
            let value = read_byte(&chars, piece_start, i);
            assert(chars@.subrange(piece_start as int, i as int) =~= piece);
            match value {
                Some(b) => {
                    bytes.push(b);
                },
                None => {
                    bytes.push(0);
                    proof {
                        if ok {
                            bad = done.len() as int;
                        }
                    }
                    ok = false;
                },
            }
            proof {
                done = done.push(piece);
                assert(inner.subrange(i + 1 - from, i + 1 - from) =~= Seq::<char>::empty());
            }
            piece_start = i + 1;
        } else {
            proof {
                assert(done.push(piece).drop_last() =~= done);
                assert(piece.push(c) =~= inner.subrange(piece_start - from, i + 1 - from));
            }
        }
        i += 1;
    }
    assert(inner.take(to - from) =~= inner);
    let ghost pieces = keypair_pieces(buffer@);
    let ghost piece = inner.subrange(piece_start - from, to - from);
    assert(pieces == done.push(piece));
    let value = read_byte(&chars, piece_start, to);
    assert(chars@.subrange(piece_start as int, to as int) =~= piece);
    match value {
        Some(b) => {
            bytes.push(b);
        },
        None => {
            assert(byte_value(pieces[done.len() as int]) is None);
            return None;
        },
    }
    if ok {
        assert forall|j: int| 0 <= j < pieces.len() implies byte_value(#[trigger] pieces[j])
            == Some(bytes[j]) by {
            if j < done.len() {
                assert(pieces[j] == done[j]);
            }
        }
        assert(bytes@ =~= keypair_bytes(buffer@));
        Some(bytes)
    } else {
        assert(byte_value(pieces[bad]) is None);
        None
    }
}

/// Reads a well-formed key text and returns the bytes it lists.
pub fn trim_keypair(buffer: &str) -> (secret_key: Vec<u8>)
    requires
        is_keypair_text(buffer@),
    ensures
        secret_key@ == keypair_bytes(buffer@),
{
    match parse_keypair(buffer) {
        Some(bytes) => bytes,
        None => vstd::pervasive::unreached(),
    }
}

/// A key written out: the bytes in decimal, separated by commas, between
/// brackets.
pub open spec fn keypair_text(bytes: Seq<u8>) -> Seq<char> {
    seq!['['] + join_commas(bytes.map_values(|b: u8| decimal_text(b as nat))) + seq![']']
}

/// A text without comma is one piece.
pub proof fn lemma_split_one_piece(s: Seq<char>)
    requires
        forall|j: int| 0 <= j < s.len() ==> s[j] != ',',
    ensures
        split_commas(s) == seq![s],
    decreases s.len(),
{
    if s.len() > 0 {
        lemma_split_one_piece(s.drop_last());
        assert(s.drop_last().push(s.last()) =~= s);
        assert(seq![s.drop_last()].drop_last().push(s) =~= seq![s]);
    } else {
        assert(s =~= Seq::<char>::empty());
    }
}

/// A comma and a text without comma add one piece.
pub proof fn lemma_split_one_more(s: Seq<char>, t: Seq<char>)
    requires
        forall|j: int| 0 <= j < t.len() ==> t[j] != ',',
    ensures
        split_commas(s + seq![','] + t) == split_commas(s).push(t),
    decreases t.len(),
{
    let whole = s + seq![','] + t;
    if t.len() == 0 {
        assert(whole.drop_last() =~= s);
        assert(t =~= Seq::<char>::empty());
    } else {
        assert(whole.drop_last() =~= s + seq![','] + t.drop_last());
        assert(whole.last() == t.last());
        lemma_split_one_more(s, t.drop_last());
        let before = split_commas(s).push(t.drop_last());
        assert(before.drop_last() =~= split_commas(s));
        assert(t.drop_last().push(t.last()) =~= t);
    }
}

/// Pieces without comma, joined by commas and cut at the commas, are the
/// same pieces.
pub proof fn lemma_join_then_split(pieces: Seq<Seq<char>>)
    requires
        pieces.len() >= 1,
        forall|i: int, j: int|
            0 <= i < pieces.len() && 0 <= j < pieces[i].len() ==> #[trigger] pieces[i][j] != ',',
    ensures
        split_commas(join_commas(pieces)) == pieces,
    decreases pieces.len(),
{
    if pieces.len() == 1 {
        lemma_split_one_piece(pieces[0]);
        assert(seq![pieces[0]] =~= pieces);
    } else {
        assert forall|i: int, j: int|
            0 <= i < pieces.drop_last().len() && 0 <= j < pieces.drop_last()[i].len()
            implies #[trigger] pieces.drop_last()[i][j] != ',' by {
            assert(pieces.drop_last()[i] == pieces[i]);
        }
        lemma_join_then_split(pieces.drop_last());
        assert forall|j: int| 0 <= j < pieces.last().len() implies pieces.last()[j] != ',' by {
            assert(pieces.last()[j] == pieces[pieces.len() - 1][j]);
        }
        lemma_split_one_more(join_commas(pieces.drop_last()), pieces.last());
        assert(pieces.drop_last().push(pieces.last()) =~= pieces);
    }
}

/// Numbers joined by commas hold digits and commas only, and begin and end
/// with a digit.
pub proof fn lemma_joined_numbers(bytes: Seq<u8>)
    requires
        bytes.len() >= 1,
    ensures
        ({
            let joined = join_commas(bytes.map_values(|b: u8| decimal_text(b as nat)));
            &&& joined.len() >= 1
            &&& is_digit(joined.first())
            &&& is_digit(joined.last())
            &&& forall|j: int| 0 <= j < joined.len() ==> is_digit(#[trigger] joined[j]) || joined[j] == ','
        }),
    decreases bytes.len(),
{
    let pieces = bytes.map_values(|b: u8| decimal_text(b as nat));
    let last = decimal_text(bytes.last() as nat);
    lemma_decimal_text(bytes.last() as nat);
    assert(pieces.last() == last);
    assert(is_digit(last[0]));
    assert(is_digit(last[last.len() - 1]));
    if bytes.len() > 1 {
        lemma_joined_numbers(bytes.drop_last());
        assert(pieces.drop_last() =~= bytes.drop_last().map_values(|b: u8| decimal_text(b as nat)));
        let front = join_commas(pieces.drop_last());
        let joined = join_commas(pieces);
        assert(joined == front + seq![','] + last);
        assert forall|j: int| 0 <= j < joined.len() implies is_digit(#[trigger] joined[j])
            || joined[j] == ',' by {
            if j < front.len() {
                assert(joined[j] == front[j]);
            } else if j > front.len() {
                assert(joined[j] == last[j - front.len() - 1]);
            }
        }
        assert(joined.first() == front.first());
        assert(joined.last() == last.last());
    } else {
        assert(join_commas(pieces) == last);
    }
}

/// A key written out reads back as the same bytes: the text of any bytes is
/// a well-formed key text, and the bytes it lists are those that were
/// written.
pub proof fn law_keypair_round_trip(bytes: Seq<u8>)
    ensures
        is_keypair_text(keypair_text(bytes)),
        keypair_bytes(keypair_text(bytes)) == bytes,
{
    let numbers = bytes.map_values(|b: u8| decimal_text(b as nat));
    let joined = join_commas(numbers);
    let text = keypair_text(bytes);
    assert(text.first() == '[');
    assert(text.last() == ']');
    lemma_trimmed_unchanged(text);
    assert(array_inner(text) =~= joined);
    if bytes.len() == 0 {
        assert(joined =~= Seq::<char>::empty());
        assert(keypair_bytes(text) =~= bytes);
    } else {
        lemma_joined_numbers(bytes);
        assert forall|i: int| 0 < i < text.len() - 1 implies #[trigger] text[i] != '[' && text[i]
            != ']' by {
            assert(text[i] == joined[i - 1]);
        }
        lemma_trimmed_unchanged(joined);
        assert forall|i: int, j: int|
            0 <= i < numbers.len() && 0 <= j < numbers[i].len() implies #[trigger] numbers[i][j]
            != ',' by {
            lemma_decimal_text(bytes[i] as nat);
            assert(is_digit(numbers[i][j]));
        }
        lemma_join_then_split(numbers);
        assert(keypair_pieces(text) == numbers);
        assert forall|i: int| 0 <= i < numbers.len() implies byte_value(#[trigger] numbers[i])
            == Some(bytes[i]) by {
            let number = numbers[i];
            lemma_decimal_text(bytes[i] as nat);
            lemma_decimal_text_first(bytes[i] as nat);
            assert(is_digit(number[number.len() - 1]));
            lemma_trimmed_unchanged(number);
        }
        assert(keypair_bytes(text) =~= bytes);
    }
}

} // verus!
