//! Cutting text at ASCII bytes: the mathematical notion of splitting a
//! sequence at a separator, and the executable cuts of a `&str` that agree
//! with it.

use vstd::prelude::*;
use vstd::string::*;
use vstd::utf8::*;

verus! {

#[verifier::external_type_specification]
#[verifier::external_body]
pub struct ExFromUtf8Error(std::string::FromUtf8Error);

/// `String::from_utf8`: the text that the bytes encode, or an error if and
/// only if they are not valid UTF-8.
pub assume_specification[ String::from_utf8 ](bytes: Vec<u8>) -> (text: Result<
    String,
    std::string::FromUtf8Error,
>)
    ensures
        text is Ok <==> valid_utf8(bytes@),
        text matches Ok(s) ==> s@ == decode_utf8(bytes@),
;

/// The pieces of `s` that lie between the occurrences of `sep`, in order.
/// A sequence that holds the separator `n` times has `n + 1` pieces, some of
/// which may be empty.
pub open spec fn split<T>(s: Seq<T>, sep: T) -> Seq<Seq<T>>
    decreases s.len(),
{
    if s.len() == 0 {
        seq![Seq::<T>::empty()]
    } else {
        let before = split(s.drop_last(), sep);
        if s.last() == sep {
            before.push(Seq::<T>::empty())
        } else {
            before.update(before.len() - 1, before.last().push(s.last()))
        }
    }
}

/// The pieces put together again, with `sep` between each two of them.
pub open spec fn join<T>(pieces: Seq<Seq<T>>, sep: T) -> Seq<T>
    decreases pieces.len(),
{
    if pieces.len() == 0 {
        Seq::<T>::empty()
    } else if pieces.len() == 1 {
        pieces[0]
    } else {
        join(pieces.drop_last(), sep).push(sep) + pieces.last()
    }
}

/// How often `sep` occurs in `s`.
pub open spec fn count<T>(s: Seq<T>, sep: T) -> nat
    decreases s.len(),
{
    if s.len() == 0 {
        0
    } else {
        count(s.drop_last(), sep) + if s.last() == sep { 1nat } else { 0nat }
    }
}

/// Splitting never gives an empty list, and gives one piece more than there
/// are separators.
pub proof fn lemma_split_len<T>(s: Seq<T>, sep: T)
    ensures
        split(s, sep).len() == count(s, sep) + 1,
    decreases s.len(),
{
    if s.len() > 0 {
        lemma_split_len(s.drop_last(), sep);
    }
}

/// No piece of a split holds the separator.
pub proof fn lemma_split_pieces_hold_no_separator<T>(s: Seq<T>, sep: T)
    ensures
        forall|i: int, j: int|
            0 <= i < split(s, sep).len() && 0 <= j < split(s, sep)[i].len() ==> split(
                s,
                sep,
            )[i][j] != sep,
    decreases s.len(),
{
    if s.len() > 0 {
        lemma_split_len(s.drop_last(), sep);
        lemma_split_pieces_hold_no_separator(s.drop_last(), sep);
    }
}

/// Joining the pieces of a split with the same separator gives the sequence
/// back.
pub proof fn lemma_join_split<T>(s: Seq<T>, sep: T)
    ensures
        join(split(s, sep), sep) == s,
    decreases s.len(),
{
    if s.len() > 0 {
        let t = s.drop_last();
        let before = split(t, sep);
        lemma_split_len(t, sep);
        lemma_join_split(t, sep);
        if s.last() == sep {
            assert(before.push(Seq::<T>::empty()).drop_last() == before);
        } else if before.len() > 1 {
            let all = before.update(before.len() - 1, before.last().push(s.last()));
            assert(all.drop_last() == before.drop_last());
            assert(join(all, sep) == join(before, sep).push(s.last()));
        }
    }
}

/// A sequence without the separator is its own single piece.
pub proof fn lemma_split_one_piece<T>(s: Seq<T>, sep: T)
    requires
        count(s, sep) == 0,
    ensures
        split(s, sep) == seq![s],
    decreases s.len(),
{
    if s.len() == 0 {
        assert(s == Seq::<T>::empty());
    } else {
        lemma_split_one_piece(s.drop_last(), sep);
        assert(s.drop_last().push(s.last()) == s);
    }
}

/// The pieces of two sequences with a separator between them are the pieces
/// of the first and then the pieces of the second.
pub proof fn lemma_split_around<T>(a: Seq<T>, b: Seq<T>, sep: T)
    ensures
        split(a.push(sep) + b, sep) == split(a, sep) + split(b, sep),
    decreases b.len(),
{
    let whole = a.push(sep) + b;
    if b.len() == 0 {
        assert(whole.drop_last() == a);
    } else {
        let shorter = b.drop_last();
        lemma_split_around(a, shorter, sep);
        lemma_split_len(shorter, sep);
        assert(whole.drop_last() == a.push(sep) + shorter);
    }
}

/// In valid UTF-8 an ASCII byte is a character of its own: the places
/// before it and after it are character boundaries.
pub proof fn lemma_ascii_byte_is_bounded(bytes: Seq<u8>, i: int)
    requires
        valid_utf8(bytes),
        0 <= i < bytes.len(),
        bytes[i] < 0x80,
    ensures
        is_char_boundary(bytes, i),
        is_char_boundary(bytes, i + 1),
{
    is_char_boundary_iff_not_is_continuation_byte(bytes, i);
    if i + 1 < bytes.len() {
        // What follows the byte is valid UTF-8 of its own, so it begins
        // with no continuation byte.
        valid_utf8_split(bytes, i);
        let tail = bytes.subrange(i, bytes.len() as int);
        assert(valid_utf8(pop_first_scalar(tail)));
        is_char_boundary_iff_not_is_continuation_byte(bytes, i + 1);
    } else {
        is_char_boundary_start_end_of_seq(bytes);
    }
}

/// Where a separator stands in a sequence that holds one: the place of the
/// first.
pub proof fn lemma_first_separator<T>(s: Seq<T>, sep: T) -> (k: int)
    requires
        count(s, sep) > 0,
    ensures
        0 <= k < s.len(),
        s[k] == sep,
        count(s.take(k), sep) == 0,
    decreases s.len(),
{
    if count(s.drop_last(), sep) > 0 {
        let k = lemma_first_separator(s.drop_last(), sep);
        assert(s.drop_last().take(k) == s.take(k));
        k
    } else {
        s.len() - 1
    }
}

/// Valid UTF-8 that is cut at an ASCII byte falls into pieces that are
/// valid UTF-8 each: every piece is text.
pub proof fn lemma_split_keeps_utf8(s: Seq<u8>, sep: u8)
    requires
        valid_utf8(s),
        sep < 0x80,
    ensures
        forall|i: int| 0 <= i < split(s, sep).len() ==> valid_utf8(#[trigger] split(s, sep)[i]),
    decreases s.len(),
{
    if count(s, sep) == 0 {
        lemma_split_one_piece(s, sep);
    } else {
        let k = lemma_first_separator(s, sep);
        let a = s.take(k);
        let b = s.skip(k + 1);
        assert(s == a.push(sep) + b);
        lemma_ascii_byte_is_bounded(s, k);
        valid_utf8_split(s, k);
        valid_utf8_split(s, k + 1);
        lemma_split_one_piece(a, sep);
        lemma_split_around(a, b, sep);
        lemma_split_keeps_utf8(b, sep);
    }
}

/// The part of `s` from byte `from` up to byte `to`.
pub(crate) fn slice_str<'a>(s: &'a str, from: usize, to: usize) -> (r: &'a str)
    requires
        from <= to <= s.spec_bytes().len(),
        is_char_boundary(s.spec_bytes(), from as int),
        is_char_boundary(s.spec_bytes(), to as int),
    ensures
        r.spec_bytes() == s.spec_bytes().subrange(from as int, to as int),
{
    broadcast use encode_utf8_valid_utf8;

    let (head, _) = s.split_at(to);
    proof {
        // `from` is a boundary in the front part as it is in the whole.
        if from == to {
            is_char_boundary_start_end_of_seq(head.spec_bytes());
        } else {
            is_char_boundary_iff_not_is_continuation_byte(s.spec_bytes(), from as int);
            is_char_boundary_iff_not_is_continuation_byte(head.spec_bytes(), from as int);
        }
    }
    let (_, r) = head.split_at(from);
    r
}

/// The bytes that each of the string slices holds.
pub open spec fn bytes_of(pieces: Seq<&str>) -> Seq<Seq<u8>> {
    Seq::new(pieces.len(), |i: int| pieces[i].spec_bytes())
}

/// Cuts `s` at every occurrence of the ASCII byte `sep`. The pieces borrow
/// from `s`; none of them holds the separator.
pub fn split_str<'a>(s: &'a str, sep: u8) -> (pieces: Vec<&'a str>)
    requires
        sep < 0x80,
    ensures
        bytes_of(pieces@) == split(s.spec_bytes(), sep),
{
    broadcast use encode_utf8_valid_utf8;

    let bytes = s.as_bytes();
    let n = bytes.len();
    let mut pieces: Vec<&str> = Vec::new();
    let mut start: usize = 0;
    let mut i: usize = 0;
    proof {
        is_char_boundary_start_end_of_seq(s.spec_bytes());
        assert(bytes@.take(0) == Seq::<u8>::empty());
    }
    while i < n
        invariant
            bytes@ == s.spec_bytes(),
            n == bytes@.len(),
            sep < 0x80,
            start <= i <= n,
            valid_utf8(s.spec_bytes()),
            is_char_boundary(s.spec_bytes(), start as int),
            split(bytes@.take(i as int), sep) == bytes_of(pieces@).push(
                bytes@.subrange(start as int, i as int),
            ),
        decreases n - i,
    {
        let ghost current = bytes@.subrange(start as int, i as int);
        proof {
            assert(bytes@.take(i + 1).drop_last() == bytes@.take(i as int));
        }
        if bytes[i] == sep {
            proof {
                lemma_ascii_byte_is_bounded(s.spec_bytes(), i as int);
            }
            pieces.push(slice_str(s, start, i));
            start = i + 1;
            proof {
                assert(bytes@.subrange(start as int, i + 1) == Seq::<u8>::empty());
            }
        } else {
            proof {
                assert(bytes@.subrange(start as int, i + 1) == current.push(bytes@[i as int]));
            }
        }
        i += 1;
    }
    proof {
        is_char_boundary_start_end_of_seq(s.spec_bytes());
        assert(bytes@.take(n as int) == bytes@);
    }
    pieces.push(slice_str(s, start, n));
    pieces
}

/// `s` without the `c`s that it begins with.
pub open spec fn trim_start(s: Seq<u8>, c: u8) -> Seq<u8>
    decreases s.len(),
{
    if s.len() > 0 && s[0] == c {
        trim_start(s.skip(1), c)
    } else {
        s
    }
}

/// `s` without the one carriage return that it may end in.
pub open spec fn without_cr(s: Seq<u8>) -> Seq<u8> {
    if s.len() > 0 && s.last() == 0x0d {
        s.drop_last()
    } else {
        s
    }
}

/// Valid UTF-8 stays valid when the ASCII bytes that it begins with are
/// taken off.
pub proof fn lemma_trim_start_keeps_utf8(s: Seq<u8>, c: u8)
    requires
        valid_utf8(s),
        c < 0x80,
    ensures
        valid_utf8(trim_start(s, c)),
    decreases s.len(),
{
    if s.len() > 0 && s[0] == c {
        lemma_ascii_byte_is_bounded(s, 0);
        valid_utf8_split(s, 1);
        lemma_trim_start_keeps_utf8(s.skip(1), c);
    }
}

/// Valid UTF-8 stays valid when the carriage return that it ends in is
/// taken off.
pub proof fn lemma_without_cr_keeps_utf8(s: Seq<u8>)
    requires
        valid_utf8(s),
    ensures
        valid_utf8(without_cr(s)),
{
    if s.len() > 0 && s.last() == 0x0d {
        lemma_ascii_byte_is_bounded(s, s.len() - 1);
        valid_utf8_split(s, s.len() - 1);
    }
}

/// Cuts off every ASCII byte `c` that `s` begins with.
pub fn trim_start_str<'a>(s: &'a str, c: u8) -> (r: &'a str)
    requires
        c < 0x80,
    ensures
        r.spec_bytes() == trim_start(s.spec_bytes(), c),
{
    broadcast use encode_utf8_valid_utf8;

    let bytes = s.as_bytes();
    let n = bytes.len();
    let mut k: usize = 0;
    proof {
        is_char_boundary_start_end_of_seq(s.spec_bytes());
        assert(bytes@.skip(0) == bytes@);
    }
    while k < n && bytes[k] == c
        invariant
            bytes@ == s.spec_bytes(),
            n == bytes@.len(),
            c < 0x80,
            k <= n,
            valid_utf8(s.spec_bytes()),
            is_char_boundary(s.spec_bytes(), k as int),
            trim_start(bytes@, c) == trim_start(bytes@.skip(k as int), c),
        decreases n - k,
    {
        proof {
            lemma_ascii_byte_is_bounded(s.spec_bytes(), k as int);
            assert(bytes@.skip(k as int).skip(1) == bytes@.skip(k + 1));
        }
        k += 1;
    }
    proof {
        is_char_boundary_start_end_of_seq(s.spec_bytes());
    }
    slice_str(s, k, n)
}

/// Cuts off the carriage return that `s` may end in.
pub fn without_cr_str<'a>(s: &'a str) -> (r: &'a str)
    ensures
        r.spec_bytes() == without_cr(s.spec_bytes()),
{
    broadcast use encode_utf8_valid_utf8;

    let bytes = s.as_bytes();
    let n = bytes.len();
    if n > 0 && bytes[n - 1] == 0x0d {
        proof {
            is_char_boundary_start_end_of_seq(s.spec_bytes());
            lemma_ascii_byte_is_bounded(s.spec_bytes(), n - 1);
        }
        slice_str(s, 0, n - 1)
    } else {
        s
    }
}

} // verus!
