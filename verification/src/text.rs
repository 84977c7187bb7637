//! The bounded character buffer.
//!
//! Both the input line and a response under construction live in a
//! `heapless::String` of [`BUFFER_SIZE`] bytes. The buffer never grows: an
//! append that does not fit is dropped whole and the buffer keeps what it had.
//! Capacity is counted in UTF-8 bytes, so the model speaks of a sequence of
//! characters together with the length of its encoding.

use vstd::prelude::*;
use vstd::utf8::{encode_scalar, encode_utf8, is_ascii_chars, is_ascii_chars_encode_utf8};

verus! {

/// Capacity, in UTF-8 bytes, of a [`TextBuffer`].
pub const BUFFER_SIZE: usize = 1028;

/// A fixed-capacity, ordered sequence of characters.
pub type TextBuffer = heapless::String<BUFFER_SIZE>;

/// `heapless::String`, a string in a buffer of `N` bytes that never grows.
/// Verus sees nothing inside it; what it holds is spoken of by [`text_of`].
#[verifier::external_type_specification]
#[verifier::external_body]
pub struct ExHeaplessString<const N: usize>(heapless::String<N>);

/// The characters that a text buffer holds, first to last.
pub uninterp spec fn text_of(s: heapless::String<BUFFER_SIZE>) -> Seq<char>;

/// Number of bytes that `s` occupies once encoded as UTF-8.
pub open spec fn byte_len(s: Seq<char>) -> nat {
    encode_utf8(s).len()
}

/// Whether `piece` can still be appended to a buffer that holds `buf`.
pub open spec fn fits(buf: Seq<char>, piece: Seq<char>) -> bool {
    byte_len(buf) + byte_len(piece) <= BUFFER_SIZE
}

/// What a buffer holding `buf` holds after an attempt to append `piece`:
/// all of `piece` goes in, or none of it.
pub open spec fn append_bounded(buf: Seq<char>, piece: Seq<char>) -> Seq<char> {
    if fits(buf, piece) {
        buf + piece
    } else {
        buf
    }
}

/// What a buffer holding `buf` holds after attempting to append each of
/// `pieces` in turn. A piece that does not fit is skipped; a later, shorter
/// one may still go in.
pub open spec fn append_all(buf: Seq<char>, pieces: Seq<Seq<char>>) -> Seq<char>
    decreases pieces.len(),
{
    if pieces.len() == 0 {
        buf
    } else {
        append_bounded(append_all(buf, pieces.drop_last()), pieces.last())
    }
}

/// Nothing takes no bytes.
pub proof fn lemma_byte_len_empty()
    ensures
        byte_len(Seq::<char>::empty()) == 0,
{
}

/// One character takes one to four bytes.
pub proof fn lemma_byte_len_char(c: char)
    ensures
        1 <= byte_len(seq![c]) <= 4,
{
    let s = seq![c];
    assert(s.drop_first() =~= Seq::<char>::empty());
    assert(encode_utf8(s) == encode_scalar(s[0] as u32) + encode_utf8(s.drop_first()));
}

/// The bytes of a concatenation are those of its parts.
pub proof fn lemma_byte_len_concat(a: Seq<char>, b: Seq<char>)
    ensures
        byte_len(a + b) == byte_len(a) + byte_len(b),
    decreases a.len(),
{
    if a.len() == 0 {
        assert(a + b =~= b);
    } else {
        assert((a + b).drop_first() =~= a.drop_first() + b);
        assert((a + b)[0] == a[0]);
        lemma_byte_len_concat(a.drop_first(), b);
    }
}

/// A text takes at least one byte for each character, and at most four.
pub proof fn lemma_byte_len_bounds(s: Seq<char>)
    ensures
        s.len() <= byte_len(s) <= 4 * s.len(),
    decreases s.len(),
{
    if s.len() > 0 {
        lemma_byte_len_bounds(s.drop_first());
    }
}

/// A text of ASCII characters takes one byte for each.
pub proof fn lemma_byte_len_ascii(s: Seq<char>)
    requires
        is_ascii_chars(s),
    ensures
        byte_len(s) == s.len(),
{
    is_ascii_chars_encode_utf8(s);
}

/// Appending one more piece after some others.
pub proof fn lemma_append_all_push(buf: Seq<char>, pieces: Seq<Seq<char>>, piece: Seq<char>)
    ensures
        append_all(buf, pieces.push(piece)) == append_bounded(append_all(buf, pieces), piece),
{
    assert(pieces.push(piece).drop_last() =~= pieces);
}

/// Appending a single piece.
pub proof fn lemma_append_all_one(buf: Seq<char>, piece: Seq<char>)
    ensures
        append_all(buf, seq![piece]) == append_bounded(buf, piece),
{
    assert(seq![piece] =~= Seq::<Seq<char>>::empty().push(piece));
    lemma_append_all_push(buf, Seq::empty(), piece);
}

/// Appending two runs of pieces one after the other is appending them all.
pub proof fn lemma_append_all_concat(buf: Seq<char>, a: Seq<Seq<char>>, b: Seq<Seq<char>>)
    ensures
        append_all(buf, a + b) == append_all(append_all(buf, a), b),
    decreases b.len(),
{
    if b.len() == 0 {
        assert(a + b =~= a);
    } else {
        assert((a + b).drop_last() =~= a + b.drop_last());
        lemma_append_all_concat(buf, a, b.drop_last());
    }
}

/// While everything fits, appending piece by piece is plain concatenation.
pub proof fn lemma_append_all_fits(buf: Seq<char>, pieces: Seq<Seq<char>>)
    requires
        byte_len(buf) + byte_len(pieces.flatten()) <= BUFFER_SIZE,
    ensures
        append_all(buf, pieces) == buf + pieces.flatten(),
    decreases pieces.len(),
{
    if pieces.len() == 0 {
        assert(buf + pieces.flatten() =~= buf);
    } else {
        let front = pieces.drop_last();
        let last = pieces.last();
        assert(pieces =~= front.push(last));
        front.lemma_flatten_push(last);
        lemma_byte_len_concat(front.flatten(), last);
        lemma_append_all_fits(buf, front);
        lemma_byte_len_concat(buf, front.flatten());
        assert((buf + front.flatten()) + last =~= buf + pieces.flatten());
    }
}

/// Appending never shortens a buffer and never takes it over its capacity.
pub proof fn lemma_append_all_bounded(buf: Seq<char>, pieces: Seq<Seq<char>>)
    requires
        byte_len(buf) <= BUFFER_SIZE,
    ensures
        byte_len(append_all(buf, pieces)) <= BUFFER_SIZE,
        buf.is_prefix_of(append_all(buf, pieces)),
    decreases pieces.len(),
{
    if pieces.len() > 0 {
        lemma_append_all_bounded(buf, pieces.drop_last());
        let before = append_all(buf, pieces.drop_last());
        lemma_byte_len_concat(before, pieces.last());
    }
}

/// `heapless::String::new`: a fresh buffer holds no character.
#[verifier::external_body]
pub(crate) fn text_new() -> (s: TextBuffer)
    ensures
        text_of(s) == Seq::<char>::empty(),
{
    heapless::String::new()
}

/// `heapless::String::as_str`: the buffer's contents as a string slice.
#[verifier::external_body]
pub(crate) fn text_as_str(s: &TextBuffer) -> (r: &str)
    ensures
        r@ == text_of(*s),
{
    s.as_str()
}

/// `heapless::String::push`: appends `c` when its encoding fits in the bytes
/// that are left and reports so; otherwise the buffer is unchanged.
#[verifier::external_body]
pub(crate) fn text_push(s: &mut TextBuffer, c: char) -> (pushed: bool)
    ensures
        pushed == fits(text_of(*old(s)), seq![c]),
        text_of(*final(s)) == append_bounded(text_of(*old(s)), seq![c]),
{
    s.push(c).is_ok()
}

/// `heapless::String::push_str`: appends all of `piece` when its encoding
/// fits in the bytes that are left and reports so; otherwise the buffer is
/// unchanged.
#[verifier::external_body]
pub(crate) fn text_push_str(s: &mut TextBuffer, piece: &str) -> (pushed: bool)
    ensures
        pushed == fits(text_of(*old(s)), piece@),
        text_of(*final(s)) == append_bounded(text_of(*old(s)), piece@),
{
    s.push_str(piece).is_ok()
}

/// `heapless::String::pop`: removes the last character and returns it, or
/// returns `None` and changes nothing when the buffer is empty.
#[verifier::external_body]
pub(crate) fn text_pop(s: &mut TextBuffer) -> (last: Option<char>)
    ensures
        text_of(*old(s)).len() == 0 ==> last.is_none() && text_of(*final(s)) == text_of(*old(s)),
        text_of(*old(s)).len() > 0 ==> last == Some(text_of(*old(s)).last()) && text_of(*final(s))
            == text_of(*old(s)).drop_last(),
{
    s.pop()
}

/// `heapless::String::clear`: the buffer holds no character afterwards.
#[verifier::external_body]
pub(crate) fn text_clear(s: &mut TextBuffer)
    ensures
        text_of(*final(s)) == Seq::<char>::empty(),
{
    s.clear()
}

} // verus!
