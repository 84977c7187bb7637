//! Splitting a completed line into tokens.
//!
//! A line is cut at every single space. Two spaces in a row, or a space at
//! either end, therefore give an empty token. At most [`MAX_TOKENS`] tokens
//! are kept; what follows them is dropped.

use vstd::prelude::*;
use crate::strings::str_split_once;

verus! {

/// The most tokens that a line is split into.
pub const MAX_TOKENS: usize = 8;

/// The tokens of one line, each a slice of the line it was cut from.
pub type Tokens<'a> = heapless::Vec<&'a str, MAX_TOKENS>;

/// `heapless::Vec`, a vector in a buffer of `N` items that never grows.
/// Verus sees nothing inside it; what it holds is spoken of by
/// [`tokens_of`].
#[verifier::external_type_specification]
#[verifier::external_body]
#[verifier::reject_recursive_types(T)]
pub struct ExHeaplessVec<T, const N: usize>(heapless::Vec<T, N>);

/// The tokens that a token list holds, in order, each as its characters.
pub uninterp spec fn tokens_of(v: heapless::Vec<&str, MAX_TOKENS>) -> Seq<Seq<char>>;

/// Position of the first space in `s`, or `s.len()` when it has none.
pub open spec fn first_space(s: Seq<char>) -> int
    decreases s.len(),
{
    if s.len() == 0 {
        0
    } else if s[0] == ' ' {
        0
    } else {
        1 + first_space(s.drop_first())
    }
}

/// `s` cut at every space. The pieces hold no space, and joining them with
/// single spaces gives `s` back; there is always at least one piece.
pub open spec fn split_on_space(s: Seq<char>) -> Seq<Seq<char>>
    decreases s.len(),
{
    let i = first_space(s);
    if 0 <= i < s.len() {
        seq![s.take(i)] + split_on_space(s.skip(i + 1))
    } else {
        seq![s]
    }
}

/// What a token list holding `tokens` holds after `token` is offered to it.
pub open spec fn push_token(tokens: Seq<Seq<char>>, token: Seq<char>) -> Seq<Seq<char>> {
    if tokens.len() < MAX_TOKENS {
        tokens.push(token)
    } else {
        tokens
    }
}

/// The first [`MAX_TOKENS`] of `pieces`, or all of them if they are fewer.
pub open spec fn keep_first(pieces: Seq<Seq<char>>) -> Seq<Seq<char>> {
    if pieces.len() <= MAX_TOKENS {
        pieces
    } else {
        pieces.take(MAX_TOKENS as int)
    }
}

/// The tokens of `line`: its pieces between spaces, the first
/// [`MAX_TOKENS`] of them at most.
pub open spec fn tokens_of_line(line: Seq<char>) -> Seq<Seq<char>> {
    keep_first(split_on_space(line))
}

/// `first_space` points at a space or past the end, and at no space before.
pub proof fn lemma_first_space(s: Seq<char>)
    ensures
        0 <= first_space(s) <= s.len(),
        first_space(s) < s.len() ==> s[first_space(s)] == ' ',
        forall|j: int| 0 <= j < first_space(s) ==> s[j] != ' ',
    decreases s.len(),
{
    if s.len() > 0 && s[0] != ' ' {
        let t = s.drop_first();
        lemma_first_space(t);
        assert forall|j: int| 0 <= j < first_space(s) implies s[j] != ' ' by {
            if j > 0 {
                assert(s[j] == t[j - 1]);
            }
        }
    }
}

/// A string without a space is its own single piece.
pub proof fn lemma_split_without_space(s: Seq<char>)
    requires
        !s.contains(' '),
    ensures
        split_on_space(s) == seq![s],
{
    lemma_first_space(s);
}

/// A string is cut at its first space: the head is the first piece and the
/// tail gives the others.
pub proof fn lemma_split_at_first_space(s: Seq<char>, head: Seq<char>, tail: Seq<char>)
    requires
        !head.contains(' '),
        s == head.push(' ') + tail,
    ensures
        split_on_space(s) == seq![head] + split_on_space(tail),
{
    lemma_first_space(s);
    let i = first_space(s);
    let n = head.len() as int;
    assert(s[n] == ' ');
    if i < n {
        assert(s[i] == head[i]);
        assert(head.contains(' '));
    }
    assert(i == n);
    assert(s.take(i) =~= head);
    assert(s.skip(i + 1) =~= tail);
}

/// `pieces` written one after the other with a single space between them.
pub open spec fn join_with_space(pieces: Seq<Seq<char>>) -> Seq<char>
    decreases pieces.len(),
{
    if pieces.len() == 0 {
        Seq::empty()
    } else if pieces.len() == 1 {
        pieces[0]
    } else {
        pieces[0].push(' ') + join_with_space(pieces.drop_first())
    }
}

/// Splitting loses nothing: no piece holds a space, and the pieces joined
/// with single spaces are the string that was split.
pub proof fn lemma_split_join(s: Seq<char>)
    ensures
        split_on_space(s).len() >= 1,
        join_with_space(split_on_space(s)) == s,
        forall|k: int|
            0 <= k < split_on_space(s).len() ==> !(#[trigger] split_on_space(s)[k]).contains(' '),
    decreases s.len(),
{
    lemma_first_space(s);
    let i = first_space(s);
    let pieces = split_on_space(s);
    if 0 <= i < s.len() {
        let head = s.take(i);
        let tail = s.skip(i + 1);
        let rest = split_on_space(tail);
        lemma_split_join(tail);
        assert(pieces =~= seq![head] + rest);
        assert(pieces.drop_first() =~= rest);
        assert(head.push(' ') + tail =~= s);
        assert(!head.contains(' '));
        assert forall|k: int| 0 <= k < pieces.len() implies !(#[trigger] pieces[k]).contains(
            ' ',
        ) by {
            if k > 0 {
                assert(pieces[k] == rest[k - 1]);
            }
        }
    } else {
        assert(!s.contains(' '));
    }
}

/// The pieces of a string are the only way to write it as pieces without
/// space joined by single spaces.
pub proof fn lemma_split_unique(s: Seq<char>, pieces: Seq<Seq<char>>)
    requires
        pieces.len() >= 1,
        forall|k: int| 0 <= k < pieces.len() ==> !(#[trigger] pieces[k]).contains(' '),
        join_with_space(pieces) == s,
    ensures
        split_on_space(s) == pieces,
    decreases pieces.len(),
{
    if pieces.len() == 1 {
        lemma_split_without_space(s);
        assert(pieces =~= seq![s]);
    } else {
        let rest = pieces.drop_first();
        let tail = join_with_space(rest);
        assert forall|k: int| 0 <= k < rest.len() implies !(#[trigger] rest[k]).contains(' ') by {
            assert(rest[k] == pieces[k + 1]);
        }
        lemma_split_unique(tail, rest);
        lemma_split_at_first_space(s, pieces[0], tail);
        assert(seq![pieces[0]] + rest =~= pieces);
    }
}

/// Offering a piece to the kept tokens is keeping one piece more.
pub proof fn lemma_keep_first_push(pieces: Seq<Seq<char>>, piece: Seq<char>)
    ensures
        push_token(keep_first(pieces), piece) == keep_first(pieces.push(piece)),
{
    if pieces.len() < MAX_TOKENS {
    } else if pieces.len() == MAX_TOKENS {
        assert(pieces.push(piece).take(MAX_TOKENS as int) =~= pieces);
    } else {
        assert(pieces.push(piece).take(MAX_TOKENS as int) =~= pieces.take(MAX_TOKENS as int));
    }
}

/// A line always has a first token, and never more than [`MAX_TOKENS`].
pub proof fn lemma_token_count(line: Seq<char>)
    ensures
        1 <= tokens_of_line(line).len() <= MAX_TOKENS,
{
    let i = first_space(line);
    if 0 <= i < line.len() {
        assert(split_on_space(line).len() == 1 + split_on_space(line.skip(i + 1)).len());
    }
}

/// `heapless::Vec::new`: a fresh token list holds no token.
#[verifier::external_body]
pub(crate) fn tokens_new<'a>() -> (v: Tokens<'a>)
    ensures
        tokens_of(v) == Seq::<Seq<char>>::empty(),
{
    heapless::Vec::new()
}

/// `heapless::Vec::push`: appends `token` unless [`MAX_TOKENS`] are already
/// held, and reports whether it did; a full list is left as it was.
#[verifier::external_body]
pub(crate) fn tokens_push<'a>(v: &mut Tokens<'a>, token: &'a str) -> (pushed: bool)
    ensures
        pushed == (tokens_of(*old(v)).len() < MAX_TOKENS),
        tokens_of(*final(v)) == push_token(tokens_of(*old(v)), token@),
{
    v.push(token).is_ok()
}

/// `heapless::Vec::as_slice`: the tokens held, as a slice.
#[verifier::external_body]
pub(crate) fn tokens_as_slice<'a, 'b>(v: &'b Tokens<'a>) -> (s: &'b [&'a str])
    ensures
        s@.len() == tokens_of(*v).len(),
        forall|i: int| 0 <= i < s@.len() ==> (#[trigger] s@[i])@ == tokens_of(*v)[i],
{
    v.as_slice()
}

/// Splits `line` into its tokens.
pub fn tokenize<'a>(line: &'a str) -> (tokens: Tokens<'a>)
    ensures
        tokens_of(tokens) == tokens_of_line(line@),
{
    let mut tokens = tokens_new();
    let mut rest = line;
    let ghost mut seen: Seq<Seq<char>> = Seq::empty();
    loop
        invariant_except_break
            seen + split_on_space(rest@) == split_on_space(line@),
            tokens_of(tokens) == keep_first(seen),
        ensures
            tokens_of(tokens) == tokens_of_line(line@),
        decreases rest@.len(),
    {
        match str_split_once(rest, ' ') {
            Some((head, tail)) => {
                proof {
                    lemma_split_at_first_space(rest@, head@, tail@);
                    lemma_keep_first_push(seen, head@);
                    assert(seen.push(head@) + split_on_space(tail@) =~= seen + split_on_space(
                        rest@,
                    ));
                    seen = seen.push(head@);
                }
                tokens_push(&mut tokens, head);
                rest = tail;
            },
            None => {
                proof {
                    lemma_split_without_space(rest@);
                    lemma_keep_first_push(seen, rest@);
                    assert(seen.push(rest@) =~= seen + split_on_space(rest@));
                }
                tokens_push(&mut tokens, rest);
                break ;
            },
        }
    }
    tokens
}

} // verus!
