//! The line editor, as a state machine over plain sequences.
//!
//! The editor sees one character at a time. It keeps the line typed so far
//! and answers each character with an echo for the terminal. What it does is
//! defined here on sequences of characters, with the laws that follow; the
//! interpreter's methods are specified against these definitions.

use vstd::prelude::*;
use vstd::utf8::is_ascii_chars;
use crate::channel::{
    enqueue_all, lemma_enqueue_all_concat, lemma_enqueue_all_empty, CHANNEL_CAPACITY,
};
use crate::text::{
    append_bounded, byte_len, lemma_byte_len_ascii, lemma_byte_len_char, lemma_byte_len_concat,
    lemma_byte_len_empty, BUFFER_SIZE,
};

verus! {

/// The backspace and delete codes: each removes the last character of the
/// line.
pub open spec fn is_backspace(c: char) -> bool {
    c == '\u{7f}' || c == '\u{8f}'
}

/// The escape code: it clears the line.
pub open spec fn is_cancel(c: char) -> bool {
    c == '\u{1b}'
}

/// Carriage return and line feed: either completes the line.
pub open spec fn is_terminator(c: char) -> bool {
    c == '\r' || c == '\n'
}

/// What is sent to take one character off the terminal: back, blank, back.
pub open spec fn erase_sequence() -> Seq<char> {
    "\x08 \x08"@
}

/// `n` erase sequences in a row.
pub open spec fn erasures(n: nat) -> Seq<char>
    decreases n,
{
    if n == 0 {
        Seq::empty()
    } else {
        erasures((n - 1) as nat) + erase_sequence()
    }
}

/// The input line after `c` has come in.
pub open spec fn input_after(input: Seq<char>, c: char) -> Seq<char> {
    if is_backspace(c) {
        if input.len() > 0 {
            input.drop_last()
        } else {
            input
        }
    } else if is_cancel(c) {
        Seq::empty()
    } else {
        append_bounded(input, seq![c])
    }
}

/// What is echoed when `c` comes in while the line holds `input`.
pub open spec fn echo_of(input: Seq<char>, c: char) -> Seq<char> {
    if is_backspace(c) {
        if input.len() > 0 {
            erase_sequence()
        } else {
            Seq::empty()
        }
    } else if is_cancel(c) {
        erasures(input.len())
    } else {
        seq![c]
    }
}

/// Whether the line is complete: it ends in a terminator.
pub open spec fn line_ready(input: Seq<char>) -> bool {
    input.len() > 0 && is_terminator(input.last())
}

/// The line without the terminators at its end.
pub open spec fn strip_terminators(input: Seq<char>) -> Seq<char>
    decreases input.len(),
{
    if line_ready(input) {
        strip_terminators(input.drop_last())
    } else {
        input
    }
}

/// What the interpreter holds, as far as its behaviour depends on it.
pub struct CliState {
    /// The line typed so far.
    pub input: Seq<char>,
    /// What is waiting to be transmitted, oldest first.
    pub output: Seq<char>,
}

/// The state after `c` has come in.
pub open spec fn after_char(s: CliState, c: char) -> CliState {
    CliState { input: input_after(s.input, c), output: enqueue_all(s.output, echo_of(s.input, c)) }
}

/// The line after each of `chars` has come in, in order.
pub open spec fn line_after(input: Seq<char>, chars: Seq<char>) -> Seq<char>
    decreases chars.len(),
{
    if chars.len() == 0 {
        input
    } else {
        input_after(line_after(input, chars.drop_last()), chars.last())
    }
}

/// Everything that is echoed while `chars` come in, in order, to a line that
/// holds `input` at first.
pub open spec fn echoes(input: Seq<char>, chars: Seq<char>) -> Seq<char>
    decreases chars.len(),
{
    if chars.len() == 0 {
        Seq::empty()
    } else {
        echoes(input, chars.drop_last()) + echo_of(
            line_after(input, chars.drop_last()),
            chars.last(),
        )
    }
}

/// The state after each of `chars` has come in, in order.
pub open spec fn feed(s: CliState, chars: Seq<char>) -> CliState
    decreases chars.len(),
{
    if chars.len() == 0 {
        s
    } else {
        after_char(feed(s, chars.drop_last()), chars.last())
    }
}

/// Whether a terminator stands anywhere in `s`.
pub open spec fn has_terminator(s: Seq<char>) -> bool {
    exists|i: int| 0 <= i < s.len() && is_terminator(#[trigger] s[i])
}

/// A character that is neither backspace, delete nor escape: it is appended
/// to the line.
pub open spec fn is_plain(c: char) -> bool {
    !is_backspace(c) && !is_cancel(c)
}

/// Feeding characters changes the line by [`line_after`] and offers
/// [`echoes`] to the output channel, and nothing else.
pub proof fn lemma_feed(s: CliState, chars: Seq<char>)
    ensures
        feed(s, chars).input == line_after(s.input, chars),
        feed(s, chars).output == enqueue_all(s.output, echoes(s.input, chars)),
    decreases chars.len(),
{
    if chars.len() == 0 {
        lemma_enqueue_all_empty(s.output);
    } else {
        let front = chars.drop_last();
        lemma_feed(s, front);
        lemma_enqueue_all_concat(
            s.output,
            echoes(s.input, front),
            echo_of(line_after(s.input, front), chars.last()),
        );
    }
}

/// A line without terminator, fed characters none of which is a terminator,
/// still holds none: it is not complete, whatever was typed, erased or
/// dropped on the way. All that reached the output channel is the echo of
/// each character.
pub proof fn lemma_feed_without_terminator(s: CliState, chars: Seq<char>)
    requires
        !has_terminator(s.input),
        !has_terminator(chars),
    ensures
        !has_terminator(feed(s, chars).input),
        !line_ready(feed(s, chars).input),
        feed(s, chars).output == enqueue_all(s.output, echoes(s.input, chars)),
    decreases chars.len(),
{
    lemma_feed(s, chars);
    if chars.len() > 0 {
        let front = chars.drop_last();
        let c = chars.last();
        assert(!has_terminator(front)) by {
            if has_terminator(front) {
                let i = choose|i: int| 0 <= i < front.len() && is_terminator(#[trigger] front[i]);
                assert(is_terminator(chars[i]));
            }
        }
        lemma_feed_without_terminator(s, front);
        let line = feed(s, front).input;
        let next = input_after(line, c);
        assert(!is_terminator(c)) by {
            assert(c == chars[chars.len() - 1]);
        }
        assert(!has_terminator(next)) by {
            if has_terminator(next) {
                let i = choose|i: int| 0 <= i < next.len() && is_terminator(#[trigger] next[i]);
                if i < line.len() {
                    assert(is_terminator(line[i]));
                }
            }
        }
    }
    let last = feed(s, chars).input;
    if last.len() > 0 {
        assert(!is_terminator(last[last.len() - 1]));
    }
}

/// Plain characters are echoed as they are, whether the line takes them or
/// not.
pub proof fn lemma_echoes_of_plain(input: Seq<char>, chars: Seq<char>)
    requires
        forall|i: int| 0 <= i < chars.len() ==> is_plain(#[trigger] chars[i]),
    ensures
        echoes(input, chars) == chars,
    decreases chars.len(),
{
    if chars.len() > 0 {
        let front = chars.drop_last();
        assert(is_plain(chars[chars.len() - 1]));
        lemma_echoes_of_plain(input, front);
        assert(front + seq![chars.last()] =~= chars);
    }
}

/// The bounds of the two buffers hold in every state that can be reached:
/// a line within its capacity and a channel within its capacity stay so,
/// whatever character comes in.
pub proof fn lemma_after_char_bounded(s: CliState, c: char)
    requires
        byte_len(s.input) <= BUFFER_SIZE,
        s.output.len() <= CHANNEL_CAPACITY,
    ensures
        byte_len(after_char(s, c).input) <= BUFFER_SIZE,
        after_char(s, c).output.len() <= CHANNEL_CAPACITY,
{
    lemma_byte_len_empty();
    if s.input.len() > 0 {
        lemma_byte_len_concat(s.input.drop_last(), seq![s.input.last()]);
        assert(s.input.drop_last() + seq![s.input.last()] =~= s.input);
    }
    lemma_byte_len_concat(s.input, seq![c]);
}

/// Backspace or delete on a line that holds something takes exactly its last
/// character off and offers exactly one erase sequence, three characters
/// long, to the output channel; on an empty line it changes nothing.
pub proof fn lemma_backspace(s: CliState, c: char)
    requires
        is_backspace(c),
    ensures
        erase_sequence() == seq!['\u{8}', ' ', '\u{8}'],
        s.input.len() > 0 ==> after_char(s, c).input == s.input.drop_last() && after_char(
            s,
            c,
        ).output == enqueue_all(s.output, erase_sequence()),
        s.input.len() > 0 && s.output.len() + 3 <= CHANNEL_CAPACITY ==> after_char(s, c).output
            == s.output + erase_sequence(),
        s.input.len() == 0 ==> after_char(s, c) == s,
{
    reveal_strlit("\x08 \x08");
    assert(erase_sequence() =~= seq!['\u{8}', ' ', '\u{8}']);
    lemma_enqueue_all_empty(s.output);
}

/// Escape leaves the line empty.
pub proof fn lemma_cancel(s: CliState, c: char)
    requires
        is_cancel(c),
    ensures
        after_char(s, c).input == Seq::<char>::empty(),
        erasures(s.input.len()).len() == 3 * s.input.len(),
{
    lemma_erasures_len(s.input.len());
}

/// `n` erase sequences are `3 * n` characters.
pub proof fn lemma_erasures_len(n: nat)
    ensures
        erasures(n).len() == 3 * n,
    decreases n,
{
    reveal_strlit("\x08 \x08");
    if n > 0 {
        lemma_erasures_len((n - 1) as nat);
    }
}

/// A plain character that comes in to a full line is dropped: the line stays
/// as it is, and the character is echoed all the same.
pub proof fn lemma_full_line_drops(input: Seq<char>, c: char)
    requires
        is_plain(c),
        byte_len(input) >= BUFFER_SIZE,
    ensures
        input_after(input, c) == input,
        echo_of(input, c) == seq![c],
{
    lemma_byte_len_char(c);
}

/// A plain character that fits is appended to the line.
pub proof fn lemma_plain_char_appended(input: Seq<char>, c: char)
    requires
        is_plain(c),
        byte_len(input) + 4 <= BUFFER_SIZE,
    ensures
        input_after(input, c) == input.push(c),
{
    lemma_byte_len_char(c);
    assert(input + seq![c] =~= input.push(c));
}

/// Plain ASCII characters fill the line up to its capacity and no further:
/// of what is fed, the line takes as many characters as it has bytes left
/// and drops the rest.
pub proof fn lemma_feed_ascii_fills_line(input: Seq<char>, chars: Seq<char>)
    requires
        byte_len(input) <= BUFFER_SIZE,
        is_ascii_chars(chars),
        forall|i: int| 0 <= i < chars.len() ==> is_plain(#[trigger] chars[i]),
    ensures
        chars.len() <= BUFFER_SIZE - byte_len(input) ==> line_after(input, chars) == input + chars,
        chars.len() > BUFFER_SIZE - byte_len(input) ==> line_after(input, chars) == input
            + chars.take(BUFFER_SIZE - byte_len(input)),
        byte_len(line_after(input, chars)) <= BUFFER_SIZE,
    decreases chars.len(),
{
    let left = BUFFER_SIZE - byte_len(input);
    if chars.len() == 0 {
        assert(input + chars =~= input);
    } else {
        let front = chars.drop_last();
        let c = chars.last();
        assert(is_plain(c)) by {
            assert(c == chars[chars.len() - 1]);
        }
        assert(is_ascii_chars(front));
        assert(is_ascii_chars(seq![c])) by {
            assert(c == chars[chars.len() - 1]);
        }
        lemma_byte_len_ascii(seq![c]);
        lemma_feed_ascii_fills_line(input, front);
        let line = line_after(input, front);
        if front.len() < left {
            lemma_byte_len_ascii(front);
            lemma_byte_len_concat(input, front);
            lemma_byte_len_concat(line, seq![c]);
            assert((input + front) + seq![c] =~= input + chars);
        } else if front.len() == left {
            lemma_byte_len_ascii(front);
            lemma_byte_len_concat(input, front);
            assert(chars.take(left) =~= front);
        } else {
            assert(is_ascii_chars(front.take(left)));
            lemma_byte_len_ascii(front.take(left));
            lemma_byte_len_concat(input, front.take(left));
            assert(chars.take(left) =~= front.take(left));
        }
    }
}

/// Stripping takes terminators off the end and nothing else, and what is
/// left does not end in one.
pub proof fn lemma_strip_terminators(input: Seq<char>)
    ensures
        !line_ready(strip_terminators(input)),
        strip_terminators(input).is_prefix_of(input),
        forall|i: int|
            strip_terminators(input).len() <= i < input.len() ==> is_terminator(
                #[trigger] input[i],
            ),
    decreases input.len(),
{
    if line_ready(input) {
        let front = input.drop_last();
        lemma_strip_terminators(front);
        assert forall|i: int| strip_terminators(input).len() <= i < input.len() implies
            is_terminator(#[trigger] input[i]) by {
            if i < front.len() {
                assert(input[i] == front[i]);
            }
        }
    }
}

/// A line that is not complete is stripped of nothing.
pub proof fn lemma_strip_when_not_ready(input: Seq<char>)
    requires
        !line_ready(input),
    ensures
        strip_terminators(input) == input,
{
}

} // verus!
