//! The interpreter: a line editor in front of a dispatcher.
//!
//! The transport feeds the interpreter one character at a time with
//! [`EmbeddedCli::add_char`], calls [`EmbeddedCli::process`] whenever it
//! likes, and drains what is to be transmitted with
//! [`EmbeddedCli::get_output_char`]. Nothing here blocks, allocates or fails:
//! what does not fit is dropped, and what is wrong with a line is said in the
//! text of the response.

use vstd::prelude::*;
use crate::channel::{
    channel_dequeue, channel_enqueue, channel_is_empty, channel_new, channel_send, enqueue_all,
    lemma_enqueue_all_concat, lemma_enqueue_all_empty, queued, OutputChannel, CHANNEL_CAPACITY,
};
use crate::dispatch::{rendered_pieces, resolution_of, respond, table_accepts, Resolution};
use crate::editor::{
    after_char, erase_sequence, erasures, line_ready, strip_terminators, CliState,
};
use crate::menu::{descriptors, CommandDescriptor, MenuItem};
use crate::strings::str_ends_with;
use crate::text::{
    append_all, append_bounded, byte_len, lemma_append_all_fits, lemma_byte_len_ascii,
    lemma_byte_len_concat, lemma_byte_len_empty, text_as_str, text_clear, text_new, text_of,
    text_pop, text_push, text_push_str, TextBuffer, BUFFER_SIZE,
};
use crate::tokens::{lemma_token_count, tokenize, tokens_of, tokens_of_line, MAX_TOKENS};

verus! {

/// The prompt sent at start-up and in answer to a blank line.
pub open spec fn fresh_prompt() -> Seq<char> {
    "\n\r> "@
}

/// What every response to a line begins with.
pub open spec fn line_start() -> Seq<char> {
    "\r\n"@
}

/// The prompt that closes every response to a line.
pub open spec fn prompt() -> Seq<char> {
    "\r\n> "@
}

/// What the interpreter itself answers to a line with these tokens, up to
/// the closing prompt: the line start and what is rendered after it.
pub open spec fn rendered_answer(menu: Seq<CommandDescriptor>, tokens: Seq<Seq<char>>) -> Seq<
    char,
> {
    append_all(line_start(), rendered_pieces(menu, tokens))
}

/// What the output channel holds once an answer has been closed with the
/// prompt and offered to it.
pub open spec fn offered(output: Seq<char>, answer: Seq<char>) -> Seq<char> {
    enqueue_all(output, append_bounded(answer, prompt()))
}

/// While the whole response fits in a text buffer, it reads: line start,
/// what is rendered, prompt.
pub proof fn lemma_response_when_it_fits(menu: Seq<CommandDescriptor>, tokens: Seq<Seq<char>>)
    requires
        byte_len(line_start() + rendered_pieces(menu, tokens).flatten() + prompt())
            <= BUFFER_SIZE,
    ensures
        append_bounded(rendered_answer(menu, tokens), prompt()) == line_start() + rendered_pieces(
            menu,
            tokens,
        ).flatten() + prompt(),
{
    let body = rendered_pieces(menu, tokens).flatten();
    lemma_byte_len_concat(line_start() + body, prompt());
    lemma_byte_len_concat(line_start(), body);
    lemma_append_all_fits(line_start(), rendered_pieces(menu, tokens));
}

/// While the channel has room for the whole response, all of it is waiting
/// there afterwards, behind what was waiting before.
pub proof fn lemma_offered_with_room(output: Seq<char>, answer: Seq<char>)
    requires
        output.len() + append_bounded(answer, prompt()).len() <= CHANNEL_CAPACITY,
    ensures
        offered(output, answer) == output + append_bounded(answer, prompt()),
{
}

/// A command interpreter over a fixed command table.
pub struct EmbeddedCli<F: 'static> {
    /// A label for the session. Nothing depends on it.
    pub name: &'static str,
    /// The line typed so far.
    pub input_buffer: TextBuffer,
    /// What is waiting to be transmitted.
    pub output_buffer: OutputChannel,
    /// The command table. It is only ever read.
    pub menu: &'static [MenuItem<'static, F>],
}

impl<F: 'static> View for EmbeddedCli<F> {
    type V = CliState;

    open spec fn view(&self) -> CliState {
        CliState { input: text_of(self.input_buffer), output: queued(self.output_buffer) }
    }
}

impl<F: Fn(&heapless::Vec<&str, MAX_TOKENS>, &mut TextBuffer) + 'static> EmbeddedCli<F> {
    /// Whether every handler can be called for a line that names its command.
    pub open spec fn wf(&self) -> bool {
        table_accepts(self.menu@)
    }

    /// Makes an interpreter with an empty line and the fresh prompt waiting
    /// to be transmitted.
    #[must_use]
    pub fn new(name: &'static str, menu: &'static [MenuItem<'static, F>]) -> (cli: Self)
        ensures
            cli.name == name,
            cli.menu == menu,
            cli@.input == Seq::<char>::empty(),
            cli@.output == fresh_prompt(),
    {
        let mut s = Self { name, input_buffer: text_new(), output_buffer: channel_new(), menu };
        channel_send(&mut s.output_buffer, "\n\r> ");
        proof {
            reveal_strlit("\n\r> ");
            assert(Seq::<char>::empty() + fresh_prompt() =~= fresh_prompt());
        }
        s
    }

    /// Takes one character from the transport: edits the line and echoes.
    ///
    /// Backspace and delete remove the last character of the line and send
    /// one erase sequence, or do nothing on an empty line. Escape clears the
    /// line and sends one erase sequence for each character that it held.
    /// Any other character is appended to the line, if it still fits, and
    /// echoed as it is.
    pub fn add_char(&mut self, c: char)
        ensures
            final(self)@ == after_char(old(self)@, c),
            final(self).name == old(self).name,
            final(self).menu == old(self).menu,
    {
        let ghost input = text_of(self.input_buffer);
        let ghost output = queued(self.output_buffer);
        if c == '\u{8f}' || c == '\u{7f}' {
            if !text_as_str(&self.input_buffer).is_empty() {
                channel_send(&mut self.output_buffer, "\x08 \x08");
                text_pop(&mut self.input_buffer);
            } else {
                proof {
                    lemma_enqueue_all_empty(output);
                }
            }
        } else if c == '\u{1b}' {
            let ghost mut erased: nat = 0;
            proof {
                lemma_enqueue_all_empty(output);
            }
            while !text_as_str(&self.input_buffer).is_empty()
                invariant
                    self.name == old(self).name,
                    self.menu == old(self).menu,
                    text_of(self.input_buffer).len() + erased == input.len(),
                    queued(self.output_buffer) == enqueue_all(output, erasures(erased)),
                decreases text_of(self.input_buffer).len(),
            {
                proof {
                    lemma_enqueue_all_concat(output, erasures(erased), erase_sequence());
                    erased = erased + 1;
                }
                channel_send(&mut self.output_buffer, "\x08 \x08");
                text_pop(&mut self.input_buffer);
            }
            assert(text_of(self.input_buffer) =~= Seq::<char>::empty());
        } else {
            text_push(&mut self.input_buffer, c);
            channel_enqueue(&mut self.output_buffer, c);
        }
    }

    /// Answers the line if it is complete, and does nothing otherwise.
    ///
    /// A line is complete when it ends in a terminator. The terminators at
    /// its end are taken off. A line that is then empty is answered with the
    /// fresh prompt. Any other line is split into tokens and resolved
    /// against the table; the response starts with the line start, holds
    /// what the interpreter renders or what the handler appends, and closes
    /// with the prompt. The line is cleared and the response is offered to
    /// the output channel.
    pub fn process(&mut self)
        requires
            old(self).wf(),
        ensures
            final(self).name == old(self).name,
            final(self).menu == old(self).menu,
            !line_ready(final(self)@.input),
            !line_ready(old(self)@.input) ==> *final(self) == *old(self),
            line_ready(old(self)@.input) ==> final(self)@.input == Seq::<char>::empty(),
            line_ready(old(self)@.input) && strip_terminators(old(self)@.input).len() == 0
                ==> final(self)@.output == enqueue_all(old(self)@.output, fresh_prompt()),
            line_ready(old(self)@.input) && strip_terminators(old(self)@.input).len() > 0 ==> ({
                let table = descriptors(old(self).menu@);
                let tokens = tokens_of_line(strip_terminators(old(self)@.input));
                match resolution_of(table, tokens) {
                    Resolution::Run(i) => exists|
                        t: &heapless::Vec<&str, MAX_TOKENS>,
                        m: &mut TextBuffer,
                    | #[trigger]
                        call_ensures(old(self).menu@[i as int].function, (t, m), ())
                            && tokens_of(*t) == tokens && text_of(*m) == line_start()
                            && final(self)@.output == offered(
                            old(self)@.output,
                            text_of(*final(m)),
                        ),
                    _ => final(self)@.output == offered(
                        old(self)@.output,
                        rendered_answer(table, tokens),
                    ),
                }
            }),
    {
        let ghost input = text_of(self.input_buffer);
        let ghost output = queued(self.output_buffer);
        if str_ends_with(text_as_str(&self.input_buffer), '\r') || str_ends_with(
            text_as_str(&self.input_buffer),
            '\n',
        ) {
            while str_ends_with(text_as_str(&self.input_buffer), '\r') || str_ends_with(
                text_as_str(&self.input_buffer),
                '\n',
            )
                invariant
                    self.name == old(self).name,
                    self.menu == old(self).menu,
                    queued(self.output_buffer) == output,
                    strip_terminators(text_of(self.input_buffer)) == strip_terminators(input),
                decreases text_of(self.input_buffer).len(),
            {
                text_pop(&mut self.input_buffer);
            }
            let ghost line = text_of(self.input_buffer);
            assert(line == strip_terminators(input));
            if text_as_str(&self.input_buffer).is_empty() {
                channel_send(&mut self.output_buffer, "\n\r> ");
                assert(line =~= Seq::<char>::empty());
                return ;
            }
            let mut response = text_new();
            text_push_str(&mut response, "\r\n");
            proof {
                reveal_strlit("\r\n");
                lemma_byte_len_empty();
                lemma_byte_len_ascii(line_start());
                assert(Seq::<char>::empty() + line_start() =~= line_start());
                lemma_token_count(line);
            }
            let ghost table = descriptors(self.menu@);
            let ghost tokens = tokens_of_line(line);
            {
                let words = tokenize(text_as_str(&self.input_buffer));
                respond(self.menu, &words, &mut response);
            }
            text_clear(&mut self.input_buffer);
            text_push_str(&mut response, "\r\n> ");
            channel_send(&mut self.output_buffer, text_as_str(&response));
        }
    }

    /// Whether nothing is waiting to be transmitted.
    pub fn output_buffer_is_empty(&mut self) -> (empty: bool)
        ensures
            empty == (old(self)@.output.len() == 0),
            *final(self) == *old(self),
    {
        channel_is_empty(&self.output_buffer)
    }

    /// Takes the next character to transmit, if there is one.
    pub fn get_output_char(&mut self) -> (c: Option<char>)
        ensures
            final(self).name == old(self).name,
            final(self).menu == old(self).menu,
            final(self)@.input == old(self)@.input,
            old(self)@.output.len() == 0 ==> c.is_none()
                && final(self)@.output == old(self)@.output,
            old(self)@.output.len() > 0 ==> c == Some(old(self)@.output.first())
                && final(self)@.output == old(self)@.output.drop_first(),
    {
        channel_dequeue(&mut self.output_buffer)
    }
}

} // verus!
