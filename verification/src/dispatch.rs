//! Resolving a line against the command table and answering it.

use vstd::prelude::*;
use crate::menu::{
    descriptors, find_command, listing_pieces, position_of, render_listing, render_topic,
    render_unknown, topic_pieces, unknown_pieces, CommandDescriptor, MenuItem,
};
use crate::strings::str_eq;
use crate::text::{append_all, text_of, TextBuffer};
use crate::tokens::{tokens_as_slice, tokens_of, Tokens, MAX_TOKENS};

verus! {

/// What a line asks for.
#[derive(Clone, Copy, Debug, PartialEq, Eq)]
pub enum Resolution {
    /// `help` alone: list the commands.
    Listing,
    /// `help` and the name of the command at this index: describe it.
    Topic(usize),
    /// `help` and a name that the table does not have.
    UnknownTopic,
    /// The name of the command at this index: run its handler.
    Run(usize),
    /// A first token that is neither `help` nor a command.
    Unknown,
}

/// What the tokens of a line ask for, given the table. `help` is looked at
/// before the table, and only the first two tokens matter to it.
pub open spec fn resolution_of(menu: Seq<CommandDescriptor>, tokens: Seq<Seq<char>>) -> Resolution
    recommends
        tokens.len() >= 1,
{
    if tokens[0] == "help"@ {
        if tokens.len() == 1 {
            Resolution::Listing
        } else {
            match position_of(menu, tokens[1]) {
                Some(i) => Resolution::Topic(i as usize),
                None => Resolution::UnknownTopic,
            }
        }
    } else {
        match position_of(menu, tokens[0]) {
            Some(i) => Resolution::Run(i as usize),
            None => Resolution::Unknown,
        }
    }
}

/// The pieces that the interpreter itself appends for a line with these
/// tokens. Where a handler runs, the interpreter appends none.
pub open spec fn rendered_pieces(menu: Seq<CommandDescriptor>, tokens: Seq<Seq<char>>) -> Seq<
    Seq<char>,
>
    recommends
        tokens.len() >= 1,
{
    match resolution_of(menu, tokens) {
        Resolution::Listing => listing_pieces(menu),
        Resolution::Topic(i) => topic_pieces(menu[i as int]),
        Resolution::UnknownTopic => unknown_pieces(tokens[1]),
        Resolution::Run(_) => Seq::empty(),
        Resolution::Unknown => unknown_pieces(tokens[0]),
    }
}

/// Whether a handler can be called with every token list that starts with
/// its command name, whatever the response holds so far.
pub open spec fn handler_accepts<F: Fn(&heapless::Vec<&str, MAX_TOKENS>, &mut TextBuffer)>(
    f: F,
    command: Seq<char>,
) -> bool {
    forall|t: &heapless::Vec<&str, MAX_TOKENS>, m: &mut TextBuffer|
        tokens_of(*t).len() >= 1 && tokens_of(*t)[0] == command ==> #[trigger] call_requires(
            f,
            (t, m),
        )
}

/// Whether every handler of the table can be called for its own command.
pub open spec fn table_accepts<'a, F: Fn(&heapless::Vec<&str, MAX_TOKENS>, &mut TextBuffer)>(
    menu: Seq<MenuItem<'a, F>>,
) -> bool {
    forall|i: int|
        0 <= i < menu.len() ==> handler_accepts((#[trigger] menu[i]).function, menu[i].command@)
}

/// Decides what the tokens of a line ask for.
pub fn resolve<'a, F>(menu: &[MenuItem<'a, F>], tokens: &Tokens) -> (r: Resolution)
    requires
        tokens_of(*tokens).len() >= 1,
    ensures
        r == resolution_of(descriptors(menu@), tokens_of(*tokens)),
{
    let words = tokens_as_slice(tokens);
    if str_eq(words[0], "help") {
        if words.len() == 1 {
            Resolution::Listing
        } else {
            match find_command(menu, words[1]) {
                Some(i) => Resolution::Topic(i),
                None => Resolution::UnknownTopic,
            }
        }
    } else {
        match find_command(menu, words[0]) {
            Some(i) => Resolution::Run(i),
            None => Resolution::Unknown,
        }
    }
}

/// Answers the line whose tokens are given: renders the listing, a topic or
/// a complaint into `response`, or hands the tokens and `response` to the
/// handler of the command that the line names.
pub fn respond<'a, F>(menu: &[MenuItem<'a, F>], tokens: &Tokens, response: &mut TextBuffer) where
    F: Fn(&heapless::Vec<&str, MAX_TOKENS>, &mut TextBuffer),

    requires
        tokens_of(*tokens).len() >= 1,
        table_accepts(menu@),
    ensures
        match resolution_of(descriptors(menu@), tokens_of(*tokens)) {
            Resolution::Run(i) => exists|m: &mut TextBuffer| #[trigger]
                call_ensures(menu@[i as int].function, (tokens, m), ()) && text_of(*m) == text_of(
                    *old(response),
                ) && text_of(*final(m)) == text_of(*final(response)),
            _ => text_of(*final(response)) == append_all(
                text_of(*old(response)),
                rendered_pieces(descriptors(menu@), tokens_of(*tokens)),
            ),
        },
{
    let words = tokens_as_slice(tokens);
    match resolve(menu, tokens) {
        Resolution::Listing => render_listing(menu, response),
        Resolution::Topic(i) => render_topic(&menu[i], response),
        Resolution::UnknownTopic => render_unknown(words[1], response),
        Resolution::Run(i) => {
            assert(handler_accepts(menu@[i as int].function, menu@[i as int].command@));
            (menu[i].function)(tokens, response)
        },
        Resolution::Unknown => render_unknown(words[0], response),
    }
}

} // verus!
