//! The command table and what is rendered from it.
//!
//! A table is an ordered slice of [`MenuItem`]s that never changes once the
//! interpreter has it. A name is looked up by exact match, never by prefix.
//! Names are meant to be unique; nothing enforces it, and of two commands of
//! one name only the first is ever found.
//!
//! Responses are built by appending pieces of text to a [`TextBuffer`], so
//! each rendering is specified as the sequence of pieces that are appended,
//! and a piece that no longer fits is left out whole.

use vstd::prelude::*;
use vstd::seq_lib::lemma_flatten_concat;
use crate::strings::str_eq;
use crate::text::{
    append_all, lemma_append_all_concat, lemma_append_all_one, lemma_append_all_push, text_of,
    text_push_str, TextBuffer,
};

verus! {

/// Documentation of one parameter of a command. It is shown by `help` and
/// never checked against what the user types.
pub struct MenuParameters {
    /// The name shown between angle brackets.
    pub name: &'static str,
    /// What the parameter is for.
    pub description: &'static str,
}

/// One command: its name, its documentation and the handler that runs it.
///
/// The handler is given the tokens of the line, the command name first, and
/// the response under construction, to which it appends its text.
pub struct MenuItem<'a, F> {
    /// The name by which the command is called.
    pub command: &'static str,
    /// What the command does.
    pub description: &'static str,
    /// The handler.
    pub function: F,
    /// The parameters, in the order in which they are given.
    pub parameters: &'a [MenuParameters],
}

/// What a [`MenuParameters`] says, as plain text.
pub struct ParameterDescriptor {
    pub name: Seq<char>,
    pub description: Seq<char>,
}

/// What a [`MenuItem`] says, as plain text, leaving the handler aside.
pub struct CommandDescriptor {
    pub command: Seq<char>,
    pub description: Seq<char>,
    pub parameters: Seq<ParameterDescriptor>,
}

impl View for MenuParameters {
    type V = ParameterDescriptor;

    open spec fn view(&self) -> ParameterDescriptor {
        ParameterDescriptor { name: self.name@, description: self.description@ }
    }
}

impl<'a, F> View for MenuItem<'a, F> {
    type V = CommandDescriptor;

    open spec fn view(&self) -> CommandDescriptor {
        CommandDescriptor {
            command: self.command@,
            description: self.description@,
            parameters: self.parameters@.map_values(|p: MenuParameters| p@),
        }
    }
}

/// The descriptors of a table, in table order.
pub open spec fn descriptors<'a, F>(menu: Seq<MenuItem<'a, F>>) -> Seq<CommandDescriptor> {
    menu.map_values(|item: MenuItem<'a, F>| item@)
}

/// Whether `i` is the first place in the table where `name` stands.
pub open spec fn is_first_match(menu: Seq<CommandDescriptor>, name: Seq<char>, i: int) -> bool {
    &&& 0 <= i < menu.len()
    &&& menu[i].command == name
    &&& forall|j: int| 0 <= j < i ==> (#[trigger] menu[j]).command != name
}

/// Where `name` first stands in the table, if it does.
pub open spec fn position_of(menu: Seq<CommandDescriptor>, name: Seq<char>) -> Option<int> {
    if exists|i: int| is_first_match(menu, name, i) {
        Some(choose|i: int| is_first_match(menu, name, i))
    } else {
        None
    }
}

/// ` <name>` for each of the first `n` parameters, in three pieces each.
pub open spec fn placeholder_pieces(params: Seq<ParameterDescriptor>, n: nat) -> Seq<Seq<char>>
    decreases n,
{
    if n == 0 {
        Seq::empty()
    } else {
        placeholder_pieces(params, (n - 1) as nat) + seq![" <"@, params[n - 1].name, ">"@]
    }
}

/// The command name followed by ` <name>` for each of its parameters.
pub open spec fn signature_pieces(c: CommandDescriptor) -> Seq<Seq<char>> {
    seq![c.command] + placeholder_pieces(c.parameters, c.parameters.len())
}

/// One line of the listing: two spaces, the signature, end of line.
pub open spec fn listing_line(c: CommandDescriptor) -> Seq<Seq<char>> {
    seq!["  "@] + signature_pieces(c) + seq!["\r\n"@]
}

/// The header of the listing and the lines of the first `n` commands.
pub open spec fn listing_prefix(menu: Seq<CommandDescriptor>, n: nat) -> Seq<Seq<char>>
    decreases n,
{
    if n == 0 {
        seq!["AVAILABLE ITEMS:\n\r"@]
    } else {
        listing_prefix(menu, (n - 1) as nat) + listing_line(menu[n - 1])
    }
}

/// The listing: a header, then one line for each command in table order.
pub open spec fn listing_pieces(menu: Seq<CommandDescriptor>) -> Seq<Seq<char>> {
    listing_prefix(menu, menu.len())
}

/// `  <name> - description` and an end of line for each of the first `n`
/// parameters, in five pieces each.
pub open spec fn parameter_lines(params: Seq<ParameterDescriptor>, n: nat) -> Seq<Seq<char>>
    decreases n,
{
    if n == 0 {
        Seq::empty()
    } else {
        parameter_lines(params, (n - 1) as nat) + seq![
            "  <"@,
            params[n - 1].name,
            "> - "@,
            params[n - 1].description,
            "\r\n"@,
        ]
    }
}

/// The description of one command: its signature under `SUMMARY`, a blank
/// line, a line for each parameter under `PARAMETERS`, a blank line, and its
/// description under `DESCRIPTION`.
pub open spec fn topic_pieces(c: CommandDescriptor) -> Seq<Seq<char>> {
    seq!["SUMMARY:\n\r"@] + signature_pieces(c) + seq!["\r\n\r\n"@, "PARAMETERS:\n\r"@]
        + parameter_lines(c.parameters, c.parameters.len()) + seq![
        "\r\n"@,
        "DESCRIPTION:\n\r"@,
        c.description,
        "\r\n"@,
    ]
}

/// The complaint about a name that the table does not have.
pub open spec fn unknown_pieces(name: Seq<char>) -> Seq<Seq<char>> {
    seq!["Unknown command: "@, name, "\r\n"@]
}

/// The text of the listing lines of the first `n` commands, one entry for
/// each command.
pub open spec fn listing_lines(menu: Seq<CommandDescriptor>, n: nat) -> Seq<Seq<char>> {
    Seq::new(n, |i: int| listing_line(menu[i]).flatten())
}

/// A listing line reads: two spaces, the command name, the placeholders of
/// its parameters, end of line.
pub proof fn lemma_listing_line_text(c: CommandDescriptor)
    ensures
        listing_line(c).flatten() == "  "@ + c.command + placeholder_pieces(
            c.parameters,
            c.parameters.len(),
        ).flatten() + "\r\n"@,
{
    let holders = placeholder_pieces(c.parameters, c.parameters.len());
    let a = seq!["  "@];
    let b = seq![c.command];
    let z = seq!["\r\n"@];
    a.lemma_flatten_singleton();
    b.lemma_flatten_singleton();
    z.lemma_flatten_singleton();
    lemma_flatten_concat(b, holders);
    lemma_flatten_concat(a, b + holders);
    lemma_flatten_concat(a + (b + holders), z);
    assert(listing_line(c) =~= a + (b + holders) + z);
    assert("  "@ + (c.command + holders.flatten()) + "\r\n"@ =~= "  "@ + c.command
        + holders.flatten() + "\r\n"@);
}

/// The listing holds its header and then exactly one line for each command,
/// in table order.
pub proof fn lemma_listing_one_line_per_command(menu: Seq<CommandDescriptor>, n: nat)
    requires
        n <= menu.len(),
    ensures
        listing_lines(menu, n).len() == n,
        listing_prefix(menu, n).flatten() == "AVAILABLE ITEMS:\n\r"@ + listing_lines(
            menu,
            n,
        ).flatten(),
    decreases n,
{
    let header = "AVAILABLE ITEMS:\n\r"@;
    if n == 0 {
        seq![header].lemma_flatten_singleton();
        assert(listing_lines(menu, 0) =~= Seq::<Seq<char>>::empty());
        assert(header + Seq::<char>::empty() =~= header);
    } else {
        let m = (n - 1) as nat;
        let line = listing_line(menu[n - 1]);
        lemma_listing_one_line_per_command(menu, m);
        lemma_flatten_concat(listing_prefix(menu, m), line);
        assert(listing_lines(menu, n) =~= listing_lines(menu, m).push(line.flatten()));
        listing_lines(menu, m).lemma_flatten_push(line.flatten());
        let before = listing_lines(menu, m).flatten();
        assert((header + before) + line.flatten() =~= header + (before + line.flatten()));
    }
}

/// The first match is the only first match.
pub proof fn lemma_first_match_unique(menu: Seq<CommandDescriptor>, name: Seq<char>, i: int)
    requires
        is_first_match(menu, name, i),
    ensures
        position_of(menu, name) == Some(i),
{
    let k = choose|k: int| is_first_match(menu, name, k);
    if k < i {
        assert(menu[k].command != name);
    }
    if i < k {
        assert(menu[i].command != name);
    }
}

/// A name that stands nowhere in the table has no position.
pub proof fn lemma_no_match(menu: Seq<CommandDescriptor>, name: Seq<char>)
    requires
        forall|j: int| 0 <= j < menu.len() ==> (#[trigger] menu[j]).command != name,
    ensures
        position_of(menu, name) is None,
{
}

/// Looks `name` up in the table: the index of the first command of that
/// name, or `None` when there is none.
pub fn find_command<'a, F>(menu: &[MenuItem<'a, F>], name: &str) -> (found: Option<usize>)
    ensures
        match found {
            Some(i) => position_of(descriptors(menu@), name@) == Some(i as int),
            None => position_of(descriptors(menu@), name@) is None,
        },
{
    let ghost table = descriptors(menu@);
    let mut i: usize = 0;
    while i < menu.len()
        invariant
            i <= menu.len(),
            table == descriptors(menu@),
            forall|j: int| 0 <= j < i ==> (#[trigger] table[j]).command != name@,
        decreases menu.len() - i,
    {
        if str_eq(menu[i].command, name) {
            proof {
                assert(table[i as int].command == name@);
                lemma_first_match_unique(table, name@, i as int);
            }
            return Some(i);
        }
        i += 1;
    }
    proof {
        lemma_no_match(table, name@);
    }
    None
}

/// Appends the signature of `item`: its name, then ` <name>` for each of
/// its parameters.
pub fn render_signature<'a, F>(item: &MenuItem<'a, F>, out: &mut TextBuffer)
    ensures
        text_of(*final(out)) == append_all(text_of(*old(out)), signature_pieces(item@)),
{
    let ghost start = text_of(*out);
    let ghost params = item@.parameters;
    text_push_str(out, item.command);
    proof {
        lemma_append_all_one(start, item.command@);
        assert(seq![item.command@] + placeholder_pieces(params, 0) =~= seq![item.command@]);
    }
    let mut j: usize = 0;
    while j < item.parameters.len()
        invariant
            j <= item.parameters.len(),
            params == item@.parameters,
            text_of(*out) == append_all(
                start,
                seq![item.command@] + placeholder_pieces(params, j as nat),
            ),
        decreases item.parameters.len() - j,
    {
        let ghost done = seq![item.command@] + placeholder_pieces(params, j as nat);
        let ghost name = item.parameters[j as int].name@;
        text_push_str(out, " <");
        text_push_str(out, item.parameters[j].name);
        text_push_str(out, ">");
        proof {
            lemma_append_all_push(start, done, " <"@);
            lemma_append_all_push(start, done.push(" <"@), name);
            lemma_append_all_push(start, done.push(" <"@).push(name), ">"@);
            assert(params[j as int].name == name);
            assert(done.push(" <"@).push(name).push(">"@) =~= seq![item.command@]
                + placeholder_pieces(params, (j + 1) as nat));
        }
        j += 1;
    }
}

/// Appends the listing of all commands.
pub fn render_listing<'a, F>(menu: &[MenuItem<'a, F>], out: &mut TextBuffer)
    ensures
        text_of(*final(out)) == append_all(text_of(*old(out)), listing_pieces(descriptors(menu@))),
{
    let ghost start = text_of(*out);
    let ghost table = descriptors(menu@);
    text_push_str(out, "AVAILABLE ITEMS:\n\r");
    proof {
        lemma_append_all_one(start, "AVAILABLE ITEMS:\n\r"@);
    }
    let mut i: usize = 0;
    while i < menu.len()
        invariant
            i <= menu.len(),
            table == descriptors(menu@),
            text_of(*out) == append_all(start, listing_prefix(table, i as nat)),
        decreases menu.len() - i,
    {
        let ghost done = listing_prefix(table, i as nat);
        let ghost c = table[i as int];
        text_push_str(out, "  ");
        render_signature(&menu[i], out);
        text_push_str(out, "\r\n");
        proof {
            assert(c == menu[i as int]@);
            lemma_append_all_push(start, done, "  "@);
            lemma_append_all_concat(start, done.push("  "@), signature_pieces(c));
            lemma_append_all_push(start, done.push("  "@) + signature_pieces(c), "\r\n"@);
            assert((done.push("  "@) + signature_pieces(c)).push("\r\n"@) =~= done + listing_line(
                c,
            ));
        }
        i += 1;
    }
}

/// Appends the description of one command.
pub fn render_topic<'a, F>(item: &MenuItem<'a, F>, out: &mut TextBuffer)
    ensures
        text_of(*final(out)) == append_all(text_of(*old(out)), topic_pieces(item@)),
{
    let ghost start = text_of(*out);
    let ghost params = item@.parameters;
    text_push_str(out, "SUMMARY:\n\r");
    render_signature(item, out);
    text_push_str(out, "\r\n\r\n");
    text_push_str(out, "PARAMETERS:\n\r");
    let ghost head = seq!["SUMMARY:\n\r"@] + signature_pieces(item@) + seq![
        "\r\n\r\n"@,
        "PARAMETERS:\n\r"@,
    ];
    proof {
        let a = seq!["SUMMARY:\n\r"@];
        let b = a + signature_pieces(item@);
        lemma_append_all_one(start, "SUMMARY:\n\r"@);
        lemma_append_all_concat(start, a, signature_pieces(item@));
        lemma_append_all_push(start, b, "\r\n\r\n"@);
        lemma_append_all_push(start, b.push("\r\n\r\n"@), "PARAMETERS:\n\r"@);
        assert(b.push("\r\n\r\n"@).push("PARAMETERS:\n\r"@) =~= head);
        assert(head + parameter_lines(params, 0) =~= head);
    }
    let mut j: usize = 0;
    while j < item.parameters.len()
        invariant
            j <= item.parameters.len(),
            params == item@.parameters,
            text_of(*out) == append_all(start, head + parameter_lines(params, j as nat)),
        decreases item.parameters.len() - j,
    {
        let ghost done = head + parameter_lines(params, j as nat);
        let ghost name = item.parameters[j as int].name@;
        let ghost description = item.parameters[j as int].description@;
        text_push_str(out, "  <");
        text_push_str(out, item.parameters[j].name);
        text_push_str(out, "> - ");
        text_push_str(out, item.parameters[j].description);
        text_push_str(out, "\r\n");
        proof {
            let d1 = done.push("  <"@);
            let d2 = d1.push(name);
            let d3 = d2.push("> - "@);
            let d4 = d3.push(description);
            lemma_append_all_push(start, done, "  <"@);
            lemma_append_all_push(start, d1, name);
            lemma_append_all_push(start, d2, "> - "@);
            lemma_append_all_push(start, d3, description);
            lemma_append_all_push(start, d4, "\r\n"@);
            assert(params[j as int].name == name);
            assert(params[j as int].description == description);
            assert(d4.push("\r\n"@) =~= head + parameter_lines(params, (j + 1) as nat));
        }
        j += 1;
    }
    text_push_str(out, "\r\n");
    text_push_str(out, "DESCRIPTION:\n\r");
    text_push_str(out, item.description);
    text_push_str(out, "\r\n");
    proof {
        let d0 = head + parameter_lines(params, params.len());
        let d1 = d0.push("\r\n"@);
        let d2 = d1.push("DESCRIPTION:\n\r"@);
        let d3 = d2.push(item.description@);
        lemma_append_all_push(start, d0, "\r\n"@);
        lemma_append_all_push(start, d1, "DESCRIPTION:\n\r"@);
        lemma_append_all_push(start, d2, item.description@);
        lemma_append_all_push(start, d3, "\r\n"@);
        assert(d3.push("\r\n"@) =~= topic_pieces(item@));
    }
}

/// Appends the complaint about a name that is no command.
pub fn render_unknown(name: &str, out: &mut TextBuffer)
    ensures
        text_of(*final(out)) == append_all(text_of(*old(out)), unknown_pieces(name@)),
{
    let ghost start = text_of(*out);
    text_push_str(out, "Unknown command: ");
    text_push_str(out, name);
    text_push_str(out, "\r\n");
    proof {
        let d1 = seq!["Unknown command: "@];
        let d2 = d1.push(name@);
        lemma_append_all_one(start, "Unknown command: "@);
        lemma_append_all_push(start, d1, name@);
        lemma_append_all_push(start, d2, "\r\n"@);
        assert(d2.push("\r\n"@) =~= unknown_pieces(name@));
    }
}

} // verus!
