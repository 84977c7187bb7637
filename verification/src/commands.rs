//! A command handler that comes with the library.

use vstd::prelude::*;
use crate::strings::str_eq;
use crate::text::{
    append_all, lemma_append_all_one, lemma_append_all_push, text_of, text_push_str, TextBuffer,
};
use crate::tokens::{tokens_as_slice, tokens_of, Tokens};

verus! {

/// What the temperature setpoint command answers to a line with these
/// tokens, the command name being the first of them.
///
/// The second token says what to do. `set` takes the value as third and last
/// token; `get` and `default` look at nothing after them.
pub open spec fn setpoint_pieces(tokens: Seq<Seq<char>>) -> Seq<Seq<char>>
    recommends
        tokens.len() >= 1,
{
    if tokens.len() == 1 {
        seq!["Missing parameter\r\n"@]
    } else if tokens[1] == "set"@ {
        if tokens.len() != 3 {
            seq!["Missing parameter\r\n"@]
        } else {
            seq!["Setting temperature setpoint to "@, tokens[2], "\r\n"@]
        }
    } else if tokens[1] == "get"@ {
        seq!["Getting temperature setpoint\r\n"@]
    } else if tokens[1] == "default"@ {
        seq!["Setting temperature setpoint to default\r\n"@]
    } else {
        seq!["Unknown parameter\r\n"@]
    }
}

/// Handler of the temperature setpoint command: appends to `output_string`
/// what [`setpoint_pieces`] gives for the tokens in `parameters`.
pub fn cli_temperature_setpoint(parameters: &Tokens, output_string: &mut TextBuffer)
    requires
        tokens_of(*parameters).len() >= 1,
    ensures
        text_of(*final(output_string)) == append_all(
            text_of(*old(output_string)),
            setpoint_pieces(tokens_of(*parameters)),
        ),
{
    let ghost start = text_of(*output_string);
    let words = tokens_as_slice(parameters);
    if words.len() == 1 {
        text_push_str(output_string, "Missing parameter\r\n");
        proof {
            lemma_append_all_one(start, "Missing parameter\r\n"@);
        }
        return ;
    }
    if str_eq(words[1], "set") {
        if words.len() != 3 {
            text_push_str(output_string, "Missing parameter\r\n");
            proof {
                lemma_append_all_one(start, "Missing parameter\r\n"@);
            }
            return ;
        }
        text_push_str(output_string, "Setting temperature setpoint to ");
        text_push_str(output_string, words[2]);
        text_push_str(output_string, "\r\n");
        proof {
            let d1 = seq!["Setting temperature setpoint to "@];
            let d2 = d1.push(words[2]@);
            lemma_append_all_one(start, "Setting temperature setpoint to "@);
            lemma_append_all_push(start, d1, words[2]@);
            lemma_append_all_push(start, d2, "\r\n"@);
            assert(d2.push("\r\n"@) =~= setpoint_pieces(tokens_of(*parameters)));
        }
    } else if str_eq(words[1], "get") {
        text_push_str(output_string, "Getting temperature setpoint\r\n");
        proof {
            lemma_append_all_one(start, "Getting temperature setpoint\r\n"@);
        }
    } else if str_eq(words[1], "default") {
        text_push_str(output_string, "Setting temperature setpoint to default\r\n");
        proof {
            lemma_append_all_one(start, "Setting temperature setpoint to default\r\n"@);
        }
    } else {
        text_push_str(output_string, "Unknown parameter\r\n");
        proof {
            lemma_append_all_one(start, "Unknown parameter\r\n"@);
        }
    }
}

} // verus!
