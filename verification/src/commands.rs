//! The names of the built-in commands and of their options, and the rules
//! for keeping the registered commands in line with the bot's own.

use vstd::prelude::*;
use vstd::string::StringExecFns;
use crate::text::{same_text, texts};

verus! {

/// The command that executes a code snippet.
pub const EXECUTE: &'static str = "execute";

/// The command that executes the code block of a message.
pub const EXECUTE_MSG: &'static str = "executemsg";

/// The option that holds a message id.
pub const MESSAGE_ID: &'static str = "message_id";

/// The option that holds code.
pub const CODE: &'static str = "code";

/// The two lists name the same commands, whatever the order and however
/// often.
pub open spec fn same_names(a: Seq<Seq<char>>, b: Seq<Seq<char>>) -> bool {
    forall|name: Seq<char>| a.contains(name) <==> b.contains(name)
}

/// Whether `name` is among `names`.
pub fn has_name(names: &Vec<String>, name: &str) -> (found: bool)
    ensures
        found == texts(names@).contains(name@),
{
    let mut i: usize = 0;
    while i < names.len()
        invariant
            i <= names.len(),
            forall|j: int| 0 <= j < i ==> texts(names@)[j] != name@,
        decreases names.len() - i,
    {
        if same_text(names[i].as_str(), name) {
            assert(texts(names@)[i as int] == name@);
            return true;
        }
        i += 1;
    }
    false
}

fn all_among(names: &Vec<String>, others: &Vec<String>) -> (all: bool)
    ensures
        all == (forall|name: Seq<char>|
            texts(names@).contains(name) ==> texts(others@).contains(name)),
{
    let mut i: usize = 0;
    while i < names.len()
        invariant
            i <= names.len(),
            forall|j: int| 0 <= j < i ==> texts(others@).contains(#[trigger] texts(names@)[j]),
        decreases names.len() - i,
    {
        if !has_name(others, names[i].as_str()) {
            assert(texts(names@).contains(texts(names@)[i as int]));
            return false;
        }
        i += 1;
    }
    true
}

/// Whether the commands registered with the chat service must be cleared
/// before the bot registers its own: they must whenever the two sets of
/// names differ.
pub fn needs_reset(registered: &Vec<String>, ours: &Vec<String>) -> (reset: bool)
    ensures
        reset == !same_names(texts(registered@), texts(ours@)),
{
    !(all_among(registered, ours) && all_among(ours, registered))
}

/// The complaint about a command that nothing handles.
pub fn no_handler(name: &str) -> (text: String)
    ensures
        text@ == "no handler found for command: "@ + name@,
{
    let mut text = String::from_str("no handler found for command: ");
    text.append(name);
    text
}

/// What is shown when a command or a script failed: the word `Error` and
/// the reason.
pub fn error_text(reason: &str) -> (text: String)
    ensures
        text@ == "Error: "@ + reason@,
{
    let mut text = String::from_str("Error: ");
    text.append(reason);
    text
}

} // verus!
