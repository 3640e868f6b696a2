//! The texts around a script: where its code comes from, how an expression
//! becomes a coroutine, and how prompts and values are laid out.

use vstd::prelude::*;
use vstd::string::StringExecFns;
use crate::markdown::{lua_block, parse_markdown_lua_block};
use crate::text::{chars_of, push_char, texts};

verus! {

/// Where the code of an execute command comes from.
#[derive(Debug, Clone, PartialEq, Eq)]
pub enum CodeSource {
    /// The message with this id holds the code.
    Message(String),
    /// The code itself was given.
    Code(String),
}

/// Why the arguments of an execute command name no code.
#[derive(Debug, Clone, Copy, PartialEq, Eq)]
pub enum ArgumentError {
    /// A message id and code were both given.
    Both,
    /// Neither a message id nor code was given.
    Neither,
}

impl ArgumentError {
    /// The complaint for the user.
    pub fn message(&self) -> (text: String)
        ensures
            text@ == (match *self {
                ArgumentError::Both => "message ID and code are mutually exclusive"@,
                ArgumentError::Neither => "no message ID or code specified"@,
            }),
    {
        match self {
            ArgumentError::Both => String::from_str("message ID and code are mutually exclusive"),
            ArgumentError::Neither => String::from_str("no message ID or code specified"),
        }
    }
}

/// Decides where the code comes from: exactly one of a message id and the
/// code must be given.
pub fn choose_code_source(message_id: Option<String>, code: Option<String>) -> (source: Result<
    CodeSource,
    ArgumentError,
>)
    ensures
        source == (match (message_id, code) {
            (Some(id), None) => Ok(CodeSource::Message(id)),
            (None, Some(code)) => Ok(CodeSource::Code(code)),
            (Some(_), Some(_)) => Err(ArgumentError::Both),
            (None, None) => Err(ArgumentError::Neither),
        }),
{
    match (message_id, code) {
        (Some(id), None) => Ok(CodeSource::Message(id)),
        (None, Some(code)) => Ok(CodeSource::Code(code)),
        (Some(_), Some(_)) => Err(ArgumentError::Both),
        (None, None) => Err(ArgumentError::Neither),
    }
}

/// The code to run for a text: the body of its fenced Lua block, or the
/// whole text when it has none.
pub fn code_to_run(text: &str) -> (code: &str)
    ensures
        code@ == (match lua_block(text@) {
            Some(body) => body,
            None => text@,
        }),
{
    match parse_markdown_lua_block(text) {
        Some(body) => body,
        None => text,
    }
}

/// What stands before an expression that is evaluated for its value.
pub open spec fn value_head() -> Seq<char> {
    "coroutine.create(function()\n    local result = ("@
}

/// What stands after an expression that is evaluated for its value: the
/// value, unless it is nil, is returned in readable form.
pub open spec fn value_tail() -> Seq<char> {
    ")\n    if result ~= nil then\n        return inspect(result)\n    end\n    return nil\nend)"@
}

/// What stands before statements.
pub open spec fn statement_head() -> Seq<char> {
    "coroutine.create(function()\n"@
}

/// What stands after statements.
pub open spec fn statement_tail() -> Seq<char> {
    "\nend)"@
}

/// The Lua chunk that makes a coroutine of `code`, taken as an expression
/// whose value is wanted or as statements.
pub open spec fn wrapped(code: Seq<char>, as_value: bool) -> Seq<char> {
    if as_value {
        value_head() + code + value_tail()
    } else {
        statement_head() + code + statement_tail()
    }
}

/// Builds the Lua chunk that makes a coroutine of `code`. A script is first
/// tried as an expression (`as_value`), then as statements.
pub fn wrap_expression(code: &str, as_value: bool) -> (chunk: String)
    ensures
        chunk@ == wrapped(code@, as_value),
{
    if as_value {
        let mut chunk = String::from_str("coroutine.create(function()\n    local result = (");
        chunk.append(code);
        chunk.append(
            ")\n    if result ~= nil then\n        return inspect(result)\n    end\n    return nil\nend)",
        );
        chunk
    } else {
        let mut chunk = String::from_str("coroutine.create(function()\n");
        chunk.append(code);
        chunk.append("\nend)");
        chunk
    }
}

/// The complaint when a script loads neither as an expression nor as
/// statements; the two arguments say why not.
pub fn load_failure(as_value: &str, as_statements: &str) -> (text: String)
    ensures
        text@ == "Failed to load expression with return: "@ + as_value@ + " | without return: "@
            + as_statements@,
{
    let mut text = String::from_str("Failed to load expression with return: ");
    text.append(as_value);
    text.append(" | without return: ");
    text.append(as_statements);
    text
}

/// `values` written one after the other with a tab between neighbours.
pub open spec fn tabbed(values: Seq<Seq<char>>) -> Seq<char>
    decreases values.len(),
{
    if values.len() == 0 {
        Seq::<char>::empty()
    } else if values.len() == 1 {
        values[0]
    } else {
        tabbed(values.drop_last()).push('\t') + values.last()
    }
}

/// Joins the values a script passes to `output` or `print` into one line,
/// with tabs between them.
pub fn join_values(values: &Vec<String>) -> (line: String)
    ensures
        line@ == tabbed(texts(values@)),
{
    let mut line = String::new();
    let ghost all = texts(values@);
    let mut i: usize = 0;
    assert(all.take(0) =~= Seq::<Seq<char>>::empty());
    while i < values.len()
        invariant
            i <= values.len(),
            all == texts(values@),
            line@ == tabbed(all.take(i as int)),
        decreases values.len() - i,
    {
        proof {
            assert(all.take(i + 1).drop_last() =~= all.take(i as int));
            assert(all.take(i + 1).last() == values@[i as int]@);
        }
        if i > 0 {
            push_char(&mut line, '\t');
        }
        line.append(values[i].as_str());
        proof {
            if i == 0 {
                assert(line@ =~= values@[0]@);
                assert(all.take(1)[0] == values@[0]@);
            }
        }
        i += 1;
    }
    assert(all.take(i as int) =~= all);
    line
}

/// `text` with every backslash that is followed by `n` turned, together
/// with that `n`, into a line break, reading from the left.
pub open spec fn with_line_breaks(text: Seq<char>) -> Seq<char>
    decreases text.len(),
{
    if text.len() == 0 {
        text
    } else if text.len() >= 2 && text[0] == '\\' && text[1] == 'n' {
        seq!['\n'] + with_line_breaks(text.skip(2))
    } else {
        seq![text[0]] + with_line_breaks(text.skip(1))
    }
}

/// Prepares a prompt: when `replace_newlines` is set, a backslash followed
/// by `n` stands for a line break; otherwise the prompt stays as typed.
pub fn expand_newlines(prompt: &str, replace_newlines: bool) -> (text: String)
    ensures
        text@ == if replace_newlines {
            with_line_breaks(prompt@)
        } else {
            prompt@
        },
{
    if !replace_newlines {
        return String::from_str(prompt);
    }
    let chars = chars_of(prompt);
    let mut text = String::new();
    let mut i: usize = 0;
    assert(prompt@.skip(0) =~= prompt@);
    while i < chars.len()
        invariant
            i <= chars.len(),
            chars@ == prompt@,
            text@ + with_line_breaks(prompt@.skip(i as int)) == with_line_breaks(prompt@),
        decreases chars.len() - i,
    {
        let ghost rest = prompt@.skip(i as int);
        let ghost before = text@;
        if chars[i] == '\\' && i + 1 < chars.len() && chars[i + 1] == 'n' {
            push_char(&mut text, '\n');
            proof {
                assert(rest.skip(2) =~= prompt@.skip(i + 2));
                assert(before.push('\n') + with_line_breaks(rest.skip(2)) =~= before + (
                seq!['\n'] + with_line_breaks(rest.skip(2))));
            }
            i += 2;
        } else {
            push_char(&mut text, chars[i]);
            proof {
                assert(rest.skip(1) =~= prompt@.skip(i + 1));
                assert(before.push(rest[0]) + with_line_breaks(rest.skip(1)) =~= before + (
                seq![rest[0]] + with_line_breaks(rest.skip(1))));
            }
            i += 1;
        }
    }
    proof {
        assert(prompt@.skip(i as int) =~= Seq::<char>::empty());
        assert(text@ + Seq::<char>::empty() =~= text@);
    }
    text
}

/// The text shown while a model answers: the prompt in bold, the model in
/// italics, and below them what the model has said so far.
pub fn answer_so_far(prompt: &str, model: &str, answer: &str) -> (text: String)
    ensures
        text@ == "**"@ + prompt@ + "** (*"@ + model@ + "*)\n"@ + answer@,
{
    let mut text = String::from_str("**");
    text.append(prompt);
    text.append("** (*");
    text.append(model);
    text.append("*)\n");
    text.append(answer);
    text
}

} // verus!
