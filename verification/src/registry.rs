//! The rules for commands that scripts register: which option types exist,
//! how many choices an option may offer, and which suggestions are shown
//! while a user types.

use vstd::prelude::*;
use vstd::string::StringExecFns;
use crate::decimal::{digits, push_decimal};
use crate::text::{chars_of, contains, contains_text, same_text};

verus! {

/// The most choices, and the most suggestions, that one option may have.
pub const MAX_CHOICES: usize = 25;

/// The type of a command option.
#[derive(Debug, Clone, Copy, PartialEq, Eq)]
pub enum OptionKind {
    String,
    Integer,
    Number,
    Boolean,
    User,
    Channel,
    Role,
    Mentionable,
    Attachment,
}

/// The option type with this name.
pub open spec fn option_kind_named(name: Seq<char>) -> Option<OptionKind> {
    if name == "string"@ {
        Some(OptionKind::String)
    } else if name == "integer"@ {
        Some(OptionKind::Integer)
    } else if name == "number"@ {
        Some(OptionKind::Number)
    } else if name == "boolean"@ {
        Some(OptionKind::Boolean)
    } else if name == "user"@ {
        Some(OptionKind::User)
    } else if name == "channel"@ {
        Some(OptionKind::Channel)
    } else if name == "role"@ {
        Some(OptionKind::Role)
    } else if name == "mentionable"@ {
        Some(OptionKind::Mentionable)
    } else if name == "attachment"@ {
        Some(OptionKind::Attachment)
    } else {
        None
    }
}

/// Reads the name of an option type.
pub fn parse_option_kind(name: &str) -> (kind: Option<OptionKind>)
    ensures
        kind == option_kind_named(name@),
{
    if same_text(name, "string") {
        Some(OptionKind::String)
    } else if same_text(name, "integer") {
        Some(OptionKind::Integer)
    } else if same_text(name, "number") {
        Some(OptionKind::Number)
    } else if same_text(name, "boolean") {
        Some(OptionKind::Boolean)
    } else if same_text(name, "user") {
        Some(OptionKind::User)
    } else if same_text(name, "channel") {
        Some(OptionKind::Channel)
    } else if same_text(name, "role") {
        Some(OptionKind::Role)
    } else if same_text(name, "mentionable") {
        Some(OptionKind::Mentionable)
    } else if same_text(name, "attachment") {
        Some(OptionKind::Attachment)
    } else {
        None
    }
}

/// An option as a script wrote it down, before any check.
#[derive(Debug, Clone, PartialEq, Eq)]
pub struct OptionDraft {
    pub name: String,
    pub description: String,
    pub kind_name: String,
    pub required: Option<bool>,
    /// Bounds of a number, each as the bits of its IEEE 754 double.
    pub min_value: Option<u64>,
    pub max_value: Option<u64>,
    pub min_length: Option<u16>,
    pub max_length: Option<u16>,
    pub autocomplete: Option<bool>,
    /// Fixed choices, each a name and a value.
    pub choices: Vec<(String, String)>,
    /// Suggestions offered while typing, each a name and a value.
    pub suggestions: Vec<(String, String)>,
}

/// An option of a registered command.
#[derive(Debug, Clone, PartialEq, Eq)]
pub struct LuaCommandOption {
    pub name: String,
    pub description: String,
    pub option_type: OptionKind,
    pub required: bool,
    /// Bounds of a number, each as the bits of its IEEE 754 double.
    pub min_value: Option<u64>,
    pub max_value: Option<u64>,
    pub min_length: Option<u16>,
    pub max_length: Option<u16>,
    pub autocomplete: bool,
    pub choices: Vec<(String, String)>,
    pub suggestions: Vec<(String, String)>,
}

/// The complaint about an option type that does not exist.
pub open spec fn unknown_type_text(name: Seq<char>) -> Seq<char> {
    "Unknown option type: "@ + name
}

/// The complaint about an option with more than the allowed number of
/// entries of one sort (`choices` or `suggestions`).
pub open spec fn too_many_text(option: Seq<char>, count: nat, sort: Seq<char>) -> Seq<char> {
    "Option '"@ + option + "' has "@ + digits(count) + " "@ + sort
        + ", but Discord allows a maximum of "@ + digits(MAX_CHOICES as nat)
}

fn too_many(option: &str, count: usize, sort: &str) -> (text: String)
    ensures
        text@ == too_many_text(option@, count as nat, sort@),
{
    let mut text = String::from_str("Option '");
    text.append(option);
    text.append("' has ");
    push_decimal(&mut text, count as u64);
    text.append(" ");
    text.append(sort);
    text.append(", but Discord allows a maximum of ");
    push_decimal(&mut text, MAX_CHOICES as u64);
    text
}

/// What checking a draft gives: the complaint, if there is one. An unknown
/// type is reported first, then too many choices, then too many
/// suggestions.
pub open spec fn draft_complaint(draft: OptionDraft) -> Option<Seq<char>> {
    if option_kind_named(draft.kind_name@) is None {
        Some(unknown_type_text(draft.kind_name@))
    } else if draft.choices.len() > MAX_CHOICES {
        Some(too_many_text(draft.name@, draft.choices.len() as nat, "choices"@))
    } else if draft.suggestions.len() > MAX_CHOICES {
        Some(too_many_text(draft.name@, draft.suggestions.len() as nat, "suggestions"@))
    } else {
        None
    }
}

/// Checks a draft and completes it. An option is required only if the
/// draft says so, and completes automatically if the draft says so or
/// brings suggestions.
pub fn check_option(draft: OptionDraft) -> (checked: Result<LuaCommandOption, String>)
    ensures
        match checked {
            Ok(option) => {
                &&& draft_complaint(draft) is None
                &&& option_kind_named(draft.kind_name@) == Some(option.option_type)
                &&& option.name == draft.name
                &&& option.description == draft.description
                &&& option.required == (draft.required == Some(true))
                &&& option.min_value == draft.min_value
                &&& option.max_value == draft.max_value
                &&& option.min_length == draft.min_length
                &&& option.max_length == draft.max_length
                &&& option.autocomplete == (draft.autocomplete == Some(true)
                    || draft.suggestions.len() > 0)
                &&& option.choices == draft.choices
                &&& option.suggestions == draft.suggestions
            },
            Err(complaint) => draft_complaint(draft) == Some(complaint@),
        },
{
    let kind = match parse_option_kind(draft.kind_name.as_str()) {
        Some(kind) => kind,
        None => {
            let mut text = String::from_str("Unknown option type: ");
            text.append(draft.kind_name.as_str());
            return Err(text);
        },
    };
    if draft.choices.len() > MAX_CHOICES {
        return Err(too_many(draft.name.as_str(), draft.choices.len(), "choices"));
    }
    if draft.suggestions.len() > MAX_CHOICES {
        return Err(too_many(draft.name.as_str(), draft.suggestions.len(), "suggestions"));
    }
    let required = match draft.required {
        Some(flag) => flag,
        None => false,
    };
    let asked = match draft.autocomplete {
        Some(flag) => flag,
        None => false,
    };
    let autocomplete = asked || draft.suggestions.len() > 0;
    Ok(
        LuaCommandOption {
            name: draft.name,
            description: draft.description,
            option_type: kind,
            required,
            min_value: draft.min_value,
            max_value: draft.max_value,
            min_length: draft.min_length,
            max_length: draft.max_length,
            autocomplete,
            choices: draft.choices,
            suggestions: draft.suggestions,
        },
    )
}

/// The lower-case form of a text, as the standard library gives it.
pub uninterp spec fn lowercase_text(text: Seq<char>) -> Seq<char>;

/// `str::to_lowercase`: the lower-case form of `text`.
#[verifier::external_body]
fn lowercase(text: &str) -> (lower: String)
    ensures
        lower@ == lowercase_text(text@),
{
    text.to_lowercase()
}

/// The positions of the entries of `names` that hold `typed`.
pub open spec fn matching_positions(names: Seq<Seq<char>>, typed: Seq<char>) -> Seq<int>
    decreases names.len(),
{
    if names.len() == 0 {
        Seq::<int>::empty()
    } else if contains(names.last(), typed) {
        matching_positions(names.drop_last(), typed).push(names.len() - 1)
    } else {
        matching_positions(names.drop_last(), typed)
    }
}

/// Picks, from names that are already in lower case, the positions of those
/// that hold the text typed so far, itself in lower case. The order is kept.
pub fn select_matching(names: &Vec<String>, typed: &str) -> (picked: Vec<usize>)
    ensures
        picked@.len() == matching_positions(crate::text::texts(names@), typed@).len(),
        forall|i: int|
            0 <= i < picked@.len() ==> picked@[i] as int == matching_positions(
                crate::text::texts(names@),
                typed@,
            )[i],
        forall|i: int| 0 <= i < picked@.len() ==> picked@[i] < names.len(),
{
    let needle = chars_of(typed);
    let ghost all = crate::text::texts(names@);
    let mut picked: Vec<usize> = Vec::new();
    let mut i: usize = 0;
    assert(all.take(0) =~= Seq::<Seq<char>>::empty());
    while i < names.len()
        invariant
            i <= names.len(),
            needle@ == typed@,
            all == crate::text::texts(names@),
            picked@.len() == matching_positions(all.take(i as int), typed@).len(),
            forall|j: int|
                0 <= j < picked@.len() ==> picked@[j] as int == matching_positions(
                    all.take(i as int),
                    typed@,
                )[j],
            forall|j: int| 0 <= j < picked@.len() ==> picked@[j] < i,
        decreases names.len() - i,
    {
        let hay = chars_of(names[i].as_str());
        proof {
            assert(all.take(i + 1).drop_last() =~= all.take(i as int));
            assert(all.take(i + 1).last() == names@[i as int]@);
        }
        if contains_text(&hay, &needle) {
            picked.push(i);
        }
        i += 1;
    }
    assert(all.take(i as int) =~= all);
    picked
}

/// The suggestions to show for what the user has typed so far: those whose
/// name holds the typed text, upper and lower case taken as the same, in
/// their order. The result gives their positions in `suggestions`.
pub fn matching_suggestions(suggestions: &Vec<(String, String)>, typed: &str) -> (picked: Vec<
    usize,
>)
    ensures
        ({
            let names = Seq::new(
                suggestions@.len(),
                |i: int| lowercase_text(suggestions@[i].0@),
            );
            let expected = matching_positions(names, lowercase_text(typed@));
            &&& picked@.len() == expected.len()
            &&& forall|i: int| 0 <= i < picked@.len() ==> picked@[i] as int == expected[i]
            &&& forall|i: int| 0 <= i < picked@.len() ==> picked@[i] < suggestions.len()
        }),
{
    let mut names: Vec<String> = Vec::new();
    let mut i: usize = 0;
    while i < suggestions.len()
        invariant
            i <= suggestions.len(),
            names.len() == i,
            forall|j: int| 0 <= j < i ==> names@[j]@ == lowercase_text(suggestions@[j].0@),
        decreases suggestions.len() - i,
    {
        names.push(lowercase(suggestions[i].0.as_str()));
        i += 1;
    }
    let lower = lowercase(typed);
    assert(crate::text::texts(names@) =~= Seq::new(
        suggestions@.len(),
        |i: int| lowercase_text(suggestions@[i].0@),
    ));
    select_matching(&names, lower.as_str())
}

} // verus!
