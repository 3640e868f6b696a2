//! The rules for chat messages that a script hands to a language model:
//! which roles and which kinds of content part exist, and how an image
//! travels inside a message.

use vstd::prelude::*;
use vstd::string::StringExecFns;
use crate::text::same_text;

verus! {

/// Who speaks in a chat message.
#[derive(Debug, Clone, Copy, PartialEq, Eq)]
pub enum Role {
    System,
    User,
    Assistant,
}

/// The kind of one part of a message with several parts.
#[derive(Debug, Clone, Copy, PartialEq, Eq)]
pub enum PartKind {
    Text,
    Image,
}

/// The role with this name.
pub open spec fn role_named(name: Seq<char>) -> Option<Role> {
    if name == "system"@ {
        Some(Role::System)
    } else if name == "user"@ {
        Some(Role::User)
    } else if name == "assistant"@ {
        Some(Role::Assistant)
    } else {
        None
    }
}

/// The part kind with this name.
pub open spec fn part_kind_named(name: Seq<char>) -> Option<PartKind> {
    if name == "text"@ {
        Some(PartKind::Text)
    } else if name == "image"@ {
        Some(PartKind::Image)
    } else {
        None
    }
}

/// Reads a role name: `system`, `user` or `assistant`.
pub fn parse_role(name: &str) -> (role: Option<Role>)
    ensures
        role == role_named(name@),
{
    if same_text(name, "system") {
        Some(Role::System)
    } else if same_text(name, "user") {
        Some(Role::User)
    } else if same_text(name, "assistant") {
        Some(Role::Assistant)
    } else {
        None
    }
}

/// Reads the kind of a content part: `text` or `image`.
pub fn parse_part_kind(name: &str) -> (kind: Option<PartKind>)
    ensures
        kind == part_kind_named(name@),
{
    if same_text(name, "text") {
        Some(PartKind::Text)
    } else if same_text(name, "image") {
        Some(PartKind::Image)
    } else {
        None
    }
}

/// Whether a message of this role may consist of several parts. Only what
/// the user says may.
pub fn takes_parts(role: Role) -> (allowed: bool)
    ensures
        allowed == (role is User),
{
    matches!(role, Role::User)
}

/// The seed of a request: the one given, or zero.
pub fn seed_or_default(seed: Option<u32>) -> (value: u32)
    ensures
        value == (match seed {
            Some(seed) => seed,
            None => 0,
        }),
{
    match seed {
        Some(seed) => seed,
        None => 0,
    }
}

/// The complaint about a role that does not exist.
pub fn unknown_role(name: &str) -> (text: String)
    ensures
        text@ == "unknown role `"@ + name@ + "`"@,
{
    let mut text = String::from_str("unknown role `");
    text.append(name);
    text.append("`");
    text
}

/// The complaint about a part kind that does not exist.
pub fn unknown_part_type(name: &str) -> (text: String)
    ensures
        text@ == "unknown part type `"@ + name@ + "`"@,
{
    let mut text = String::from_str("unknown part type `");
    text.append(name);
    text.append("`");
    text
}

/// The standard Base64 encoding, with padding, of a sequence of bytes.
pub uninterp spec fn base64_text(data: Seq<u8>) -> Seq<char>;

/// The longest input that the encoder takes.
pub open spec fn base64_input_limit() -> nat {
    (usize::MAX / 512) as nat
}

/// `data_encoding::BASE64.encode`: the Base64 text of `data`. The encoder
/// refuses inputs longer than a 512th of the address space.
#[verifier::external_body]
fn base64(data: &[u8]) -> (text: String)
    requires
        data@.len() <= base64_input_limit(),
    ensures
        text@ == base64_text(data@),
{
    data_encoding::BASE64.encode(data)
}

/// What introduces the data of an inline PNG image in a URL.
pub open spec fn png_data_prefix() -> Seq<char> {
    "data:image/png;base64,"@
}

/// Wraps Base64 text into the `data:` URL of a PNG image.
pub fn png_data_url(encoded: &str) -> (url: String)
    ensures
        url@ == png_data_prefix() + encoded@,
{
    let mut url = String::from_str("data:image/png;base64,");
    url.append(encoded);
    url
}

/// The `data:` URL that carries the PNG image `data` inside a message, or
/// `None` when the image is too long for the encoder.
pub fn image_data_url(data: &[u8]) -> (url: Option<String>)
    ensures
        match url {
            Some(url) => data@.len() <= base64_input_limit() && url@ == png_data_prefix()
                + base64_text(data@),
            None => data@.len() > base64_input_limit(),
        },
{
    if data.len() > usize::MAX / 512 {
        return None;
    }
    let encoded = base64(data);
    Some(png_data_url(encoded.as_str()))
}

} // verus!
