//! The vocabulary shared with the chat transport: the messages a session has
//! posted, the calls it asks for, and the replies it takes back.

use vstd::prelude::*;
use crate::output::{Attachment, AttachmentView, attachment_views};

verus! {

/// One chat message that belongs to a session.
#[derive(Debug, Clone, PartialEq, Eq)]
pub struct PostedMessage {
    pub id: u64,
    /// The text the message currently shows.
    pub content: String,
    /// Whether the message currently carries the cancel button.
    pub has_button: bool,
}

/// The mathematical content of a [`PostedMessage`].
pub struct MessageView {
    pub id: u64,
    pub content: Seq<char>,
    pub has_button: bool,
}

impl View for PostedMessage {
    type V = MessageView;

    open spec fn view(&self) -> MessageView {
        MessageView { id: self.id, content: self.content@, has_button: self.has_button }
    }
}

/// The contents of every message in `items`, in order.
pub open spec fn message_views(items: Seq<PostedMessage>) -> Seq<MessageView> {
    Seq::new(items.len(), |i: int| items[i]@)
}

/// What an edit does to the components of a message.
#[derive(Debug, Clone, Copy, PartialEq, Eq)]
pub enum Components {
    /// Leave them as they are.
    Keep,
    /// Remove them all.
    Clear,
    /// Install the cancel button of the session with this anchor and owner.
    CancelButton { anchor: u64, owner: u64 },
}

/// One request to the chat transport.
#[derive(Debug, Clone, PartialEq, Eq)]
#[allow(inconsistent_fields)]
pub enum TransportCall {
    /// Change a message: its text if one is given, its components, and any
    /// files to add.
    Edit { id: u64, content: Option<String>, components: Components, files: Vec<Attachment> },
    /// Remove a message.
    Delete { id: u64 },
    /// Post a threaded reply to a message, with mention pings suppressed.
    Reply { to: u64, content: String },
}

/// The mathematical content of a [`TransportCall`].
#[allow(inconsistent_fields)]
pub enum CallView {
    Edit {
        id: u64,
        content: Option<Seq<char>>,
        components: Components,
        files: Seq<AttachmentView>,
    },
    Delete { id: u64 },
    Reply { to: u64, content: Seq<char> },
}

impl View for TransportCall {
    type V = CallView;

    open spec fn view(&self) -> CallView {
        match *self {
            TransportCall::Edit { id, content, components, files } => CallView::Edit {
                id,
                content: match content {
                    Some(text) => Some(text@),
                    None => None,
                },
                components,
                files: attachment_views(files@),
            },
            TransportCall::Delete { id } => CallView::Delete { id },
            TransportCall::Reply { to, content } => CallView::Reply { to, content: content@ },
        }
    }
}

/// What the transport answered to a call.
#[derive(Debug, Clone, Copy, PartialEq, Eq)]
pub enum TransportReply {
    /// An edit or a removal went through.
    Done,
    /// A reply was posted and has this id.
    Created(u64),
    /// The call failed.
    Failed,
}

} // verus!
