//! The chain of messages behind a reply: each message answers the one
//! before it, back to the response of the command that started it all.

use vstd::prelude::*;
use crate::context::OptionValue;
use crate::decimal::{decimal, digits};
use crate::text::{clone_texts, texts};

verus! {

/// A message in a conversation chain.
#[derive(Debug, Clone, PartialEq, Eq)]
pub struct ChainMessage {
    pub id: u64,
    pub content: String,
    pub author_id: u64,
    pub author_name: String,
    /// Whether the bot wrote the message.
    pub is_bot: bool,
    pub channel_id: u64,
    /// The guild of the message; none for direct messages.
    pub guild_id: Option<u64>,
    /// The URLs of the attachments.
    pub attachments: Vec<String>,
}

/// A chain message as a script sees it: ids are decimal strings.
#[derive(Debug, Clone, PartialEq, Eq)]
pub struct LuaChainMessage {
    pub id: String,
    pub content: String,
    pub author_id: String,
    pub author_name: String,
    pub is_bot: bool,
    pub channel_id: String,
    pub guild_id: Option<String>,
    pub attachments: Vec<String>,
}

/// `shown` is `message` with its ids written in decimal.
pub open spec fn shows(shown: LuaChainMessage, message: ChainMessage) -> bool {
    &&& shown.id@ == digits(message.id as nat)
    &&& shown.content@ == message.content@
    &&& shown.author_id@ == digits(message.author_id as nat)
    &&& shown.author_name@ == message.author_name@
    &&& shown.is_bot == message.is_bot
    &&& shown.channel_id@ == digits(message.channel_id as nat)
    &&& match (shown.guild_id, message.guild_id) {
        (Some(text), Some(id)) => text@ == digits(id as nat),
        (None, None) => true,
        _ => false,
    }
    &&& texts(shown.attachments@) == texts(message.attachments@)
}

impl LuaChainMessage {
    /// The form of `message` that a script sees.
    pub fn from(message: &ChainMessage) -> (shown: Self)
        ensures
            shows(shown, *message),
    {
        LuaChainMessage {
            id: decimal(message.id),
            content: message.content.clone(),
            author_id: decimal(message.author_id),
            author_name: message.author_name.clone(),
            is_bot: message.is_bot,
            channel_id: decimal(message.channel_id),
            guild_id: match message.guild_id {
                Some(id) => Some(decimal(id)),
                None => None,
            },
            attachments: clone_texts(&message.attachments),
        }
    }
}

/// A reply chain with the command that started it.
#[derive(Debug, Clone, PartialEq, Eq)]
pub struct ReplyChain {
    pub command_name: String,
    /// The options of that command, by name.
    pub options: Vec<(String, OptionValue)>,
    /// The messages, oldest first.
    pub messages: Vec<ChainMessage>,
}

/// A reply chain as a script sees it.
#[derive(Debug, Clone, PartialEq, Eq)]
pub struct LuaReplyChain {
    pub command_name: String,
    pub options: Vec<(String, OptionValue)>,
    pub messages: Vec<LuaChainMessage>,
}

impl LuaReplyChain {
    /// The form of `chain` that a script sees: the same command and
    /// options, and every message with its ids in decimal.
    pub fn from(chain: ReplyChain) -> (shown: Self)
        ensures
            shown.command_name == chain.command_name,
            shown.options == chain.options,
            shown.messages.len() == chain.messages.len(),
            forall|i: int|
                0 <= i < chain.messages.len() ==> shows(
                    #[trigger] shown.messages[i],
                    chain.messages[i],
                ),
    {
        let mut messages: Vec<LuaChainMessage> = Vec::new();
        let mut i: usize = 0;
        while i < chain.messages.len()
            invariant
                i <= chain.messages.len(),
                messages.len() == i,
                forall|j: int| 0 <= j < i ==> shows(#[trigger] messages[j], chain.messages[j]),
            decreases chain.messages.len() - i,
        {
            messages.push(LuaChainMessage::from(&chain.messages[i]));
            i += 1;
        }
        LuaReplyChain { command_name: chain.command_name, options: chain.options, messages }
    }
}

/// The walk up a chain of replies: from a message to the message it
/// answers, and so on, for a bounded number of steps.
pub struct ChainWalk {
    found: Vec<ChainMessage>,
    wanted: Option<u64>,
    steps_left: usize,
}

/// The mathematical content of a [`ChainWalk`].
pub struct WalkView {
    /// The messages found so far, newest first.
    pub found: Seq<ChainMessage>,
    /// The id of the message to look up next, if the walk goes on.
    pub wanted: Option<u64>,
    /// How many more messages may be looked up.
    pub steps_left: nat,
}

impl View for ChainWalk {
    type V = WalkView;

    closed spec fn view(&self) -> WalkView {
        WalkView { found: self.found@, wanted: self.wanted, steps_left: self.steps_left as nat }
    }
}

/// The message to look up after one that refers to `reference`, when
/// `steps_left` more may be looked up.
pub open spec fn next_wanted(reference: Option<u64>, steps_left: nat) -> Option<u64> {
    if steps_left > 0 {
        reference
    } else {
        None
    }
}

impl ChainWalk {
    /// Starts a walk at `first`, which answers the message `reference`, if
    /// any. At most `max_depth` further messages are looked up.
    pub fn new(first: ChainMessage, reference: Option<u64>, max_depth: usize) -> (walk: Self)
        ensures
            walk@.found == seq![first],
            walk@.steps_left == max_depth,
            walk@.wanted == next_wanted(reference, max_depth as nat),
    {
        let mut found: Vec<ChainMessage> = Vec::new();
        found.push(first);
        let wanted = if max_depth > 0 {
            reference
        } else {
            None
        };
        ChainWalk { found, wanted, steps_left: max_depth }
    }

    /// The id of the message to look up next; `None` when the walk is over.
    pub fn wanted(&self) -> (id: Option<u64>)
        ensures
            id == self@.wanted,
    {
        self.wanted
    }

    /// Takes the message that was looked up, which in turn answers the
    /// message `reference`, if any. Without a message wanted, nothing
    /// changes.
    pub fn resolved(&mut self, message: ChainMessage, reference: Option<u64>)
        ensures
            final(self)@ == (if old(self)@.wanted is Some && old(self)@.steps_left > 0 {
                WalkView {
                    found: old(self)@.found.push(message),
                    wanted: next_wanted(reference, (old(self)@.steps_left - 1) as nat),
                    steps_left: (old(self)@.steps_left - 1) as nat,
                }
            } else {
                old(self)@
            }),
    {
        if self.wanted.is_none() || self.steps_left == 0 {
            return ;
        }
        self.found.push(message);
        self.steps_left = self.steps_left - 1;
        self.wanted = if self.steps_left > 0 {
            reference
        } else {
            None
        };
    }

    /// Records that the wanted message cannot be had: the walk ends here.
    pub fn unavailable(&mut self)
        ensures
            final(self)@ == (WalkView { wanted: None, ..old(self)@ }),
    {
        self.wanted = None;
    }

    /// The chain that the walk has found, oldest message first.
    pub fn finish(self) -> (chain: Vec<ChainMessage>)
        ensures
            chain@ == self@.found.reverse(),
    {
        let mut found = self.found;
        let ghost all = found@;
        let mut chain: Vec<ChainMessage> = Vec::new();
        while found.len() > 0
            invariant
                chain.len() + found.len() == all.len(),
                found@ == all.take(found.len() as int),
                forall|j: int| 0 <= j < chain.len() ==> chain@[j] == all[all.len() - 1 - j],
            decreases found.len(),
        {
            match found.pop() {
                Some(message) => {
                    assert(message == all[found.len() as int]);
                    chain.push(message);
                    assert(found@ =~= all.take(found.len() as int));
                },
                None => {},
            }
        }
        assert(chain@ =~= all.reverse());
        chain
    }
}

/// A walk never finds more messages than its depth allows.
pub proof fn lemma_walk_is_bounded(walk: WalkView, message: ChainMessage, reference: Option<u64>)
    ensures
        ({
            let after = if walk.wanted is Some && walk.steps_left > 0 {
                WalkView {
                    found: walk.found.push(message),
                    wanted: next_wanted(reference, (walk.steps_left - 1) as nat),
                    steps_left: (walk.steps_left - 1) as nat,
                }
            } else {
                walk
            };
            after.found.len() + after.steps_left == walk.found.len() + walk.steps_left
        }),
{
}

} // verus!
