//! The message synchroniser: it owns the chat messages of one session and
//! brings them in line with a list of chunks, one transport call at a time.
//!
//! The synchroniser never talks to the transport itself. It names the next
//! call ([`MessageSync::next_call`]), the caller performs it and hands the
//! answer back ([`MessageSync::complete`]). Calls are strictly sequential.
//!
//! A plain synchronisation runs through the stages edit, delete, create and
//! button. Finishing strips the cancel button first, synchronises once more
//! and then delivers the pending files. Failing strikes every message
//! through and posts one notice.

use vstd::prelude::*;
use vstd::string::StringExecFns;
use crate::output::{Attachment, AttachmentView, attachment_views};
use crate::text::texts;
use crate::transport::{
    CallView, Components, MessageView, PostedMessage, TransportCall, TransportReply,
    message_views,
};

verus! {

/// Where a synchroniser stands in its current piece of work.
#[derive(Debug, Clone, Copy, PartialEq, Eq)]
pub enum Stage {
    /// Nothing is in progress.
    Idle,
    /// Finishing: the cancel button is being removed.
    Strip,
    /// Messages before this index already show their chunk.
    Edit(usize),
    /// Messages beyond the last chunk are being removed.
    Delete,
    /// Chunks beyond the last message are being posted as replies.
    Create,
    /// The cancel button is being put on the last message.
    Button,
    /// Finishing: the pending files are being delivered.
    Attach,
    /// Failing: messages before this index are already struck through.
    Strike(usize),
    /// Failing: the notice is being posted.
    Notice,
}

/// The mathematical content of a [`MessageSync`].
pub struct SyncView {
    pub messages: Seq<MessageView>,
    /// The chunks the messages are being brought in line with.
    pub chunks: Seq<Seq<char>>,
    /// The user who may cancel.
    pub owner: u64,
    /// No button may be shown any more.
    pub terminal: bool,
    /// A transport call has failed; nothing further is attempted.
    pub failed: bool,
    pub stage: Stage,
    /// The text posted at the end of the failure path.
    pub notice: Seq<char>,
    /// Files waiting for delivery.
    pub files: Seq<AttachmentView>,
}

/// `content` marked as no longer valid.
pub open spec fn struck(content: Seq<char>) -> Seq<char> {
    "~~"@ + content + "~~"@
}

/// An edit of one message that adds no files.
pub open spec fn plain_edit(id: u64, content: Option<Seq<char>>, components: Components) -> CallView {
    CallView::Edit { id, content, components, files: Seq::<AttachmentView>::empty() }
}

impl SyncView {
    /// No message carries the cancel button.
    pub open spec fn buttonless(self) -> bool {
        forall|i: int| 0 <= i < self.messages.len() ==> !(#[trigger] self.messages[i]).has_button
    }

    /// The cancel button is on at most one message, and then on the last; it
    /// is on none once the session is terminal; and no message carries it
    /// while a reply is about to be appended.
    pub open spec fn wf(self) -> bool {
        &&& forall|i: int|
            0 <= i < self.messages.len() && (#[trigger] self.messages[i]).has_button ==> i
                == self.messages.len() - 1
        &&& self.terminal ==> self.buttonless()
        &&& match self.stage {
            Stage::Edit(next) => self.messages.len() < self.chunks.len() && next
                >= self.messages.len() ==> self.buttonless(),
            Stage::Delete | Stage::Create => self.messages.len() < self.chunks.len()
                ==> self.buttonless(),
            Stage::Strike(next) => forall|i: int|
                0 <= i < self.messages.len() && i < next ==> !(
                #[trigger] self.messages[i]).has_button,
            Stage::Notice => self.terminal,
            _ => true,
        }
    }

    /// Every message shows its chunk, and there is one message per chunk.
    pub open spec fn in_step(self) -> bool {
        &&& self.messages.len() == self.chunks.len()
        &&& forall|i: int|
            0 <= i < self.messages.len() ==> (#[trigger] self.messages[i]).content
                == self.chunks[i]
    }

    /// The session still begins with its anchor: the first message has the
    /// id `anchor`, and while messages may still be removed there is a chunk
    /// for it to show.
    pub open spec fn anchored(self, anchor: u64) -> bool {
        &&& self.messages.len() > 0
        &&& self.messages[0].id == anchor
        &&& self.stage is Strip || self.stage is Edit || self.stage is Delete ==> self.chunks.len()
            > 0
    }

    /// New work may begin: nothing is in progress and the session has neither
    /// ended nor lost its transport.
    pub open spec fn ready(self) -> bool {
        self.stage is Idle && !self.terminal && !self.failed
    }

    /// The transport call that is due now, if any.
    pub open spec fn current_call(self) -> Option<CallView> {
        let count = self.messages.len();
        match self.stage {
            Stage::Idle => None,
            Stage::Strip => if count > 0 && self.messages.last().has_button {
                Some(plain_edit(self.messages.last().id, None, Components::Clear))
            } else {
                None
            },
            Stage::Edit(next) => if next < count && next < self.chunks.len() {
                let message = self.messages[next as int];
                Some(
                    plain_edit(
                        message.id,
                        Some(self.chunks[next as int]),
                        if message.has_button && next + 1 != self.chunks.len() {
                            Components::Clear
                        } else {
                            Components::Keep
                        },
                    ),
                )
            } else {
                None
            },
            Stage::Delete => if self.chunks.len() < count {
                Some(CallView::Delete { id: self.messages[self.chunks.len() as int].id })
            } else {
                None
            },
            Stage::Create => if 0 < count < self.chunks.len() {
                Some(
                    CallView::Reply {
                        to: self.messages.last().id,
                        content: self.chunks[count as int],
                    },
                )
            } else {
                None
            },
            Stage::Button => if !self.terminal && count > 0 && !self.messages.last().has_button {
                Some(
                    plain_edit(
                        self.messages.last().id,
                        None,
                        Components::CancelButton { anchor: self.messages[0].id, owner: self.owner },
                    ),
                )
            } else {
                None
            },
            Stage::Attach => if self.terminal && self.files.len() > 0 && count > 0 {
                Some(
                    CallView::Edit {
                        id: self.messages.last().id,
                        content: None,
                        components: Components::Keep,
                        files: self.files,
                    },
                )
            } else {
                None
            },
            Stage::Strike(next) => if next < count {
                let message = self.messages[next as int];
                Some(plain_edit(message.id, Some(struck(message.content)), Components::Clear))
            } else {
                None
            },
            Stage::Notice => if count > 0 {
                Some(CallView::Reply { to: self.messages.last().id, content: self.notice })
            } else {
                None
            },
        }
    }

    /// The stage that follows once a stage has no call left. Leaving the
    /// strip and strike stages makes the session terminal.
    pub open spec fn advance(self) -> SyncView {
        match self.stage {
            Stage::Idle => self,
            Stage::Strip => SyncView { stage: Stage::Edit(0), terminal: true, ..self },
            Stage::Edit(_) => SyncView { stage: Stage::Delete, ..self },
            Stage::Delete => SyncView { stage: Stage::Create, ..self },
            Stage::Create => SyncView { stage: Stage::Button, ..self },
            Stage::Button => SyncView { stage: Stage::Attach, ..self },
            Stage::Attach => SyncView { stage: Stage::Idle, ..self },
            Stage::Strike(_) => SyncView { stage: Stage::Notice, terminal: true, ..self },
            Stage::Notice => SyncView { stage: Stage::Idle, ..self },
        }
    }

    /// How many stages lie ahead at most.
    pub open spec fn rank(self) -> nat {
        match self.stage {
            Stage::Idle => 0,
            Stage::Notice => 1,
            Stage::Strike(_) => 2,
            Stage::Attach => 1,
            Stage::Button => 2,
            Stage::Create => 3,
            Stage::Delete => 4,
            Stage::Edit(_) => 5,
            Stage::Strip => 6,
        }
    }

    /// Skips the stages that have nothing to do: the result is idle or has a
    /// call due.
    pub open spec fn settle(self) -> SyncView
        decreases self.rank(),
    {
        if self.stage is Idle || self.current_call() is Some {
            self
        } else {
            self.advance().settle()
        }
    }

    /// The state after a transport failure: nothing further is attempted.
    pub open spec fn broken(self) -> SyncView {
        SyncView { failed: true, stage: Stage::Idle, ..self }
    }

    /// `reply` is an answer the call that is due can have: an id for a
    /// reply, a plain confirmation for an edit or a removal.
    pub open spec fn fits(self, reply: TransportReply) -> bool {
        match reply {
            TransportReply::Done => !(self.current_call() is Some && self.current_call()->0 is Reply),
            TransportReply::Created(_) => self.current_call() is Some && self.current_call()->0 is Reply,
            TransportReply::Failed => false,
        }
    }

    /// What the call that is due changes once it has gone through; `id` is
    /// the id of the message a reply created.
    pub open spec fn effect(self, id: u64) -> SyncView {
        let last = self.messages.len() - 1;
        match self.stage {
            Stage::Idle => self,
            Stage::Strip | Stage::Button => SyncView {
                messages: self.messages.update(
                    last,
                    MessageView { has_button: self.stage is Button, ..self.messages.last() },
                ),
                ..self
            },
            Stage::Edit(next) => {
                let message = self.messages[next as int];
                SyncView {
                    messages: self.messages.update(
                        next as int,
                        MessageView {
                            id: message.id,
                            content: self.chunks[next as int],
                            has_button: message.has_button && next + 1 == self.chunks.len(),
                        },
                    ),
                    stage: Stage::Edit((next + 1) as usize),
                    ..self
                }
            },
            Stage::Delete => SyncView {
                messages: self.messages.remove(self.chunks.len() as int),
                ..self
            },
            Stage::Create => SyncView {
                messages: self.messages.push(
                    MessageView {
                        id,
                        content: self.chunks[self.messages.len() as int],
                        has_button: false,
                    },
                ),
                ..self
            },
            Stage::Attach => SyncView { files: Seq::<AttachmentView>::empty(), ..self },
            Stage::Strike(next) => {
                let message = self.messages[next as int];
                SyncView {
                    messages: self.messages.update(
                        next as int,
                        MessageView {
                            id: message.id,
                            content: struck(message.content),
                            has_button: false,
                        },
                    ),
                    stage: Stage::Strike((next + 1) as usize),
                    ..self
                }
            },
            Stage::Notice => SyncView {
                messages: self.messages.push(
                    MessageView { id, content: self.notice, has_button: false },
                ),
                stage: Stage::Idle,
                ..self
            },
        }
    }

    /// The state after the transport has answered the call that is due. An
    /// answer without a call is ignored; a failure, or an answer of the wrong
    /// kind, breaks the session.
    pub open spec fn completed(self, reply: TransportReply) -> SyncView {
        if self.current_call() is None {
            self
        } else if !self.fits(reply) {
            self.broken()
        } else {
            self.effect(
                match reply {
                    TransportReply::Created(id) => id,
                    _ => 0,
                },
            ).settle()
        }
    }

    /// Starts bringing the messages in line with `chunks`. Nothing happens
    /// unless the synchroniser is ready.
    pub open spec fn sync_begun(self, chunks: Seq<Seq<char>>) -> SyncView {
        if self.ready() {
            SyncView { chunks, stage: Stage::Edit(0), ..self }.settle()
        } else {
            self
        }
    }

    /// Starts the finish path with the final `chunks`. Nothing happens
    /// unless the synchroniser is ready.
    pub open spec fn finish_begun(self, chunks: Seq<Seq<char>>) -> SyncView {
        if self.ready() {
            SyncView { chunks, stage: Stage::Strip, ..self }.settle()
        } else {
            self
        }
    }

    /// Starts the failure path, which ends by posting `notice`. Nothing
    /// happens unless the synchroniser is ready.
    pub open spec fn failure_begun(self, notice: Seq<char>) -> SyncView {
        if self.ready() {
            SyncView { notice, stage: Stage::Strike(0), ..self }.settle()
        } else {
            self
        }
    }
}

/// The synchroniser of one session.
pub struct MessageSync {
    messages: Vec<PostedMessage>,
    chunks: Vec<String>,
    owner: u64,
    terminal: bool,
    failed: bool,
    stage: Stage,
    notice: String,
    files: Vec<Attachment>,
}

impl View for MessageSync {
    type V = SyncView;

    closed spec fn view(&self) -> SyncView {
        SyncView {
            messages: message_views(self.messages@),
            chunks: texts(self.chunks@),
            owner: self.owner,
            terminal: self.terminal,
            failed: self.failed,
            stage: self.stage,
            notice: self.notice@,
            files: attachment_views(self.files@),
        }
    }
}

fn clone_files(files: &Vec<Attachment>) -> (copy: Vec<Attachment>)
    ensures
        attachment_views(copy@) == attachment_views(files@),
{
    let mut copy: Vec<Attachment> = Vec::new();
    let mut i: usize = 0;
    while i < files.len()
        invariant
            i <= files.len(),
            copy.len() == i,
            forall|j: int| 0 <= j < i ==> copy@[j]@ == files@[j]@,
        decreases files.len() - i,
    {
        copy.push(files[i].clone());
        i += 1;
    }
    assert(attachment_views(copy@) =~= attachment_views(files@));
    copy
}

fn edit_call(id: u64, content: Option<String>, components: Components) -> (call: TransportCall)
    ensures
        call@ == plain_edit(
            id,
            match content {
                Some(text) => Some(text@),
                None => None,
            },
            components,
        ),
{
    let files: Vec<Attachment> = Vec::new();
    assert(attachment_views(files@) =~= Seq::<AttachmentView>::empty());
    TransportCall::Edit { id, content, components, files }
}

fn strike(content: &String) -> (text: String)
    ensures
        text@ == struck(content@),
{
    let mut text = String::from_str("~~");
    text.append(content.as_str());
    text.append("~~");
    text
}

impl MessageSync {
    /// A synchroniser for a session whose first message, the anchor, has
    /// just been posted with `content`.
    pub fn new(anchor: u64, content: String, owner: u64) -> (sync: Self)
        ensures
            sync@ == (SyncView {
                messages: seq![MessageView { id: anchor, content: content@, has_button: false }],
                chunks: Seq::<Seq<char>>::empty(),
                owner,
                terminal: false,
                failed: false,
                stage: Stage::Idle,
                notice: Seq::<char>::empty(),
                files: Seq::<AttachmentView>::empty(),
            }),
            sync@.wf(),
    {
        let mut messages: Vec<PostedMessage> = Vec::new();
        messages.push(PostedMessage { id: anchor, content, has_button: false });
        let sync = MessageSync {
            messages,
            chunks: Vec::new(),
            owner,
            terminal: false,
            failed: false,
            stage: Stage::Idle,
            notice: String::new(),
            files: Vec::new(),
        };
        assert(sync@.messages =~= seq![
            MessageView { id: anchor, content: content@, has_button: false },
        ]);
        assert(sync@.chunks =~= Seq::<Seq<char>>::empty());
        assert(sync@.files =~= Seq::<AttachmentView>::empty());
        sync
    }

    /// The messages of the session, first to last.
    pub fn messages(&self) -> (messages: &Vec<PostedMessage>)
        ensures
            message_views(messages@) == self@.messages,
    {
        &self.messages
    }

    /// Whether nothing is in progress.
    pub fn is_idle(&self) -> (idle: bool)
        ensures
            idle == (self@.stage is Idle),
    {
        matches!(self.stage, Stage::Idle)
    }

    /// Whether the session has ended.
    pub fn is_terminal(&self) -> (terminal: bool)
        ensures
            terminal == self@.terminal,
    {
        self.terminal
    }

    /// Whether a transport call has failed.
    pub fn has_failed(&self) -> (failed: bool)
        ensures
            failed == self@.failed,
    {
        self.failed
    }

    /// The number of files that wait for delivery.
    pub fn pending_files(&self) -> (count: usize)
        ensures
            count == self@.files.len(),
    {
        self.files.len()
    }

    /// Holds `file` back until the session finishes.
    pub fn add_file(&mut self, file: Attachment)
        ensures
            final(self)@ == (SyncView { files: old(self)@.files.push(file@), ..old(self)@ }),
            old(self)@.wf() ==> final(self)@.wf(),
    {
        self.files.push(file);
        assert(final(self)@.files =~= old(self)@.files.push(file@));
    }

    fn has_call(&self) -> (due: bool)
        ensures
            due == (self@.current_call() is Some),
    {
        let count: usize = self.messages.len();
        match self.stage {
            Stage::Idle => false,
            Stage::Strip => count > 0 && self.messages[count - 1].has_button,
            Stage::Edit(next) => next < count && next < self.chunks.len(),
            Stage::Delete => self.chunks.len() < count,
            Stage::Create => 0 < count && count < self.chunks.len(),
            Stage::Button => !self.terminal && count > 0 && !self.messages[count - 1].has_button,
            Stage::Attach => self.terminal && self.files.len() > 0 && count > 0,
            Stage::Strike(next) => next < count,
            Stage::Notice => count > 0,
        }
    }

    fn expects_id(&self) -> (expects: bool)
        ensures
            expects == (self@.current_call() is Some && self@.current_call()->0 is Reply),
    {
        let count: usize = self.messages.len();
        match self.stage {
            Stage::Create => 0 < count && count < self.chunks.len(),
            Stage::Notice => count > 0,
            _ => false,
        }
    }

    fn step_stage(&mut self)
        ensures
            final(self)@ == old(self)@.advance(),
    {
        match self.stage {
            Stage::Idle => {},
            Stage::Strip => {
                self.stage = Stage::Edit(0);
                self.terminal = true;
            },
            Stage::Edit(_) => {
                self.stage = Stage::Delete;
            },
            Stage::Delete => {
                self.stage = Stage::Create;
            },
            Stage::Create => {
                self.stage = Stage::Button;
            },
            Stage::Button => {
                self.stage = Stage::Attach;
            },
            Stage::Attach => {
                self.stage = Stage::Idle;
            },
            Stage::Strike(_) => {
                self.stage = Stage::Notice;
                self.terminal = true;
            },
            Stage::Notice => {
                self.stage = Stage::Idle;
            },
        }
    }

    fn skip_done_stages(&mut self)
        ensures
            final(self)@ == old(self)@.settle(),
    {
        loop
            invariant
                self@.settle() == old(self)@.settle(),
            decreases self@.rank(),
        {
            if self.is_idle() || self.has_call() {
                return ;
            }
            self.step_stage();
        }
    }

    /// The transport call to perform now; `None` when nothing is due.
    pub fn next_call(&self) -> (call: Option<TransportCall>)
        ensures
            match call {
                Some(call) => self@.current_call() == Some(call@),
                None => self@.current_call() is None,
            },
    {
        if !self.has_call() {
            return None;
        }
        let count: usize = self.messages.len();
        match self.stage {
            Stage::Idle => None,
            Stage::Strip => Some(edit_call(self.messages[count - 1].id, None, Components::Clear)),
            Stage::Edit(next) => {
                let message = &self.messages[next];
                let components = if message.has_button && next + 1 != self.chunks.len() {
                    Components::Clear
                } else {
                    Components::Keep
                };
                Some(edit_call(message.id, Some(self.chunks[next].clone()), components))
            },
            Stage::Delete => Some(TransportCall::Delete { id: self.messages[self.chunks.len()].id }),
            Stage::Create => Some(
                TransportCall::Reply {
                    to: self.messages[count - 1].id,
                    content: self.chunks[count].clone(),
                },
            ),
            Stage::Button => Some(
                edit_call(
                    self.messages[count - 1].id,
                    None,
                    Components::CancelButton { anchor: self.messages[0].id, owner: self.owner },
                ),
            ),
            Stage::Attach => Some(
                TransportCall::Edit {
                    id: self.messages[count - 1].id,
                    content: None,
                    components: Components::Keep,
                    files: clone_files(&self.files),
                },
            ),
            Stage::Strike(next) => {
                let message = &self.messages[next];
                Some(edit_call(message.id, Some(strike(&message.content)), Components::Clear))
            },
            Stage::Notice => Some(
                TransportCall::Reply { to: self.messages[count - 1].id, content: self.notice.clone() },
            ),
        }
    }

    fn apply(&mut self, id: u64)
        requires
            old(self)@.current_call() is Some,
        ensures
            final(self)@ == old(self)@.effect(id),
    {
        let count: usize = self.messages.len();
        match self.stage {
            Stage::Idle => {},
            Stage::Strip => {
                let message = PostedMessage {
                    id: self.messages[count - 1].id,
                    content: self.messages[count - 1].content.clone(),
                    has_button: false,
                };
                self.messages.set(count - 1, message);
                assert(final(self)@.messages =~= old(self)@.effect(id).messages);
            },
            Stage::Button => {
                let message = PostedMessage {
                    id: self.messages[count - 1].id,
                    content: self.messages[count - 1].content.clone(),
                    has_button: true,
                };
                self.messages.set(count - 1, message);
                assert(final(self)@.messages =~= old(self)@.effect(id).messages);
            },
            Stage::Edit(next) => {
                let message = PostedMessage {
                    id: self.messages[next].id,
                    content: self.chunks[next].clone(),
                    has_button: self.messages[next].has_button && next + 1 == self.chunks.len(),
                };
                self.messages.set(next, message);
                self.stage = Stage::Edit(next + 1);
                assert(final(self)@.messages =~= old(self)@.effect(id).messages);
            },
            Stage::Delete => {
                let _ = self.messages.remove(self.chunks.len());
                assert(final(self)@.messages =~= old(self)@.effect(id).messages);
            },
            Stage::Create => {
                let message = PostedMessage {
                    id,
                    content: self.chunks[count].clone(),
                    has_button: false,
                };
                self.messages.push(message);
                assert(final(self)@.messages =~= old(self)@.effect(id).messages);
            },
            Stage::Attach => {
                self.files = Vec::new();
                assert(final(self)@.files =~= Seq::<AttachmentView>::empty());
            },
            Stage::Strike(next) => {
                let message = PostedMessage {
                    id: self.messages[next].id,
                    content: strike(&self.messages[next].content),
                    has_button: false,
                };
                self.messages.set(next, message);
                self.stage = Stage::Strike(next + 1);
                assert(final(self)@.messages =~= old(self)@.effect(id).messages);
            },
            Stage::Notice => {
                let message = PostedMessage { id, content: self.notice.clone(), has_button: false };
                self.messages.push(message);
                self.stage = Stage::Idle;
                assert(final(self)@.messages =~= old(self)@.effect(id).messages);
            },
        }
    }

    /// Takes the transport's answer to the call that was due and moves on to
    /// the next call, if there is one.
    pub fn complete(&mut self, reply: TransportReply)
        ensures
            final(self)@ == old(self)@.completed(reply),
            old(self)@.wf() ==> final(self)@.wf(),
    {
        proof {
            lemma_completed_keeps_wf(self@, reply);
        }
        if !self.has_call() {
            return ;
        }
        let expects = self.expects_id();
        match reply {
            TransportReply::Created(id) if expects => {
                self.apply(id);
                self.skip_done_stages();
            },
            TransportReply::Done if !expects => {
                self.apply(0);
                self.skip_done_stages();
            },
            _ => {
                self.failed = true;
                self.stage = Stage::Idle;
            },
        }
    }

    /// Starts bringing the messages in line with `chunks`: overlapping
    /// messages are edited, surplus messages removed, missing ones posted as
    /// replies, and the cancel button ends up on the last message. Does
    /// nothing unless the synchroniser is ready.
    pub fn begin_sync(&mut self, chunks: Vec<String>)
        ensures
            final(self)@ == old(self)@.sync_begun(texts(chunks@)),
            old(self)@.wf() ==> final(self)@.wf(),
    {
        proof {
            lemma_begun_keeps_wf(self@, texts(chunks@), self@.notice);
        }
        if !matches!(self.stage, Stage::Idle) || self.terminal || self.failed {
            return ;
        }
        self.chunks = chunks;
        self.stage = Stage::Edit(0);
        self.skip_done_stages();
    }

    /// Starts the finish path: the cancel button is removed, the messages
    /// are brought in line with the final `chunks`, and the pending files
    /// are delivered on the last message. Does nothing unless the
    /// synchroniser is ready.
    pub fn begin_finish(&mut self, chunks: Vec<String>)
        ensures
            final(self)@ == old(self)@.finish_begun(texts(chunks@)),
            old(self)@.wf() ==> final(self)@.wf(),
    {
        proof {
            lemma_begun_keeps_wf(self@, texts(chunks@), self@.notice);
        }
        if !matches!(self.stage, Stage::Idle) || self.terminal || self.failed {
            return ;
        }
        self.chunks = chunks;
        self.stage = Stage::Strip;
        self.skip_done_stages();
    }

    /// Starts the failure path: every message is struck through and loses
    /// its components, then `notice` is posted as one reply to the last
    /// message. Does nothing unless the synchroniser is ready.
    pub fn begin_failure(&mut self, notice: String)
        ensures
            final(self)@ == old(self)@.failure_begun(notice@),
            old(self)@.wf() ==> final(self)@.wf(),
    {
        proof {
            lemma_begun_keeps_wf(self@, self@.chunks, notice@);
        }
        if !matches!(self.stage, Stage::Idle) || self.terminal || self.failed {
            return ;
        }
        self.notice = notice;
        self.stage = Stage::Strike(0);
        self.skip_done_stages();
    }
}

/// Skipping finished stages keeps a well-formed state well-formed.
pub proof fn lemma_settle_keeps_wf(v: SyncView)
    requires
        v.wf(),
    ensures
        v.settle().wf(),
        v.settle().stage is Idle || v.settle().current_call() is Some,
    decreases v.rank(),
{
    if !(v.stage is Idle || v.current_call() is Some) {
        lemma_settle_keeps_wf(v.advance());
    }
}

/// Whatever the transport answers, a well-formed state stays well-formed:
/// the cancel button never appears on a second message, never on one that
/// is not the last, and never once the session is terminal.
pub proof fn lemma_completed_keeps_wf(v: SyncView, reply: TransportReply)
    ensures
        v.wf() ==> v.completed(reply).wf(),
{
    if v.wf() && v.current_call() is Some && v.fits(reply) {
        let id = match reply {
            TransportReply::Created(id) => id,
            _ => 0,
        };
        let w = v.effect(id);
        match v.stage {
            Stage::Delete => {
                assert forall|i: int| 0 <= i < w.messages.len() && (
                #[trigger] w.messages[i]).has_button implies i == w.messages.len() - 1 by {
                    if i < v.chunks.len() {
                        assert(w.messages[i] == v.messages[i]);
                    } else {
                        assert(w.messages[i] == v.messages[i + 1]);
                    }
                }
                assert(v.terminal ==> w.buttonless()) by {
                    if v.terminal {
                        assert forall|i: int| 0 <= i < w.messages.len() implies !(
                        #[trigger] w.messages[i]).has_button by {
                            if i < v.chunks.len() {
                                assert(w.messages[i] == v.messages[i]);
                            } else {
                                assert(w.messages[i] == v.messages[i + 1]);
                            }
                        }
                    }
                }
            },
            _ => {},
        }
        assert(w.wf());
        lemma_settle_keeps_wf(w);
    }
}

/// Skipping finished stages keeps the anchor in its place.
pub proof fn lemma_settle_keeps_anchor(v: SyncView, anchor: u64)
    requires
        v.anchored(anchor),
    ensures
        v.settle().anchored(anchor),
    decreases v.rank(),
{
    if !(v.stage is Idle || v.current_call() is Some) {
        lemma_settle_keeps_anchor(v.advance(), anchor);
    }
}

/// Whatever the transport answers, the anchor stays the first message of
/// the session: it is never removed, and nothing is put before it.
pub proof fn lemma_completed_keeps_anchor(v: SyncView, reply: TransportReply, anchor: u64)
    ensures
        v.anchored(anchor) ==> v.completed(reply).anchored(anchor),
{
    if v.anchored(anchor) && v.current_call() is Some && v.fits(reply) {
        let id = match reply {
            TransportReply::Created(id) => id,
            _ => 0,
        };
        let w = v.effect(id);
        assert(w.messages[0].id == anchor);
        lemma_settle_keeps_anchor(w, anchor);
    }
}

/// Beginning a piece of work keeps the anchor in its place, provided there
/// is at least one chunk to show.
pub proof fn lemma_begun_keeps_anchor(
    v: SyncView,
    chunks: Seq<Seq<char>>,
    notice: Seq<char>,
    anchor: u64,
)
    requires
        v.anchored(anchor),
        chunks.len() > 0,
    ensures
        v.sync_begun(chunks).anchored(anchor),
        v.finish_begun(chunks).anchored(anchor),
        v.failure_begun(notice).anchored(anchor),
{
    if v.ready() {
        lemma_settle_keeps_anchor(SyncView { chunks, stage: Stage::Edit(0), ..v }, anchor);
        lemma_settle_keeps_anchor(SyncView { chunks, stage: Stage::Strip, ..v }, anchor);
        lemma_settle_keeps_anchor(SyncView { notice, stage: Stage::Strike(0), ..v }, anchor);
    }
}

/// Beginning a piece of work keeps a well-formed state well-formed.
pub proof fn lemma_begun_keeps_wf(v: SyncView, chunks: Seq<Seq<char>>, notice: Seq<char>)
    ensures
        v.wf() ==> v.sync_begun(chunks).wf(),
        v.wf() ==> v.finish_begun(chunks).wf(),
        v.wf() ==> v.failure_begun(notice).wf(),
{
    if v.wf() && v.ready() {
        lemma_settle_keeps_wf(SyncView { chunks, stage: Stage::Edit(0), ..v });
        lemma_settle_keeps_wf(SyncView { chunks, stage: Stage::Strip, ..v });
        lemma_settle_keeps_wf(SyncView { notice, stage: Stage::Strike(0), ..v });
    }
}

} // verus!
