//! The execution supervisor: the state of one script run between the events
//! of its script and the calls to the chat transport.
//!
//! The supervisor decides; it performs nothing. Its caller waits for the
//! script's event sources, hands each event over with the current time
//! ([`Supervisor::handle`]), then performs the transport calls that are due
//! one after the other ([`Supervisor::next_call`], [`Supervisor::complete`])
//! before it hands over the next event.
//!
//! A cancel event that names another anchor does not take the cancel path:
//! the supervisor stops consuming events and finishes with the output it
//! has, without a cancellation notice.

use vstd::prelude::*;
use vstd::string::StringExecFns;
use crate::chunker::{chunk_message, chunk_text};
use crate::output::{Attachment, AttachmentView, OutputState, OutputView, render_text};
use crate::sync::{MessageSync, Stage, SyncView};
use crate::text::texts;
use crate::transport::{MessageView, PostedMessage, TransportCall, TransportReply};

verus! {

/// The character budget of one chat message.
pub const MESSAGE_CHUNK_SIZE: usize = 1500;

/// The five event sources of a script run.
#[derive(Debug, Clone, Copy, PartialEq, Eq)]
pub enum Source {
    Cancellation,
    Output,
    Print,
    Attachment,
    Completion,
}

/// Which sources have an event waiting.
#[derive(Debug, Clone, Copy, PartialEq, Eq)]
pub struct Ready {
    pub cancellation: bool,
    pub output: bool,
    pub print: bool,
    pub attachment: bool,
    pub completion: bool,
}

/// The place of a source in the fixed order of precedence; lower comes first.
pub open spec fn precedence(source: Source) -> nat {
    match source {
        Source::Cancellation => 0,
        Source::Output => 1,
        Source::Print => 2,
        Source::Attachment => 3,
        Source::Completion => 4,
    }
}

/// Whether `source` has an event waiting according to `ready`.
pub open spec fn is_ready(ready: Ready, source: Source) -> bool {
    match source {
        Source::Cancellation => ready.cancellation,
        Source::Output => ready.output,
        Source::Print => ready.print,
        Source::Attachment => ready.attachment,
        Source::Completion => ready.completion,
    }
}

/// Picks the source to read next: of those that have an event waiting, the
/// one that comes first in the order cancellation, output, print,
/// attachment, completion. `None` when no source is ready.
pub fn select_source(ready: Ready) -> (choice: Option<Source>)
    ensures
        match choice {
            Some(source) => is_ready(ready, source) && forall|other: Source|
                is_ready(ready, other) ==> precedence(source) <= precedence(other),
            None => forall|other: Source| !is_ready(ready, other),
        },
{
    if ready.cancellation {
        Some(Source::Cancellation)
    } else if ready.output {
        Some(Source::Output)
    } else if ready.print {
        Some(Source::Print)
    } else if ready.attachment {
        Some(Source::Attachment)
    } else if ready.completion {
        Some(Source::Completion)
    } else {
        None
    }
}

/// What a session has come to.
#[derive(Debug, Clone, Copy, PartialEq, Eq)]
pub enum Status {
    Running,
    Finished,
    Errored,
    Cancelled,
}

/// One event of a script run.
#[derive(Debug, PartialEq, Eq)]
pub enum ScriptEvent {
    /// The cancel button of the session with this anchor was pressed.
    Cancel(u64),
    /// The script set its primary output.
    Output(String),
    /// The script printed a line.
    Print(String),
    /// The script attached a file.
    Attachment(Attachment),
    /// The script ended well, with or without a return value.
    Completed(Option<String>),
    /// The script ended with this error.
    Failed(String),
    /// The completion source ran dry without a further signal.
    Exhausted,
    /// The update interval has passed.
    Tick,
}

/// The mathematical content of a [`ScriptEvent`].
pub enum EventView {
    Cancel(u64),
    Output(Seq<char>),
    Print(Seq<char>),
    Attachment(AttachmentView),
    Completed(Option<Seq<char>>),
    Failed(Seq<char>),
    Exhausted,
    Tick,
}

impl View for ScriptEvent {
    type V = EventView;

    open spec fn view(&self) -> EventView {
        match *self {
            ScriptEvent::Cancel(anchor) => EventView::Cancel(anchor),
            ScriptEvent::Output(text) => EventView::Output(text@),
            ScriptEvent::Print(line) => EventView::Print(line@),
            ScriptEvent::Attachment(file) => EventView::Attachment(file@),
            ScriptEvent::Completed(value) => EventView::Completed(
                match value {
                    Some(text) => Some(text@),
                    None => None,
                },
            ),
            ScriptEvent::Failed(error) => EventView::Failed(error@),
            ScriptEvent::Exhausted => EventView::Exhausted,
            ScriptEvent::Tick => EventView::Tick,
        }
    }
}

/// The notice posted when a run is cancelled.
pub open spec fn cancel_notice() -> Seq<char> {
    "The generation was cancelled."@
}

/// The mathematical content of a [`Supervisor`].
pub struct SupervisorView {
    pub output: OutputView,
    pub sync: SyncView,
    /// The id of the first message of the session.
    pub anchor: u64,
    pub status: Status,
    /// When the last synchronisation was issued, in milliseconds.
    pub last_sync: u64,
    /// The least time between two synchronisations, in milliseconds.
    pub interval: u64,
    /// The output has changed since the last synchronisation.
    pub pending: bool,
}

impl SupervisorView {
    /// The session takes events: it is running and no transport call is due.
    pub open spec fn open(self) -> bool {
        self.status is Running && self.sync.ready()
    }

    /// The rate gate: more than the interval has passed since the last
    /// synchronisation was issued.
    pub open spec fn gate_open(self, now: u64) -> bool {
        now > self.last_sync && now - self.last_sync > self.interval
    }

    /// The chunks of the rendered output.
    pub open spec fn rendered_chunks(self) -> Seq<Seq<char>> {
        chunk_text(render_text(self.output), MESSAGE_CHUNK_SIZE as nat)
    }

    /// Issues a synchronisation of the rendered output if the rate gate is open
    /// at `now`; otherwise the change stays pending.
    pub open spec fn refreshed(self, now: u64) -> SupervisorView {
        if self.gate_open(now) {
            SupervisorView {
                sync: self.sync.sync_begun(self.rendered_chunks()),
                last_sync: now,
                pending: false,
                ..self
            }
        } else {
            SupervisorView { pending: true, ..self }
        }
    }

    /// Ends the run well: the final output is rendered and the finish path
    /// begins, whatever the rate gate says.
    pub open spec fn finished(self) -> SupervisorView {
        SupervisorView {
            status: Status::Finished,
            sync: self.sync.finish_begun(self.rendered_chunks()),
            pending: false,
            ..self
        }
    }

    /// Ends the run with `notice` on the failure path.
    pub open spec fn stopped(self, status: Status, notice: Seq<char>) -> SupervisorView {
        SupervisorView { status, sync: self.sync.failure_begun(notice), pending: false, ..self }
    }

    /// The state after `event` arrived at time `now`. A session that is not
    /// open ignores the event.
    pub open spec fn handled(self, event: EventView, now: u64) -> SupervisorView {
        if !self.open() {
            self
        } else {
            match event {
                EventView::Cancel(anchor) => if anchor == self.anchor {
                    self.stopped(Status::Cancelled, cancel_notice())
                } else {
                    self.finished()
                },
                EventView::Output(text) => SupervisorView {
                    output: OutputView { output: text, ..self.output },
                    ..self
                }.refreshed(now),
                EventView::Print(line) => SupervisorView {
                    output: OutputView { print_log: self.output.print_log.push(line), ..self.output },
                    ..self
                }.refreshed(now),
                EventView::Attachment(file) => SupervisorView {
                    sync: SyncView { files: self.sync.files.push(file), ..self.sync },
                    ..self
                },
                EventView::Completed(value) => SupervisorView {
                    output: OutputView {
                        output: crate::output::adopted_output(self.output.output, value),
                        ..self.output
                    },
                    ..self
                }.finished(),
                EventView::Failed(error) => self.stopped(Status::Errored, error),
                EventView::Exhausted => self.finished(),
                EventView::Tick => if self.pending {
                    self.refreshed(now)
                } else {
                    self
                },
            }
        }
    }

    /// The session's messages obey the single-button rule, the anchor is
    /// the first of them, and a running session is neither terminal nor on
    /// its way to be.
    pub open spec fn wf(self) -> bool {
        &&& self.sync.wf()
        &&& self.sync.anchored(self.anchor)
        &&& self.status is Running ==> !self.sync.terminal && !(self.sync.stage is Strip) && !(
        self.sync.stage is Strike)
    }
}

/// Where a run stands for its caller.
#[derive(Debug, Clone, Copy, PartialEq, Eq)]
pub enum RunState {
    /// Events are still taken, or transport calls are still due.
    Active,
    /// The run is over and rendered; the value is the anchor message id.
    Done(u64),
    /// A transport call failed; the session stays as it was at that moment.
    Broken,
}

/// The supervisor of one script run.
pub struct Supervisor {
    output: OutputState,
    sync: MessageSync,
    anchor: u64,
    status: Status,
    last_sync: u64,
    interval: u64,
    pending: bool,
}

impl View for Supervisor {
    type V = SupervisorView;

    closed spec fn view(&self) -> SupervisorView {
        SupervisorView {
            output: self.output@,
            sync: self.sync@,
            anchor: self.anchor,
            status: self.status,
            last_sync: self.last_sync,
            interval: self.interval,
            pending: self.pending,
        }
    }
}

impl Supervisor {
    /// A supervisor for a run whose first message, the anchor, has just been
    /// posted with the text `initial`. `owner` is the user who may cancel,
    /// `interval` the least time between two synchronisations and `now`
    /// the current time, both in milliseconds.
    pub fn new(anchor: u64, owner: u64, initial: String, interval: u64, now: u64) -> (supervisor:
        Self)
        ensures
            supervisor@.open(),
            supervisor@.wf(),
            supervisor@.anchor == anchor,
            supervisor@.sync.owner == owner,
            supervisor@.sync.messages == seq![
                MessageView { id: anchor, content: initial@, has_button: false },
            ],
            supervisor@.sync.files.len() == 0,
            supervisor@.output.output.len() == 0,
            supervisor@.output.print_log.len() == 0,
            supervisor@.last_sync == now,
            supervisor@.interval == interval,
            !supervisor@.pending,
    {
        Supervisor {
            output: OutputState::new(),
            sync: MessageSync::new(anchor, initial, owner),
            anchor,
            status: Status::Running,
            last_sync: now,
            interval,
            pending: false,
        }
    }

    /// The id of the anchor message.
    pub fn anchor(&self) -> (anchor: u64)
        ensures
            anchor == self@.anchor,
    {
        self.anchor
    }

    /// What the session has come to.
    pub fn status(&self) -> (status: Status)
        ensures
            status == self@.status,
    {
        self.status
    }

    /// The messages of the session, first to last.
    pub fn messages(&self) -> (messages: &Vec<PostedMessage>)
        ensures
            crate::transport::message_views(messages@) == self@.sync.messages,
    {
        self.sync.messages()
    }

    /// The text that the current output renders to.
    pub fn rendered(&self) -> (text: String)
        ensures
            text@ == render_text(self@.output),
    {
        self.output.render()
    }

    /// Whether the session takes events now.
    pub fn is_open(&self) -> (open: bool)
        ensures
            open == self@.open(),
    {
        matches!(self.status, Status::Running) && self.sync.is_idle() && !self.sync.is_terminal()
            && !self.sync.has_failed()
    }

    /// Where the run stands: broken after a transport failure, done once a
    /// terminal status is reached and no call is due, active otherwise.
    pub fn state(&self) -> (state: RunState)
        ensures
            state == (if self@.sync.failed {
                RunState::Broken
            } else if !(self@.status is Running) && self@.sync.stage is Idle {
                RunState::Done(self@.anchor)
            } else {
                RunState::Active
            }),
    {
        if self.sync.has_failed() {
            RunState::Broken
        } else if !matches!(self.status, Status::Running) && self.sync.is_idle() {
            RunState::Done(self.anchor)
        } else {
            RunState::Active
        }
    }

    fn chunks(&self) -> (chunks: Vec<String>)
        ensures
            texts(chunks@) == self@.rendered_chunks(),
    {
        let text = self.output.render();
        chunk_message(text.as_str(), MESSAGE_CHUNK_SIZE)
    }

    fn refresh(&mut self, now: u64)
        ensures
            final(self)@ == old(self)@.refreshed(now),
            old(self)@.wf() && old(self)@.open() ==> final(self)@.wf(),
    {
        proof {
            crate::chunker::lemma_chunk_text_nonempty(
                render_text(self@.output),
                MESSAGE_CHUNK_SIZE as nat,
            );
            if self@.open() {
                lemma_settle_stays_running(
                    SyncView { chunks: self@.rendered_chunks(), stage: Stage::Edit(0), ..self@.sync },
                );
            }
            if self@.wf() {
                crate::sync::lemma_begun_keeps_anchor(
                    self@.sync,
                    self@.rendered_chunks(),
                    self@.sync.notice,
                    self@.anchor,
                );
            }
        }
        if now > self.last_sync && now - self.last_sync > self.interval {
            let chunks = self.chunks();
            self.sync.begin_sync(chunks);
            self.last_sync = now;
            self.pending = false;
        } else {
            self.pending = true;
        }
    }

    fn finish(&mut self)
        ensures
            final(self)@ == old(self)@.finished(),
            old(self)@.wf() ==> final(self)@.wf(),
    {
        proof {
            crate::chunker::lemma_chunk_text_nonempty(
                render_text(self@.output),
                MESSAGE_CHUNK_SIZE as nat,
            );
            if self@.wf() {
                crate::sync::lemma_begun_keeps_anchor(
                    self@.sync,
                    self@.rendered_chunks(),
                    self@.sync.notice,
                    self@.anchor,
                );
            }
        }
        let chunks = self.chunks();
        self.status = Status::Finished;
        self.sync.begin_finish(chunks);
        self.pending = false;
    }

    fn stop(&mut self, status: Status, notice: String)
        requires
            !(status is Running),
        ensures
            final(self)@ == old(self)@.stopped(status, notice@),
            old(self)@.wf() ==> final(self)@.wf(),
    {
        proof {
            if self@.wf() {
                crate::sync::lemma_begun_keeps_anchor(
                    self@.sync,
                    seq![Seq::<char>::empty()],
                    notice@,
                    self@.anchor,
                );
            }
        }
        self.status = status;
        self.sync.begin_failure(notice);
        self.pending = false;
    }

    /// Takes one event of the script, observed at time `now` (milliseconds
    /// of a monotonic clock). Returns whether the event was taken: a session
    /// that has ended, has lost its transport or still has a call due leaves
    /// the event aside and stays as it is.
    ///
    /// Output and print events update the rendered text and synchronise if
    /// the rate gate is open, else leave the change pending for a later
    /// tick. An attachment is held back. Completion, exhaustion, failure
    /// and cancellation end the run, whatever the rate gate says.
    pub fn handle(&mut self, event: ScriptEvent, now: u64) -> (taken: bool)
        ensures
            taken == old(self)@.open(),
            final(self)@ == old(self)@.handled(event@, now),
            old(self)@.wf() ==> final(self)@.wf(),
    {
        if !self.is_open() {
            return false;
        }
        match event {
            ScriptEvent::Cancel(anchor) => {
                if anchor == self.anchor {
                    self.stop(Status::Cancelled, String::from_str("The generation was cancelled."));
                } else {
                    self.finish();
                }
            },
            ScriptEvent::Output(text) => {
                self.output.update_output(text);
                self.refresh(now);
            },
            ScriptEvent::Print(line) => {
                self.output.append_print(line);
                self.refresh(now);
            },
            ScriptEvent::Attachment(file) => {
                self.sync.add_file(file);
            },
            ScriptEvent::Completed(value) => {
                self.output.adopt_result(value);
                self.finish();
            },
            ScriptEvent::Failed(error) => {
                self.stop(Status::Errored, error);
            },
            ScriptEvent::Exhausted => {
                self.finish();
            },
            ScriptEvent::Tick => {
                if self.pending {
                    self.refresh(now);
                }
            },
        }
        true
    }

    /// The transport call to perform now; `None` when nothing is due.
    pub fn next_call(&self) -> (call: Option<TransportCall>)
        ensures
            match call {
                Some(call) => self@.sync.current_call() == Some(call@),
                None => self@.sync.current_call() is None,
            },
    {
        self.sync.next_call()
    }

    /// Takes the transport's answer to the call that was due.
    pub fn complete(&mut self, reply: TransportReply)
        ensures
            final(self)@ == (SupervisorView {
                sync: old(self)@.sync.completed(reply),
                ..old(self)@
            }),
            old(self)@.wf() ==> final(self)@.wf(),
    {
        proof {
            lemma_completed_stays_running(self@.sync, reply);
            crate::sync::lemma_completed_keeps_anchor(self@.sync, reply, self@.anchor);
        }
        self.sync.complete(reply);
    }
}

/// Skipping finished stages ends a session only from the strip and strike
/// stages.
proof fn lemma_settle_stays_running(v: SyncView)
    requires
        !v.terminal,
        !(v.stage is Strip),
        !(v.stage is Strike),
    ensures
        !v.settle().terminal,
        !(v.settle().stage is Strip),
        !(v.settle().stage is Strike),
    decreases v.rank(),
{
    if !(v.stage is Idle || v.current_call() is Some) {
        lemma_settle_stays_running(v.advance());
    }
}

/// An answer of the transport ends a session only in the strip and strike
/// stages, which a running session never is in.
proof fn lemma_completed_stays_running(v: SyncView, reply: TransportReply)
    ensures
        !v.terminal && !(v.stage is Strip) && !(v.stage is Strike) ==> {
            &&& !v.completed(reply).terminal
            &&& !(v.completed(reply).stage is Strip)
            &&& !(v.completed(reply).stage is Strike)
        },
{
    if !v.terminal && !(v.stage is Strip) && !(v.stage is Strike) && v.current_call() is Some
        && v.fits(reply) {
        let id = match reply {
            TransportReply::Created(id) => id,
            _ => 0,
        };
        lemma_settle_stays_running(v.effect(id));
    }
}

} // verus!
