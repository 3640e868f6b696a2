//! What holds of a synchroniser that is driven to the end of a piece of
//! work by a transport that answers every call.

use vstd::prelude::*;
use crate::sync::{Stage, SyncView, struck};
use crate::transport::{CallView, MessageView, TransportReply};

verus! {

/// The state reached from `v` when every due call goes through, replies
/// receiving the ids of `ids` in order. Stops when nothing is due, and after
/// `fuel` calls at the latest.
pub open spec fn driven(v: SyncView, ids: Seq<u64>, fuel: nat) -> SyncView
    decreases fuel,
{
    if fuel == 0 {
        v
    } else {
        match v.current_call() {
            None => v,
            Some(CallView::Reply { .. }) => if ids.len() > 0 {
                driven(
                    v.completed(TransportReply::Created(ids[0])),
                    ids.drop_first(),
                    (fuel - 1) as nat,
                )
            } else {
                v
            },
            Some(_) => driven(v.completed(TransportReply::Done), ids, (fuel - 1) as nat),
        }
    }
}

/// An upper bound on the calls that remain in the current piece of work.
pub open spec fn calls_left(v: SyncView) -> nat {
    let m = v.messages.len() as int;
    let c = v.chunks.len() as int;
    let gap = if m > c {
        m - c
    } else {
        c - m
    };
    let overlap = if m < c {
        m
    } else {
        c
    };
    let grow = if c > m {
        c - m
    } else {
        0
    };
    (match v.stage {
        Stage::Idle => 0,
        Stage::Attach => 1,
        Stage::Button => 2,
        Stage::Create => 2 + grow,
        Stage::Delete => 2 + gap,
        Stage::Edit(next) => 2 + gap + if next < overlap {
            overlap - next
        } else {
            0
        },
        Stage::Strip => 3 + gap + overlap,
        Stage::Notice => 1,
        Stage::Strike(next) => 1 + if next < m {
            m - next
        } else {
            0
        },
    }) as nat
}

/// The replies that the current piece of work may still ask for.
pub open spec fn replies_left(v: SyncView) -> nat {
    let m = v.messages.len() as int;
    let c = v.chunks.len() as int;
    (match v.stage {
        Stage::Strip | Stage::Edit(_) | Stage::Delete | Stage::Create => if c > m {
            c - m
        } else {
            0
        },
        Stage::Strike(_) | Stage::Notice => 1,
        _ => 0,
    }) as nat
}

/// The state is settled: idle, or with a call due.
pub open spec fn settled(v: SyncView) -> bool {
    v.stage is Idle || v.current_call() is Some
}

/// What holds on the way through a synchronisation that started from the
/// messages `orig`: the transport has not failed, messages already passed
/// show their chunk, messages that stay keep their id, and once the stages
/// that change texts are over, messages and chunks are in step.
pub open spec fn on_course(v: SyncView, orig: Seq<MessageView>) -> bool {
    let m = v.messages.len();
    let c = v.chunks.len();
    &&& !v.failed
    &&& c <= usize::MAX
    &&& m > 0 || c == 0
    &&& m >= orig.len() || m >= c
    &&& forall|i: int|
        0 <= i < m && i < c && i < orig.len() ==> (#[trigger] v.messages[i]).id == orig[i].id
    &&& match v.stage {
        Stage::Strip => true,
        Stage::Edit(next) => forall|i: int|
            0 <= i < next && i < m && i < c ==> (#[trigger] v.messages[i]).content == v.chunks[i],
        Stage::Delete => forall|i: int|
            0 <= i < m && i < c ==> (#[trigger] v.messages[i]).content == v.chunks[i],
        Stage::Create => m <= c && forall|i: int|
            0 <= i < m ==> (#[trigger] v.messages[i]).content == v.chunks[i],
        Stage::Button => v.in_step(),
        Stage::Attach | Stage::Idle => {
            &&& v.in_step()
            &&& !v.terminal && m > 0 ==> v.messages.last().has_button
            &&& v.stage is Idle && v.terminal && m > 0 ==> v.files.len() == 0
        },
        Stage::Strike(_) | Stage::Notice => false,
    }
}

proof fn lemma_settle_on_course(v: SyncView, orig: Seq<MessageView>)
    requires
        on_course(v, orig),
    ensures
        on_course(v.settle(), orig),
        settled(v.settle()),
        calls_left(v.settle()) <= calls_left(v),
        replies_left(v.settle()) <= replies_left(v),
        v.settle().chunks == v.chunks,
        v.settle().owner == v.owner,
        v.terminal ==> v.settle().terminal,
        !(v.stage is Strip) ==> v.settle().terminal == v.terminal && !(v.settle().stage is Strip),
    decreases v.rank(),
{
    if !settled(v) {
        let w = v.advance();
        assert(on_course(w, orig));
        lemma_settle_on_course(w, orig);
    }
}

proof fn lemma_effect_on_course(v: SyncView, orig: Seq<MessageView>, id: u64)
    requires
        on_course(v, orig),
        v.current_call() is Some,
    ensures
        on_course(v.effect(id), orig),
        calls_left(v.effect(id).settle()) < calls_left(v),
        v.current_call()->0 is Reply ==> replies_left(v.effect(id)) < replies_left(v),
        replies_left(v.effect(id)) <= replies_left(v),
        v.effect(id).chunks == v.chunks,
        v.effect(id).owner == v.owner,
        v.effect(id).terminal == v.terminal,
{
    let w = v.effect(id);
    match v.stage {
        Stage::Delete => {
            assert forall|i: int| 0 <= i < w.messages.len() && i < w.chunks.len() implies (
            #[trigger] w.messages[i]).content == w.chunks[i] by {
                assert(w.messages[i] == v.messages[i]);
            }
            assert forall|i: int|
                0 <= i < w.messages.len() && i < w.chunks.len() && i < orig.len() implies (
            #[trigger] w.messages[i]).id == orig[i].id by {
                assert(w.messages[i] == v.messages[i]);
            }
        },
        _ => {},
    }
    assert(on_course(w, orig));
    lemma_settle_on_course(w, orig);
    match v.stage {
        Stage::Strip | Stage::Button | Stage::Attach => {
            assert(w.current_call() is None);
            assert(w.settle() == w.advance().settle());
            assert(on_course(w.advance(), orig));
            lemma_settle_on_course(w.advance(), orig);
        },
        _ => {},
    }
}

proof fn lemma_driven_on_course(v: SyncView, orig: Seq<MessageView>, ids: Seq<u64>, fuel: nat)
    requires
        on_course(v, orig),
        settled(v),
        fuel >= calls_left(v),
        ids.len() >= replies_left(v),
    ensures
        on_course(driven(v, ids, fuel), orig),
        driven(v, ids, fuel).stage is Idle,
        driven(v, ids, fuel).chunks == v.chunks,
        driven(v, ids, fuel).owner == v.owner,
        v.terminal ==> driven(v, ids, fuel).terminal,
        !(v.stage is Strip) ==> driven(v, ids, fuel).terminal == v.terminal,
    decreases fuel,
{
    if v.current_call() is Some {
        let reply = if v.current_call()->0 is Reply {
            TransportReply::Created(ids[0])
        } else {
            TransportReply::Done
        };
        let id = match reply {
            TransportReply::Created(id) => id,
            _ => 0,
        };
        assert(v.fits(reply));
        lemma_effect_on_course(v, orig, id);
        lemma_settle_on_course(v.effect(id), orig);
        let next = v.completed(reply);
        assert(next == v.effect(id).settle());
        if v.current_call()->0 is Reply {
            lemma_driven_on_course(next, orig, ids.drop_first(), (fuel - 1) as nat);
        } else {
            lemma_driven_on_course(next, orig, ids, (fuel - 1) as nat);
        }
    }
}

/// Convergence. A synchronisation that is driven to its end leaves exactly
/// one message per chunk, each showing its chunk; messages that were there
/// before keep their ids, the first of them the anchor; and the last
/// message carries the cancel button.
pub proof fn lemma_sync_converges(v: SyncView, chunks: Seq<Seq<char>>, ids: Seq<u64>, fuel: nat)
    requires
        v.ready(),
        v.messages.len() > 0,
        chunks.len() <= usize::MAX,
        ids.len() >= chunks.len(),
        fuel >= v.messages.len() + chunks.len() + 2,
    ensures
        ({
            let end = driven(v.sync_begun(chunks), ids, fuel);
            &&& end.stage is Idle
            &&& !end.failed
            &&& !end.terminal
            &&& end.chunks == chunks
            &&& end.messages.len() == chunks.len()
            &&& forall|i: int|
                0 <= i < chunks.len() ==> (#[trigger] end.messages[i]).content == chunks[i]
            &&& forall|i: int|
                0 <= i < chunks.len() && i < v.messages.len() ==> (#[trigger] end.messages[i]).id
                    == v.messages[i].id
            &&& chunks.len() > 0 ==> end.messages.last().has_button
        }),
{
    let start = SyncView { chunks, stage: Stage::Edit(0), ..v };
    assert(on_course(start, v.messages));
    lemma_settle_on_course(start, v.messages);
    lemma_driven_on_course(start.settle(), v.messages, ids, fuel);
}

/// Finishing converges too: driven to its end, the finish path leaves one
/// message per chunk, each showing its chunk, the session terminal, and no
/// file waiting.
pub proof fn lemma_finish_converges(
    v: SyncView,
    chunks: Seq<Seq<char>>,
    ids: Seq<u64>,
    fuel: nat,
)
    requires
        v.ready(),
        v.messages.len() > 0,
        chunks.len() <= usize::MAX,
        ids.len() >= chunks.len(),
        fuel >= v.messages.len() + chunks.len() + 3,
    ensures
        ({
            let end = driven(v.finish_begun(chunks), ids, fuel);
            &&& end.stage is Idle
            &&& !end.failed
            &&& end.terminal
            &&& end.chunks == chunks
            &&& end.messages.len() == chunks.len()
            &&& forall|i: int|
                0 <= i < chunks.len() ==> (#[trigger] end.messages[i]).content == chunks[i]
            &&& forall|i: int|
                0 <= i < chunks.len() && i < v.messages.len() ==> (#[trigger] end.messages[i]).id
                    == v.messages[i].id
            &&& chunks.len() > 0 ==> end.files.len() == 0
        }),
{
    let start = SyncView { chunks, stage: Stage::Strip, ..v };
    assert(on_course(start, v.messages));
    lemma_finish_turns_terminal(start, v.messages, ids, fuel);
}

proof fn lemma_finish_turns_terminal(
    start: SyncView,
    orig: Seq<MessageView>,
    ids: Seq<u64>,
    fuel: nat,
)
    requires
        on_course(start, orig),
        start.stage is Strip,
        fuel >= calls_left(start),
        ids.len() >= replies_left(start),
    ensures
        on_course(driven(start.settle(), ids, fuel), orig),
        driven(start.settle(), ids, fuel).stage is Idle,
        driven(start.settle(), ids, fuel).terminal,
        driven(start.settle(), ids, fuel).chunks == start.chunks,
{
    lemma_settle_on_course(start, orig);
    if start.current_call() is Some {
        // the button is removed by one call, after which the stage is left
        let v = start;
        assert(v.settle() == v);
        assert(v.fits(TransportReply::Done));
        lemma_effect_on_course(v, orig, 0);
        let w = v.effect(0);
        assert(w.current_call() is None);
        assert(w.settle() == w.advance().settle());
        assert(w.advance().terminal);
        assert(on_course(w.advance(), orig));
        lemma_settle_on_course(w.advance(), orig);
        let next = v.completed(TransportReply::Done);
        assert(next == w.settle());
        lemma_driven_on_course(next, orig, ids, (fuel - 1) as nat);
    } else {
        let w = start.advance();
        assert(start.settle() == w.settle());
        assert(on_course(w, orig));
        lemma_settle_on_course(w, orig);
        lemma_driven_on_course(w.settle(), orig, ids, fuel);
    }
}

/// Every message of `orig` struck through, without components.
pub open spec fn struck_all(orig: Seq<MessageView>) -> Seq<MessageView> {
    Seq::new(
        orig.len(),
        |i: int| MessageView { id: orig[i].id, content: struck(orig[i].content), has_button: false },
    )
}

spec fn failing(v: SyncView, orig: Seq<MessageView>) -> bool {
    &&& !v.failed
    &&& 0 < orig.len() <= usize::MAX
    &&& match v.stage {
        Stage::Strike(next) => {
            &&& next <= orig.len()
            &&& v.messages.len() == orig.len()
            &&& forall|i: int| 0 <= i < next ==> #[trigger] v.messages[i] == struck_all(orig)[i]
            &&& forall|i: int| next <= i < orig.len() ==> #[trigger] v.messages[i] == orig[i]
        },
        Stage::Notice => v.terminal && v.messages == struck_all(orig),
        _ => false,
    }
}

proof fn lemma_driven_failing(v: SyncView, orig: Seq<MessageView>, ids: Seq<u64>, fuel: nat)
    requires
        failing(v, orig),
        settled(v),
        fuel >= calls_left(v),
        ids.len() >= 1,
    ensures
        ({
            let end = driven(v, ids, fuel);
            &&& end.stage is Idle
            &&& !end.failed
            &&& end.terminal
            &&& end.messages == struck_all(orig).push(
                MessageView { id: ids[0], content: v.notice, has_button: false },
            )
        }),
    decreases fuel,
{
    match v.stage {
        Stage::Strike(next) => {
            let w = v.effect(0);
            assert(v.fits(TransportReply::Done));
            assert(w.settle() == v.completed(TransportReply::Done));
            assert(v.messages[next as int] == orig[next as int]);
            assert(w.stage == Stage::Strike((next + 1) as usize));
            assert forall|i: int| 0 <= i < next + 1 implies #[trigger] w.messages[i] == struck_all(
                orig,
            )[i] by {
                if i < next {
                    assert(v.messages[i] == struck_all(orig)[i]);
                }
            }
            assert forall|i: int| next + 1 <= i < orig.len() implies #[trigger] w.messages[i]
                == orig[i] by {
                assert(v.messages[i] == orig[i]);
            }
            if next + 1 < orig.len() {
                assert(w.current_call() is Some);
                assert(w.settle() == w);
                assert(failing(w, orig));
                lemma_driven_failing(w, orig, ids, (fuel - 1) as nat);
            } else {
                assert(w.current_call() is None);
                let n = w.advance();
                assert(w.settle() == n.settle());
                assert(n.messages =~= struck_all(orig));
                assert(n.current_call() is Some);
                assert(n.settle() == n);
                assert(failing(n, orig));
                lemma_driven_failing(n, orig, ids, (fuel - 1) as nat);
            }
        },
        Stage::Notice => {
            let reply = TransportReply::Created(ids[0]);
            assert(v.fits(reply));
            let w = v.effect(ids[0]);
            assert(w.settle() == w);
            assert(driven(w, ids.drop_first(), (fuel - 1) as nat) == w);
        },
        _ => {},
    }
}

/// The failure path, driven to its end, strikes every message through,
/// removes every component, and appends exactly one message, the notice.
pub proof fn lemma_failure_appends_one_notice(
    v: SyncView,
    notice: Seq<char>,
    ids: Seq<u64>,
    fuel: nat,
)
    requires
        v.ready(),
        0 < v.messages.len() <= usize::MAX,
        ids.len() >= 1,
        fuel >= v.messages.len() + 1,
    ensures
        ({
            let end = driven(v.failure_begun(notice), ids, fuel);
            &&& end.stage is Idle
            &&& !end.failed
            &&& end.terminal
            &&& end.messages == struck_all(v.messages).push(
                MessageView { id: ids[0], content: notice, has_button: false },
            )
        }),
{
    let start = SyncView { notice, stage: Stage::Strike(0), ..v };
    assert(start.current_call() is Some);
    assert(start.settle() == start);
    assert(failing(start, v.messages));
    lemma_driven_failing(start, v.messages, ids, fuel);
}

/// Once a session is terminal, no piece of work begins any more.
pub proof fn lemma_terminal_is_final(v: SyncView, chunks: Seq<Seq<char>>, notice: Seq<char>)
    requires
        v.terminal || v.failed,
    ensures
        v.sync_begun(chunks) == v,
        v.finish_begun(chunks) == v,
        v.failure_begun(notice) == v,
{
}

/// Terminal idempotence. A second failure changes nothing: the messages
/// stay as the first one left them, with a single notice at the end.
pub proof fn lemma_failure_twice_is_once(
    v: SyncView,
    first: Seq<char>,
    second: Seq<char>,
    ids: Seq<u64>,
    more: Seq<u64>,
    fuel: nat,
)
    requires
        v.ready(),
        0 < v.messages.len() <= usize::MAX,
        ids.len() >= 1,
        fuel >= v.messages.len() + 1,
    ensures
        ({
            let once = driven(v.failure_begun(first), ids, fuel);
            driven(once.failure_begun(second), more, fuel) == once
        }),
{
    lemma_failure_appends_one_notice(v, first, ids, fuel);
    let once = driven(v.failure_begun(first), ids, fuel);
    lemma_terminal_is_final(once, Seq::<Seq<char>>::empty(), second);
    assert(once.current_call() is None);
}

/// Terminal idempotence. A second finish changes nothing.
pub proof fn lemma_finish_twice_is_once(
    v: SyncView,
    first: Seq<Seq<char>>,
    second: Seq<Seq<char>>,
    ids: Seq<u64>,
    more: Seq<u64>,
    fuel: nat,
)
    requires
        v.ready(),
        v.messages.len() > 0,
        first.len() <= usize::MAX,
        ids.len() >= first.len(),
        fuel >= v.messages.len() + first.len() + 3,
    ensures
        ({
            let once = driven(v.finish_begun(first), ids, fuel);
            driven(once.finish_begun(second), more, fuel) == once
        }),
{
    lemma_finish_converges(v, first, ids, fuel);
    let once = driven(v.finish_begun(first), ids, fuel);
    lemma_terminal_is_final(once, second, Seq::<char>::empty());
    assert(once.current_call() is None);
}

/// The single cancel affordance. In a well-formed state at most one message
/// carries the cancel button, and only the last may; in a terminal state
/// none does.
pub proof fn lemma_single_cancel_button(v: SyncView, i: int, j: int)
    requires
        v.wf(),
        0 <= i < v.messages.len(),
        0 <= j < v.messages.len(),
        v.messages[i].has_button,
        v.messages[j].has_button,
    ensures
        i == j,
        i == v.messages.len() - 1,
        !v.terminal,
{
}

} // verus!
