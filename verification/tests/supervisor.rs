use chatscript::output::Attachment;
use chatscript::supervisor::{
    select_source, Ready, RunState, ScriptEvent, Source, Status, Supervisor, MESSAGE_CHUNK_SIZE,
};
use chatscript::transport::{Components, PostedMessage, TransportCall, TransportReply};

fn message(id: u64, content: &str, has_button: bool) -> PostedMessage {
    PostedMessage { id, content: content.to_string(), has_button }
}

fn edit(id: u64, content: Option<&str>, components: Components) -> TransportCall {
    TransportCall::Edit { id, content: content.map(|s| s.to_string()), components, files: vec![] }
}

fn drive(supervisor: &mut Supervisor, next_id: &mut u64) -> Vec<TransportCall> {
    let mut calls = vec![];
    while let Some(call) = supervisor.next_call() {
        let answer = match call {
            TransportCall::Reply { .. } => {
                *next_id += 1;
                TransportReply::Created(*next_id)
            }
            _ => TransportReply::Done,
        };
        calls.push(call);
        supervisor.complete(answer);
        assert!(calls.len() < 1000);
    }
    calls
}

fn contents(supervisor: &Supervisor) -> Vec<String> {
    supervisor.messages().iter().map(|m| m.content.clone()).collect()
}

fn start() -> Supervisor {
    // anchor 1, owner 42, one update per second, started at time 0
    Supervisor::new(1, 42, "Executing...".to_string(), 1000, 0)
}

#[test]
fn sources_are_read_in_fixed_order() {
    let none = Ready {
        cancellation: false,
        output: false,
        print: false,
        attachment: false,
        completion: false,
    };
    assert_eq!(select_source(none), None);
    assert_eq!(select_source(Ready { completion: true, ..none }), Some(Source::Completion));
    assert_eq!(
        select_source(Ready { completion: true, attachment: true, ..none }),
        Some(Source::Attachment)
    );
    assert_eq!(
        select_source(Ready { completion: true, attachment: true, print: true, ..none }),
        Some(Source::Print)
    );
    assert_eq!(
        select_source(Ready { print: true, output: true, completion: true, ..none }),
        Some(Source::Output)
    );
    let all =
        Ready { cancellation: true, output: true, print: true, attachment: true, completion: true };
    assert_eq!(select_source(all), Some(Source::Cancellation));
}

#[test]
fn chunk_budget_is_fifteen_hundred() {
    assert_eq!(MESSAGE_CHUNK_SIZE, 1500);
}

#[test]
fn new_session_is_open_and_active() {
    let supervisor = start();
    assert!(supervisor.is_open());
    assert_eq!(supervisor.status(), Status::Running);
    assert_eq!(supervisor.state(), RunState::Active);
    assert_eq!(supervisor.anchor(), 1);
    assert_eq!(supervisor.messages(), &vec![message(1, "Executing...", false)]);
    assert_eq!(supervisor.next_call(), None);
    assert_eq!(supervisor.rendered(), "");
}

#[test]
fn explicit_output_wins_over_the_return_value() {
    let mut supervisor = start();
    let mut next_id = 1;
    assert!(supervisor.handle(ScriptEvent::Output("partial".to_string()), 10));
    drive(&mut supervisor, &mut next_id);
    assert!(supervisor.handle(ScriptEvent::Completed(Some("final".to_string())), 20));
    drive(&mut supervisor, &mut next_id);
    assert_eq!(supervisor.rendered(), "partial");
    assert_eq!(contents(&supervisor), vec!["partial"]);
    assert_eq!(supervisor.status(), Status::Finished);
    assert_eq!(supervisor.state(), RunState::Done(1));
}

#[test]
fn return_value_is_the_output_when_none_was_set() {
    let mut supervisor = start();
    let mut next_id = 1;
    assert!(supervisor.handle(ScriptEvent::Output("".to_string()), 10));
    drive(&mut supervisor, &mut next_id);
    assert!(supervisor.handle(ScriptEvent::Completed(Some("final".to_string())), 20));
    let calls = drive(&mut supervisor, &mut next_id);
    assert_eq!(calls, vec![edit(1, Some("final"), Components::Keep)]);
    assert_eq!(supervisor.rendered(), "final");
    assert_eq!(supervisor.messages(), &vec![message(1, "final", false)]);
    assert_eq!(supervisor.state(), RunState::Done(1));
}

#[test]
fn three_prints_finish_as_a_print_log() {
    let mut supervisor = start();
    let mut next_id = 1;
    for (i, line) in ["a", "b", "c"].iter().enumerate() {
        assert!(supervisor.handle(ScriptEvent::Print(line.to_string()), 10 + i as u64));
        drive(&mut supervisor, &mut next_id);
    }
    assert!(supervisor.handle(ScriptEvent::Exhausted, 50));
    drive(&mut supervisor, &mut next_id);
    assert_eq!(supervisor.rendered(), "\n**Print Log**\na\nb\nc\n");
    assert_eq!(contents(&supervisor), vec!["\n**Print Log**\na\nb\nc\n"]);
    assert_eq!(supervisor.status(), Status::Finished);
}

#[test]
fn long_output_grows_the_session_to_three_messages() {
    let mut supervisor = start();
    let mut next_id = 1;
    // a first update puts the button on the only message
    assert!(supervisor.handle(ScriptEvent::Output("short".to_string()), 1001));
    let calls = drive(&mut supervisor, &mut next_id);
    assert_eq!(
        calls,
        vec![
            edit(1, Some("short"), Components::Keep),
            edit(1, None, Components::CancelButton { anchor: 1, owner: 42 }),
        ]
    );

    let text = vec!["ninechars"; 400].join(" ");
    assert_eq!(text.chars().count(), 3999);
    assert!(supervisor.handle(ScriptEvent::Output(text.clone()), 2002));
    let calls = drive(&mut supervisor, &mut next_id);
    assert_eq!(calls.len(), 4);
    let edits_with_text = calls
        .iter()
        .filter(|c| matches!(c, TransportCall::Edit { content: Some(_), .. }))
        .count();
    let creates = calls.iter().filter(|c| matches!(c, TransportCall::Reply { .. })).count();
    assert_eq!(edits_with_text, 1);
    assert_eq!(creates, 2);
    // the button leaves message 1 before messages 2 and 3 are created
    assert!(matches!(
        &calls[0],
        TransportCall::Edit { id: 1, content: Some(_), components: Components::Clear, .. }
    ));
    assert!(matches!(&calls[1], TransportCall::Reply { to: 1, .. }));
    assert!(matches!(&calls[2], TransportCall::Reply { to: 2, .. }));
    assert_eq!(calls[3], edit(3, None, Components::CancelButton { anchor: 1, owner: 42 }));
    let shown: Vec<bool> = supervisor.messages().iter().map(|m| m.has_button).collect();
    assert_eq!(shown, vec![false, false, true]);
    assert_eq!(contents(&supervisor).join(" "), text);
}

#[test]
fn cancel_for_this_anchor_takes_the_cancel_path() {
    let mut supervisor = start();
    let mut next_id = 1;
    assert!(supervisor.handle(ScriptEvent::Output("working".to_string()), 1001));
    drive(&mut supervisor, &mut next_id);
    assert!(supervisor.handle(ScriptEvent::Cancel(1), 1500));
    assert_eq!(supervisor.status(), Status::Cancelled);
    assert_eq!(supervisor.state(), RunState::Active);
    let calls = drive(&mut supervisor, &mut next_id);
    assert_eq!(
        calls,
        vec![
            edit(1, Some("~~working~~"), Components::Clear),
            TransportCall::Reply { to: 1, content: "The generation was cancelled.".to_string() },
        ]
    );
    assert_eq!(
        supervisor.messages(),
        &vec![
            message(1, "~~working~~", false),
            message(2, "The generation was cancelled.", false),
        ]
    );
    assert_eq!(supervisor.state(), RunState::Done(1));
}

#[test]
fn cancel_for_another_anchor_stops_without_the_cancel_path() {
    let mut supervisor = start();
    let mut next_id = 1;
    assert!(supervisor.handle(ScriptEvent::Output("working".to_string()), 1001));
    drive(&mut supervisor, &mut next_id);
    assert!(supervisor.handle(ScriptEvent::Cancel(999), 1500));
    assert_eq!(supervisor.status(), Status::Finished);
    let calls = drive(&mut supervisor, &mut next_id);
    assert_eq!(
        calls,
        vec![edit(1, None, Components::Clear), edit(1, Some("working"), Components::Keep)]
    );
    assert_eq!(supervisor.messages(), &vec![message(1, "working", false)]);
    // the run has stopped: no further event is taken
    assert!(!supervisor.handle(ScriptEvent::Output("more".to_string()), 5000));
    assert_eq!(supervisor.state(), RunState::Done(1));
}

#[test]
fn transport_failure_ends_all_attempts() {
    let mut supervisor = start();
    assert!(supervisor.handle(ScriptEvent::Output("one two".to_string()), 1001));
    assert_eq!(supervisor.next_call(), Some(edit(1, Some("one two"), Components::Keep)));
    supervisor.complete(TransportReply::Failed);
    assert_eq!(supervisor.state(), RunState::Broken);
    assert_eq!(supervisor.next_call(), None);
    assert!(!supervisor.is_open());
    assert!(!supervisor.handle(ScriptEvent::Output("again".to_string()), 5000));
    assert!(!supervisor.handle(ScriptEvent::Tick, 9000));
    assert!(!supervisor.handle(ScriptEvent::Exhausted, 9000));
    assert_eq!(supervisor.next_call(), None);
    assert_eq!(supervisor.state(), RunState::Broken);
}

#[test]
fn script_failure_is_rendered_in_band() {
    let mut supervisor = start();
    let mut next_id = 1;
    assert!(supervisor.handle(ScriptEvent::Failed("attempt to call nil".to_string()), 5));
    assert_eq!(supervisor.status(), Status::Errored);
    let calls = drive(&mut supervisor, &mut next_id);
    assert_eq!(
        calls,
        vec![
            edit(1, Some("~~Executing...~~"), Components::Clear),
            TransportCall::Reply { to: 1, content: "attempt to call nil".to_string() },
        ]
    );
    assert_eq!(supervisor.state(), RunState::Done(1));
}

#[test]
fn a_burst_within_one_interval_issues_no_call() {
    let mut supervisor = start();
    let mut next_id = 1;
    assert!(supervisor.handle(ScriptEvent::Output("first".to_string()), 1001));
    assert_eq!(drive(&mut supervisor, &mut next_id).len(), 2);
    for i in 0..50u64 {
        assert!(supervisor.handle(ScriptEvent::Output(format!("update {i}")), 1002 + i));
        assert_eq!(supervisor.next_call(), None);
        assert!(supervisor.handle(ScriptEvent::Print(format!("line {i}")), 1002 + i));
        assert_eq!(supervisor.next_call(), None);
    }
    // exactly one interval later the rate gate is still closed
    assert!(supervisor.handle(ScriptEvent::Tick, 2001));
    assert_eq!(supervisor.next_call(), None);
    // one millisecond more and the pending change goes out, once
    assert!(supervisor.handle(ScriptEvent::Tick, 2002));
    let calls = drive(&mut supervisor, &mut next_id);
    assert_eq!(calls.len(), 1);
    assert!(supervisor.handle(ScriptEvent::Tick, 2003));
    assert_eq!(supervisor.next_call(), None);
    // with nothing pending a tick does nothing even with the rate gate open
    assert!(supervisor.handle(ScriptEvent::Tick, 9000));
    assert_eq!(supervisor.next_call(), None);
}

#[test]
fn the_first_interval_counts_from_the_start_of_the_session() {
    let mut supervisor = start();
    assert!(supervisor.handle(ScriptEvent::Output("early".to_string()), 1000));
    assert_eq!(supervisor.next_call(), None);
    assert!(supervisor.handle(ScriptEvent::Output("late enough".to_string()), 1001));
    assert_eq!(supervisor.next_call(), Some(edit(1, Some("late enough"), Components::Keep)));
}

#[test]
fn a_clock_that_runs_backwards_keeps_the_gate_closed() {
    let mut supervisor = Supervisor::new(1, 42, "Executing...".to_string(), 0, 500);
    assert!(supervisor.handle(ScriptEvent::Output("x".to_string()), 100));
    assert_eq!(supervisor.next_call(), None);
}

#[test]
fn the_final_sync_ignores_the_gate() {
    let mut supervisor = start();
    let mut next_id = 1;
    assert!(supervisor.handle(ScriptEvent::Output("result".to_string()), 1));
    assert_eq!(supervisor.next_call(), None);
    assert!(supervisor.handle(ScriptEvent::Completed(None), 2));
    let calls = drive(&mut supervisor, &mut next_id);
    assert_eq!(calls, vec![edit(1, Some("result"), Components::Keep)]);
    assert_eq!(supervisor.state(), RunState::Done(1));
}

#[test]
fn attachments_wait_for_the_finish() {
    let mut supervisor = start();
    let mut next_id = 1;
    let file = Attachment { filename: "plot.png".to_string(), data: vec![9, 8, 7] };
    assert!(supervisor.handle(ScriptEvent::Attachment(file.clone()), 5000));
    assert_eq!(supervisor.next_call(), None);
    assert!(supervisor.handle(ScriptEvent::Completed(Some("see plot".to_string())), 5001));
    let calls = drive(&mut supervisor, &mut next_id);
    assert_eq!(
        calls,
        vec![
            edit(1, Some("see plot"), Components::Keep),
            TransportCall::Edit {
                id: 1,
                content: None,
                components: Components::Keep,
                files: vec![file],
            },
        ]
    );
}

#[test]
fn ending_twice_is_ending_once() {
    let mut supervisor = start();
    let mut next_id = 1;
    assert!(supervisor.handle(ScriptEvent::Failed("boom".to_string()), 5));
    drive(&mut supervisor, &mut next_id);
    let once = supervisor.messages().clone();
    assert_eq!(once.len(), 2);
    assert!(!supervisor.handle(ScriptEvent::Failed("boom".to_string()), 6));
    assert!(!supervisor.handle(ScriptEvent::Cancel(1), 7));
    assert!(!supervisor.handle(ScriptEvent::Exhausted, 8));
    assert_eq!(drive(&mut supervisor, &mut next_id), vec![]);
    assert_eq!(supervisor.messages(), &once);
    assert_eq!(supervisor.status(), Status::Errored);
}

#[test]
fn events_wait_while_a_call_is_due() {
    let mut supervisor = start();
    assert!(supervisor.handle(ScriptEvent::Output("a".to_string()), 2000));
    assert!(!supervisor.is_open());
    assert!(!supervisor.handle(ScriptEvent::Output("b".to_string()), 4000));
    assert_eq!(supervisor.rendered(), "a");
}
