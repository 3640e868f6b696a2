use chatscript::output::{Attachment, OutputState};

#[test]
fn empty_state_renders_empty() {
    let state = OutputState::new();
    assert_eq!(state.render(), "");
}

#[test]
fn output_alone_renders_as_is() {
    let mut state = OutputState::new();
    state.update_output("first".to_string());
    state.update_output("second".to_string());
    assert_eq!(state.render(), "second");
}

#[test]
fn three_prints_without_output_render_as_a_log() {
    let mut state = OutputState::new();
    state.append_print("a".to_string());
    state.append_print("b".to_string());
    state.append_print("c".to_string());
    assert_eq!(state.output, "");
    assert_eq!(state.print_log, vec!["a", "b", "c"]);
    assert_eq!(state.render(), "\n**Print Log**\na\nb\nc\n");
}

#[test]
fn output_comes_before_the_log() {
    let mut state = OutputState::new();
    state.append_print("one".to_string());
    state.update_output("result".to_string());
    state.append_print("two".to_string());
    assert_eq!(state.render(), "result\n**Print Log**\none\ntwo\n");
}

#[test]
fn return_value_is_adopted_only_without_explicit_output() {
    let mut state = OutputState::new();
    state.adopt_result(None);
    assert_eq!(state.output, "");
    state.adopt_result(Some("final".to_string()));
    assert_eq!(state.output, "final");

    let mut state = OutputState::new();
    state.update_output("partial".to_string());
    state.adopt_result(Some("final".to_string()));
    assert_eq!(state.output, "partial");
}

#[test]
fn attachment_clone_keeps_name_and_bytes() {
    let file = Attachment { filename: "a.png".to_string(), data: vec![1, 2, 3] };
    let copy = file.clone();
    assert_eq!(copy, file);
    assert_eq!(copy.filename, "a.png");
    assert_eq!(copy.data, vec![1, 2, 3]);
}
