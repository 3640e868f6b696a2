use chatscript::commands::{
    error_text, has_name, needs_reset, no_handler, CODE, EXECUTE, EXECUTE_MSG, MESSAGE_ID,
};
use chatscript::config::{Configuration, Discord};
use chatscript::currency::{
    is_fresh, may_request, next_lookup, Lookup, CACHE_DURATION_SECS, MIN_REQUEST_INTERVAL_SECS,
};
use chatscript::paint::{
    build_sdxl_workflow, negative_or_default, InputSpec, PaintResult, DENOISE_BITS,
    GUIDANCE_SCALE_BITS,
};
use chatscript::script::{
    answer_so_far, choose_code_source, code_to_run, expand_newlines, join_values, load_failure,
    wrap_expression, ArgumentError, CodeSource,
};

fn strings(items: &[&str]) -> Vec<String> {
    items.iter().map(|s| s.to_string()).collect()
}

#[test]
fn default_configuration() {
    let discord = Discord::default();
    assert_eq!(discord.message_update_interval_ms, 1000);
    assert!(discord.replace_newlines);
    let all = Configuration::default();
    assert_eq!(all.authentication.discord_token, None);
    assert_eq!(all.authentication.openai_api_server, None);
    assert_eq!(all.authentication.openai_api_key, None);
    assert_eq!(all.discord.message_update_interval_ms, 1000);
    assert!(all.discord.replace_newlines);
}

#[test]
fn command_names() {
    assert_eq!(EXECUTE, "execute");
    assert_eq!(EXECUTE_MSG, "executemsg");
    assert_eq!(MESSAGE_ID, "message_id");
    assert_eq!(CODE, "code");
}

#[test]
fn exactly_one_code_source_is_needed() {
    assert_eq!(
        choose_code_source(Some("123".to_string()), None),
        Ok(CodeSource::Message("123".to_string()))
    );
    assert_eq!(
        choose_code_source(None, Some("print(1)".to_string())),
        Ok(CodeSource::Code("print(1)".to_string()))
    );
    assert_eq!(
        choose_code_source(Some("123".to_string()), Some("x".to_string())),
        Err(ArgumentError::Both)
    );
    assert_eq!(choose_code_source(None, None), Err(ArgumentError::Neither));
    assert_eq!(ArgumentError::Both.message(), "message ID and code are mutually exclusive");
    assert_eq!(ArgumentError::Neither.message(), "no message ID or code specified");
}

#[test]
fn code_is_the_block_or_the_whole_text() {
    assert_eq!(code_to_run("```lua\nreturn 1\n```"), "return 1");
    assert_eq!(code_to_run("return 1"), "return 1");
    assert_eq!(code_to_run("```lua\nreturn 1"), "```lua\nreturn 1");
}

#[test]
fn expression_is_wrapped_for_its_value() {
    assert_eq!(
        wrap_expression("1 + 1", true),
        "coroutine.create(function()\n    local result = (1 + 1)\n    if result ~= nil then\n        return inspect(result)\n    end\n    return nil\nend)"
    );
}

#[test]
fn statements_are_wrapped_as_they_are() {
    assert_eq!(
        wrap_expression("for i = 1, 3 do print(i) end", false),
        "coroutine.create(function()\nfor i = 1, 3 do print(i) end\nend)"
    );
}

#[test]
fn load_failure_names_both_reasons() {
    assert_eq!(
        load_failure("syntax", "nil"),
        "Failed to load expression with return: syntax | without return: nil"
    );
}

#[test]
fn values_are_joined_by_tabs() {
    assert_eq!(join_values(&strings(&[])), "");
    assert_eq!(join_values(&strings(&["a"])), "a");
    assert_eq!(join_values(&strings(&["a", "b", "c"])), "a\tb\tc");
    assert_eq!(join_values(&strings(&["", "x", ""])), "\tx\t");
}

#[test]
fn backslash_n_becomes_a_line_break_on_request() {
    assert_eq!(expand_newlines("a\\nb", true), "a\nb");
    assert_eq!(expand_newlines("a\\nb", false), "a\\nb");
    assert_eq!(expand_newlines("\\n\\n", true), "\n\n");
    assert_eq!(expand_newlines("\\\\n", true), "\\\n");
    assert_eq!(expand_newlines("end\\", true), "end\\");
    assert_eq!(expand_newlines("no change", true), "no change");
    assert_eq!(expand_newlines("a\\nb", true), "a\\nb".replace("\\n", "\n"));
}

#[test]
fn answer_is_shown_under_prompt_and_model() {
    assert_eq!(answer_so_far("hi", "gpt", "hello"), "**hi** (*gpt*)\nhello");
}

#[test]
fn images_are_counted_from_one() {
    let result = PaintResult { images: vec![vec![1], vec![2, 2], vec![3]] };
    assert_eq!(result.image_count(), 3);
    assert_eq!(result.get_image(1), Some(&vec![1]));
    assert_eq!(result.get_image(0), Some(&vec![1]));
    assert_eq!(result.get_image(3), Some(&vec![3]));
    assert_eq!(result.get_image(4), None);
    assert_eq!(PaintResult { images: vec![] }.get_image(1), None);
}

#[test]
fn rates_are_fresh_for_less_than_a_day() {
    assert_eq!(CACHE_DURATION_SECS, 24 * 60 * 60);
    assert!(is_fresh(1000, 1000));
    assert!(is_fresh(1000 + 86399, 1000));
    assert!(!is_fresh(1000 + 86400, 1000));
    assert!(!is_fresh(999, 1000));
}

#[test]
fn requests_are_an_hour_apart() {
    assert_eq!(MIN_REQUEST_INTERVAL_SECS, 60 * 60);
    assert!(may_request(5000, None));
    assert!(!may_request(5000, Some(5000)));
    assert!(!may_request(5000 + 3599, Some(5000)));
    assert!(may_request(5000 + 3600, Some(5000)));
    assert!(may_request(4000, Some(5000)));
}

#[test]
fn lookups_follow_their_order() {
    assert_eq!(next_lookup(None, true), Some(Lookup::Direct));
    assert_eq!(next_lookup(Some(Lookup::Direct), false), Some(Lookup::Reverse));
    assert_eq!(next_lookup(Some(Lookup::Reverse), true), Some(Lookup::Fetch));
    assert_eq!(next_lookup(Some(Lookup::Reverse), false), Some(Lookup::Intermediate));
    assert_eq!(next_lookup(Some(Lookup::Intermediate), false), Some(Lookup::Fetch));
    assert_eq!(next_lookup(Some(Lookup::Fetch), true), None);
}

#[test]
fn reset_is_needed_when_the_names_differ() {
    let ours = strings(&["execute", "executemsg", "paint"]);
    assert!(!needs_reset(&strings(&["paint", "execute", "executemsg"]), &ours));
    assert!(!needs_reset(&strings(&["paint", "paint", "execute", "executemsg"]), &ours));
    assert!(needs_reset(&strings(&["execute", "executemsg"]), &ours));
    assert!(needs_reset(&strings(&["execute", "executemsg", "paint", "old"]), &ours));
    assert!(needs_reset(&strings(&[]), &ours));
    assert!(!needs_reset(&strings(&[]), &strings(&[])));
    assert!(has_name(&ours, "paint"));
    assert!(!has_name(&ours, "Paint"));
}

#[test]
fn complaints_for_the_user() {
    assert_eq!(no_handler("dance"), "no handler found for command: dance");
    assert_eq!(error_text("boom"), "Error: boom");
}

#[test]
fn sdxl_workflow_has_seven_nodes_that_feed_forward() {
    let nodes = build_sdxl_workflow("a cat", "blurry", 42);
    let classes: Vec<&str> = nodes.iter().map(|n| n.class_type.as_str()).collect();
    assert_eq!(
        classes,
        vec![
            "CheckpointLoaderSimple",
            "CLIPTextEncode",
            "CLIPTextEncode",
            "EmptyLatentImage",
            "KSampler",
            "VAEDecode",
            "PreviewImage",
        ]
    );
    assert_eq!(
        nodes[0].inputs,
        vec![("ckpt_name".to_string(), InputSpec::Text("sd_xl_base_1.0.safetensors".to_string()))]
    );
    assert_eq!(
        nodes[1].inputs,
        vec![
            ("text".to_string(), InputSpec::Text("a cat".to_string())),
            ("clip".to_string(), InputSpec::Slot { node: 0, output: 1 }),
        ]
    );
    assert_eq!(nodes[2].inputs[0], ("text".to_string(), InputSpec::Text("blurry".to_string())));
    assert_eq!(
        nodes[4].inputs,
        vec![
            ("model".to_string(), InputSpec::Slot { node: 0, output: 0 }),
            ("seed".to_string(), InputSpec::Integer(42)),
            ("steps".to_string(), InputSpec::Integer(20)),
            ("cfg".to_string(), InputSpec::Number(8.0f64.to_bits())),
            ("sampler_name".to_string(), InputSpec::Text("euler".to_string())),
            ("scheduler".to_string(), InputSpec::Text("normal".to_string())),
            ("positive".to_string(), InputSpec::Slot { node: 1, output: 0 }),
            ("negative".to_string(), InputSpec::Slot { node: 2, output: 0 }),
            ("latent_image".to_string(), InputSpec::Slot { node: 3, output: 0 }),
            ("denoise".to_string(), InputSpec::Number(1.0f64.to_bits())),
        ]
    );
    assert_eq!(GUIDANCE_SCALE_BITS, 8.0f64.to_bits());
    assert_eq!(DENOISE_BITS, 1.0f64.to_bits());
    for (at, node) in nodes.iter().enumerate() {
        for (_, input) in &node.inputs {
            if let InputSpec::Slot { node, .. } = input {
                assert!(*node < at);
            }
        }
    }
    assert_eq!(negative_or_default(None), "text, watermark, blurry");
    assert_eq!(negative_or_default(Some("ugly".to_string())), "ugly");
}
