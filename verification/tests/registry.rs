use chatscript::registry::{
    check_option, matching_suggestions, parse_option_kind, select_matching, LuaCommandOption,
    OptionDraft, OptionKind, MAX_CHOICES,
};

fn draft(kind: &str) -> OptionDraft {
    OptionDraft {
        name: "size".to_string(),
        description: "How big".to_string(),
        kind_name: kind.to_string(),
        required: None,
        min_value: None,
        max_value: None,
        min_length: None,
        max_length: None,
        autocomplete: None,
        choices: vec![],
        suggestions: vec![],
    }
}

fn pairs(count: usize) -> Vec<(String, String)> {
    (0..count).map(|i| (format!("name {i}"), format!("value {i}"))).collect()
}

#[test]
fn option_kinds_are_read_by_name() {
    assert_eq!(parse_option_kind("string"), Some(OptionKind::String));
    assert_eq!(parse_option_kind("integer"), Some(OptionKind::Integer));
    assert_eq!(parse_option_kind("number"), Some(OptionKind::Number));
    assert_eq!(parse_option_kind("boolean"), Some(OptionKind::Boolean));
    assert_eq!(parse_option_kind("user"), Some(OptionKind::User));
    assert_eq!(parse_option_kind("channel"), Some(OptionKind::Channel));
    assert_eq!(parse_option_kind("role"), Some(OptionKind::Role));
    assert_eq!(parse_option_kind("mentionable"), Some(OptionKind::Mentionable));
    assert_eq!(parse_option_kind("attachment"), Some(OptionKind::Attachment));
    assert_eq!(parse_option_kind("float"), None);
    assert_eq!(parse_option_kind("String"), None);
}

#[test]
fn plain_draft_becomes_an_optional_option() {
    let checked = check_option(draft("integer"));
    assert_eq!(
        checked,
        Ok(LuaCommandOption {
            name: "size".to_string(),
            description: "How big".to_string(),
            option_type: OptionKind::Integer,
            required: false,
            min_value: None,
            max_value: None,
            min_length: None,
            max_length: None,
            autocomplete: false,
            choices: vec![],
            suggestions: vec![],
        })
    );
}

#[test]
fn draft_fields_carry_over() {
    let mut given = draft("number");
    given.required = Some(true);
    given.min_value = Some(0.5f64.to_bits());
    given.max_value = Some(9.0f64.to_bits());
    given.min_length = Some(1);
    given.max_length = Some(20);
    given.choices = pairs(3);
    let option = check_option(given).unwrap();
    assert!(option.required);
    assert_eq!(option.min_value.map(f64::from_bits), Some(0.5));
    assert_eq!(option.max_value.map(f64::from_bits), Some(9.0));
    assert_eq!(option.min_length, Some(1));
    assert_eq!(option.max_length, Some(20));
    assert_eq!(option.choices, pairs(3));
    assert!(!option.autocomplete);
}

#[test]
fn suggestions_switch_autocomplete_on() {
    let mut given = draft("string");
    given.suggestions = pairs(2);
    assert!(check_option(given).unwrap().autocomplete);
    let mut given = draft("string");
    given.autocomplete = Some(true);
    assert!(check_option(given).unwrap().autocomplete);
    let mut given = draft("string");
    given.autocomplete = Some(false);
    assert!(!check_option(given).unwrap().autocomplete);
}

#[test]
fn unknown_type_is_refused() {
    assert_eq!(check_option(draft("float")), Err("Unknown option type: float".to_string()));
}

#[test]
fn at_most_twenty_five_choices() {
    assert_eq!(MAX_CHOICES, 25);
    let mut given = draft("string");
    given.choices = pairs(25);
    assert!(check_option(given).is_ok());
    let mut given = draft("string");
    given.choices = pairs(26);
    assert_eq!(
        check_option(given),
        Err("Option 'size' has 26 choices, but Discord allows a maximum of 25".to_string())
    );
}

#[test]
fn at_most_twenty_five_suggestions() {
    let mut given = draft("string");
    given.suggestions = pairs(25);
    assert!(check_option(given).is_ok());
    let mut given = draft("string");
    given.suggestions = pairs(30);
    assert_eq!(
        check_option(given),
        Err("Option 'size' has 30 suggestions, but Discord allows a maximum of 25".to_string())
    );
}

#[test]
fn unknown_type_is_reported_before_too_many_choices() {
    let mut given = draft("float");
    given.choices = pairs(26);
    assert_eq!(check_option(given), Err("Unknown option type: float".to_string()));
}

#[test]
fn select_matching_keeps_order() {
    let names: Vec<String> = ["apple", "banana", "grape", "pineapple"]
        .iter()
        .map(|s| s.to_string())
        .collect();
    assert_eq!(select_matching(&names, "apple"), vec![0, 3]);
    assert_eq!(select_matching(&names, "an"), vec![1]);
    assert_eq!(select_matching(&names, ""), vec![0, 1, 2, 3]);
    assert_eq!(select_matching(&names, "kiwi"), Vec::<usize>::new());
}

#[test]
fn suggestions_match_whatever_the_case() {
    let suggestions = vec![
        ("Stable Diffusion".to_string(), "sd".to_string()),
        ("FLUX".to_string(), "flux".to_string()),
        ("diffusers".to_string(), "d".to_string()),
    ];
    assert_eq!(matching_suggestions(&suggestions, "DIFF"), vec![0, 2]);
    assert_eq!(matching_suggestions(&suggestions, "flu"), vec![1]);
    assert_eq!(matching_suggestions(&suggestions, ""), vec![0, 1, 2]);
    assert_eq!(matching_suggestions(&suggestions, "x "), Vec::<usize>::new());
}
