use chatscript::llm::{
    image_data_url, parse_part_kind, parse_role, png_data_url, seed_or_default, takes_parts,
    unknown_part_type, unknown_role, PartKind, Role,
};

#[test]
fn roles_are_read_by_name() {
    assert_eq!(parse_role("system"), Some(Role::System));
    assert_eq!(parse_role("user"), Some(Role::User));
    assert_eq!(parse_role("assistant"), Some(Role::Assistant));
    assert_eq!(parse_role("User"), None);
    assert_eq!(parse_role("tool"), None);
    assert_eq!(parse_role(""), None);
}

#[test]
fn part_kinds_are_read_by_name() {
    assert_eq!(parse_part_kind("text"), Some(PartKind::Text));
    assert_eq!(parse_part_kind("image"), Some(PartKind::Image));
    assert_eq!(parse_part_kind("audio"), None);
}

#[test]
fn only_the_user_speaks_in_parts() {
    assert!(takes_parts(Role::User));
    assert!(!takes_parts(Role::System));
    assert!(!takes_parts(Role::Assistant));
}

#[test]
fn seed_defaults_to_zero() {
    assert_eq!(seed_or_default(None), 0);
    assert_eq!(seed_or_default(Some(17)), 17);
}

#[test]
fn complaints_quote_the_name() {
    assert_eq!(unknown_role("tool"), "unknown role `tool`");
    assert_eq!(unknown_part_type("audio"), "unknown part type `audio`");
}

#[test]
fn image_travels_as_base64_data_url() {
    assert_eq!(
        image_data_url(b"Hello world"),
        Some("data:image/png;base64,SGVsbG8gd29ybGQ=".to_string())
    );
    assert_eq!(image_data_url(b""), Some("data:image/png;base64,".to_string()));
    assert_eq!(image_data_url(&[0xff, 0xfe]), Some("data:image/png;base64,//4=".to_string()));
    assert_eq!(png_data_url("QUJD"), "data:image/png;base64,QUJD");
}
