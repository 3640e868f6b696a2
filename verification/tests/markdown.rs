use chatscript::markdown::parse_markdown_lua_block;

#[test]
fn execute_test_parse_markdown_lua_block() {
    // Test basic parsing
    let input = "```lua\nprint('hello')\n```";
    assert_eq!(parse_markdown_lua_block(input), Some("print('hello')"));

    // Test with multiple lines
    let input = "```lua\nlocal x = 1\nlocal y = 2\nprint(x + y)\n```";
    assert_eq!(
        parse_markdown_lua_block(input),
        Some("local x = 1\nlocal y = 2\nprint(x + y)")
    );

    // Test with no code block
    let input = "This is not a code block";
    assert_eq!(parse_markdown_lua_block(input), None);

    // Test with wrong language
    let input = "```python\nprint('hello')\n```";
    assert_eq!(parse_markdown_lua_block(input), None);

    // Test with no closing backticks
    let input = "```lua\nprint('hello')";
    assert_eq!(parse_markdown_lua_block(input), None);
}

#[test]
fn mod_test_parse_markdown_lua_block() {
    // Test basic parsing
    let input = "```lua\nprint('hello')\n```";
    assert_eq!(parse_markdown_lua_block(input), Some("print('hello')"));

    // Test with multiple lines
    let input = "```lua\nlocal x = 1\nlocal y = 2\nprint(x + y)\n```";
    assert_eq!(
        parse_markdown_lua_block(input),
        Some("local x = 1\nlocal y = 2\nprint(x + y)")
    );

    // Test with no code block
    let input = "This is not a code block";
    assert_eq!(parse_markdown_lua_block(input), None);

    // Test with wrong language
    let input = "```python\nprint('hello')\n```";
    assert_eq!(parse_markdown_lua_block(input), None);

    // Test with no closing backticks
    let input = "```lua\nprint('hello')";
    assert_eq!(parse_markdown_lua_block(input), None);
}

#[test]
fn lua_block_takes_first_fences() {
    let input = "intro ```lua\na\n```\n```lua\nb\n```";
    assert_eq!(parse_markdown_lua_block(input), Some("a"));
}

#[test]
fn lua_block_may_be_empty_between_fences() {
    assert_eq!(parse_markdown_lua_block("```lua\n\n```"), Some(""));
    // the closing fence needs its own line break after the opening fence
    assert_eq!(parse_markdown_lua_block("```lua\n```"), None);
}

#[test]
fn lua_block_counts_characters_not_bytes() {
    let input = "héé ```lua\nprint('ü')\n``` später";
    assert_eq!(parse_markdown_lua_block(input), Some("print('ü')"));
}
