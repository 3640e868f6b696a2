use chatscript::context::OptionValue;
use chatscript::reply::{ChainMessage, ChainWalk, LuaChainMessage, LuaReplyChain, ReplyChain};

fn message(id: u64, is_bot: bool) -> ChainMessage {
    ChainMessage {
        id,
        content: format!("message {id}"),
        author_id: id + 1000,
        author_name: "someone".to_string(),
        is_bot,
        channel_id: 55,
        guild_id: if is_bot { Some(66) } else { None },
        attachments: vec![format!("https://example.invalid/{id}.png")],
    }
}

#[test]
fn script_sees_ids_as_decimal_strings() {
    let shown = LuaChainMessage::from(&message(1234567890123456789, true));
    assert_eq!(
        shown,
        LuaChainMessage {
            id: "1234567890123456789".to_string(),
            content: "message 1234567890123456789".to_string(),
            author_id: "1234567890123457789".to_string(),
            author_name: "someone".to_string(),
            is_bot: true,
            channel_id: "55".to_string(),
            guild_id: Some("66".to_string()),
            attachments: vec!["https://example.invalid/1234567890123456789.png".to_string()],
        }
    );
    assert_eq!(LuaChainMessage::from(&message(3, false)).guild_id, None);
}

#[test]
fn reply_chain_is_shown_message_by_message() {
    let chain = ReplyChain {
        command_name: "ask".to_string(),
        options: vec![("seed".to_string(), OptionValue::Integer(4))],
        messages: vec![message(1, true), message(2, false)],
    };
    let shown = LuaReplyChain::from(chain.clone());
    assert_eq!(shown.command_name, "ask");
    assert_eq!(shown.options, chain.options);
    assert_eq!(
        shown.messages,
        vec![LuaChainMessage::from(&message(1, true)), LuaChainMessage::from(&message(2, false))]
    );
}

#[test]
fn walk_collects_messages_and_returns_them_oldest_first() {
    let mut walk = ChainWalk::new(message(30, false), Some(20), 50);
    assert_eq!(walk.wanted(), Some(20));
    walk.resolved(message(20, true), Some(10));
    assert_eq!(walk.wanted(), Some(10));
    walk.resolved(message(10, false), None);
    assert_eq!(walk.wanted(), None);
    assert_eq!(walk.finish(), vec![message(10, false), message(20, true), message(30, false)]);
}

#[test]
fn walk_stops_at_its_depth() {
    let mut walk = ChainWalk::new(message(30, false), Some(20), 1);
    assert_eq!(walk.wanted(), Some(20));
    walk.resolved(message(20, true), Some(10));
    assert_eq!(walk.wanted(), None);
    // nothing is wanted any more: a further message is not taken
    walk.resolved(message(10, true), None);
    assert_eq!(walk.finish(), vec![message(20, true), message(30, false)]);

    let walk = ChainWalk::new(message(30, false), Some(20), 0);
    assert_eq!(walk.wanted(), None);
    assert_eq!(walk.finish(), vec![message(30, false)]);
}

#[test]
fn walk_ends_where_a_message_cannot_be_had() {
    let mut walk = ChainWalk::new(message(30, false), Some(20), 50);
    walk.unavailable();
    assert_eq!(walk.wanted(), None);
    assert_eq!(walk.finish(), vec![message(30, false)]);
}

#[test]
fn walk_without_reference_is_the_message_alone() {
    let walk = ChainWalk::new(message(30, false), None, 50);
    assert_eq!(walk.wanted(), None);
    assert_eq!(walk.finish(), vec![message(30, false)]);
}
