use std::collections::hash_map::DefaultHasher;
use std::hash::{Hash, Hasher};

use grok_anthropic_bridge::epoch::{canonical_tools_hash, SessionRegistry};
use grok_anthropic_bridge::json::Json;

fn json(s: &str) -> Json {
    Json::parse(s).unwrap()
}

#[test]
fn tools_hash_stable_under_key_reorder() {
    let a = json(r#"[{"name": "a", "description": "x", "input_schema": {"type": "object"}}]"#);
    let b = json(r#"[{"description": "x", "name": "a", "input_schema": {"type": "object"}}]"#);
    assert_eq!(canonical_tools_hash(&a), canonical_tools_hash(&b));
}

#[test]
fn tools_hash_ignores_the_order_in_which_members_are_set() {
    let a = Json::object().with("x", Json::number(1)).with("y", Json::number(2));
    let b = Json::object().with("y", Json::number(2)).with("x", Json::number(1));
    assert_eq!(canonical_tools_hash(&a), canonical_tools_hash(&b));
    let c = Json::object().with("y", Json::number(1)).with("x", Json::number(2));
    assert_ne!(canonical_tools_hash(&a), canonical_tools_hash(&c));
}

#[test]
fn tools_hash_is_sixteen_hexadecimal_digits() {
    let hash = canonical_tools_hash(&json(r#"[{"name": "a"}]"#));
    assert_eq!(hash.len(), 16);
    assert!(hash.chars().all(|c| c.is_ascii_digit() || ('a'..='f').contains(&c)));
}

#[test]
fn tools_hash_is_that_of_the_bytes() {
    let bytes: Vec<u8> = b"[{\"a\":1,\"b\":2}]".to_vec();
    let mut h = DefaultHasher::new();
    bytes.hash(&mut h);
    let expected = format!("{:016x}", h.finish());
    assert_eq!(canonical_tools_hash(&json(r#"[ {"b": 2, "a": 1} ]"#)), expected);
}

#[test]
fn epoch_rolls_on_tools_change() {
    let mut reg = SessionRegistry::new();
    let t1 = json(r#"[{"name": "a"}]"#);
    let t2 = json(r#"[{"name": "b"}]"#);
    let e1 = reg.begin_turn(Some("s1"), Some(&t1));
    let e2 = reg.begin_turn(Some("s1"), Some(&t1));
    let e3 = reg.begin_turn(Some("s1"), Some(&t2));
    assert_eq!(e1.epoch, e2.epoch);
    assert_eq!(e1.conv_id, e2.conv_id);
    assert_ne!(e2.conv_id, e3.conv_id);
    assert_eq!(e3.epoch, e1.epoch + 1);
    assert_eq!(e2.turn, 2);
    assert_eq!(e3.turn, 1);
}

#[test]
fn sessions_do_not_touch_each_other() {
    let mut reg = SessionRegistry::new();
    let t = json(r#"[{"name": "a"}]"#);
    let a = reg.begin_turn(Some("a"), Some(&t));
    let b = reg.begin_turn(Some("b"), None);
    assert_ne!(a.conv_id, b.conv_id);
    assert_eq!(b.tools_hash, None);
    assert_eq!(b.claude_session_id, "b");
    assert_eq!(b.grok_session_id, "b");
    let a2 = reg.begin_turn(Some("a"), None);
    assert_eq!(a2.conv_id, a.conv_id);
    assert_eq!(a2.tools_hash, a.tools_hash);
    assert_eq!(a2.turn, 2);
    assert_eq!(reg.turns(), 3);
}

#[test]
fn a_turn_without_a_session_id_gets_one_of_its_own() {
    let mut reg = SessionRegistry::new();
    let a = reg.begin_turn(None, None);
    let b = reg.begin_turn(Some(""), None);
    assert_ne!(a.claude_session_id, b.claude_session_id);
    assert_eq!(a.claude_session_id.len(), 36);
    assert_eq!(a.claude_session_id.chars().nth(14), Some('4'));
    assert_eq!((a.turn, b.turn), (1, 1));
}

#[test]
fn a_roll_takes_the_fresh_conversation() {
    let mut reg = SessionRegistry::new();
    let first = reg.begin_turn_with("s", Some("h1".into()), "c1".into());
    assert_eq!((first.conv_id.as_str(), first.turn, first.epoch), ("c1", 1, 0));
    let same = reg.begin_turn_with("s", Some("h1".into()), "c2".into());
    assert_eq!((same.conv_id.as_str(), same.turn, same.epoch), ("c1", 2, 0));
    let none = reg.begin_turn_with("s", None, "c3".into());
    assert_eq!((none.conv_id.as_str(), none.turn, none.epoch), ("c1", 3, 0));
    let rolled = reg.begin_turn_with("s", Some("h2".into()), "c4".into());
    assert_eq!((rolled.conv_id.as_str(), rolled.turn, rolled.epoch), ("c4", 1, 1));
    assert_eq!(rolled.tools_hash.as_deref(), Some("h2"));
}
