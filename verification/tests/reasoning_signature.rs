use grok_anthropic_bridge::json::Json;
use grok_anthropic_bridge::reasoning_signature::{
    decode_reasoning_signature, encode_reasoning_signature, encoded_id_len_limit, max_payload_len,
    replay_from_parts, PendingReasoning, ReasoningReplay, PREFIX,
};

#[test]
fn signature_round_trip() {
    let replay = ReasoningReplay {
        id: "rs_abc".into(),
        encrypted_content: "gAAAAopaque".into(),
    };
    let sig = encode_reasoning_signature(&replay).unwrap();
    assert!(sig.starts_with(PREFIX));
    assert_eq!(decode_reasoning_signature(&sig), Some(replay));
}

#[test]
fn foreign_signatures_ignored() {
    assert_eq!(decode_reasoning_signature("ccp:grok:v1:x:y"), None);
    assert_eq!(decode_reasoning_signature("anthropic"), None);
}

#[test]
fn a_signature_is_prefix_id_and_content() {
    let replay = ReasoningReplay { id: "rs?>é".into(), encrypted_content: "a:b".into() };
    let sig = encode_reasoning_signature(&replay).unwrap();
    assert_eq!(sig, "grok-bridge:v1:cnM_PsOp:a:b");
    assert_eq!(decode_reasoning_signature(&sig), Some(replay));
}

#[test]
fn parts_out_of_bounds_are_not_carried() {
    let make = |id: String, content: String| {
        encode_reasoning_signature(&ReasoningReplay { id, encrypted_content: content })
    };
    assert!(make(String::new(), "c".into()).is_none());
    assert!(make("i".into(), String::new()).is_none());
    assert!(make("i".repeat(4096), "c".into()).is_some());
    assert!(make("i".repeat(4097), "c".into()).is_none());
    assert!(make("i".into(), "c".repeat(8_388_608)).is_some());
    assert!(make("i".into(), "c".repeat(8_388_609)).is_none());
}

#[test]
fn broken_signatures_carry_nothing() {
    assert_eq!(decode_reasoning_signature("grok-bridge:v1:"), None);
    assert_eq!(decode_reasoning_signature("grok-bridge:v1:abc"), None);
    assert_eq!(decode_reasoning_signature("grok-bridge:v1::c"), None);
    assert_eq!(decode_reasoning_signature("grok-bridge:v1:aWQ:"), None);
    assert_eq!(decode_reasoning_signature("grok-bridge:v1:a*b:c"), None);
    assert_eq!(decode_reasoning_signature("grok-bridge:v1:aWQ=:c"), None);
    assert_eq!(decode_reasoning_signature("grok-bridge:v1:_w:c"), None);
    assert!(decode_reasoning_signature("grok-bridge:v1:aWQ:c").is_some());
    assert_eq!(replay_from_parts(Some(vec![0xff]), "c".into()), None);
    assert_eq!(replay_from_parts(Some(Vec::new()), "c".into()), None);
    assert_eq!(replay_from_parts(None, "c".into()), None);
}

#[test]
fn limits_are_those_of_base64() {
    assert_eq!(encoded_id_len_limit(), 5464);
    assert_eq!(max_payload_len(), 5464 + 1 + 8_388_608);
}

#[test]
fn fields_are_gathered() {
    let mut p = PendingReasoning::default();
    assert!(p.replay().is_none());
    p.capture(&Json::parse(r#"{"id": "rs_1", "encrypted_content": ""}"#).unwrap());
    assert!(p.replay().is_none());
    p.capture_fields(Some(""), Some("enc"));
    assert_eq!(
        p.replay(),
        Some(ReasoningReplay { id: "rs_1".into(), encrypted_content: "enc".into() })
    );
}

#[test]
fn what_decodes_encodes_to_itself() {
    let sig = "grok-bridge:v1:cnNfYQ:gAAA:with:colons";
    let replay = decode_reasoning_signature(sig).unwrap();
    assert_eq!((replay.id.as_str(), replay.encrypted_content.as_str()), ("rs_a", "gAAA:with:colons"));
    assert_eq!(encode_reasoning_signature(&replay).as_deref(), Some(sig));
    for other in ["cnNfYQ==", "cnNfYR", "cnNfY", "cnNf YQ", "cnNfY+"] {
        assert_eq!(decode_reasoning_signature(&format!("grok-bridge:v1:{other}:x")), None);
    }
}
