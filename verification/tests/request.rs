use grok_anthropic_bridge::epoch::SessionEpoch;
use grok_anthropic_bridge::json::{Json, JsonNumber};
use grok_anthropic_bridge::reasoning_signature::{encode_reasoning_signature, ReasoningReplay};
use grok_anthropic_bridge::translate::request::{
    strip_context_suffix, translate_messages_request, ConversationItem, ConversationRequest,
    ConversationToolChoice, HostedTool, ReasoningEffort, ToolCall, TranslateError,
};

fn epoch() -> SessionEpoch {
    SessionEpoch {
        claude_session_id: "s".into(),
        grok_session_id: "s".into(),
        conv_id: "c".into(),
        turn: 1,
        tools_hash: None,
        epoch: 0,
    }
}

fn translate(body: &str) -> Result<ConversationRequest, TranslateError> {
    translate_messages_request(&Json::parse(body).unwrap(), &epoch(), "grok-4.5", "r1")
}

fn refusal(body: &str) -> String {
    translate(body).unwrap_err().to_string()
}

#[test]
fn strips_1m_suffix() {
    assert_eq!(strip_context_suffix("grok-4.5[1m]"), "grok-4.5");
}

#[test]
fn maps_simple_user_message() {
    let req = translate(
        r#"{
            "model": "grok-4.5",
            "max_tokens": 128,
            "messages": [{"role": "user", "content": "hi"}]
        }"#,
    )
    .unwrap();
    assert_eq!(req.model.as_deref(), Some("grok-4.5"));
    assert_eq!(req.items.len(), 1);
}

#[test]
fn accepts_system_role_in_messages_array() {
    let req = translate(
        r#"{
            "model": "grok-4.5",
            "max_tokens": 64,
            "messages": [
                {"role": "system", "content": "You are helpful."},
                {"role": "user", "content": "hi"}
            ]
        }"#,
    )
    .unwrap();
    assert!(req.items.len() >= 2);
    assert!(matches!(&req.items[0], ConversationItem::System(_)));
}

#[test]
fn fills_the_request() {
    let req = translate(
        r#"{
            "model": "[1m]",
            "max_tokens": 4294967298,
            "temperature": 0.5,
            "top_p": 1,
            "output_config": {"effort": "max"},
            "tool_choice": {"type": "tool", "name": "t"},
            "messages": []
        }"#,
    )
    .unwrap();
    assert_eq!(req.model.as_deref(), Some("grok-4.5"));
    assert_eq!(req.max_output_tokens, Some(2));
    assert!(matches!(&req.temperature, Some(JsonNumber::Fraction(n)) if n.as_f64() == Some(0.5)));
    assert_eq!(req.top_p, Some(JsonNumber::Unsigned(1)));
    assert_eq!(req.reasoning_effort, Some(ReasoningEffort::Xhigh));
    assert_eq!(req.tool_choice, Some(ConversationToolChoice::Function("t".into())));
    assert_eq!(req.x_grok_conv_id.as_deref(), Some("c"));
    assert_eq!(req.x_grok_req_id.as_deref(), Some("r1"));
    assert_eq!(req.x_grok_session_id.as_deref(), Some("s"));
    assert_eq!(req.x_grok_turn_idx.as_deref(), Some("1"));
    assert_eq!(req.x_grok_agent_id.as_deref(), Some("anthropic-bridge"));
    assert_eq!(req.x_grok_deployment_id, None);
    assert_eq!(req.x_grok_user_id, None);
    assert!(req.items.is_empty());
}

#[test]
fn leaves_out_what_is_not_there() {
    let req = translate(
        r#"{"max_tokens": -1, "temperature": "hot", "tool_choice": 5, "tools": {}, "messages": []}"#,
    )
    .unwrap();
    assert_eq!(req.max_output_tokens, None);
    assert_eq!(req.temperature, None);
    assert_eq!(req.top_p, None);
    assert_eq!(req.tool_choice, None);
    assert_eq!(req.reasoning_effort, None);
    assert!(req.tools.is_empty() && req.hosted_tools.is_empty());
}

#[test]
fn system_comes_first() {
    let req = translate(
        r#"{
            "system": [{"type": "text", "text": "a"}, {"text": "b"}],
            "messages": [
                {"role": "system", "content": ["c", {"text": "d"}, {"x": 1}, 5]},
                {"role": "system", "content": ""},
                {"role": "system"}
            ]
        }"#,
    )
    .unwrap();
    assert_eq!(
        req.items,
        vec![ConversationItem::System("ab".into()), ConversationItem::System("cd".into())]
    );
    let none = translate(r#"{"system": null, "messages": []}"#).unwrap();
    assert!(none.items.is_empty());
    let empty = translate(r#"{"system": "", "messages": []}"#).unwrap();
    assert!(empty.items.is_empty());
}

#[test]
fn user_blocks_become_items() {
    let req = translate(
        r#"{"messages": [{"role": "user", "content": [
            {"type": "text", "text": "look "},
            {"type": "image", "source": {}},
            {"type": "tool_result", "tool_use_id": "t1", "content": "out"},
            {"type": "tool_result", "content": [{"text": "x"}, {"type": "image"}, {"text": "y"}]},
            {"type": "tool_result", "tool_use_id": "t3", "content": {"b": 1, "a": [true, null]}},
            {"type": "tool_result", "tool_use_id": "t4"},
            {"type": "cache_control"},
            {"type": "text"},
            {"type": "text", "text": "end"}
        ]}, {"role": "user"}, {"role": "user", "content": ""}]}"#,
    )
    .unwrap();
    let result = |call_id: &str, output: &str| ConversationItem::ToolResult {
        call_id: call_id.into(),
        output: output.into(),
    };
    assert_eq!(
        req.items,
        vec![
            ConversationItem::User("look [image omitted]".into()),
            result("t1", "out"),
            result("tool_call", "x[image omitted]y"),
            result("t3", r#"{"a":[true,null],"b":1}"#),
            result("t4", ""),
            ConversationItem::User("end".into()),
            ConversationItem::User("".into()),
        ]
    );
}

#[test]
fn assistant_blocks_become_items() {
    let replay = ReasoningReplay { id: "rs_1".into(), encrypted_content: "enc".into() };
    let sig = encode_reasoning_signature(&replay).unwrap();
    let body = format!(
        r#"{{"messages": [
            {{"role": "assistant", "content": "plain"}},
            {{"role": "assistant", "content": [
                {{"type": "thinking", "thinking": "hm", "signature": "{sig}"}},
                {{"type": "redacted_thinking", "signature": "foreign"}},
                {{"type": "text", "text": "said"}}
            ]}},
            {{"role": "assistant", "content": [
                {{"type": "text", "text": "dropped"}},
                {{"type": "tool_use", "id": "t1", "name": "echo", "input": {{"b": 2, "a": 1}}}},
                {{"type": "tool_use"}}
            ]}},
            {{"role": "assistant", "content": []}}
        ]}}"#
    );
    let req = translate(&body).unwrap();
    let call = |id: &str, name: &str, arguments: &str| ToolCall {
        id: id.into(),
        name: name.into(),
        arguments: arguments.into(),
    };
    assert_eq!(
        req.items,
        vec![
            ConversationItem::Assistant("plain".into()),
            ConversationItem::Reasoning { id: "rs_1".into(), encrypted_content: "enc".into() },
            ConversationItem::Assistant("said".into()),
            ConversationItem::AssistantToolCalls(vec![
                call("t1", "echo", r#"{"a":1,"b":2}"#),
                call("tool_call", "tool", "{}"),
            ]),
        ]
    );
}

#[test]
fn tools_are_sorted_into_kinds() {
    let req = translate(
        r#"{"messages": [], "tools": [
            {"name": "f", "description": "d", "input_schema": {"type": "object", "x": 1}},
            {"name": "WebSearch", "allowed_domains": ["a.com", 5, "b.com"]},
            {"name": "web_search_2"},
            {"name": "other", "type": "web_search_20250305"},
            {"name": "XSearch"},
            {"name": "x_search_2"},
            {"name": "other", "type": "my_x_search"},
            {"name": "g", "parameters": {"p": 1}},
            {"name": "h"},
            {"description": "nameless"}
        ]}"#,
    )
    .unwrap();
    assert_eq!(
        req.hosted_tools,
        vec![
            HostedTool::WebSearch { allowed_domains: Some(vec!["a.com".into(), "b.com".into()]) },
            HostedTool::WebSearch { allowed_domains: None },
            HostedTool::WebSearch { allowed_domains: None },
            HostedTool::XSearch,
            HostedTool::XSearch,
            HostedTool::XSearch,
        ]
    );
    let names: Vec<&str> = req.tools.iter().map(|t| t.name.as_str()).collect();
    assert_eq!(names, vec!["f", "g", "h"]);
    assert_eq!(req.tools[0].description.as_deref(), Some("d"));
    assert_eq!(req.tools[0].parameters.to_text(), r#"{"type":"object","x":1}"#);
    assert_eq!(req.tools[1].parameters.to_text(), r#"{"p":1}"#);
    assert_eq!(req.tools[2].parameters.to_text(), r#"{"properties":{},"type":"object"}"#);
}

#[test]
fn tool_choices_are_read() {
    let choice = |v: &str| {
        translate(&format!(r#"{{"messages": [], "tool_choice": {v}}}"#)).unwrap().tool_choice
    };
    assert_eq!(choice(r#""auto""#), Some(ConversationToolChoice::Auto));
    assert_eq!(choice(r#""none""#), Some(ConversationToolChoice::Never));
    assert_eq!(choice(r#""any""#), Some(ConversationToolChoice::Required));
    assert_eq!(choice(r#""required""#), Some(ConversationToolChoice::Required));
    assert_eq!(choice(r#""tool""#), None);
    assert_eq!(choice(r#"{"type": "auto"}"#), Some(ConversationToolChoice::Auto));
    assert_eq!(choice(r#"{"type": "any"}"#), Some(ConversationToolChoice::Required));
    assert_eq!(choice(r#"{"type": "none"}"#), Some(ConversationToolChoice::Never));
    assert_eq!(choice(r#"{"type": "required"}"#), None);
    assert_eq!(choice(r#"{"type": "tool"}"#), None);
    assert_eq!(choice("null"), None);
}

#[test]
fn efforts_are_read() {
    let effort = |v: &str| {
        let body = format!(r#"{{"messages": [], "output_config": {{"effort": "{v}"}}}}"#);
        translate(&body).unwrap().reasoning_effort
    };
    assert_eq!(effort("none"), Some(ReasoningEffort::Off));
    assert_eq!(effort("minimal"), Some(ReasoningEffort::Low));
    assert_eq!(effort("low"), Some(ReasoningEffort::Low));
    assert_eq!(effort("medium"), Some(ReasoningEffort::Medium));
    assert_eq!(effort("high"), Some(ReasoningEffort::High));
    assert_eq!(effort("xhigh"), Some(ReasoningEffort::Xhigh));
    assert_eq!(effort("huge"), None);
}

#[test]
fn refusals_name_the_first_fault() {
    assert_eq!(refusal("{}"), "messages must be an array");
    assert_eq!(refusal("5"), "messages must be an array");
    assert_eq!(refusal(r#"{"messages": {}}"#), "messages must be an array");
    assert_eq!(refusal(r#"{"system": 5}"#), "unsupported system shape");
    assert_eq!(refusal(r#"{"system": [{"x": 1}]}"#), "system block missing text");
    assert_eq!(refusal(r#"{"messages": [{}]}"#), "message missing role");
    assert_eq!(
        refusal(r#"{"messages": [{"role": "robot"}, {}]}"#),
        "unsupported message role: robot"
    );
    assert_eq!(
        refusal(r#"{"messages": [{"role": "system", "content": 5}]}"#),
        "unsupported content shape for system/text"
    );
    assert_eq!(
        refusal(r#"{"messages": [{"role": "user", "content": null}]}"#),
        "unsupported user content shape"
    );
    assert_eq!(
        refusal(r#"{"messages": [{"role": "assistant", "content": {}}]}"#),
        "unsupported assistant content shape"
    );
}

#[test]
fn a_further_message_leaves_the_earlier_items() {
    let one = translate(r#"{"messages": [{"role": "user", "content": "hi"}]}"#).unwrap();
    let two = translate(
        r#"{"messages": [{"role": "user", "content": "hi"}, {"role": "assistant", "content": "yo"}]}"#,
    )
    .unwrap();
    assert_eq!(one.items.len(), 1);
    assert_eq!(two.items.len(), 2);
    assert_eq!(format!("{:?}", one.items[0]), format!("{:?}", two.items[0]));
}
