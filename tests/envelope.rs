use openai_api::envelope::{Choice, Usage};
use openai_api::json::Json;
use openai_api::message::{Message, Role};
use openai_api::wire::DecodeError;

fn obj(ms: Vec<(&str, Json)>) -> Json {
    Json::Object(ms.into_iter().map(|(k, v)| (k.to_string(), v)).collect())
}

#[test]
fn usage_with_all_fields_absent_is_all_none() {
    let u = Usage::from_json(&obj(vec![])).unwrap();
    assert_eq!(u, Usage { prompt_tokens: None, completion_tokens: None, total_tokens: None });
    let zero = Usage::from_json(&obj(vec![
        ("prompt_tokens", Json::Number(0)),
        ("completion_tokens", Json::Number(0)),
        ("total_tokens", Json::Number(0)),
    ]))
    .unwrap();
    assert_eq!(zero, Usage { prompt_tokens: Some(0), completion_tokens: Some(0), total_tokens: Some(0) });
    assert_ne!(u, zero);
}

#[test]
fn usage_null_is_none() {
    let u = Usage::from_json(&obj(vec![("total_tokens", Json::Null), ("prompt_tokens", Json::Number(5))])).unwrap();
    assert_eq!(u, Usage { prompt_tokens: Some(5), completion_tokens: None, total_tokens: None });
}

#[test]
fn usage_round_trip() {
    let u = Usage { prompt_tokens: Some(3), completion_tokens: None, total_tokens: Some(4_294_967_295) };
    assert_eq!(Usage::from_json(&u.to_json()).unwrap(), u);
}

#[test]
fn usage_count_too_large_is_invalid() {
    let e = Usage::from_json(&obj(vec![("completion_tokens", Json::Number(4_294_967_296))])).unwrap_err();
    assert!(matches!(e, DecodeError::Invalid(p) if p == "completion_tokens"));
}

#[test]
fn usage_count_as_string_is_invalid() {
    let e = Usage::from_json(&obj(vec![("prompt_tokens", Json::Str("1".to_string()))])).unwrap_err();
    assert!(matches!(e, DecodeError::Invalid(p) if p == "prompt_tokens"));
}

#[test]
fn usage_from_array_is_invalid() {
    assert!(matches!(Usage::from_json(&Json::Array(vec![])), Err(DecodeError::Invalid(_))));
}

#[test]
fn choice_with_text_only() {
    let c = Choice::from_json(&obj(vec![
        ("text", Json::Str("hello".to_string())),
        ("index", Json::Number(0)),
        ("finish_reason", Json::Str("stop".to_string())),
    ]))
    .unwrap();
    assert_eq!(c.text.as_deref(), Some("hello"));
    assert_eq!(c.index, 0);
    assert_eq!(c.logprobs, None);
    assert_eq!(c.finish_reason.as_deref(), Some("stop"));
    assert!(c.message.is_none());
}

#[test]
fn choice_with_message() {
    let c = Choice::from_json(&obj(vec![
        ("index", Json::Number(2)),
        ("message", obj(vec![("role", Json::Str("assistant".to_string())), ("content", Json::Str("hi".to_string()))])),
    ]))
    .unwrap();
    let m = c.message.unwrap();
    assert_eq!(m.role, Role::Assistant);
    assert_eq!(m.content, "hi");
    assert_eq!(c.index, 2);
    assert!(c.text.is_none());
}

#[test]
fn choice_without_index_is_missing() {
    let e = Choice::from_json(&obj(vec![("text", Json::Str("x".to_string()))])).unwrap_err();
    assert!(matches!(e, DecodeError::Missing(p) if p == "index"));
}

#[test]
fn choice_with_bad_message_role_names_path() {
    let e = Choice::from_json(&obj(vec![
        ("index", Json::Number(1)),
        ("message", obj(vec![("role", Json::Str("bot".to_string())), ("content", Json::Str("x".to_string()))])),
    ]))
    .unwrap_err();
    assert!(matches!(e, DecodeError::Invalid(p) if p == "message.role"));
}

#[test]
fn choice_with_message_missing_content() {
    let e = Choice::from_json(&obj(vec![
        ("index", Json::Number(1)),
        ("message", obj(vec![("role", Json::Str("user".to_string()))])),
    ]))
    .unwrap_err();
    assert!(matches!(e, DecodeError::Missing(p) if p == "message.content"));
}

#[test]
fn choice_round_trip() {
    let c = Choice {
        text: None,
        index: 7,
        logprobs: Some("lp".to_string()),
        finish_reason: None,
        message: Some(Message { role: Role::System, content: "be brief".to_string() }),
    };
    let back = Choice::from_json(&c.to_json()).unwrap();
    assert_eq!(back.index, 7);
    assert_eq!(back.logprobs.as_deref(), Some("lp"));
    assert!(back.text.is_none() && back.finish_reason.is_none());
    let m = back.message.unwrap();
    assert_eq!(m.role, Role::System);
    assert_eq!(m.content, "be brief");
}

#[test]
fn message_wire_object() {
    let m = Message { role: Role::User, content: "hi".to_string() };
    let w = m.clone().to_json();
    assert_eq!(
        format!("{:?}", w),
        format!("{:?}", obj(vec![("role", Json::Str("user".to_string())), ("content", Json::Str("hi".to_string()))]))
    );
    let back = Message::from_json(&w).unwrap();
    assert_eq!(back.role, Role::User);
    assert_eq!(back.content, "hi");
}

#[test]
fn role_names_are_lowercase() {
    assert_eq!(Role::System.name(), "system");
    assert_eq!(Role::Assistant.name(), "assistant");
    assert_eq!(Role::User.name(), "user");
    assert_eq!(Role::from_name("assistant"), Some(Role::Assistant));
    assert_eq!(Role::from_name("User"), None);
}
