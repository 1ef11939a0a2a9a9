use openai_api::chat::ChatMessage;
use openai_api::content::Content;
use openai_api::json::Json;
use openai_api::message::Role;
use openai_api::wire::DecodeError;

const PNG_1X1: [u8; 67] = [
    0x89, 0x50, 0x4e, 0x47, 0x0d, 0x0a, 0x1a, 0x0a, 0x00, 0x00, 0x00, 0x0d, 0x49, 0x48, 0x44,
    0x52, 0x00, 0x00, 0x00, 0x01, 0x00, 0x00, 0x00, 0x01, 0x08, 0x06, 0x00, 0x00, 0x00, 0x1f,
    0x15, 0xc4, 0x89, 0x00, 0x00, 0x00, 0x0a, 0x49, 0x44, 0x41, 0x54, 0x78, 0x9c, 0x63, 0x00,
    0x01, 0x00, 0x00, 0x05, 0x00, 0x01, 0x0d, 0x0a, 0x2d, 0xb4, 0x00, 0x00, 0x00, 0x00, 0x49,
    0x45, 0x4e, 0x44, 0xae, 0x42, 0x60, 0x82,
];

fn members(j: &Json) -> &Vec<(String, Json)> {
    match j {
        Json::Object(ms) => ms,
        other => panic!("not an object: {:?}", other),
    }
}

fn get<'a>(j: &'a Json, key: &str) -> &'a Json {
    &members(j).iter().find(|(k, _)| k == key).unwrap().1
}

fn as_str(j: &Json) -> &str {
    match j {
        Json::Str(s) => s.as_str(),
        other => panic!("not a string: {:?}", other),
    }
}

fn sample() -> ChatMessage {
    ChatMessage {
        role: Role::User,
        content: vec![Content::with_text("describe this"), Content::with_png(&PNG_1X1)],
    }
}

#[test]
fn describe_png_end_to_end() {
    let w = sample().to_json();
    assert_eq!(as_str(get(&w, "role")), "user");
    let parts = match get(&w, "content") {
        Json::Array(a) => a,
        other => panic!("not an array: {:?}", other),
    };
    assert_eq!(parts.len(), 2);
    assert_eq!(as_str(get(&parts[0], "type")), "text");
    assert_eq!(as_str(get(get(&parts[0], "text"), "url")), "describe this");
    assert_eq!(as_str(get(&parts[1], "type")), "text");
    assert!(as_str(get(get(&parts[1], "image_url"), "url")).starts_with("data:image/png;base64,"));
}

#[test]
fn chat_round_trip_keeps_role_and_parts() {
    let m = sample();
    let w = m.to_json();
    let back = ChatMessage::from_json(&w).unwrap();
    assert_eq!(back.role, Role::User);
    assert_eq!(back.content.len(), 2);
    for (a, b) in back.content.iter().zip(m.content.iter()) {
        assert_eq!(a.type_, b.type_);
        assert_eq!(format!("{:?}", a.payload()), format!("{:?}", b.payload()));
    }
    assert_eq!(format!("{:?}", back.to_json()), format!("{:?}", w));
}

#[test]
fn chat_round_trip_with_no_parts() {
    let m = ChatMessage { role: Role::System, content: vec![] };
    let back = ChatMessage::from_json(&m.to_json()).unwrap();
    assert_eq!(back.role, Role::System);
    assert!(back.content.is_empty());
}

#[test]
fn appending_to_clone_leaves_original() {
    let m = sample();
    let mut copy = m.clone();
    copy.content.push(Content::with_text("more"));
    assert_eq!(m.content.len(), 2);
    assert_eq!(copy.content.len(), 3);
    assert_eq!(copy.role, m.role);
}

#[test]
fn chat_without_role_is_missing() {
    let w = Json::Object(vec![("content".to_string(), Json::Array(vec![]))]);
    assert!(matches!(ChatMessage::from_json(&w), Err(DecodeError::Missing(p)) if p == "role"));
}

#[test]
fn chat_with_unknown_role_is_invalid() {
    let w = Json::Object(vec![
        ("role".to_string(), Json::Str("robot".to_string())),
        ("content".to_string(), Json::Array(vec![])),
    ]);
    assert!(matches!(ChatMessage::from_json(&w), Err(DecodeError::Invalid(p)) if p == "role"));
}

#[test]
fn chat_without_content_is_missing() {
    let w = Json::Object(vec![("role".to_string(), Json::Str("user".to_string()))]);
    assert!(matches!(ChatMessage::from_json(&w), Err(DecodeError::Missing(p)) if p == "content"));
}

#[test]
fn chat_with_string_content_is_invalid() {
    let w = Json::Object(vec![
        ("role".to_string(), Json::Str("user".to_string())),
        ("content".to_string(), Json::Str("hi".to_string())),
    ]);
    assert!(matches!(ChatMessage::from_json(&w), Err(DecodeError::Invalid(p)) if p == "content"));
}

#[test]
fn chat_reports_first_bad_part() {
    let w = Json::Object(vec![
        ("role".to_string(), Json::Str("assistant".to_string())),
        (
            "content".to_string(),
            Json::Array(vec![Content::with_text("ok").to_json(), Json::Null, Json::Object(vec![])]),
        ),
    ]);
    assert!(matches!(ChatMessage::from_json(&w), Err(DecodeError::Invalid(p)) if p == "content[]"));
}
