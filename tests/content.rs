use openai_api::content::Content;
use openai_api::json::Json;

fn members(j: &Json) -> &Vec<(String, Json)> {
    match j {
        Json::Object(ms) => ms,
        other => panic!("not an object: {:?}", other),
    }
}

fn url_under<'a>(payload: &'a Json, key: &str) -> &'a str {
    let ms = members(payload);
    assert_eq!(ms.len(), 1);
    assert_eq!(ms[0].0, key);
    let inner = members(&ms[0].1);
    assert_eq!(inner.len(), 1);
    assert_eq!(inner[0].0, "url");
    match &inner[0].1 {
        Json::Str(s) => s.as_str(),
        other => panic!("not a string: {:?}", other),
    }
}

#[test]
fn text_part_carries_text_under_url() {
    let c = Content::with_text("hello");
    assert_eq!(c.type_, "text");
    assert_eq!(url_under(c.payload(), "text"), "hello");
}

#[test]
fn text_part_accepts_empty_string() {
    let c = Content::with_text("");
    assert_eq!(url_under(c.payload(), "text"), "");
}

#[test]
fn image_part_is_tagged_text() {
    let c = Content::with_image("https://example.com/cat.png");
    assert_eq!(c.type_, "text");
    assert_eq!(url_under(c.payload(), "image_url"), "https://example.com/cat.png");
}

#[test]
fn jpeg_part_embeds_base64() {
    let c = Content::with_jpeg(&[1, 2, 3]);
    assert_eq!(c.type_, "text");
    assert_eq!(url_under(c.payload(), "image_url"), "data:image/jpeg;base64,AQID");
}

#[test]
fn png_part_embeds_padded_base64() {
    let c = Content::with_png(&[0x89, b'P', b'N', b'G']);
    assert_eq!(url_under(c.payload(), "image_url"), "data:image/png;base64,iVBORw==");
}

#[test]
fn empty_bytes_give_empty_base64_body() {
    let c = Content::with_png(&[]);
    assert_eq!(url_under(c.payload(), "image_url"), "data:image/png;base64,");
}

#[test]
fn jpeg_and_png_differ_only_in_prefix() {
    let bytes = b"Man is distinguished";
    let j = Content::with_jpeg(bytes);
    let p = Content::with_png(bytes);
    let ju = url_under(j.payload(), "image_url");
    let pu = url_under(p.payload(), "image_url");
    let jb = ju.strip_prefix("data:image/jpeg;base64,").unwrap();
    let pb = pu.strip_prefix("data:image/png;base64,").unwrap();
    assert_eq!(jb, pb);
    assert_eq!(jb, "TWFuIGlzIGRpc3Rpbmd1aXNoZWQ=");
    assert_eq!(j.type_, p.type_);
}

#[test]
fn part_wire_object_puts_type_first() {
    let w = Content::with_text("x").to_json();
    let ms = members(&w);
    assert_eq!(ms.len(), 2);
    assert_eq!(ms[0].0, "type");
    assert!(matches!(&ms[0].1, Json::Str(s) if s == "text"));
    assert_eq!(ms[1].0, "text");
}

#[test]
fn part_decodes_from_wire_object() {
    let w = Content::with_image("u").to_json();
    let c = Content::from_json(&w).unwrap();
    assert_eq!(c.type_, "text");
    assert_eq!(url_under(c.payload(), "image_url"), "u");
}

#[test]
fn part_keeps_unknown_members() {
    let w = Json::Object(vec![
        ("extra".to_string(), Json::Number(7)),
        ("type".to_string(), Json::Str("image".to_string())),
        ("detail".to_string(), Json::Bool(true)),
    ]);
    let c = Content::from_json(&w).unwrap();
    assert_eq!(c.type_, "image");
    let ms = members(c.payload());
    assert_eq!(ms.len(), 2);
    assert_eq!(ms[0].0, "extra");
    assert_eq!(ms[1].0, "detail");
}

#[test]
fn part_without_type_is_missing() {
    let w = Json::Object(vec![("text".to_string(), Json::Null)]);
    let e = Content::from_json(&w).unwrap_err();
    assert!(matches!(e, openai_api::wire::DecodeError::Missing(p) if p == "content[].type"));
}

#[test]
fn part_with_numeric_type_is_invalid() {
    let w = Json::Object(vec![("type".to_string(), Json::Number(1))]);
    let e = Content::from_json(&w).unwrap_err();
    assert!(matches!(e, openai_api::wire::DecodeError::Invalid(p) if p == "content[].type"));
}

#[test]
fn part_that_is_not_an_object_is_invalid() {
    let e = Content::from_json(&Json::Str("x".to_string())).unwrap_err();
    assert!(matches!(e, openai_api::wire::DecodeError::Invalid(p) if p == "content[]"));
}
