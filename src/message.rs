//! Conversation turns and response envelopes, with their wire objects.

use vstd::prelude::*;
use crate::json::{
    Json, JsonView, lemma_lookup_at, lemma_members_view_empty, lookup, members_view,
    push_member,
};
use crate::wire::{DecodeError, DecodeErrorView, decode_str, result_view, str_member};

verus! {

/// Who speaks a turn.
#[derive(Debug, Clone, Copy, PartialEq, Eq, Structural)]
pub enum Role {
    System,
    Assistant,
    User,
}

/// The wire name of a role: its lowercase name.
pub open spec fn role_name(r: Role) -> Seq<char> {
    match r {
        Role::System => "system"@,
        Role::Assistant => "assistant"@,
        Role::User => "user"@,
    }
}

/// The role with the wire name `s`, if any.
pub open spec fn role_named(s: Seq<char>) -> Option<Role> {
    if s == "system"@ {
        Some(Role::System)
    } else if s == "assistant"@ {
        Some(Role::Assistant)
    } else if s == "user"@ {
        Some(Role::User)
    } else {
        None
    }
}

/// A required role.
pub open spec fn decode_role(f: Option<JsonView>, path: Seq<char>) -> Result<Role, DecodeErrorView> {
    match f {
        None => Err(DecodeErrorView::Missing(path)),
        Some(JsonView::Str(s)) => match role_named(s) {
            Some(r) => Ok(r),
            None => Err(DecodeErrorView::Invalid(path)),
        },
        Some(_) => Err(DecodeErrorView::Invalid(path)),
    }
}

/// Each role is found again from its wire name.
pub proof fn lemma_role_name_round_trip(r: Role)
    ensures
        role_named(role_name(r)) == Some(r),
{
    reveal_strlit("system");
    reveal_strlit("assistant");
    reveal_strlit("user");
    assert("system"@.len() != "assistant"@.len());
    assert("user"@.len() != "assistant"@.len());
    assert("system"@.len() != "user"@.len());
}

impl Role {
    /// The wire name.
    pub fn name(&self) -> (r: &'static str)
        ensures
            r@ == role_name(*self),
    {
        match self {
            Role::System => "system",
            Role::Assistant => "assistant",
            Role::User => "user",
        }
    }

    /// The role with the wire name `s`.
    pub fn from_name(s: &str) -> (r: Option<Role>)
        ensures
            r == role_named(s@),
    {
        let owned = s.to_owned();
        if owned == "system".to_owned() {
            Some(Role::System)
        } else if owned == "assistant".to_owned() {
            Some(Role::Assistant)
        } else if owned == "user".to_owned() {
            Some(Role::User)
        } else {
            None
        }
    }
}

/// A flat text turn, for endpoints that take no multimodal content.
#[derive(Debug)]
pub struct Message {
    pub role: Role,
    pub content: String,
}

pub struct MessageView {
    pub role: Role,
    pub content: Seq<char>,
}

impl View for Message {
    type V = MessageView;

    open spec fn view(&self) -> MessageView {
        MessageView { role: self.role, content: self.content@ }
    }
}

impl Clone for Message {
    fn clone(&self) -> (r: Message)
        ensures
            r@ == self@,
    {
        Message { role: self.role, content: self.content.clone() }
    }
}

/// `{"role": <role>, "content": <string>}`
pub open spec fn message_wire(m: MessageView) -> JsonView {
    JsonView::Object(seq![("role"@, JsonView::Str(role_name(m.role))), ("content"@, JsonView::Str(m.content))])
}

/// A message decoded from a wire object whose field paths start with `at`.
pub open spec fn decode_message(v: JsonView, at: Seq<char>) -> Result<MessageView, DecodeErrorView> {
    match v {
        JsonView::Object(ms) => match decode_role(lookup(ms, "role"@), at + "role"@) {
            Err(e) => Err(e),
            Ok(role) => match decode_str(lookup(ms, "content"@), at + "content"@) {
                Err(e) => Err(e),
                Ok(content) => Ok(MessageView { role, content }),
            },
        },
        _ => Err(DecodeErrorView::Invalid(at)),
    }
}

/// Decoding the wire object of a message gives it back, wherever it stands.
pub proof fn lemma_message_round_trip(m: MessageView, at: Seq<char>)
    ensures
        decode_message(message_wire(m), at) == Ok::<MessageView, DecodeErrorView>(m),
{
    reveal_strlit("role");
    reveal_strlit("content");
    let ms = message_wire(m)->Object_0;
    assert(ms[0].0.len() != ms[1].0.len());
    lemma_lookup_at(ms, 0, "role"@);
    lemma_lookup_at(ms, 1, "content"@);
    lemma_role_name_round_trip(m.role);
}

/// The role held by the member `key`.
pub(crate) fn role_member(ms: &Vec<(String, Json)>, key: &str, path: &str) -> (r: Result<Role, DecodeError>)
    ensures
        result_view(r, |x: Role| x) == decode_role(lookup(members_view(ms@), key@), path@),
{
    match str_member(ms, key, path) {
        Err(DecodeError::Missing(p)) => Err(DecodeError::Missing(p)),
        Err(DecodeError::Invalid(p)) => Err(DecodeError::Invalid(p)),
        Ok(s) => match Role::from_name(s.as_str()) {
            Some(role) => Ok(role),
            None => Err(DecodeError::Invalid(path.to_owned())),
        },
    }
}

/// `at` followed by `field`.
fn field_path(at: &str, field: &str) -> (r: String)
    ensures
        r@ == at@ + field@,
{
    at.to_owned().concat(field)
}

impl Message {
    /// The wire object.
    pub fn to_json(&self) -> (r: Json)
        ensures
            r@ == message_wire(self@),
            decode_message(r@, ""@) == Ok::<MessageView, DecodeErrorView>(self@),
    {
        proof {
            lemma_message_round_trip(self@, ""@);
        }
        let mut ms: Vec<(String, Json)> = Vec::new();
        proof {
            lemma_members_view_empty();
        }
        push_member(&mut ms, "role", Json::Str(self.role.name().to_owned()));
        push_member(&mut ms, "content", Json::Str(self.content.clone()));
        assert(members_view(ms@) =~= seq![("role"@, JsonView::Str(role_name(self.role))), ("content"@, JsonView::Str(self.content@))]);
        Json::Object(ms)
    }

    /// Decodes a message from its wire object; field paths in errors start
    /// with `at`.
    pub fn from_json_at(j: &Json, at: &str) -> (r: Result<Message, DecodeError>)
        ensures
            result_view(r, |m: Message| m@) == decode_message(j@, at@),
    {
        match j {
            Json::Object(ms) => {
                let role_path = field_path(at, "role");
                let role = match role_member(ms, "role", role_path.as_str()) {
                    Ok(role) => role,
                    Err(e) => return Err(e),
                };
                let content_path = field_path(at, "content");
                let content = match str_member(ms, "content", content_path.as_str()) {
                    Ok(c) => c,
                    Err(e) => return Err(e),
                };
                Ok(Message { role, content })
            },
            _ => Err(DecodeError::Invalid(at.to_owned())),
        }
    }

    /// Decodes a message from its wire object.
    pub fn from_json(j: &Json) -> (r: Result<Message, DecodeError>)
        ensures
            result_view(r, |m: Message| m@) == decode_message(j@, ""@),
    {
        Message::from_json_at(j, "")
    }
}

} // verus!
