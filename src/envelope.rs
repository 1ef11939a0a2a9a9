//! Response envelopes: token usage and candidate completions.

use vstd::prelude::*;
use crate::json::{
    Json, JsonView, lemma_lookup_at, lemma_members_view_empty, lookup, members_view,
    push_member,
};
use crate::message::{Message, MessageView, decode_message, lemma_message_round_trip, message_wire};
use crate::wire::{
    DecodeError, DecodeErrorView, decode_opt_str, decode_opt_u32, decode_u32, opt_str_json,
    opt_str_member, opt_string_view, opt_u32_json, opt_u32_member, result_view, u32_member,
};

verus! {

/// Token counts of a request; the server leaves out those that do not apply.
#[derive(Debug, Clone, Copy, PartialEq, Eq, Structural)]
pub struct Usage {
    pub prompt_tokens: Option<u32>,
    pub completion_tokens: Option<u32>,
    pub total_tokens: Option<u32>,
}

/// A count on the wire: a number, or `null` for no value.
pub open spec fn count_wire(o: Option<u32>) -> JsonView {
    match o {
        Some(n) => JsonView::Number(n as nat),
        None => JsonView::Null,
    }
}

/// A string on the wire, or `null` for no value.
pub open spec fn opt_str_wire(o: Option<Seq<char>>) -> JsonView {
    match o {
        Some(s) => JsonView::Str(s),
        None => JsonView::Null,
    }
}

/// `{"prompt_tokens": .., "completion_tokens": .., "total_tokens": ..}`
pub open spec fn usage_wire(u: Usage) -> JsonView {
    JsonView::Object(
        seq![
            ("prompt_tokens"@, count_wire(u.prompt_tokens)),
            ("completion_tokens"@, count_wire(u.completion_tokens)),
            ("total_tokens"@, count_wire(u.total_tokens)),
        ],
    )
}

/// Usage decoded from a wire object: an absent or `null` field is no value.
pub open spec fn decode_usage(v: JsonView) -> Result<Usage, DecodeErrorView> {
    match v {
        JsonView::Object(ms) => match decode_opt_u32(lookup(ms, "prompt_tokens"@), "prompt_tokens"@) {
            Err(e) => Err(e),
            Ok(prompt_tokens) => match decode_opt_u32(
                lookup(ms, "completion_tokens"@),
                "completion_tokens"@,
            ) {
                Err(e) => Err(e),
                Ok(completion_tokens) => match decode_opt_u32(lookup(ms, "total_tokens"@), "total_tokens"@) {
                    Err(e) => Err(e),
                    Ok(total_tokens) => Ok(Usage { prompt_tokens, completion_tokens, total_tokens }),
                },
            },
        },
        _ => Err(DecodeErrorView::Invalid(""@)),
    }
}

/// Decoding the wire object of a usage gives it back.
pub proof fn lemma_usage_round_trip(u: Usage)
    ensures
        decode_usage(usage_wire(u)) == Ok::<Usage, DecodeErrorView>(u),
{
    reveal_strlit("prompt_tokens");
    reveal_strlit("completion_tokens");
    reveal_strlit("total_tokens");
    let ms = usage_wire(u)->Object_0;
    assert(ms[0].0.len() != ms[1].0.len() && ms[0].0.len() != ms[2].0.len() && ms[1].0.len() != ms[2].0.len());
    lemma_lookup_at(ms, 0, "prompt_tokens"@);
    lemma_lookup_at(ms, 1, "completion_tokens"@);
    lemma_lookup_at(ms, 2, "total_tokens"@);
}

/// A usage object without any of the three counts decodes to "no value" for
/// each of them, which differs from what counts that are present and zero
/// decode to.
pub proof fn lemma_absent_usage(ms: Seq<(Seq<char>, JsonView)>)
    requires
        lookup(ms, "prompt_tokens"@) is None,
        lookup(ms, "completion_tokens"@) is None,
        lookup(ms, "total_tokens"@) is None,
    ensures
        decode_usage(JsonView::Object(ms)) == Ok::<Usage, DecodeErrorView>(
            Usage { prompt_tokens: None, completion_tokens: None, total_tokens: None },
        ),
        decode_usage(
            usage_wire(Usage { prompt_tokens: Some(0), completion_tokens: Some(0), total_tokens: Some(0) }),
        ) != decode_usage(JsonView::Object(ms)),
{
    lemma_usage_round_trip(Usage { prompt_tokens: Some(0), completion_tokens: Some(0), total_tokens: Some(0) });
}

impl Usage {
    /// The wire object.
    pub fn to_json(&self) -> (r: Json)
        ensures
            r@ == usage_wire(*self),
            decode_usage(r@) == Ok::<Usage, DecodeErrorView>(*self),
    {
        proof {
            lemma_usage_round_trip(*self);
        }
        let mut ms: Vec<(String, Json)> = Vec::new();
        proof {
            lemma_members_view_empty();
        }
        push_member(&mut ms, "prompt_tokens", opt_u32_json(self.prompt_tokens));
        push_member(&mut ms, "completion_tokens", opt_u32_json(self.completion_tokens));
        push_member(&mut ms, "total_tokens", opt_u32_json(self.total_tokens));
        assert(members_view(ms@) =~= usage_wire(*self)->Object_0);
        Json::Object(ms)
    }

    /// Decodes usage from its wire object.
    pub fn from_json(j: &Json) -> (r: Result<Usage, DecodeError>)
        ensures
            result_view(r, |u: Usage| u) == decode_usage(j@),
    {
        match j {
            Json::Object(ms) => {
                let prompt_tokens = match opt_u32_member(ms, "prompt_tokens", "prompt_tokens") {
                    Ok(n) => n,
                    Err(e) => return Err(e),
                };
                let completion_tokens = match opt_u32_member(ms, "completion_tokens", "completion_tokens") {
                    Ok(n) => n,
                    Err(e) => return Err(e),
                };
                let total_tokens = match opt_u32_member(ms, "total_tokens", "total_tokens") {
                    Ok(n) => n,
                    Err(e) => return Err(e),
                };
                Ok(Usage { prompt_tokens, completion_tokens, total_tokens })
            },
            _ => Err(DecodeError::Invalid("".to_owned())),
        }
    }
}

/// One candidate completion. In practice one of `text` and `message` is set,
/// but both are optional.
#[derive(Debug)]
pub struct Choice {
    pub text: Option<String>,
    pub index: u32,
    pub logprobs: Option<String>,
    pub finish_reason: Option<String>,
    pub message: Option<Message>,
}

pub struct ChoiceView {
    pub text: Option<Seq<char>>,
    pub index: u32,
    pub logprobs: Option<Seq<char>>,
    pub finish_reason: Option<Seq<char>>,
    pub message: Option<MessageView>,
}

impl View for Choice {
    type V = ChoiceView;

    open spec fn view(&self) -> ChoiceView {
        ChoiceView {
            text: opt_string_view(self.text),
            index: self.index,
            logprobs: opt_string_view(self.logprobs),
            finish_reason: opt_string_view(self.finish_reason),
            message: match self.message {
                Some(m) => Some(m@),
                None => None,
            },
        }
    }
}

/// `{"text": .., "index": .., "logprobs": .., "finish_reason": .., "message": ..}`
pub open spec fn choice_wire(c: ChoiceView) -> JsonView {
    JsonView::Object(
        seq![
            ("text"@, opt_str_wire(c.text)),
            ("index"@, JsonView::Number(c.index as nat)),
            ("logprobs"@, opt_str_wire(c.logprobs)),
            ("finish_reason"@, opt_str_wire(c.finish_reason)),
            ("message"@, match c.message {
                Some(m) => message_wire(m),
                None => JsonView::Null,
            }),
        ],
    )
}

/// An optional nested message: absent or `null` is no value.
pub open spec fn decode_opt_message(f: Option<JsonView>) -> Result<Option<MessageView>, DecodeErrorView> {
    match f {
        None => Ok(None),
        Some(JsonView::Null) => Ok(None),
        Some(v) => match decode_message(v, "message."@) {
            Ok(m) => Ok(Some(m)),
            Err(e) => Err(e),
        },
    }
}

/// A choice decoded from a wire object; only `index` is required.
pub open spec fn decode_choice(v: JsonView) -> Result<ChoiceView, DecodeErrorView> {
    match v {
        JsonView::Object(ms) => match decode_opt_str(lookup(ms, "text"@), "text"@) {
            Err(e) => Err(e),
            Ok(text) => match decode_u32(lookup(ms, "index"@), "index"@) {
                Err(e) => Err(e),
                Ok(index) => match decode_opt_str(lookup(ms, "logprobs"@), "logprobs"@) {
                    Err(e) => Err(e),
                    Ok(logprobs) => match decode_opt_str(lookup(ms, "finish_reason"@), "finish_reason"@) {
                        Err(e) => Err(e),
                        Ok(finish_reason) => match decode_opt_message(lookup(ms, "message"@)) {
                            Err(e) => Err(e),
                            Ok(message) => Ok(ChoiceView { text, index, logprobs, finish_reason, message }),
                        },
                    },
                },
            },
        },
        _ => Err(DecodeErrorView::Invalid(""@)),
    }
}

/// Decoding the wire object of a choice gives it back.
pub proof fn lemma_choice_round_trip(c: ChoiceView)
    ensures
        decode_choice(choice_wire(c)) == Ok::<ChoiceView, DecodeErrorView>(c),
{
    reveal_strlit("text");
    reveal_strlit("index");
    reveal_strlit("logprobs");
    reveal_strlit("finish_reason");
    reveal_strlit("message");
    let ms = choice_wire(c)->Object_0;
    assert(forall|a: int, b: int| 0 <= a < b < 5 ==> ms[a].0.len() != ms[b].0.len()) by {
        assert(ms[0].0.len() == 4 && ms[1].0.len() == 5 && ms[2].0.len() == 8);
        assert(ms[3].0.len() == 13 && ms[4].0.len() == 7);
    }
    lemma_lookup_at(ms, 0, "text"@);
    lemma_lookup_at(ms, 1, "index"@);
    lemma_lookup_at(ms, 2, "logprobs"@);
    lemma_lookup_at(ms, 3, "finish_reason"@);
    lemma_lookup_at(ms, 4, "message"@);
    if let Some(m) = c.message {
        lemma_message_round_trip(m, "message."@);
    }
}

impl Choice {
    /// The wire object.
    pub fn to_json(&self) -> (r: Json)
        ensures
            r@ == choice_wire(self@),
            decode_choice(r@) == Ok::<ChoiceView, DecodeErrorView>(self@),
    {
        proof {
            lemma_choice_round_trip(self@);
        }
        let mut ms: Vec<(String, Json)> = Vec::new();
        proof {
            lemma_members_view_empty();
        }
        push_member(&mut ms, "text", opt_str_json(&self.text));
        push_member(&mut ms, "index", Json::Number(self.index as u64));
        push_member(&mut ms, "logprobs", opt_str_json(&self.logprobs));
        push_member(&mut ms, "finish_reason", opt_str_json(&self.finish_reason));
        let message = match &self.message {
            Some(m) => m.to_json(),
            None => Json::Null,
        };
        push_member(&mut ms, "message", message);
        assert(members_view(ms@) =~= choice_wire(self@)->Object_0);
        Json::Object(ms)
    }

    /// Decodes a choice from its wire object.
    pub fn from_json(j: &Json) -> (r: Result<Choice, DecodeError>)
        ensures
            result_view(r, |c: Choice| c@) == decode_choice(j@),
    {
        match j {
            Json::Object(ms) => {
                let text = match opt_str_member(ms, "text", "text") {
                    Ok(t) => t,
                    Err(e) => return Err(e),
                };
                let index = match u32_member(ms, "index", "index") {
                    Ok(n) => n,
                    Err(e) => return Err(e),
                };
                let logprobs = match opt_str_member(ms, "logprobs", "logprobs") {
                    Ok(t) => t,
                    Err(e) => return Err(e),
                };
                let finish_reason = match opt_str_member(ms, "finish_reason", "finish_reason") {
                    Ok(t) => t,
                    Err(e) => return Err(e),
                };
                let message = match crate::json::member(ms, "message") {
                    None => None,
                    Some(Json::Null) => None,
                    Some(m) => match Message::from_json_at(m, "message.") {
                        Ok(m) => Some(m),
                        Err(e) => return Err(e),
                    },
                };
                Ok(Choice { text, index, logprobs, finish_reason, message })
            },
            _ => Err(DecodeError::Invalid("".to_owned())),
        }
    }
}

} // verus!
