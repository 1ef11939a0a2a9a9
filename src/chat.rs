//! A multimodal conversation turn: a role and an ordered sequence of content
//! parts.

use vstd::prelude::*;
use crate::content::{
    Content, ContentView, content_wire, decode_content, lemma_content_round_trip, payload_ok,
};
use crate::json::{
    Json, JsonView, elements_view, json_view, lemma_elements_view_take, lemma_lookup_append, lemma_members_view_empty, lookup,
    members_view, push_member,
};
use crate::message::{Role, decode_role, lemma_role_name_round_trip, role_name};
use crate::wire::{DecodeError, DecodeErrorView, result_view};

verus! {

/// One turn of a multimodal chat. The order of `content` is the order in which
/// the parts are presented.
#[derive(Debug)]
pub struct ChatMessage {
    pub role: Role,
    pub content: Vec<Content>,
}

pub struct ChatMessageView {
    pub role: Role,
    pub content: Seq<ContentView>,
}

impl View for ChatMessage {
    type V = ChatMessageView;

    open spec fn view(&self) -> ChatMessageView {
        ChatMessageView { role: self.role, content: self.content@.map_values(|c: Content| c@) }
    }
}

/// Every part's payload is an object without a discriminator, as it is for
/// every [`Content`] value.
pub open spec fn chat_wf(m: ChatMessageView) -> bool {
    forall|i: int| 0 <= i < m.content.len() ==> payload_ok(#[trigger] m.content[i].payload)
}

/// `{"role": <role>, "content": [<part>, ...]}`
pub open spec fn chat_wire(m: ChatMessageView) -> JsonView {
    JsonView::Object(
        seq![
            ("role"@, JsonView::Str(role_name(m.role))),
            ("content"@, JsonView::Array(m.content.map_values(|c: ContentView| content_wire(c)))),
        ],
    )
}

/// The parts decoded from array elements, in order; the first element that
/// fails gives the error.
pub open spec fn decode_parts(items: Seq<JsonView>) -> Result<Seq<ContentView>, DecodeErrorView>
    decreases items.len(),
{
    if items.len() == 0 {
        Ok(Seq::empty())
    } else {
        match decode_parts(items.drop_last()) {
            Err(e) => Err(e),
            Ok(parts) => match decode_content(items.last()) {
                Err(e) => Err(e),
                Ok(c) => Ok(parts.push(c)),
            },
        }
    }
}

/// A chat message decoded from its wire object.
pub open spec fn decode_chat(v: JsonView) -> Result<ChatMessageView, DecodeErrorView> {
    match v {
        JsonView::Object(ms) => match decode_role(lookup(ms, "role"@), "role"@) {
            Err(e) => Err(e),
            Ok(role) => match lookup(ms, "content"@) {
                None => Err(DecodeErrorView::Missing("content"@)),
                Some(JsonView::Array(items)) => match decode_parts(items) {
                    Err(e) => Err(e),
                    Ok(content) => Ok(ChatMessageView { role, content }),
                },
                Some(_) => Err(DecodeErrorView::Invalid("content"@)),
            },
        },
        _ => Err(DecodeErrorView::Invalid(""@)),
    }
}

/// A failure in a prefix of the elements is the failure of the whole.
proof fn lemma_decode_parts_prefix_err(items: Seq<JsonView>, n: int)
    requires
        0 <= n <= items.len(),
        decode_parts(items.take(n)) is Err,
    ensures
        decode_parts(items) == decode_parts(items.take(n)),
    decreases items.len() - n,
{
    if n < items.len() {
        assert(items.take(n + 1).drop_last() =~= items.take(n));
        lemma_decode_parts_prefix_err(items, n + 1);
    } else {
        assert(items.take(n) =~= items);
    }
}

proof fn lemma_parts_round_trip(parts: Seq<ContentView>)
    requires
        forall|i: int| 0 <= i < parts.len() ==> payload_ok(#[trigger] parts[i].payload),
    ensures
        decode_parts(parts.map_values(|c: ContentView| content_wire(c))) == Ok::<Seq<ContentView>, DecodeErrorView>(parts),
    decreases parts.len(),
{
    if parts.len() > 0 {
        let init = parts.drop_last();
        assert forall|i: int| 0 <= i < init.len() implies payload_ok(#[trigger] init[i].payload) by {
            assert(init[i] == parts[i]);
        }
        lemma_parts_round_trip(init);
        let wires = parts.map_values(|c: ContentView| content_wire(c));
        assert(wires.drop_last() =~= init.map_values(|c: ContentView| content_wire(c)));
        assert(payload_ok(parts[parts.len() - 1].payload));
        lemma_content_round_trip(parts.last());
        assert(wires.last() == content_wire(parts.last()));
        assert(init.push(parts.last()) =~= parts);
    } else {
        assert(parts.map_values(|c: ContentView| content_wire(c)) =~= Seq::<JsonView>::empty());
        assert(parts =~= Seq::<ContentView>::empty());
    }
}

/// Decoding the wire object of a chat message gives back its role and its
/// parts, in order, each with its tag and payload.
pub proof fn lemma_chat_round_trip(m: ChatMessageView)
    requires
        chat_wf(m),
    ensures
        decode_chat(chat_wire(m)) == Ok::<ChatMessageView, DecodeErrorView>(m),
{
    reveal_strlit("role");
    reveal_strlit("content");
    assert("role"@.len() != "content"@.len());
    let wires = m.content.map_values(|c: ContentView| content_wire(c));
    let first = seq![("role"@, JsonView::Str(role_name(m.role)))];
    let second = seq![("content"@, JsonView::Array(wires))];
    assert(first.drop_last() =~= Seq::<(Seq<char>, JsonView)>::empty());
    assert(lookup(first.drop_last(), "role"@) is None);
    assert(lookup(first.drop_last(), "content"@) is None);
    assert(first.last() == ("role"@, JsonView::Str(role_name(m.role))));
    assert(lookup(first, "role"@) == Some(JsonView::Str(role_name(m.role))));
    lemma_lookup_append(first, second, "role"@);
    assert(first + second =~= chat_wire(m)->Object_0);
    assert((first + second).drop_last() =~= first);
    assert(lookup(first, "content"@) is None);
    lemma_role_name_round_trip(m.role);
    lemma_parts_round_trip(m.content);
}

/// Appending a part to a copy of a message changes the copy alone: the
/// original keeps its parts and their number.
pub proof fn lemma_copy_then_append(original: ChatMessageView, copy: ChatMessageView, part: ContentView)
    requires
        copy == original,
    ensures
        ({
            let appended = ChatMessageView { role: copy.role, content: copy.content.push(part) };
            &&& appended.content.len() == original.content.len() + 1
            &&& appended.content.take(original.content.len() as int) == original.content
            &&& appended.content.last() == part
        }),
{
    assert(copy.content.push(part).take(original.content.len() as int) =~= original.content);
}

impl ChatMessage {
    /// The wire object. Decoding it gives this message back.
    pub fn to_json(&self) -> (r: Json)
        ensures
            r@ == chat_wire(self@),
            chat_wf(self@),
            decode_chat(r@) == Ok::<ChatMessageView, DecodeErrorView>(self@),
    {
        let mut parts: Vec<Json> = Vec::new();
        let mut i: usize = 0;
        while i < self.content.len()
            invariant
                i <= self.content@.len(),
                elements_view(parts@) == self@.content.take(i as int).map_values(|c: ContentView| content_wire(c)),
                forall|k: int| 0 <= k < i ==> payload_ok(#[trigger] self@.content[k].payload),
            decreases self.content@.len() - i,
        {
            let w = self.content[i].to_json();
            let ghost prev = parts@;
            parts.push(w);
            proof {
                assert(parts@.drop_last() =~= prev);
                assert(self@.content.take(i + 1).map_values(|c: ContentView| content_wire(c)) =~=
                    self@.content.take(i as int).map_values(|c: ContentView| content_wire(c)).push(content_wire(self@.content[i as int])));
            }
            i = i + 1;
        }
        assert(self@.content.take(i as int) =~= self@.content);
        let mut ms: Vec<(String, Json)> = Vec::new();
        proof {
            lemma_members_view_empty();
        }
        push_member(&mut ms, "role", Json::Str(self.role.name().to_owned()));
        push_member(&mut ms, "content", Json::Array(parts));
        assert(members_view(ms@) =~= chat_wire(self@)->Object_0);
        proof {
            lemma_chat_round_trip(self@);
        }
        Json::Object(ms)
    }

    /// Decodes a chat message from its wire object.
    pub fn from_json(j: &Json) -> (r: Result<ChatMessage, DecodeError>)
        ensures
            result_view(r, |m: ChatMessage| m@) == decode_chat(j@),
    {
        match j {
            Json::Object(ms) => {
                let role = match crate::message::role_member(ms, "role", "role") {
                    Ok(role) => role,
                    Err(e) => return Err(e),
                };
                match crate::json::member(ms, "content") {
                    None => Err(DecodeError::Missing("content".to_owned())),
                    Some(Json::Array(items)) => {
                        let mut content: Vec<Content> = Vec::new();
                        let mut i: usize = 0;
                        proof {
                            assert(elements_view(items@).take(0) =~= Seq::<JsonView>::empty());
                            assert(content@.map_values(|c: Content| c@) =~= Seq::<ContentView>::empty());
                        }
                        while i < items.len()
                            invariant
                                i <= items@.len(),
                                decode_chat(j@) == match decode_parts(elements_view(items@)) {
                                    Err(e) => Err(e),
                                    Ok(content) => Ok(ChatMessageView { role, content }),
                                },
                                decode_parts(elements_view(items@).take(i as int)) == Ok::<Seq<ContentView>, DecodeErrorView>(
                                    content@.map_values(|c: Content| c@),
                                ),
                            decreases items@.len() - i,
                        {
                            proof {
                                let ev = elements_view(items@);
                                lemma_elements_view_take(items@, i + 1);
                                assert(ev.take(i + 1).drop_last() =~= ev.take(i as int));
                                assert(items@.take(i + 1).drop_last() =~= items@.take(i as int));
                                assert(ev.take(i + 1).last() == json_view(items@[i as int]));
                            }
                            match Content::from_json(&items[i]) {
                                Ok(c) => {
                                    let ghost prev = content@;
                                    content.push(c);
                                    proof {
                                        assert(content@.map_values(|c: Content| c@) =~= prev.map_values(|c: Content| c@).push(c@));
                                    }
                                },
                                Err(e) => {
                                    proof {
                                        let ev = elements_view(items@);
                                        assert(decode_content(ev.take(i + 1).last()) == Err::<ContentView, DecodeErrorView>(e@));
                                        assert(decode_parts(ev.take(i + 1)) == Err::<Seq<ContentView>, DecodeErrorView>(e@));
                                        lemma_decode_parts_prefix_err(elements_view(items@), i + 1);
                                        lemma_elements_view_take(items@, items@.len() as int);
                                        assert(elements_view(items@).take(items@.len() as int) =~= elements_view(items@));
                                    }
                                    return Err(e);
                                },
                            }
                            i = i + 1;
                        }
                        proof {
                            lemma_elements_view_take(items@, i as int);
                            assert(elements_view(items@).take(i as int) =~= elements_view(items@));
                        }
                        Ok(ChatMessage { role, content })
                    },
                    Some(_) => Err(DecodeError::Invalid("content".to_owned())),
                }
            },
            _ => Err(DecodeError::Invalid("".to_owned())),
        }
    }
}

impl Clone for ChatMessage {
    /// A deep copy: the copy's sequence of parts is its own.
    fn clone(&self) -> (r: ChatMessage)
        ensures
            r@ == self@,
    {
        let mut content: Vec<Content> = Vec::new();
        let mut i: usize = 0;
        while i < self.content.len()
            invariant
                i <= self.content@.len(),
                content@.map_values(|c: Content| c@) == self@.content.take(i as int),
            decreases self.content@.len() - i,
        {
            let c = self.content[i].duplicate();
            let ghost prev = content@;
            content.push(c);
            proof {
                assert(content@.map_values(|c: Content| c@) =~= prev.map_values(|c: Content| c@).push(c@));
                assert(self@.content.take(i + 1) =~= self@.content.take(i as int).push(self@.content[i as int]));
            }
            i = i + 1;
        }
        assert(self@.content.take(i as int) =~= self@.content);
        ChatMessage { role: self.role, content }
    }
}

} // verus!
