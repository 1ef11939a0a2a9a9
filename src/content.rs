//! One unit of multimodal message content: a kind tag and an open payload
//! document.

use vstd::prelude::*;
use crate::json::{
    Json, JsonView, json_view, lacks_key, lemma_lookup_append, lemma_members_view_append,
    lemma_members_view_empty, lemma_without_absent_key, lemma_without_key_lacks, lookup, member,
    members_view, push_member, without_key, without_member,
};
use crate::wire::{DecodeError, DecodeErrorView, result_view};

verus! {

/// What base64's standard engine makes of the bytes `b`: the standard
/// alphabet, no line breaks, padded with `=`.
pub uninterp spec fn base64_of(b: Seq<u8>) -> Seq<char>;

/// Relies on `base64::Engine::encode` of `base64::engine::general_purpose::STANDARD`:
/// the result depends on the bytes alone and has four characters for each
/// started group of three bytes. It panics only where that length overflows
/// `usize`.
#[verifier::external_body]
fn encode_base64(b: &[u8]) -> (r: String)
    requires
        4 * ((b@.len() + 2) / 3) <= usize::MAX,
    ensures
        r@ == base64_of(b@),
        r@.len() == 4 * ((b@.len() + 2) / 3),
{
    base64::Engine::encode(&base64::engine::general_purpose::STANDARD, b)
}

/// The name of the discriminator member on the wire.
pub open spec fn type_key() -> Seq<char> {
    "type"@
}

/// The tag that every part produced here carries on the wire, images included.
pub open spec fn text_kind() -> Seq<char> {
    "text"@
}

/// `{"url": u}`
pub open spec fn url_object(u: Seq<char>) -> JsonView {
    JsonView::Object(seq![("url"@, JsonView::Str(u))])
}

/// `{"text": {"url": t}}`
pub open spec fn text_payload(t: Seq<char>) -> JsonView {
    JsonView::Object(seq![("text"@, url_object(t))])
}

/// `{"image_url": {"url": u}}`
pub open spec fn image_payload(u: Seq<char>) -> JsonView {
    JsonView::Object(seq![("image_url"@, url_object(u))])
}

pub open spec fn jpeg_prefix() -> Seq<char> {
    "data:image/jpeg;base64,"@
}

pub open spec fn png_prefix() -> Seq<char> {
    "data:image/png;base64,"@
}

/// A `data:` URI of the given prefix that embeds the bytes `b`.
pub open spec fn data_uri(prefix: Seq<char>, b: Seq<u8>) -> Seq<char> {
    prefix + base64_of(b)
}

/// Bytes whose base64 text, with a `data:` prefix, still fits in memory.
pub open spec fn encodable(b: Seq<u8>) -> bool {
    4 * ((b.len() + 2) / 3) + 32 <= usize::MAX
}

/// A payload is an object that does not itself carry the discriminator, so that
/// the two can share one wire object.
pub open spec fn payload_ok(p: JsonView) -> bool {
    &&& p is Object
    &&& lacks_key(p->Object_0, type_key())
}

/// The model of a [`Content`]: its tag and its payload document.
pub struct ContentView {
    pub kind: Seq<char>,
    pub payload: JsonView,
}

/// The wire object of a part: the discriminator first, then the payload's
/// members.
pub open spec fn content_wire(c: ContentView) -> JsonView {
    JsonView::Object(seq![(type_key(), JsonView::Str(c.kind))] + c.payload->Object_0)
}

/// A part decoded from its wire object: the first `type` member gives the
/// tag, and the other members form the payload.
pub open spec fn decode_content(v: JsonView) -> Result<ContentView, DecodeErrorView> {
    match v {
        JsonView::Object(ms) => match lookup(ms, type_key()) {
            None => Err(DecodeErrorView::Missing("content[].type"@)),
            Some(JsonView::Str(kind)) => Ok(ContentView { kind, payload: JsonView::Object(without_key(ms, type_key())) }),
            Some(_) => Err(DecodeErrorView::Invalid("content[].type"@)),
        },
        _ => Err(DecodeErrorView::Invalid("content[]"@)),
    }
}

/// Decoding the wire object of a part gives the part back.
pub proof fn lemma_content_round_trip(c: ContentView)
    requires
        payload_ok(c.payload),
    ensures
        decode_content(content_wire(c)) == Ok::<ContentView, DecodeErrorView>(c),
{
    let first = seq![(type_key(), JsonView::Str(c.kind))];
    let ms = c.payload->Object_0;
    assert(lookup(first, type_key()) == Some(JsonView::Str(c.kind))) by {
        assert(first.drop_last() =~= Seq::<(Seq<char>, JsonView)>::empty());
        assert(lookup(first.drop_last(), type_key()) is None);
        assert(first.last() == (type_key(), JsonView::Str(c.kind)));
    }
    lemma_lookup_append(first, ms, type_key());
    lemma_without_absent_key(ms, type_key(), JsonView::Str(c.kind));
}

/// One part of a chat message's content.
#[derive(Debug)]
pub struct Content {
    pub type_: String,
    content: Json,
}

impl View for Content {
    type V = ContentView;

    closed spec fn view(&self) -> ContentView {
        ContentView { kind: self.type_@, payload: self.content@ }
    }
}

impl Content {
    #[verifier::type_invariant]
    closed spec fn inv(&self) -> bool {
        payload_ok(self.content@)
    }

    /// A part of kind `kind` over the document `payload`, which must be an object
    /// without a `type` member.
    fn from_parts(kind: String, payload: Json) -> (r: Content)
        requires
            payload_ok(payload@),
        ensures
            r@ == (ContentView { kind: kind@, payload: payload@ }),
    {
        Content { type_: kind, content: payload }
    }

    /// The wire object: `{"type": <tag>, <payload members>}`.
    pub fn to_json(&self) -> (r: Json)
        ensures
            r@ == content_wire(self@),
            payload_ok(self@.payload),
    {
        proof {
            use_type_invariant(self);
            lemma_members_view_empty();
        }
        let mut ms: Vec<(String, Json)> = Vec::new();
        push_member(&mut ms, "type", Json::Str(self.type_.clone()));
        match self.content.duplicate() {
            Json::Object(mut rest) => {
                let ghost head = ms@;
                let ghost tail = rest@;
                ms.append(&mut rest);
                proof {
                    lemma_members_view_append(head, tail);
                    assert(members_view(head) =~= seq![(type_key(), JsonView::Str(self.type_@))]);
                }
                Json::Object(ms)
            },
            _ => {
                // The type invariant makes every payload an object.
                proof {
                    assert(false);
                }
                Json::Null
            },
        }
    }

    /// Decodes a part from its wire object.
    pub fn from_json(j: &Json) -> (r: Result<Content, DecodeError>)
        ensures
            result_view(r, |c: Content| c@) == decode_content(j@),
    {
        match j {
            Json::Object(ms) => match member(ms, "type") {
                None => Err(DecodeError::Missing("content[].type".to_owned())),
                Some(Json::Str(kind)) => {
                    let rest = without_member(ms, "type");
                    proof {
                        lemma_without_key_lacks(members_view(ms@), type_key());
                    }
                    Ok(Content::from_parts(kind.clone(), Json::Object(rest)))
                },
                Some(_) => Err(DecodeError::Invalid("content[].type".to_owned())),
            },
            _ => Err(DecodeError::Invalid("content[]".to_owned())),
        }
    }

    /// A copy that shares no storage with this part.
    pub fn duplicate(&self) -> (r: Content)
        ensures
            r@ == self@,
    {
        proof {
            use_type_invariant(self);
        }
        Content::from_parts(self.type_.clone(), self.content.duplicate())
    }

    /// The payload document.
    pub fn payload(&self) -> (r: &Json)
        ensures
            r@ == self@.payload,
    {
        &self.content
    }

    /// A text part: `{"text": {"url": txt}}`.
    pub fn with_text(txt: &str) -> (r: Content)
        ensures
            r@ == (ContentView { kind: text_kind(), payload: text_payload(txt@) }),
    {
        proof {
            lemma_payload_keys();
        }
        Content::from_parts("text".to_owned(), single_url_payload("text", txt.to_owned()))
    }

    /// An image part that refers to the image by a URL or a `data:` URI:
    /// `{"image_url": {"url": url}}`, tagged `text` as the service expects.
    pub fn with_image(url: &str) -> (r: Content)
        ensures
            r@ == (ContentView { kind: text_kind(), payload: image_payload(url@) }),
    {
        proof {
            lemma_payload_keys();
        }
        Content::from_parts("text".to_owned(), single_url_payload("image_url", url.to_owned()))
    }

    /// An image part that embeds JPEG bytes as a base64 `data:` URI.
    pub fn with_jpeg(bytes: &[u8]) -> (r: Content)
        requires
            encodable(bytes@),
        ensures
            r@ == (ContentView {
                kind: text_kind(),
                payload: image_payload(data_uri(jpeg_prefix(), bytes@)),
            }),
    {
        let mut url = "data:image/jpeg;base64,".to_owned();
        let body = encode_base64(bytes);
        url.append(body.as_str());
        proof {
            lemma_payload_keys();
        }
        Content::from_parts("text".to_owned(), single_url_payload("image_url", url))
    }

    /// An image part that embeds PNG bytes as a base64 `data:` URI.
    pub fn with_png(bytes: &[u8]) -> (r: Content)
        requires
            encodable(bytes@),
        ensures
            r@ == (ContentView {
                kind: text_kind(),
                payload: image_payload(data_uri(png_prefix(), bytes@)),
            }),
    {
        let mut url = "data:image/png;base64,".to_owned();
        let body = encode_base64(bytes);
        url.append(body.as_str());
        proof {
            lemma_payload_keys();
        }
        Content::from_parts("text".to_owned(), single_url_payload("image_url", url))
    }
}

/// The member names of the payloads made here are not the discriminator.
proof fn lemma_payload_keys()
    ensures
        "text"@ != type_key(),
        "image_url"@ != type_key(),
{
    reveal_strlit("text");
    reveal_strlit("image_url");
    reveal_strlit("type");
    assert("text"@[1] != "type"@[1]);
    assert("image_url"@.len() != "type"@.len());
}

/// The URL of an image payload `{"image_url": {"url": u}}`.
pub open spec fn image_url_of(p: JsonView) -> Seq<char> {
    p->Object_0[0].1->Object_0[0].1->Str_0
}

/// The JPEG and the PNG part made from the same bytes have the same tag and
/// the same payload shape; their URLs differ only in the MIME type of the
/// prefix, and the base64 text after it is the same.
pub proof fn lemma_jpeg_png_differ_in_prefix(b: Seq<u8>)
    requires
        b.len() > 0,
    ensures
        ({
            let jpeg = image_payload(data_uri(jpeg_prefix(), b));
            let png = image_payload(data_uri(png_prefix(), b));
            &&& jpeg == image_payload(image_url_of(jpeg))
            &&& png == image_payload(image_url_of(png))
            &&& image_url_of(jpeg).take(jpeg_prefix().len() as int) == jpeg_prefix()
            &&& image_url_of(png).take(png_prefix().len() as int) == png_prefix()
            &&& image_url_of(jpeg).skip(jpeg_prefix().len() as int) == image_url_of(png).skip(
                png_prefix().len() as int,
            )
        }),
{
    let body = base64_of(b);
    assert((jpeg_prefix() + body).take(jpeg_prefix().len() as int) =~= jpeg_prefix());
    assert((png_prefix() + body).take(png_prefix().len() as int) =~= png_prefix());
    assert((jpeg_prefix() + body).skip(jpeg_prefix().len() as int) =~= body);
    assert((png_prefix() + body).skip(png_prefix().len() as int) =~= body);
}

/// `{key: {"url": url}}`
fn single_url_payload(key: &str, url: String) -> (r: Json)
    requires
        key@ != type_key(),
    ensures
        r@ == JsonView::Object(seq![(key@, url_object(url@))]),
        payload_ok(r@),
{
    let mut inner: Vec<(String, Json)> = Vec::new();
    inner.push(("url".to_owned(), Json::Str(url)));
    let mut outer: Vec<(String, Json)> = Vec::new();
    outer.push((key.to_owned(), Json::Object(inner)));
    proof {
        assert(members_view(Seq::<(String, Json)>::empty()) =~= Seq::empty());
        assert(inner@.drop_last() =~= Seq::<(String, Json)>::empty());
        assert(outer@.drop_last() =~= Seq::<(String, Json)>::empty());
        assert(inner@.len() == 1);
        assert(inner@.last().0@ == "url"@);
        assert(json_view(inner@.last().1) == JsonView::Str(url@));
        assert(members_view(inner@) == members_view(inner@.drop_last()).push(("url"@, JsonView::Str(url@))));
        assert(members_view(inner@) =~= seq![("url"@, JsonView::Str(url@))]);
        assert(outer@.len() == 1);
        assert(outer@.last().0@ == key@);
        assert(json_view(outer@.last().1) == url_object(url@));
        assert(members_view(outer@) == members_view(outer@.drop_last()).push((key@, url_object(url@))));
        assert(members_view(outer@) =~= seq![(key@, url_object(url@))]);
    }
    Json::Object(outer)
}

impl Clone for Content {
    fn clone(&self) -> (r: Content)
        ensures
            r@ == self@,
    {
        self.duplicate()
    }
}

} // verus!
