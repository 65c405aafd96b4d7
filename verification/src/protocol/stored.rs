//! Contents that are kept as JSON text are read back as they were.

use vstd::prelude::*;

use crate::json;
use crate::json::{Fields, JsonView};
use crate::protocol::content;
use crate::protocol::content::{
    AttachmentView, ChatContent, ChatView, ContentError, InboundContent, InboundView, Operation,
    OperationView, OutboundContent, OutboundView,
};
use crate::protocol::message::MessageKind;

verus! {

broadcast use vstd::string::group_string_axioms;

// ---------------------------------------------------------------------------
// Outbound contents

/// Whether two operations are the same but for the order of the fields of a
/// command's arguments.
pub open spec fn same_operation(a: OperationView, b: OperationView) -> bool {
    match (a, b) {
        (
            OperationView::Approval { approval_id: i, command: c, args: x, summary: s },
            OperationView::Approval { approval_id: j, command: d, args: y, summary: t },
        ) => i == j && c == d && s == t && json::alike(JsonView::Object(x), JsonView::Object(y)),
        _ => a == b,
    }
}

/// Whether two contents are the same but for the order of fields.
pub open spec fn same_content(a: OutboundView, b: OutboundView) -> bool {
    &&& a.text == b.text
    &&& a.files == b.files
    &&& match (a.operation, b.operation) {
        (None, None) => true,
        (Some(x), Some(y)) => same_operation(x, y),
        _ => false,
    }
    &&& forall|key: Seq<char>|
        json::same_value(#[trigger] json::lookup(a.extra, key), json::lookup(b.extra, key))
}

proof fn lemma_operation_alike(a: JsonView, b: JsonView)
    requires
        json::alike(a, b),
    ensures
        match (content::operation_of(a), content::operation_of(b)) {
            (None, None) => true,
            (Some(x), Some(y)) => same_operation(x, y),
            _ => false,
        },
{
    json::lemma_part_alike(a, b, 0, "type"@);
    json::lemma_part_alike(a, b, 1, "question_id"@);
    json::lemma_part_alike(a, b, 2, "title"@);
    json::lemma_part_alike(a, b, 3, "question"@);
    json::lemma_part_alike(a, b, 4, "options"@);
    json::lemma_part_alike(a, b, 1, "approval_id"@);
    json::lemma_part_alike(a, b, 2, "command"@);
    json::lemma_part_alike(a, b, 3, "args"@);
    json::lemma_part_alike(a, b, 4, "summary"@);
    json::lemma_part_alike(a, b, 1, "message_id"@);
    json::lemma_part_alike(a, b, 2, "text"@);
    json::lemma_part_alike(a, b, 2, "emoji"@);
    if let (Some(x), Some(y)) = (json::part(a, 4, "options"@), json::part(b, 4, "options"@)) {
        json::lemma_texts_alike(x, y);
    }
}

proof fn lemma_lookup_unknown(fields: Fields, key: Seq<char>)
    ensures
        json::lookup(content::unknown_fields(fields), key) == (if content::known_key(key) {
            None
        } else {
            json::lookup(fields, key)
        }),
    decreases fields.len(),
{
    if fields.len() > 0 {
        let init = fields.drop_last();
        let last = fields.last();
        lemma_lookup_unknown(init, key);
        json::lemma_lookup_push(init, last.0, last.1, key);
        assert(init.push((last.0, last.1)) =~= fields);
        if !content::known_key(last.0) {
            json::lemma_lookup_push(content::unknown_fields(init), last.0, last.1, key);
            assert(content::unknown_fields(fields) =~= content::unknown_fields(init).push(
                (last.0, last.1),
            ));
        }
    }
}

proof fn lemma_outbound_alike(a: JsonView, b: JsonView)
    requires
        json::alike(a, b),
    ensures
        match (content::outbound_of(a), content::outbound_of(b)) {
            (None, None) => true,
            (Some(x), Some(y)) => same_content(x, y),
            _ => false,
        },
{
    if let (JsonView::Object(x), JsonView::Object(y)) = (a, b) {
        json::alike_objects_agree_on_every_key(x, y, "text"@);
        json::alike_objects_agree_on_every_key(x, y, "files"@);
        json::alike_objects_agree_on_every_key(x, y, "operation"@);
        if let (Some(p), Some(q)) = (json::lookup(x, "files"@), json::lookup(y, "files"@)) {
            json::lemma_texts_alike(p, q);
        }
        if let (Some(p), Some(q)) = (json::lookup(x, "operation"@), json::lookup(y, "operation"@)) {
            lemma_operation_alike(p, q);
        }
        let u = content::unknown_fields(x);
        let v = content::unknown_fields(y);
        assert forall|key: Seq<char>| json::same_value(
            #[trigger] json::lookup(u, key),
            json::lookup(v, key),
        ) by {
            lemma_lookup_unknown(x, key);
            lemma_lookup_unknown(y, key);
            json::alike_objects_agree_on_every_key(x, y, key);
        }
    }
}

/// A content that is stored as text is read back as it was, but for the order of
/// fields, as long as its unknown fields are none of the known ones and hold
/// plain values.
pub fn stored_content_reads_back(c: &OutboundContent) -> (r: Result<OutboundContent, ContentError>)
    requires
        json::plain(content::outbound_value(c@), json::MAX_DEPTH as nat),
        forall|i: int| 0 <= i < c@.extra.len() ==> !content::known_key((#[trigger] c@.extra[i]).0),
    ensures
        r matches Ok(back) && same_content(c@, back@),
{
    let stored = c.to_text();
    let r = OutboundContent::parse(&stored);
    let read = json::Json::parse(&stored);
    proof {
        match c.operation {
            Some(Operation::Edit { message_id, .. }) => {
                message_id.fits();
            },
            Some(Operation::Reaction { message_id, .. }) => {
                message_id.fits();
            },
            _ => {},
        }
        content::outbound_round_trips(c@);
        assert(read is Ok);
        let back = json::result_view(read)->Ok_0;
        assert(json::alike(content::outbound_value(c@), back));
        lemma_outbound_alike(content::outbound_value(c@), back);
    }
    r
}

proof fn lemma_text_is_plain(said: Seq<char>)
    ensures
        json::plain(
            content::outbound_value(content::text_content(said)),
            json::MAX_DEPTH as nat,
        ),
{
    let value = content::outbound_value(content::text_content(said));
    assert(value->Object_0 =~= seq![("text"@, JsonView::Text(said))]);
    let fields = value->Object_0;
    assert(json::distinct(fields));
    assert forall|i: int| 0 <= i < fields.len() implies json::plain(
        (#[trigger] fields[i]).1,
        126,
    ) by {}
}

/// A reply that is stored is read back word for word, whatever it says.
pub fn stored_replies_read_back(said: &str) -> (r: Result<OutboundContent, ContentError>)
    ensures
        r matches Ok(back) && back@.text == Some(said@) && back@.files.len() == 0
            && back@.operation is None,
{
    let c = OutboundContent::from_text(said);
    proof {
        lemma_text_is_plain(said@);
    }
    stored_content_reads_back(&c)
}

// ---------------------------------------------------------------------------
// Chat messages

proof fn lemma_attachment_alike(a: JsonView, b: JsonView)
    requires
        json::alike(a, b),
    ensures
        content::attachment_of(a) == content::attachment_of(b),
{
    json::lemma_part_alike(a, b, 0, "name"@);
    json::lemma_part_alike(a, b, 1, "url"@);
    json::lemma_part_alike(a, b, 2, "path"@);
}

proof fn lemma_attachments_alike(a: Option<JsonView>, b: Option<JsonView>)
    requires
        json::same_value(a, b),
    ensures
        content::attachments_of(a) == content::attachments_of(b),
{
    if let (Some(JsonView::List(x)), Some(JsonView::List(y))) = (a, b) {
        assert forall|i: int| 0 <= i < x.len() implies content::attachment_of(
            #[trigger] x[i],
        ) == content::attachment_of(y[i]) by {
            assert(json::alike(x[i], y[i]));
            lemma_attachment_alike(x[i], y[i]);
        }
        if forall|i: int|
            0 <= i < x.len() ==> content::attachment_of(#[trigger] x[i]) is Some {
            assert forall|i: int| 0 <= i < y.len() implies content::attachment_of(
                #[trigger] y[i],
            ) is Some by {
                assert(content::attachment_of(x[i]) is Some);
            }
            assert(Seq::new(x.len(), |i: int| content::attachment_of(x[i])->0) =~= Seq::new(
                y.len(),
                |i: int| content::attachment_of(y[i])->0,
            ));
        } else {
            let i = choose|i: int|
                0 <= i < x.len() && content::attachment_of(#[trigger] x[i]) is None;
            assert(content::attachment_of(y[i]) is None);
        }
    }
}

proof fn lemma_quoted_alike(a: Option<JsonView>, b: Option<JsonView>)
    requires
        json::same_value(a, b),
    ensures
        content::quoted_of(a) == content::quoted_of(b),
{
    if let (Some(x), Some(y)) = (a, b) {
        json::lemma_part_alike(x, y, 0, "sender"@);
        json::lemma_part_alike(x, y, 1, "text"@);
    }
}

proof fn lemma_chat_alike(a: JsonView, b: JsonView)
    requires
        json::alike(a, b),
    ensures
        content::chat_of(a) == content::chat_of(b),
{
    json::lemma_part_alike(a, b, 0, "sender"@);
    json::lemma_part_alike(a, b, 1, "sender_id"@);
    json::lemma_part_alike(a, b, 2, "text"@);
    json::lemma_part_alike(a, b, 3, "attachments"@);
    json::lemma_part_alike(a, b, 4, "is_from_me"@);
    json::lemma_part_alike(a, b, 5, "quoted"@);
    lemma_attachments_alike(json::part(a, 3, "attachments"@), json::part(b, 3, "attachments"@));
    lemma_quoted_alike(json::part(a, 5, "quoted"@), json::part(b, 5, "quoted"@));
}

proof fn lemma_attachment_is_plain(a: AttachmentView)
    ensures
        json::plain(content::attachment_value(a), 125),
{
    broadcast use {json::lemma_lookup_with, json::lemma_lookup_empty};

    reveal_strlit("name");
    reveal_strlit("url");
    reveal_strlit("path");
    assert("name"@.len() == 4 && "url"@.len() == 3 && "path"@.len() == 4);
    assert("name"@[0] != "path"@[0]);
    let f0 = Seq::<(Seq<char>, JsonView)>::empty();
    json::lemma_plain_with(f0, "name"@, Some(JsonView::Text(a.name)), 124);
    let f1 = json::with(f0, "name"@, Some(JsonView::Text(a.name)));
    json::lemma_plain_with(f1, "url"@, content::maybe_text(a.url), 124);
    let f2 = json::with(f1, "url"@, content::maybe_text(a.url));
    json::lemma_plain_with(f2, "path"@, content::maybe_text(a.path), 124);
}

proof fn lemma_quoted_is_plain(q: content::QuotedView)
    ensures
        json::plain(content::quoted_value(q), 126),
{
    broadcast use {json::lemma_lookup_with, json::lemma_lookup_empty};

    reveal_strlit("sender");
    reveal_strlit("text");
    assert("sender"@.len() == 6 && "text"@.len() == 4);
    let f0 = Seq::<(Seq<char>, JsonView)>::empty();
    json::lemma_plain_with(f0, "sender"@, Some(JsonView::Text(q.sender)), 125);
    let f1 = json::with(f0, "sender"@, Some(JsonView::Text(q.sender)));
    json::lemma_plain_with(f1, "text"@, Some(JsonView::Text(q.text)), 125);
}

proof fn lemma_chat_is_plain(c: ChatView)
    ensures
        json::plain(content::chat_value(c), 127),
{
    broadcast use {json::lemma_lookup_with, json::lemma_lookup_empty};

    reveal_strlit("sender");
    reveal_strlit("sender_id");
    reveal_strlit("text");
    reveal_strlit("attachments");
    reveal_strlit("is_from_me");
    reveal_strlit("quoted");
    assert("sender"@.len() == 6);
    assert("sender_id"@.len() == 9);
    assert("text"@.len() == 4);
    assert("attachments"@.len() == 11);
    assert("is_from_me"@.len() == 10);
    assert("quoted"@.len() == 6);
    assert("sender"@[0] != "quoted"@[0]);
    let listed = if c.attachments.len() == 0 {
        None
    } else {
        Some(
            JsonView::List(
                c.attachments.map_values(|a: AttachmentView| content::attachment_value(a)),
            ),
        )
    };
    if let Some(JsonView::List(items)) = listed {
        assert forall|i: int| 0 <= i < items.len() implies json::plain(#[trigger] items[i], 125) by {
            lemma_attachment_is_plain(c.attachments[i]);
        }
        assert(json::plain(JsonView::List(items), 126));
    }
    let quoted = match c.quoted {
        Some(q) => Some(content::quoted_value(q)),
        None => None,
    };
    if let Some(q) = c.quoted {
        lemma_quoted_is_plain(q);
    }
    let f0 = Seq::<(Seq<char>, JsonView)>::empty();
    json::lemma_plain_with(f0, "sender"@, Some(JsonView::Text(c.sender)), 126);
    let f1 = json::with(f0, "sender"@, Some(JsonView::Text(c.sender)));
    json::lemma_plain_with(f1, "sender_id"@, content::maybe_text(c.sender_id), 126);
    let f2 = json::with(f1, "sender_id"@, content::maybe_text(c.sender_id));
    json::lemma_plain_with(f2, "text"@, Some(JsonView::Text(c.text)), 126);
    let f3 = json::with(f2, "text"@, Some(JsonView::Text(c.text)));
    json::lemma_plain_with(f3, "attachments"@, listed, 126);
    let f4 = json::with(f3, "attachments"@, listed);
    json::lemma_plain_with(f4, "is_from_me"@, Some(JsonView::Bool(c.is_from_me)), 126);
    let f5 = json::with(f4, "is_from_me"@, Some(JsonView::Bool(c.is_from_me)));
    json::lemma_plain_with(f5, "quoted"@, quoted, 126);
}

/// A chat message that is stored as text is read back as it was.
pub fn stored_chat_reads_back(c: &ChatContent) -> (r: Result<InboundContent, ContentError>)
    ensures
        r matches Ok(back) && back@ == InboundView::Chat(c@),
{
    let stored = c.to_value().encode();
    let r = InboundContent::parse(MessageKind::Chat.as_str(), &stored);
    let read = json::Json::parse(&stored);
    proof {
        lemma_chat_is_plain(c@);
        content::chat_round_trips(c@);
        assert(read is Ok);
        let back = json::result_view(read)->Ok_0;
        assert(json::alike(content::chat_value(c@), back));
        lemma_chat_alike(content::chat_value(c@), back);
        let kind = content::kind_of(MessageKind::Chat.text());
        assert(kind is Some);
        MessageKind::texts_differ(kind->0, MessageKind::Chat);
    }
    r
}

} // verus!
