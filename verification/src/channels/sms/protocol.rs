//! The text messages that the SIM server reports, and the plain text that an
//! outbound message becomes.

use vstd::prelude::*;

use crate::channels::OutboundDelivery;
use crate::json;
use crate::json::{Json, JsonView};
use crate::protocol::content;
use crate::protocol::content::{
    ChatContent, ChatView, Operation, OperationView, OutboundContent, OutboundView,
};
use crate::protocol::message::MessageKind;
use crate::router::{InboundEvent, InboundEventView};
use crate::text;

verus! {

broadcast use vstd::string::group_string_axioms;

/// The name of the channel.
pub const CHANNEL_TYPE: &'static str = "sms";

/// A received text message, as the SIM server reports it.
#[derive(Debug, PartialEq, Eq)]
pub struct SmsMessage {
    /// The slot on the SIM card, which is reused.
    pub index: String,
    /// Grows with every message; polling goes by it.
    pub seq: Option<i64>,
    pub status: String,
    pub phone: String,
    pub content: String,
    pub date: String,
}

/// The mathematical value of a [`SmsMessage`].
#[verifier::ext_equal]
pub struct SmsMessageView {
    pub index: Seq<char>,
    pub seq: Option<i64>,
    pub status: Seq<char>,
    pub phone: Seq<char>,
    pub content: Seq<char>,
    pub date: Seq<char>,
}

impl SmsMessage {
    pub open spec fn view(&self) -> SmsMessageView {
        SmsMessageView {
            index: self.index@,
            seq: self.seq,
            status: self.status@,
            phone: self.phone@,
            content: self.content@,
            date: self.date@,
        }
    }
}

impl Clone for SmsMessage {
    fn clone(&self) -> (r: Self)
        ensures
            r == *self,
    {
        SmsMessage {
            index: self.index.clone(),
            seq: self.seq,
            status: self.status.clone(),
            phone: self.phone.clone(),
            content: self.content.clone(),
            date: self.date.clone(),
        }
    }
}


// ---------------------------------------------------------------------------
// Reading

/// A text that may be left out.
pub open spec fn text_or_empty(value: Option<JsonView>) -> Option<Seq<char>> {
    match value {
        None => Some(Seq::empty()),
        Some(JsonView::Text(s)) => Some(s),
        Some(_) => None,
    }
}

/// A number that may be left out or null; `None` if it is no 64-bit number.
pub open spec fn number_or_none(value: Option<JsonView>) -> Option<Option<i64>> {
    match value {
        None => Some(None),
        Some(JsonView::Null) => Some(None),
        _ => match json::integer_of(value) {
            Some(n) => Some(Some(n as i64)),
            None => None,
        },
    }
}

/// The message that a JSON value reports: every field may be left out.
pub open spec fn message_of(value: JsonView) -> Option<SmsMessageView> {
    if json::is_record(value, 6) {
        match (
            text_or_empty(json::part(value, 0, "Index"@)),
            number_or_none(json::part(value, 1, "Seq"@)),
            text_or_empty(json::part(value, 2, "Smstat"@)),
            text_or_empty(json::part(value, 3, "Phone"@)),
            text_or_empty(json::part(value, 4, "Content"@)),
            text_or_empty(json::part(value, 5, "Date"@)),
        ) {
            (Some(index), Some(seq), Some(status), Some(phone), Some(content), Some(date)) => Some(
                SmsMessageView { index, seq, status, phone, content, date },
            ),
            _ => None,
        }
    } else {
        None
    }
}

/// The messages that a JSON value lists; `None` if one of them is malformed.
pub open spec fn messages_of(value: JsonView) -> Option<Seq<SmsMessageView>> {
    match value {
        JsonView::List(items) => if forall|i: int|
            0 <= i < items.len() ==> message_of(#[trigger] items[i]) is Some {
            Some(items.map_values(|item: JsonView| message_of(item)->0))
        } else {
            None
        },
        _ => None,
    }
}

fn text_field(value: Option<&Json>) -> (r: Option<String>)
    ensures
        text::opt_view(r) == text_or_empty(json::opt_value(value)),
{
    match value {
        None => {
            let none = String::new();
            assert(none@ =~= Seq::empty());
            Some(none)
        },
        Some(Json::Text(s)) => Some(s.clone()),
        Some(_) => None,
    }
}

fn number_field(value: Option<&Json>) -> (r: Option<Option<i64>>)
    ensures
        r == number_or_none(json::opt_value(value)),
{
    match value {
        None => Some(None),
        Some(Json::Null) => Some(None),
        Some(_) => match json::as_integer(value) {
            Some(n) => Some(Some(n)),
            None => None,
        },
    }
}

/// The mathematical values of some messages.
pub open spec fn messages_view(list: Seq<SmsMessage>) -> Seq<SmsMessageView> {
    list.map_values(|m: SmsMessage| m@)
}

impl SmsMessage {
    /// Reads a message from a JSON value.
    pub fn decode(value: &Json) -> (r: Option<SmsMessage>)
        ensures
            match r {
                Some(m) => message_of(value@) == Some(m@),
                None => message_of(value@) is None,
            },
    {
        if !value.is_record(6) {
            return None;
        }
        let index = text_field(value.part(0, "Index"));
        let seq = number_field(value.part(1, "Seq"));
        let status = text_field(value.part(2, "Smstat"));
        let phone = text_field(value.part(3, "Phone"));
        let content = text_field(value.part(4, "Content"));
        let date = text_field(value.part(5, "Date"));
        Some(
            SmsMessage {
                index: index?,
                seq: seq?,
                status: status?,
                phone: phone?,
                content: content?,
                date: date?,
            },
        )
    }

    /// Reads the messages that a reply of the SIM server lists.
    pub fn decode_all(value: &Json) -> (r: Option<Vec<SmsMessage>>)
        ensures
            match r {
                Some(list) => messages_of(value@) == Some(messages_view(list@)),
                None => messages_of(value@) is None,
            },
    {
        let items = match value {
            Json::List(items) => items,
            _ => {
                return None;
            },
        };
        let ghost all = json::items_view(items@);
        proof {
            json::lemma_list_view(*items);
        }
        let mut out: Vec<SmsMessage> = Vec::new();
        let mut i: usize = 0;
        while i < items.len()
            invariant
                i <= items@.len(),
                all == json::items_view(items@),
                value@ == JsonView::List(all),
                out@.len() == i,
                forall|j: int|
                    0 <= j < i ==> message_of(#[trigger] all[j]) == Some(out@[j]@),
            decreases items@.len() - i,
        {
            assert(all[i as int] == items@[i as int]@);
            match SmsMessage::decode(&items[i]) {
                Some(message) => {
                    out.push(message);
                },
                None => {
                    return None;
                },
            }
            i += 1;
        }
        assert(messages_view(out@) =~= all.map_values(|item: JsonView| message_of(item)->0));
        Some(out)
    }
}

// ---------------------------------------------------------------------------
// Routing

/// The chat message that a text message is.
pub open spec fn chat_of(m: SmsMessageView) -> ChatView {
    ChatView {
        sender: text::trimmed(m.phone),
        sender_id: None,
        text: m.content,
        attachments: Seq::empty(),
        is_from_me: false,
        quoted: None,
    }
}

/// What a received message is to the router: the peer's phone number is the
/// conversation. A blank message or sender is nothing to route.
pub open spec fn event_of(m: SmsMessageView) -> Option<InboundEventView> {
    if text::blank(m.phone) || text::blank(m.content) {
        None
    } else {
        Some(
            InboundEventView {
                channel_type: CHANNEL_TYPE@,
                platform_id: text::trimmed(m.phone),
                thread_id: None,
                kind: MessageKind::Chat,
                content: json::encoded(content::chat_value(chat_of(m))),
                is_mention: false,
                is_group: false,
            },
        )
    }
}

/// What a received message is to the router.
pub fn to_inbound_event(message: &SmsMessage) -> (r: Option<InboundEvent>)
    ensures
        match r {
            Some(event) => event_of(message@) == Some(event@),
            None => event_of(message@) is None,
        },
{
    if text::is_blank(&message.phone) || text::is_blank(&message.content) {
        return None;
    }
    let phone = text::trim(&message.phone);
    let chat = ChatContent {
        sender: phone.clone(),
        sender_id: None,
        text: message.content.clone(),
        attachments: Vec::new(),
        is_from_me: false,
        quoted: None,
    };
    assert(chat@ =~= chat_of(message@)) by {
        assert(chat@.attachments =~= Seq::empty());
    }
    Some(
        InboundEvent {
            channel_type: CHANNEL_TYPE.to_owned(),
            platform_id: phone,
            thread_id: None,
            kind: MessageKind::Chat,
            content: chat.to_value().encode(),
            is_mention: false,
            is_group: false,
        },
    )
}

/// The next position to poll from: the highest sequence number seen, or the
/// present position where no message is past it.
pub open spec fn advanced(cursor: int, messages: Seq<SmsMessageView>) -> int
    decreases messages.len(),
{
    if messages.len() == 0 {
        cursor
    } else {
        let before = advanced(cursor, messages.drop_last());
        match messages.last().seq {
            Some(seq) => if seq > before {
                seq as int
            } else {
                before
            },
            None => before,
        }
    }
}

/// The next position to poll from.
#[must_use]
pub fn advance_cursor(cursor: i64, messages: &Vec<SmsMessage>) -> (r: i64)
    ensures
        r == advanced(cursor as int, messages_view(messages@)),
{
    let ghost all = messages_view(messages@);
    let mut highest: i64 = cursor;
    let mut i: usize = 0;
    assert(all.take(0) =~= Seq::empty());
    while i < messages.len()
        invariant
            i <= messages@.len(),
            all == messages_view(messages@),
            highest == advanced(cursor as int, all.take(i as int)),
        decreases messages@.len() - i,
    {
        assert(all.take(i + 1).drop_last() =~= all.take(i as int));
        assert(all.take(i + 1).last() == messages@[i as int]@);
        match messages[i].seq {
            Some(seq) => {
                if seq > highest {
                    highest = seq;
                }
            },
            None => {},
        }
        i += 1;
    }
    assert(all.take(i as int) =~= all);
    highest
}

// ---------------------------------------------------------------------------
// Rendering

/// Whether a character is one of the 128 that every text message can carry.
pub open spec fn ascii(c: char) -> bool {
    (c as u32) < 128
}

/// What stands for a character outside of ASCII; `None` for one that is left out.
pub open spec fn ascii_for(c: char) -> Option<Seq<char>> {
    match c {
        'à' | 'á' | 'â' | 'ä' | 'ã' | 'å' => Some("a"@),
        'À' | 'Á' | 'Â' | 'Ä' | 'Ã' | 'Å' => Some("A"@),
        'ç' => Some("c"@),
        'Ç' => Some("C"@),
        'è' | 'é' | 'ê' | 'ë' => Some("e"@),
        'È' | 'É' | 'Ê' | 'Ë' => Some("E"@),
        'ì' | 'í' | 'î' | 'ï' => Some("i"@),
        'Ì' | 'Í' | 'Î' | 'Ï' => Some("I"@),
        'ñ' => Some("n"@),
        'Ñ' => Some("N"@),
        'ò' | 'ó' | 'ô' | 'ö' | 'õ' => Some("o"@),
        'Ò' | 'Ó' | 'Ô' | 'Ö' | 'Õ' => Some("O"@),
        'ù' | 'ú' | 'û' | 'ü' => Some("u"@),
        'Ù' | 'Ú' | 'Û' | 'Ü' => Some("U"@),
        'ý' | 'ÿ' => Some("y"@),
        'œ' => Some("oe"@),
        'Œ' => Some("OE"@),
        'æ' => Some("ae"@),
        'Æ' => Some("AE"@),
        'ß' => Some("ss"@),
        '\u{2019}' | '\u{2018}' | '\u{201A}' | '`' => Some("'"@),
        '\u{201C}' | '\u{201D}' | '\u{201E}' | '«' | '»' => Some("\""@),
        '\u{2013}' | '\u{2014}' | '\u{2011}' | '\u{2012}' => Some("-"@),
        '…' => Some("..."@),
        '•' | '·' => Some("-"@),
        '\u{00A0}' | '\u{202F}' | '\u{2009}' => Some(" "@),
        '€' => Some("EUR"@),
        '£' => Some("GBP"@),
        '°' => Some(" deg"@),
        '×' => Some("x"@),
        '✓' | '✔' => Some("[ok]"@),
        '→' => Some("->"@),
        _ => None,
    }
}

fn transliterate(ch: char) -> (r: Option<&'static str>)
    ensures
        text::opt_str_view(r) == ascii_for(ch),
{
    match ch {
        'à' | 'á' | 'â' | 'ä' | 'ã' | 'å' => Some("a"),
        'À' | 'Á' | 'Â' | 'Ä' | 'Ã' | 'Å' => Some("A"),
        'ç' => Some("c"),
        'Ç' => Some("C"),
        'è' | 'é' | 'ê' | 'ë' => Some("e"),
        'È' | 'É' | 'Ê' | 'Ë' => Some("E"),
        'ì' | 'í' | 'î' | 'ï' => Some("i"),
        'Ì' | 'Í' | 'Î' | 'Ï' => Some("I"),
        'ñ' => Some("n"),
        'Ñ' => Some("N"),
        'ò' | 'ó' | 'ô' | 'ö' | 'õ' => Some("o"),
        'Ò' | 'Ó' | 'Ô' | 'Ö' | 'Õ' => Some("O"),
        'ù' | 'ú' | 'û' | 'ü' => Some("u"),
        'Ù' | 'Ú' | 'Û' | 'Ü' => Some("U"),
        'ý' | 'ÿ' => Some("y"),
        'œ' => Some("oe"),
        'Œ' => Some("OE"),
        'æ' => Some("ae"),
        'Æ' => Some("AE"),
        'ß' => Some("ss"),
        '\u{2019}' | '\u{2018}' | '\u{201A}' | '`' => Some("'"),
        '\u{201C}' | '\u{201D}' | '\u{201E}' | '«' | '»' => Some("\""),
        '\u{2013}' | '\u{2014}' | '\u{2011}' | '\u{2012}' => Some("-"),
        '…' => Some("..."),
        '•' | '·' => Some("-"),
        '\u{00A0}' | '\u{202F}' | '\u{2009}' => Some(" "),
        '€' => Some("EUR"),
        '£' => Some("GBP"),
        '°' => Some(" deg"),
        '×' => Some("x"),
        '✓' | '✔' => Some("[ok]"),
        '→' => Some("->"),
        _ => None,
    }
}

/// A character as a text message carries it.
pub open spec fn folded(c: char) -> Seq<char> {
    if ascii(c) {
        seq![c]
    } else {
        match ascii_for(c) {
            Some(s) => s,
            None => Seq::empty(),
        }
    }
}

/// A text as a text message carries it: character by character, accents fold to
/// their letter, common marks to ASCII ones, and the rest is left out.
pub open spec fn gsm7(s: Seq<char>) -> Seq<char>
    decreases s.len(),
{
    if s.len() == 0 {
        Seq::empty()
    } else {
        gsm7(s.drop_last()) + folded(s.last())
    }
}

/// Folds a text to what a text message can always carry.
#[must_use]
pub fn to_gsm7_safe(text: &str) -> (r: String)
    ensures
        r@ == gsm7(text@),
{
    let list = text::chars(text);
    let mut out = String::new();
    let mut i: usize = 0;
    assert(text@.take(0) =~= Seq::empty());
    assert(out@ =~= Seq::empty());
    while i < list.len()
        invariant
            i <= list@.len(),
            list@ == text@,
            out@ == gsm7(text@.take(i as int)),
        decreases list@.len() - i,
    {
        let ch = list[i];
        let ghost was = out@;
        assert(text@.take(i + 1).drop_last() =~= text@.take(i as int));
        if (ch as u32) < 128 {
            out.push(ch);
            assert(out@ =~= was + seq![ch]);
        } else {
            match transliterate(ch) {
                Some(replacement) => {
                    out.append(replacement);
                },
                None => {
                    assert(was + Seq::<char>::empty() =~= was);
                },
            }
        }
        i += 1;
    }
    assert(text@.take(i as int) =~= text@);
    out
}

/// The text of an outbound content; none where it has none.
pub open spec fn own_text(content: OutboundView) -> Seq<char> {
    match content.text {
        Some(s) => s,
        None => Seq::empty(),
    }
}

/// What an operation comes down to as text. A question rides as its text, and
/// its answer comes back as a plain message. An approval points at the web
/// admin, as the sender of a text message proves nothing.
pub open spec fn operation_text(content: OutboundView) -> Seq<char> {
    match content.operation {
        None => own_text(content),
        Some(OperationView::AskQuestion { question, options, .. }) => if own_text(content).len()
            == 0 {
            question + " ("@ + text::joined(options, " / "@) + ")"@
        } else {
            own_text(content)
        },
        Some(OperationView::Approval { summary, .. }) =>
            "[approval needed — use the web admin] "@ + summary,
        Some(OperationView::Edit { text, .. }) => text,
        Some(OperationView::Reaction { emoji, .. }) => emoji,
    }
}

/// What stands for files, which a text message cannot carry.
pub open spec fn note_of(count: int) -> Option<Seq<char>> {
    if count <= 0 {
        None
    } else if count == 1 {
        Some("[1 attachment not deliverable over SMS]"@)
    } else {
        Some("["@ + text::decimal(count) + " attachments not deliverable over SMS]"@)
    }
}

/// The one text that an outbound message becomes, before it is folded.
pub open spec fn combined(content: OutboundView, files: int) -> Seq<char> {
    let said = operation_text(content);
    match note_of(files) {
        None => said,
        Some(note) => if said.len() == 0 {
            note
        } else {
            said + "\n"@ + note
        },
    }
}

fn render_operation(content: &OutboundContent) -> (r: String)
    ensures
        r@ == operation_text(content@),
{
    let said = match &content.text {
        Some(s) => s.clone(),
        None => String::new(),
    };
    assert(said@ =~= own_text(content@));
    match &content.operation {
        None => said,
        Some(Operation::AskQuestion { question, options, .. }) => {
            if said.as_str().unicode_len() == 0 {
                let mut out = question.clone();
                out.append(" (");
                out.append(&text::join(options, " / "));
                out.append(")");
                out
            } else {
                said
            }
        },
        Some(Operation::Approval { summary, .. }) => text::concat2(
            "[approval needed — use the web admin] ",
            summary,
        ),
        Some(Operation::Edit { text, .. }) => text.clone(),
        Some(Operation::Reaction { emoji, .. }) => emoji.clone(),
    }
}

fn attachment_note(count: usize) -> (r: Option<String>)
    ensures
        text::opt_view(r) == note_of(count as int),
{
    if count == 0 {
        None
    } else if count == 1 {
        Some("[1 attachment not deliverable over SMS]".to_owned())
    } else {
        Some(
            text::concat3(
                "[",
                &text::decimal_u64(count as u64),
                " attachments not deliverable over SMS]",
            ),
        )
    }
}

/// Flattens an outbound message to the one plain text that a text message can
/// carry.
#[must_use]
pub fn render_sms(delivery: &OutboundDelivery) -> (r: String)
    ensures
        r@ == gsm7(combined(delivery.content@, delivery.files@.len() as int)),
{
    let said = render_operation(&delivery.content);
    let whole = match attachment_note(delivery.files.len()) {
        None => said,
        Some(note) => {
            if said.as_str().unicode_len() == 0 {
                note
            } else {
                text::concat3(&said, "\n", &note)
            }
        },
    };
    to_gsm7_safe(&whole)
}

// ---------------------------------------------------------------------------
// Laws

/// Whether a text is made of the characters that every text message can carry.
pub open spec fn all_ascii(s: Seq<char>) -> bool {
    forall|i: int| 0 <= i < s.len() ==> ascii(#[trigger] s[i])
}

proof fn lemma_replacements_are_ascii(c: char)
    ensures
        ascii_for(c) matches Some(s) ==> all_ascii(s),
{
    reveal_strlit("a");
    reveal_strlit("A");
    reveal_strlit("c");
    reveal_strlit("C");
    reveal_strlit("e");
    reveal_strlit("E");
    reveal_strlit("i");
    reveal_strlit("I");
    reveal_strlit("n");
    reveal_strlit("N");
    reveal_strlit("o");
    reveal_strlit("O");
    reveal_strlit("u");
    reveal_strlit("U");
    reveal_strlit("y");
    reveal_strlit("oe");
    reveal_strlit("OE");
    reveal_strlit("ae");
    reveal_strlit("AE");
    reveal_strlit("ss");
    reveal_strlit("'");
    reveal_strlit("\"");
    reveal_strlit("-");
    reveal_strlit("...");
    reveal_strlit(" ");
    reveal_strlit("EUR");
    reveal_strlit("GBP");
    reveal_strlit(" deg");
    reveal_strlit("x");
    reveal_strlit("[ok]");
    reveal_strlit("->");
}

/// A folded text can always be carried.
pub proof fn folded_text_is_ascii(s: Seq<char>)
    ensures
        all_ascii(gsm7(s)),
    decreases s.len(),
{
    if s.len() > 0 {
        folded_text_is_ascii(s.drop_last());
        lemma_replacements_are_ascii(s.last());
    }
}

/// Plain ASCII passes untouched.
pub proof fn ascii_passes_untouched(s: Seq<char>)
    requires
        all_ascii(s),
    ensures
        gsm7(s) == s,
    decreases s.len(),
{
    if s.len() > 0 {
        assert(ascii(s[s.len() - 1]));
        assert forall|i: int| 0 <= i < s.drop_last().len() implies ascii(
            #[trigger] s.drop_last()[i],
        ) by {
            assert(ascii(s[i]));
        }
        ascii_passes_untouched(s.drop_last());
        assert(s.drop_last() + seq![s.last()] =~= s);
    }
}

/// Folding twice is folding once.
pub proof fn folding_is_idempotent(s: Seq<char>)
    ensures
        gsm7(gsm7(s)) == gsm7(s),
{
    folded_text_is_ascii(s);
    ascii_passes_untouched(gsm7(s));
}

/// A text folds part by part.
pub proof fn folding_goes_part_by_part(a: Seq<char>, b: Seq<char>)
    ensures
        gsm7(a + b) == gsm7(a) + gsm7(b),
    decreases b.len(),
{
    if b.len() == 0 {
        assert(a + b =~= a);
        assert(gsm7(a) + gsm7(b) =~= gsm7(a));
    } else {
        folding_goes_part_by_part(a, b.drop_last());
        assert((a + b).drop_last() =~= a + b.drop_last());
        assert((a + b).last() == b.last());
        assert(gsm7(a) + (gsm7(b.drop_last()) + folded(b.last())) =~= (gsm7(a) + gsm7(
            b.drop_last(),
        )) + folded(b.last()));
    }
}

/// The position never moves backwards, and is past every message seen.
pub proof fn cursor_is_past_every_message(cursor: int, messages: Seq<SmsMessageView>)
    ensures
        advanced(cursor, messages) >= cursor,
        forall|i: int|
            0 <= i < messages.len() ==> ((#[trigger] messages[i]).seq matches Some(seq) ==> seq
                <= advanced(cursor, messages)),
    decreases messages.len(),
{
    if messages.len() > 0 {
        let init = messages.drop_last();
        cursor_is_past_every_message(cursor, init);
        assert forall|i: int| 0 <= i < messages.len() implies ((
        #[trigger] messages[i]).seq matches Some(seq) ==> seq <= advanced(cursor, messages)) by {
            if i < init.len() {
                assert(init[i] == messages[i]);
            }
        }
    }
}

/// The position does not run ahead: it stays, or is that of a message seen.
pub proof fn cursor_does_not_run_ahead(cursor: int, messages: Seq<SmsMessageView>)
    ensures
        advanced(cursor, messages) == cursor || exists|i: int|
            0 <= i < messages.len() && ((#[trigger] messages[i]).seq matches Some(seq) && seq
                == advanced(cursor, messages)),
    decreases messages.len(),
{
    if messages.len() > 0 {
        let init = messages.drop_last();
        cursor_does_not_run_ahead(cursor, init);
        let before = advanced(cursor, init);
        let now = advanced(cursor, messages);
        if now != before {
            assert(messages[messages.len() - 1] == messages.last());
            assert(messages.last().seq matches Some(seq) && seq == now);
        } else if now != cursor {
            let i = choose|i: int|
                0 <= i < init.len() && ((#[trigger] init[i]).seq matches Some(seq) && seq == before);
            assert(messages[i] == init[i]);
        }
    }
}

/// A text message reaches the router with the words it was sent with, as a chat
/// message that is no mention and in no group.
pub proof fn texts_are_routed_as_sent(m: SmsMessageView)
    requires
        !text::blank(m.phone),
        !text::blank(m.content),
    ensures
        event_of(m) matches Some(event) && event.kind == MessageKind::Chat && !event.is_group
            && !event.is_mention && event.platform_id == text::trimmed(m.phone),
        content::chat_of(content::chat_value(chat_of(m))) == Some(chat_of(m)),
        chat_of(m).text == m.content,
{
    content::chat_round_trips(chat_of(m));
}

/// A report is read field by field, each under its own name; what is left out is
/// empty.
pub proof fn reports_are_read_field_by_field(fields: crate::json::Fields)
    ensures
        message_of(JsonView::Object(fields)) matches Some(m) ==> {
            &&& json::lookup(fields, "Index"@) matches Some(JsonView::Text(t)) ==> m.index == t
            &&& json::lookup(fields, "Smstat"@) matches Some(JsonView::Text(t)) ==> m.status == t
            &&& json::lookup(fields, "Phone"@) matches Some(JsonView::Text(t)) ==> m.phone == t
            &&& json::lookup(fields, "Content"@) matches Some(JsonView::Text(t)) ==> m.content == t
            &&& json::lookup(fields, "Date"@) matches Some(JsonView::Text(t)) ==> m.date == t
            &&& json::lookup(fields, "Seq"@) is None ==> m.seq is None
            &&& json::lookup(fields, "Phone"@) is None ==> m.phone.len() == 0
            &&& json::lookup(fields, "Content"@) is None ==> m.content.len() == 0
        },
        message_of(JsonView::Object(Seq::empty())) is Some,
{
}

/// The number of a report is read as it is written.
pub proof fn report_numbers_are_read(fields: crate::json::Fields, n: i64)
    requires
        json::lookup(fields, "Seq"@) == Some(JsonView::Number(text::decimal(n as int))),
    ensures
        message_of(JsonView::Object(fields)) matches Some(m) ==> m.seq == Some(n),
{
    text::lemma_decimal_read_back(n as int);
}

/// A list of reports is read in its order, all of it or not at all.
pub proof fn all_reports_are_read(items: Seq<JsonView>, i: int)
    requires
        0 <= i < items.len(),
    ensures
        messages_of(JsonView::List(items)) matches Some(list) ==> list.len() == items.len()
            && message_of(items[i]) == Some(list[i]),
        message_of(items[i]) is None ==> messages_of(JsonView::List(items)) is None,
{
}

/// A text message becomes an event of its sender's conversation that says what was
/// sent; without a sender or a text there is none.
pub proof fn text_messages_become_events(m: SmsMessageView)
    ensures
        event_of(m) is Some <==> !text::blank(m.phone) && !text::blank(m.content),
        event_of(m) matches Some(event) ==> {
            &&& event.channel_type == "sms"@
            &&& event.platform_id == text::trimmed(m.phone)
            &&& event.thread_id is None
            &&& event.kind == MessageKind::Chat
            &&& !event.is_group
            &&& !event.is_mention
            &&& exists|chat: ChatView|
                event.content == json::encoded(#[trigger] content::chat_value(chat)) && chat.text
                    == m.content && chat.sender == text::trimmed(m.phone) && chat.attachments.len()
                    == 0 && chat.quoted is None && !chat.is_from_me && chat.sender_id is None
        },
{
    if event_of(m) is Some {
        assert(event_of(m)->0.content == json::encoded(content::chat_value(chat_of(m))));
    }
}

/// What is said over a text message: the text itself; of a question its text or, where
/// it has none, the question with its options; of an edit the new text, of a reaction
/// the emoji, of an approval its summary.
pub proof fn operations_are_put_in_words(content: OutboundView)
    ensures
        content.operation is None ==> combined(content, 0) == (match content.text {
            Some(said) => said,
            None => Seq::empty(),
        }),
        content.operation matches Some(
            OperationView::AskQuestion { question, options, .. },
        ) ==> {
            &&& content.text matches Some(said) ==> said.len() > 0 ==> combined(content, 0) == said
            &&& content.text is None ==> combined(content, 0) == question + " ("@ + text::joined(
                options,
                " / "@,
            ) + ")"@
        },
        content.operation matches Some(OperationView::Edit { text, .. }) ==> combined(content, 0)
            == text,
        content.operation matches Some(OperationView::Reaction { emoji, .. }) ==> combined(
            content,
            0,
        ) == emoji,
        content.operation matches Some(OperationView::Approval { summary, .. }) ==> text::within(
            combined(content, 0),
            summary,
        ),
{
    if let Some(OperationView::Approval { summary, .. }) = content.operation {
        let head = "[approval needed — use the web admin] "@;
        let whole = head + summary;
        assert(whole.subrange(head.len() as int, whole.len() as int) =~= summary);
        assert(text::at(whole, summary, head.len() as int));
    }
}

/// Files cannot be sent along, and the text says so in a line of its own, with their
/// number.
pub proof fn files_are_told_of(content: OutboundView, files: int)
    requires
        files > 0,
    ensures
        ({
            let said = combined(content, 0);
            let whole = combined(content, files);
            &&& said.len() > 0 ==> text::at(whole, said + "\n"@, 0)
            &&& files > 1 ==> text::within(whole, text::decimal(files))
            &&& whole.len() > said.len()
        }),
{
    reveal_strlit("[1 attachment not deliverable over SMS]");
    reveal_strlit("[");
    let said = combined(content, 0);
    let whole = combined(content, files);
    let note = note_of(files)->0;
    assert(note.len() > 0);
    if said.len() > 0 {
        assert(whole =~= said + "\n"@ + note);
        assert(whole.subrange(0, (said + "\n"@).len() as int) =~= said + "\n"@);
    }
    if files > 1 {
        let number = text::decimal(files);
        let from = whole.len() - note.len() + 1;
        assert(note.subrange(1, (1 + number.len()) as int) =~= number);
        assert(whole.subrange(from, from + number.len()) =~= number);
        assert(text::at(whole, number, from));
    }
}

/// A report may give its fields by place as well as by name, and means the same.
pub proof fn reports_are_read_by_name_or_place(value: JsonView)
    ensures
        message_of(value) matches Some(m) ==> {
            &&& json::is_record(value, 6)
            &&& m.index.len() > 0 ==> json::part(value, 0, "Index"@) == Some(JsonView::Text(m.index))
            &&& m.status.len() > 0 ==> json::part(value, 2, "Smstat"@) == Some(
                JsonView::Text(m.status),
            )
            &&& m.phone.len() > 0 ==> json::part(value, 3, "Phone"@) == Some(JsonView::Text(m.phone))
            &&& m.content.len() > 0 ==> json::part(value, 4, "Content"@) == Some(
                JsonView::Text(m.content),
            )
            &&& m.date.len() > 0 ==> json::part(value, 5, "Date"@) == Some(JsonView::Text(m.date))
            &&& m.seq is Some ==> json::integer_of(json::part(value, 1, "Seq"@)) == Some(
                m.seq->0 as int,
            )
        },
{
}

/// The two cases of a letter with an accent are folded to the two cases of the same
/// letter: a capital stands 32 before its small letter, before and after.
pub proof fn cases_are_kept(capital: char, small: char)
    requires
        '\u{C0}' <= capital <= '\u{DE}',
        small as int == capital as int + 32,
    ensures
        ascii_for(capital) is Some && ascii_for(small) is Some ==> {
            &&& ascii_for(capital)->0.len() == ascii_for(small)->0.len()
            &&& ascii_for(capital)->0[0] as int + 32 == ascii_for(small)->0[0] as int
        },
{
    reveal_strlit("a");
    reveal_strlit("A");
    reveal_strlit("c");
    reveal_strlit("C");
    reveal_strlit("e");
    reveal_strlit("E");
    reveal_strlit("i");
    reveal_strlit("I");
    reveal_strlit("n");
    reveal_strlit("N");
    reveal_strlit("o");
    reveal_strlit("O");
    reveal_strlit("u");
    reveal_strlit("U");
    reveal_strlit("y");
    reveal_strlit("ae");
    reveal_strlit("AE");
    reveal_strlit("x");
    reveal_strlit("ss");
}

} // verus!
