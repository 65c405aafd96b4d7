//! The prompt that a batch of inbound messages is given to the agent as.

use vstd::prelude::*;

use crate::json;
use crate::protocol::content;
use crate::protocol::content::{
    Attachment, AttachmentView, ChatContent, ChatView, InboundContent, InboundView, QuotedView,
    SystemResult, SystemView, TaskContent, TaskView, WebhookContent, WebhookView,
};
use crate::session::InboundMessage;
use crate::text;
use crate::time;

verus! {

broadcast use vstd::string::group_string_axioms;

/// What of a message reaches the prompt.
#[verifier::ext_equal]
pub struct PromptSource {
    pub seq: int,
    pub kind: Seq<char>,
    pub timestamp: Seq<char>,
    pub content: Seq<char>,
}

/// What of a message reaches the prompt.
pub open spec fn source_of(message: InboundMessage) -> PromptSource {
    PromptSource {
        seq: message.seq@,
        kind: message.kind@,
        timestamp: message.timestamp@,
        content: message.content@,
    }
}

/// What of some messages reaches the prompt.
pub open spec fn sources_of(messages: Seq<InboundMessage>) -> Seq<PromptSource> {
    messages.map_values(|m: InboundMessage| source_of(m))
}

/// A character as markup shows it; a double quote is replaced in attributes
/// only.
pub open spec fn shown_char(c: char, attribute: bool) -> Seq<char> {
    if c == '&' {
        "&amp;"@
    } else if c == '<' {
        "&lt;"@
    } else if c == '>' {
        "&gt;"@
    } else if c == '"' && attribute {
        "&quot;"@
    } else {
        seq![c]
    }
}

/// A text as markup shows it.
pub open spec fn escaped(s: Seq<char>, attribute: bool) -> Seq<char>
    decreases s.len(),
{
    if s.len() == 0 {
        seq![]
    } else {
        escaped(s.drop_last(), attribute) + shown_char(s.last(), attribute)
    }
}

fn escape(value: &str, attribute: bool) -> (r: String)
    ensures
        r@ == escaped(value@, attribute),
{
    let list = text::chars(value);
    let mut out = String::new();
    let mut i: usize = 0;
    assert(value@.take(0).len() == 0);
    while i < list.len()
        invariant
            list@ == value@,
            i <= list@.len(),
            out@ == escaped(value@.take(i as int), attribute),
        decreases list@.len() - i,
    {
        let c = list[i];
        proof {
            assert(value@.take(i + 1).drop_last() =~= value@.take(i as int));
            assert(value@.take(i + 1).last() == c);
        }
        if c == '&' {
            out.append("&amp;");
        } else if c == '<' {
            out.append("&lt;");
        } else if c == '>' {
            out.append("&gt;");
        } else if c == '"' && attribute {
            out.append("&quot;");
        } else {
            out.push(c);
            assert(out@ =~= escaped(value@.take(i as int), attribute) + seq![c]);
        }
        i += 1;
    }
    assert(value@.take(i as int) =~= value@);
    out
}

/// A text as an attribute shows it.
pub fn escape_attr(value: &str) -> (r: String)
    ensures
        r@ == escaped(value@, true),
{
    escape(value, true)
}

/// A text as markup shows it.
pub fn escape_text(value: &str) -> (r: String)
    ensures
        r@ == escaped(value@, false),
{
    escape(value, false)
}

/// The zone that a name stands for: UTC for a name that is not known.
pub open spec fn zone_of(timezone: Seq<char>) -> Seq<char> {
    if time::known_zone(timezone) {
        timezone
    } else {
        "UTC"@
    }
}

/// The local time of a stored timestamp, for display; a text that is no
/// timestamp stays as it is.
pub open spec fn shown_time(timestamp: Seq<char>, zone: Seq<char>) -> Seq<char> {
    match time::instant_of(timestamp) {
        Some(at) => match time::local_stamp_of(at, zone) {
            Some(stamp) => stamp,
            None => timestamp,
        },
        None => timestamp,
    }
}

fn local_time(timestamp: &str, zone: &str) -> (r: String)
    ensures
        r@ == shown_time(timestamp@, zone@),
{
    match time::parse_instant(timestamp) {
        Some(at) => match time::local_stamp(at, zone) {
            Some(stamp) => stamp,
            None => timestamp.to_owned(),
        },
        None => timestamp.to_owned(),
    }
}

/// Where a file is to be found: its path, else its address, else its name.
pub open spec fn attachment_block(a: AttachmentView) -> Seq<char> {
    let location = match a.path {
        Some(path) => path,
        None => match a.url {
            Some(url) => url,
            None => a.name,
        },
    };
    "[file available at: "@ + location + "]"@
}

fn format_attachment(attachment: &Attachment) -> (r: String)
    ensures
        r@ == attachment_block(attachment@),
{
    let location = match &attachment.path {
        Some(path) => path,
        None => match &attachment.url {
            Some(url) => url,
            None => &attachment.name,
        },
    };
    text::concat3("[file available at: ", location, "]")
}

/// The quoted message of a chat message.
pub open spec fn quoted_block(q: QuotedView) -> Seq<char> {
    "<quoted_message from=\""@ + escaped(q.sender, true) + "\">"@ + escaped(q.text, false)
        + "</quoted_message>"@
}

/// The lines of a chat message: its text, the quoted message, the files.
pub open spec fn chat_lines(c: ChatView) -> Seq<Seq<char>> {
    seq![escaped(text::trimmed(c.text), false)] + (match c.quoted {
        Some(q) => seq![quoted_block(q)],
        None => seq![],
    }) + c.attachments.map_values(|a: AttachmentView| attachment_block(a))
}

/// A chat message in the prompt.
pub open spec fn chat_block(m: PromptSource, c: ChatView, zone: Seq<char>) -> Seq<char> {
    "<message id=\""@ + text::decimal(m.seq) + "\" sender=\""@ + escaped(c.sender, true)
        + "\" time=\""@ + shown_time(m.timestamp, zone) + "\">\n"@ + text::joined(
        chat_lines(c),
        "\n"@,
    ) + "\n</message>"@
}

fn format_chat(message: &InboundMessage, chat: &ChatContent, zone: &str) -> (r: String)
    ensures
        r@ == chat_block(source_of(*message), chat@, zone@),
{
    let mut body: Vec<String> = Vec::new();
    let first = escape_text(&text::trim(&chat.text));
    body.push(first);
    assert(text::views(body@) =~= seq![escaped(text::trimmed(chat.text@), false)]);
    match &chat.quoted {
        Some(quoted) => {
            let mut line = "<quoted_message from=\"".to_owned();
            line.append(&escape_attr(&quoted.sender));
            line.append("\">");
            line.append(&escape_text(&quoted.text));
            line.append("</quoted_message>");
            let ghost before = text::views(body@);
            body.push(line);
            assert(text::views(body@) =~= before + seq![quoted_block(quoted@)]);
        },
        None => {
            assert(text::views(body@) =~= text::views(body@) + Seq::<Seq<char>>::empty());
        },
    }
    let ghost head = text::views(body@);
    let ghost blocks = chat@.attachments.map_values(|a: AttachmentView| attachment_block(a));
    let mut i: usize = 0;
    assert(head + blocks.take(0) =~= head);
    while i < chat.attachments.len()
        invariant
            i <= chat.attachments@.len(),
            blocks == chat@.attachments.map_values(|a: AttachmentView| attachment_block(a)),
            text::views(body@) == head + blocks.take(i as int),
        decreases chat.attachments@.len() - i,
    {
        let line = format_attachment(&chat.attachments[i]);
        proof {
            assert(blocks[i as int] == line@);
            assert(text::views(body@.push(line)) =~= text::views(body@).push(line@));
            assert((head + blocks.take(i as int)).push(line@) =~= head + blocks.take(i + 1));
        }
        body.push(line);
        i += 1;
    }
    proof {
        assert(blocks.take(i as int) =~= blocks);
        assert(text::views(body@) =~= chat_lines(chat@));
    }
    let mut out = "<message id=\"".to_owned();
    out.append(&message.seq.to_text());
    out.append("\" sender=\"");
    out.append(&escape_attr(&chat.sender));
    out.append("\" time=\"");
    out.append(&local_time(&message.timestamp, zone));
    out.append("\">\n");
    out.append(&text::join(&body, "\n"));
    out.append("\n</message>");
    out
}

/// A task in the prompt.
pub open spec fn task_block(t: TaskView) -> Seq<char> {
    let script = match t.script {
        Some(script) => "Script:\n"@ + escaped(script, false) + "\n\n"@,
        None => seq![],
    };
    "<task>\n"@ + (script + "Instructions:\n"@ + escaped(t.prompt, false)) + "\n</task>"@
}

fn format_task(task: &TaskContent) -> (r: String)
    ensures
        r@ == task_block(task@),
{
    let mut body = String::new();
    match &task.script {
        Some(script) => {
            body.append("Script:\n");
            body.append(&escape_text(script));
            body.append("\n\n");
            assert(body@ =~= "Script:\n"@ + escaped(script@, false) + "\n\n"@);
        },
        None => {},
    }
    body.append("Instructions:\n");
    body.append(&escape_text(&task.prompt));
    text::concat3("<task>\n", &body, "\n</task>")
}

/// A webhook event in the prompt.
pub open spec fn webhook_block(w: WebhookView) -> Seq<char> {
    "<webhook source=\""@ + escaped(w.source, true) + "\" event=\""@ + escaped(w.event, true)
        + "\">\n"@ + json::encoded(w.payload) + "\n</webhook>"@
}

fn format_webhook(hook: &WebhookContent) -> (r: String)
    ensures
        r@ == webhook_block(hook@),
{
    let mut out = "<webhook source=\"".to_owned();
    out.append(&escape_attr(&hook.source));
    out.append("\" event=\"");
    out.append(&escape_attr(&hook.event));
    out.append("\">\n");
    out.append(&hook.payload.encode());
    out.append("\n</webhook>");
    out
}

/// The outcome of an action in the prompt.
pub open spec fn system_block(s: SystemView) -> Seq<char> {
    "<system_response action=\""@ + escaped(s.action, true) + "\" status=\""@ + escaped(
        s.status,
        true,
    ) + "\">\n"@ + json::encoded(s.result) + "\n</system_response>"@
}

fn format_system(result: &SystemResult) -> (r: String)
    ensures
        r@ == system_block(result@),
{
    let mut out = "<system_response action=\"".to_owned();
    out.append(&escape_attr(&result.action));
    out.append("\" status=\"");
    out.append(&escape_attr(&result.status));
    out.append("\">\n");
    out.append(&result.result.encode());
    out.append("\n</system_response>");
    out
}

/// A content without a shape of its own in the prompt.
pub open spec fn raw_block(kind: Seq<char>, shown: Seq<char>) -> Seq<char> {
    "<message kind=\""@ + escaped(kind, true) + "\">\n"@ + shown + "\n</message>"@
}

fn format_raw(kind: &str, shown: &str) -> (r: String)
    ensures
        r@ == raw_block(kind@, shown@),
{
    let mut out = "<message kind=\"".to_owned();
    out.append(&escape_attr(kind));
    out.append("\">\n");
    out.append(shown);
    out.append("\n</message>");
    out
}

/// A message in the prompt: whether it is a chat message, and its block.
pub open spec fn block_of(m: PromptSource, zone: Seq<char>) -> (bool, Seq<char>) {
    match content::inbound_meaning(m.kind, m.content) {
        Ok(InboundView::Chat(c)) => (true, chat_block(m, c, zone)),
        Ok(InboundView::Task(t)) => (false, task_block(t)),
        Ok(InboundView::Webhook(w)) => (false, webhook_block(w)),
        Ok(InboundView::System(s)) => (false, system_block(s)),
        Ok(InboundView::Raw(v)) => (false, raw_block(m.kind, json::encoded(v))),
        Err(_) => (false, raw_block(m.kind, m.content)),
    }
}

/// The blocks of the chat messages, or of the others, in the order of the batch.
pub open spec fn blocks_of(batch: Seq<PromptSource>, zone: Seq<char>, chats: bool) -> Seq<Seq<char>>
    decreases batch.len(),
{
    if batch.len() == 0 {
        seq![]
    } else {
        let before = blocks_of(batch.drop_last(), zone, chats);
        let (is_chat, block) = block_of(batch.last(), zone);
        if is_chat == chats {
            before.push(block)
        } else {
            before
        }
    }
}

/// The prompt of a batch: the time zone, the chat messages as one part, and a
/// part for each of the others.
pub open spec fn prompt_of(batch: Seq<PromptSource>, timezone: Seq<char>) -> Seq<char> {
    let zone = zone_of(timezone);
    let header = "<context timezone=\""@ + escaped(timezone, true) + "\" />"@;
    let chats = blocks_of(batch, zone, true);
    text::joined(
        seq![header] + (if chats.len() > 0 {
            seq![text::joined(chats, "\n"@)]
        } else {
            seq![]
        }) + blocks_of(batch, zone, false),
        "\n\n"@,
    )
}

fn format_message(message: &InboundMessage, zone: &str) -> (r: (bool, String))
    ensures
        (r.0, r.1@) == block_of(source_of(*message), zone@),
{
    match InboundContent::parse(&message.kind, &message.content) {
        Ok(InboundContent::Chat(chat)) => (true, format_chat(message, &chat, zone)),
        Ok(InboundContent::Task(task)) => (false, format_task(&task)),
        Ok(InboundContent::Webhook(hook)) => (false, format_webhook(&hook)),
        Ok(InboundContent::System(result)) => (false, format_system(&result)),
        Ok(InboundContent::Raw(value)) => (false, format_raw(&message.kind, &value.encode())),
        Err(_) => (false, format_raw(&message.kind, &message.content)),
    }
}

/// Renders a batch of inbound messages as a prompt. Routing never appears: the
/// agent sees content, sender and local time only.
pub fn format_batch(messages: &Vec<InboundMessage>, timezone: &str) -> (r: String)
    ensures
        r@ == prompt_of(sources_of(messages@), timezone@),
{
    let zone = if time::zone_exists(timezone) {
        timezone
    } else {
        "UTC"
    };
    let ghost batch = sources_of(messages@);
    let mut chats: Vec<String> = Vec::new();
    let mut others: Vec<String> = Vec::new();
    let mut i: usize = 0;
    proof {
        assert(batch.take(0).len() == 0);
        assert(text::views(chats@) =~= Seq::<Seq<char>>::empty());
        assert(text::views(others@) =~= Seq::<Seq<char>>::empty());
    }
    while i < messages.len()
        invariant
            i <= messages@.len(),
            batch == sources_of(messages@),
            text::views(chats@) == blocks_of(batch.take(i as int), zone@, true),
            text::views(others@) == blocks_of(batch.take(i as int), zone@, false),
        decreases messages@.len() - i,
    {
        let (is_chat, block) = format_message(&messages[i], zone);
        proof {
            assert(batch.take(i + 1).drop_last() =~= batch.take(i as int));
            assert(batch.take(i + 1).last() == source_of(messages@[i as int]));
            assert(text::views(chats@.push(block)) =~= text::views(chats@).push(block@));
            assert(text::views(others@.push(block)) =~= text::views(others@).push(block@));
        }
        if is_chat {
            chats.push(block);
        } else {
            others.push(block);
        }
        i += 1;
    }
    proof {
        assert(batch.take(i as int) =~= batch);
        assert(text::views(chats@).len() == chats@.len());
    }
    let mut parts: Vec<String> = Vec::new();
    let header = text::concat3("<context timezone=\"", &escape_attr(timezone), "\" />");
    parts.push(header);
    assert(text::views(parts@) =~= seq![header@]);
    if chats.len() > 0 {
        let block = text::join(&chats, "\n");
        parts.push(block);
        assert(text::views(parts@) =~= seq![header@] + seq![block@]);
    } else {
        assert(text::views(parts@) =~= seq![header@] + Seq::<Seq<char>>::empty());
    }
    proof {
        assert(text::views(parts@ + others@) =~= text::views(parts@) + text::views(others@));
    }
    parts.append(&mut others);
    text::join(&parts, "\n\n")
}

// ---------------------------------------------------------------------------
// Laws

/// Routing never reaches the prompt: batches that agree on number, kind, time
/// and content of each message give the same prompt, wherever the messages came
/// from.
pub proof fn routing_never_reaches_the_prompt(
    a: Seq<InboundMessage>,
    b: Seq<InboundMessage>,
    timezone: Seq<char>,
)
    requires
        a.len() == b.len(),
        forall|i: int|
            0 <= i < a.len() ==> {
                &&& (#[trigger] a[i]).seq@ == b[i].seq@
                &&& a[i].kind@ == b[i].kind@
                &&& a[i].timestamp@ == b[i].timestamp@
                &&& a[i].content@ == b[i].content@
            },
    ensures
        prompt_of(sources_of(a), timezone) == prompt_of(sources_of(b), timezone),
{
    assert(sources_of(a) =~= sources_of(b)) by {
        assert forall|i: int| 0 <= i < a.len() implies sources_of(a)[i] == sources_of(b)[i] by {
            assert(source_of(a[i]) == source_of(b[i]));
        }
    }
}

/// What markup shows of a text holds no angle bracket, and in an attribute no
/// double quote either, so that no message can close its block.
pub proof fn escaped_text_holds_no_markup(s: Seq<char>, attribute: bool)
    ensures
        forall|i: int|
            0 <= i < escaped(s, attribute).len() ==> {
                let c = #[trigger] escaped(s, attribute)[i];
                c != '<' && c != '>' && (attribute ==> c != '"')
            },
    decreases s.len(),
{
    reveal_strlit("&amp;");
    reveal_strlit("&lt;");
    reveal_strlit("&gt;");
    reveal_strlit("&quot;");
    if s.len() > 0 {
        escaped_text_holds_no_markup(s.drop_last(), attribute);
        let before = escaped(s.drop_last(), attribute);
        let last = shown_char(s.last(), attribute);
        assert forall|i: int| 0 <= i < escaped(s, attribute).len() implies {
            let c = #[trigger] escaped(s, attribute)[i];
            c != '<' && c != '>' && (attribute ==> c != '"')
        } by {
            if i < before.len() {
                assert(escaped(s, attribute)[i] == before[i]);
            } else {
                assert(escaped(s, attribute)[i] == last[i - before.len()]);
            }
        }
    }
}

/// A text without markup characters is shown as it is.
pub proof fn plain_text_is_shown_as_it_is(s: Seq<char>, attribute: bool)
    requires
        forall|i: int|
            0 <= i < s.len() ==> {
                let c = #[trigger] s[i];
                c != '&' && c != '<' && c != '>' && c != '"'
            },
    ensures
        escaped(s, attribute) == s,
    decreases s.len(),
{
    if s.len() > 0 {
        let rest = s.drop_last();
        assert forall|i: int| 0 <= i < rest.len() implies {
            let c = #[trigger] rest[i];
            c != '&' && c != '<' && c != '>' && c != '"'
        } by {
            assert(rest[i] == s[i]);
        }
        plain_text_is_shown_as_it_is(rest, attribute);
        assert(s[s.len() - 1] == s.last());
        assert(rest + seq![s.last()] =~= s);
    } else {
        assert(escaped(s, attribute) =~= s);
    }
}

/// Two texts one after the other are shown as each of them is.
pub proof fn texts_are_shown_part_by_part(a: Seq<char>, b: Seq<char>, attribute: bool)
    ensures
        escaped(a + b, attribute) == escaped(a, attribute) + escaped(b, attribute),
    decreases b.len(),
{
    if b.len() == 0 {
        assert(a + b =~= a);
        assert(escaped(a, attribute) + Seq::<char>::empty() =~= escaped(a, attribute));
    } else {
        assert((a + b).drop_last() =~= a + b.drop_last());
        assert((a + b).last() == b.last());
        texts_are_shown_part_by_part(a, b.drop_last(), attribute);
        let last = shown_char(b.last(), attribute);
        let x = escaped(a, attribute);
        let y = escaped(b.drop_last(), attribute);
        assert((x + y) + last =~= x + (y + last));
    }
}

/// Every ampersand that is shown begins the name of a character.
pub proof fn ampersands_begin_names(s: Seq<char>, attribute: bool, i: int)
    requires
        0 <= i < escaped(s, attribute).len(),
        escaped(s, attribute)[i] == '&',
    ensures
        ({
            let t = escaped(s, attribute);
            text::at(t, "&amp;"@, i) || text::at(t, "&lt;"@, i) || text::at(t, "&gt;"@, i) || (
            attribute && text::at(t, "&quot;"@, i))
        }),
    decreases s.len(),
{
    reveal_strlit("&amp;");
    reveal_strlit("&lt;");
    reveal_strlit("&gt;");
    reveal_strlit("&quot;");
    let t = escaped(s, attribute);
    let before = escaped(s.drop_last(), attribute);
    let last = shown_char(s.last(), attribute);
    assert(t =~= before + last);
    if i < before.len() {
        ampersands_begin_names(s.drop_last(), attribute, i);
        assert forall|name: Seq<char>| #[trigger] text::at(before, name, i) implies text::at(
            t,
            name,
            i,
        ) by {
            assert(t.subrange(i, i + name.len()) =~= before.subrange(i, i + name.len()));
        }
    } else {
        assert(last[i - before.len()] == '&');
        assert(i == before.len());
        assert(t.subrange(i, i + last.len()) =~= last);
    }
}

/// A text in which every occurrence of a pattern is replaced, from the left.
pub open spec fn replaced(s: Seq<char>, pattern: Seq<char>, with: Seq<char>) -> Seq<char>
    decreases s.len(),
{
    if s.len() == 0 {
        seq![]
    } else if pattern.len() > 0 && text::at(s, pattern, 0) {
        with + replaced(s.skip(pattern.len() as int), pattern, with)
    } else {
        seq![s[0]] + replaced(s.drop_first(), pattern, with)
    }
}

/// A shown text with the names of characters replaced by the characters, the
/// ampersand last.
pub open spec fn unescaped(t: Seq<char>, attribute: bool) -> Seq<char> {
    let angles = replaced(replaced(t, "&lt;"@, "<"@), "&gt;"@, ">"@);
    let quotes = if attribute {
        replaced(angles, "&quot;"@, "\""@)
    } else {
        angles
    };
    replaced(quotes, "&amp;"@, "&"@)
}

/// Whether a character is shown as itself once so many names were replaced.
spec fn bare(c: char, stage: int) -> bool {
    c == '<' && stage >= 1 || c == '>' && stage >= 2 || c == '"' && stage >= 3 || c == '&'
        && stage >= 4
}

spec fn stage_char(c: char, stage: int, attribute: bool) -> Seq<char> {
    if bare(c, stage) {
        seq![c]
    } else {
        shown_char(c, attribute)
    }
}

/// A shown text once so many names were replaced.
spec fn spread(s: Seq<char>, stage: int, attribute: bool) -> Seq<char>
    decreases s.len(),
{
    if s.len() == 0 {
        seq![]
    } else {
        stage_char(s[0], stage, attribute) + spread(s.drop_first(), stage, attribute)
    }
}

proof fn lemma_spread_begins(s: Seq<char>, attribute: bool)
    ensures
        spread(s, 0, attribute) == escaped(s, attribute),
    decreases s.len(),
{
    if s.len() > 0 {
        let one = seq![s[0]];
        assert(s =~= one + s.drop_first());
        texts_are_shown_part_by_part(one, s.drop_first(), attribute);
        lemma_spread_begins(s.drop_first(), attribute);
        assert(one.drop_last() =~= seq![]);
        assert(escaped(one.drop_last(), attribute) =~= seq![]);
        assert(escaped(one, attribute) =~= shown_char(s[0], attribute));
    }
}

proof fn lemma_spread_ends(s: Seq<char>, attribute: bool)
    ensures
        spread(s, 4, attribute) == s,
    decreases s.len(),
{
    if s.len() > 0 {
        lemma_spread_ends(s.drop_first(), attribute);
        assert(s =~= seq![s[0]] + s.drop_first());
    } else {
        assert(s =~= seq![]);
    }
}

proof fn lemma_quotes_stay(s: Seq<char>)
    ensures
        spread(s, 3, false) == spread(s, 2, false),
    decreases s.len(),
{
    if s.len() > 0 {
        lemma_quotes_stay(s.drop_first());
    }
}

proof fn lemma_replace_past(e: Seq<char>, rest: Seq<char>, pattern: Seq<char>, with: Seq<char>)
    requires
        pattern.len() > 0,
        pattern[0] == '&',
        forall|i: int| 0 <= i < e.len() ==> e[i] != '&',
    ensures
        replaced(e + rest, pattern, with) == e + replaced(rest, pattern, with),
    decreases e.len(),
{
    let t = e + rest;
    if e.len() == 0 {
        assert(t =~= rest);
        assert(e + replaced(rest, pattern, with) =~= replaced(rest, pattern, with));
    } else {
        if text::at(t, pattern, 0) {
            assert(t.subrange(0, pattern.len() as int)[0] == pattern[0]);
        }
        assert(t.drop_first() =~= e.drop_first() + rest);
        lemma_replace_past(e.drop_first(), rest, pattern, with);
        assert(seq![t[0]] + (e.drop_first() + replaced(rest, pattern, with)) =~= e + replaced(
            rest,
            pattern,
            with,
        ));
    }
}

proof fn lemma_replace_past_name(
    e: Seq<char>,
    rest: Seq<char>,
    pattern: Seq<char>,
    with: Seq<char>,
)
    requires
        pattern.len() > 1,
        pattern[0] == '&',
        e.len() > 1,
        e[1] != pattern[1],
        forall|i: int| 1 <= i < e.len() ==> e[i] != '&',
    ensures
        replaced(e + rest, pattern, with) == e + replaced(rest, pattern, with),
{
    let t = e + rest;
    if text::at(t, pattern, 0) {
        assert(t.subrange(0, pattern.len() as int)[1] == pattern[1]);
    }
    assert(t.drop_first() =~= e.drop_first() + rest);
    lemma_replace_past(e.drop_first(), rest, pattern, with);
    assert(seq![t[0]] + (e.drop_first() + replaced(rest, pattern, with)) =~= e + replaced(
        rest,
        pattern,
        with,
    ));
}

proof fn lemma_replace_stage(
    s: Seq<char>,
    stage: int,
    attribute: bool,
    pattern: Seq<char>,
    with: Seq<char>,
)
    requires
        ({
            ||| stage == 0 && pattern == "&lt;"@ && with == "<"@
            ||| stage == 1 && pattern == "&gt;"@ && with == ">"@
            ||| stage == 2 && attribute && pattern == "&quot;"@ && with == "\""@
            ||| stage == 3 && pattern == "&amp;"@ && with == "&"@
        }),
    ensures
        replaced(spread(s, stage, attribute), pattern, with) == spread(s, stage + 1, attribute),
    decreases s.len(),
{
    reveal_strlit("&amp;");
    reveal_strlit("&lt;");
    reveal_strlit("&gt;");
    reveal_strlit("&quot;");
    reveal_strlit("<");
    reveal_strlit(">");
    reveal_strlit("\"");
    reveal_strlit("&");
    if s.len() > 0 {
        let c = s[0];
        let e = stage_char(c, stage, attribute);
        let rest = spread(s.drop_first(), stage, attribute);
        lemma_replace_stage(s.drop_first(), stage, attribute, pattern, with);
        let t = e + rest;
        assert("&amp;"@.len() == 5 && "&lt;"@.len() == 4 && "&gt;"@.len() == 4 && "&quot;"@.len()
            == 6);
        assert("&lt;"@[1] == 'l' && "&gt;"@[1] == 'g');
        if e == pattern {
            assert(e.len() > 1);
            assert(e[1] == pattern[1]);
            assert(c == (if stage == 0 {
                '<'
            } else if stage == 1 {
                '>'
            } else if stage == 2 {
                '"'
            } else {
                '&'
            }));
            assert(t.subrange(0, pattern.len() as int) =~= pattern);
            assert(t.skip(pattern.len() as int) =~= rest);
            assert(with =~= seq![c]);
            assert(stage_char(c, stage + 1, attribute) == with);
        } else if e.len() == 1 {
            assert(c != '&');
            lemma_replace_past(e, rest, pattern, with);
            assert(stage_char(c, stage + 1, attribute) == e);
        } else {
            lemma_replace_past_name(e, rest, pattern, with);
            assert(stage_char(c, stage + 1, attribute) == e);
        }
    }
}

/// Showing a text can be undone.
pub proof fn showing_can_be_undone(s: Seq<char>, attribute: bool)
    ensures
        unescaped(escaped(s, attribute), attribute) == s,
{
    lemma_spread_begins(s, attribute);
    lemma_replace_stage(s, 0, attribute, "&lt;"@, "<"@);
    lemma_replace_stage(s, 1, attribute, "&gt;"@, ">"@);
    if attribute {
        lemma_replace_stage(s, 2, attribute, "&quot;"@, "\""@);
    } else {
        lemma_quotes_stay(s);
    }
    lemma_replace_stage(s, 3, attribute, "&amp;"@, "&"@);
    lemma_spread_ends(s, attribute);
}

/// A chat message is shown under its number and its sender, with its time, and its
/// lines are the text, the message that it quotes and its attachments, in this
/// order, with none left out.
pub proof fn chats_are_shown_whole(m: PromptSource, c: ChatView, zone: Seq<char>)
    ensures
        exists|lines: Seq<Seq<char>>|
            {
                let quotes: int = if c.quoted is Some {
                    1
                } else {
                    0
                };
                &&& chat_block(m, c, zone) == "<message id=\""@ + text::decimal(m.seq)
                    + "\" sender=\""@ + escaped(c.sender, true) + "\" time=\""@ + shown_time(
                    m.timestamp,
                    zone,
                ) + "\">\n"@ + #[trigger] text::joined(lines, "\n"@) + "\n</message>"@
                &&& lines.len() == 1 + quotes + c.attachments.len()
                &&& lines[0] == escaped(text::trimmed(c.text), false)
                &&& c.quoted is Some ==> text::within(lines[1], escaped(c.quoted->0.sender, true))
                    && text::within(lines[1], escaped(c.quoted->0.text, false))
                &&& forall|i: int|
                    #![trigger c.attachments[i]]
                    0 <= i < c.attachments.len() ==> text::within(
                        lines[1 + quotes + i],
                        file_place(c.attachments[i]),
                    )
            },
{
    let lines = chat_lines(c);
    let quotes: int = if c.quoted is Some {
        1
    } else {
        0
    };
    if c.quoted is Some {
        let q = c.quoted->0;
        let from = escaped(q.sender, true);
        let said = escaped(q.text, false);
        let line = quoted_block(q);
        assert(line =~= "<quoted_message from=\""@ + from + ("\">"@ + said
            + "</quoted_message>"@));
        text::parts_stand_in_the_whole(
            line,
            "<quoted_message from=\""@,
            from,
            "\">"@ + said + "</quoted_message>"@,
        );
        text::parts_stand_in_the_whole(
            line,
            "<quoted_message from=\""@ + from + "\">"@,
            said,
            "</quoted_message>"@,
        );
        assert(lines[1] == line);
    }
    assert forall|i: int| #![trigger c.attachments[i]] 0 <= i < c.attachments.len() implies text::within(
        lines[1 + quotes + i],
        file_place(c.attachments[i]),
    ) by {
        let place = file_place(c.attachments[i]);
        assert(lines[1 + quotes + i] == attachment_block(c.attachments[i]));
        text::parts_stand_in_the_whole(
            attachment_block(c.attachments[i]),
            "[file available at: "@,
            place,
            "]"@,
        );
    }
    assert(chat_block(m, c, zone) == "<message id=\""@ + text::decimal(m.seq) + "\" sender=\""@
        + escaped(c.sender, true) + "\" time=\""@ + shown_time(m.timestamp, zone) + "\">\n"@
        + text::joined(lines, "\n"@) + "\n</message>"@);
}

/// Where the agent finds a file: at its path, else at its address, else under its
/// name.
pub open spec fn file_place(a: AttachmentView) -> Seq<char> {
    if a.path is Some {
        a.path->0
    } else if a.url is Some {
        a.url->0
    } else {
        a.name
    }
}

/// A task, a webhook and an answer of the system are shown with all that they hold,
/// and what could not be read is shown as it came.
pub proof fn other_messages_are_shown_whole(m: PromptSource, zone: Seq<char>)
    ensures
        content::inbound_meaning(m.kind, m.content) matches Ok(InboundView::Task(t)) ==> {
            &&& text::within(block_of(m, zone).1, escaped(t.prompt, false))
            &&& t.script is Some ==> text::within(
                block_of(m, zone).1,
                escaped(t.script->0, false),
            )
        },
        content::inbound_meaning(m.kind, m.content) matches Ok(InboundView::Webhook(w)) ==> {
            &&& text::within(block_of(m, zone).1, escaped(w.source, true))
            &&& text::within(block_of(m, zone).1, escaped(w.event, true))
            &&& text::within(block_of(m, zone).1, json::encoded(w.payload))
        },
        content::inbound_meaning(m.kind, m.content) matches Ok(InboundView::System(s)) ==> {
            &&& text::within(block_of(m, zone).1, escaped(s.action, true))
            &&& text::within(block_of(m, zone).1, escaped(s.status, true))
            &&& text::within(block_of(m, zone).1, json::encoded(s.result))
        },
        content::inbound_meaning(m.kind, m.content) matches Ok(InboundView::Raw(v))
            ==> text::within(block_of(m, zone).1, json::encoded(v)) && text::within(
            block_of(m, zone).1,
            escaped(m.kind, true),
        ),
        content::inbound_meaning(m.kind, m.content) is Err ==> text::within(
            block_of(m, zone).1,
            m.content,
        ) && text::within(block_of(m, zone).1, escaped(m.kind, true)),
{
    let block = block_of(m, zone).1;
    match content::inbound_meaning(m.kind, m.content) {
        Ok(InboundView::Chat(_)) => {},
        Ok(InboundView::Task(t)) => {
            let asked = escaped(t.prompt, false);
            match t.script {
                Some(script) => {
                    let shown = escaped(script, false);
                    let rest = "\n\n"@ + "Instructions:\n"@ + asked + "\n</task>"@;
                    assert(block =~= "<task>\n"@ + "Script:\n"@ + shown + rest);
                    text::parts_stand_in_the_whole(
                        block,
                        "<task>\n"@ + "Script:\n"@,
                        shown,
                        rest,
                    );
                    let front = "<task>\n"@ + "Script:\n"@ + shown + "\n\n"@
                        + "Instructions:\n"@;
                    assert(block =~= front + asked + "\n</task>"@);
                    text::parts_stand_in_the_whole(block, front, asked, "\n</task>"@);
                },
                None => {
                    let front = "<task>\n"@ + "Instructions:\n"@;
                    assert(block =~= front + asked + "\n</task>"@);
                    text::parts_stand_in_the_whole(block, front, asked, "\n</task>"@);
                },
            }
        },
        Ok(InboundView::Webhook(w)) => {
            lemma_attributes_stand(
                block,
                "<webhook source=\""@,
                escaped(w.source, true),
                "\" event=\""@,
                escaped(w.event, true),
                json::encoded(w.payload),
                "\n</webhook>"@,
            );
        },
        Ok(InboundView::System(s)) => {
            lemma_attributes_stand(
                block,
                "<system_response action=\""@,
                escaped(s.action, true),
                "\" status=\""@,
                escaped(s.status, true),
                json::encoded(s.result),
                "\n</system_response>"@,
            );
        },
        Ok(InboundView::Raw(v)) => {
            lemma_raw_stands(m.kind, json::encoded(v));
        },
        Err(_) => {
            lemma_raw_stands(m.kind, m.content);
        },
    }
}

proof fn lemma_attributes_stand(
    block: Seq<char>,
    open: Seq<char>,
    first: Seq<char>,
    mid: Seq<char>,
    second: Seq<char>,
    body: Seq<char>,
    close: Seq<char>,
)
    requires
        block == open + first + mid + second + "\">\n"@ + body + close,
    ensures
        text::within(block, first),
        text::within(block, second),
        text::within(block, body),
{
    let tail = mid + second + "\">\n"@ + body + close;
    assert(block =~= open + first + tail);
    text::parts_stand_in_the_whole(block, open, first, tail);
    let end = "\">\n"@ + body + close;
    assert(block =~= open + first + mid + second + end);
    text::parts_stand_in_the_whole(block, open + first + mid, second, end);
    text::parts_stand_in_the_whole(block, open + first + mid + second + "\">\n"@, body, close);
}

proof fn lemma_raw_stands(kind: Seq<char>, shown: Seq<char>)
    ensures
        text::within(raw_block(kind, shown), shown),
        text::within(raw_block(kind, shown), escaped(kind, true)),
{
    let block = raw_block(kind, shown);
    let open = "<message kind=\""@;
    let close = "\n</message>"@;
    let name = escaped(kind, true);
    let end = "\">\n"@ + shown + close;
    assert(block =~= open + name + end);
    text::parts_stand_in_the_whole(block, open, name, end);
    text::parts_stand_in_the_whole(block, open + name + "\">\n"@, shown, close);
}

/// A message's block is in its list of blocks.
proof fn lemma_block_listed(batch: Seq<PromptSource>, zone: Seq<char>, i: int) -> (k: int)
    requires
        0 <= i < batch.len(),
    ensures
        0 <= k < blocks_of(batch, zone, block_of(batch[i], zone).0).len(),
        blocks_of(batch, zone, block_of(batch[i], zone).0)[k] == block_of(batch[i], zone).1,
    decreases batch.len(),
{
    let chats = block_of(batch[i], zone).0;
    if i == batch.len() - 1 {
        blocks_of(batch, zone, chats).len() - 1
    } else {
        lemma_block_listed(batch.drop_last(), zone, i)
    }
}

/// Every message of the batch stands in the prompt, wherever in the batch it is and
/// whatever its kind.
pub proof fn prompts_hold_every_message(batch: Seq<PromptSource>, timezone: Seq<char>, i: int)
    requires
        0 <= i < batch.len(),
    ensures
        text::within(prompt_of(batch, timezone), block_of(batch[i], zone_of(timezone)).1),
        content::inbound_meaning(batch[i].kind, batch[i].content) matches Ok(
            InboundView::Chat(c),
        ) ==> text::within(prompt_of(batch, timezone), escaped(text::trimmed(c.text), false)),
{
    let zone = zone_of(timezone);
    let prompt = prompt_of(batch, timezone);
    let (is_chat, block) = block_of(batch[i], zone);
    let k = lemma_block_listed(batch, zone, i);
    let header = "<context timezone=\""@ + escaped(timezone, true) + "\" />"@;
    let chats = blocks_of(batch, zone, true);
    let others = blocks_of(batch, zone, false);
    let said = if chats.len() > 0 {
        seq![text::joined(chats, "\n"@)]
    } else {
        seq![]
    };
    let parts = seq![header] + said + others;
    if is_chat {
        text::every_part_is_joined(chats, "\n"@, k);
        assert(parts[1] == text::joined(chats, "\n"@));
        text::every_part_is_joined(parts, "\n\n"@, 1);
        text::what_a_part_holds_the_whole_holds(prompt, parts[1], block);
    } else {
        let at = 1 + said.len() + k;
        assert(parts[at] == block);
        text::every_part_is_joined(parts, "\n\n"@, at);
    }
    match content::inbound_meaning(batch[i].kind, batch[i].content) {
        Ok(InboundView::Chat(c)) => {
            let lines = chat_lines(c);
            let line = escaped(text::trimmed(c.text), false);
            assert(lines[0] == line);
            text::every_part_is_joined(lines, "\n"@, 0);
            let body = text::joined(lines, "\n"@);
            let front = "<message id=\""@ + text::decimal(batch[i].seq) + "\" sender=\""@
                + escaped(c.sender, true) + "\" time=\""@ + shown_time(batch[i].timestamp, zone)
                + "\">\n"@;
            text::parts_stand_in_the_whole(block, front, body, "\n</message>"@);
            text::what_a_part_holds_the_whole_holds(block, body, line);
            text::what_a_part_holds_the_whole_holds(prompt, block, line);
        },
        _ => {},
    }
}

/// One message more comes last: a chat message behind the chat messages, and any
/// other message at the end of the prompt.
pub proof fn further_messages_come_last(
    batch: Seq<PromptSource>,
    timezone: Seq<char>,
    message: PromptSource,
)
    ensures
        !block_of(message, zone_of(timezone)).0 ==> prompt_of(batch.push(message), timezone)
            == prompt_of(batch, timezone) + "\n\n"@ + block_of(message, zone_of(timezone)).1,
        block_of(message, zone_of(timezone)).0 && blocks_of(batch, zone_of(timezone), false).len()
            == 0 ==> prompt_of(batch.push(message), timezone) == prompt_of(batch, timezone) + (
        if blocks_of(batch, zone_of(timezone), true).len() > 0 {
            "\n"@
        } else {
            "\n\n"@
        }) + block_of(message, zone_of(timezone)).1,
        (content::inbound_meaning(message.kind, message.content) matches Ok(InboundView::Chat(_)))
            <==> block_of(message, zone_of(timezone)).0,
        prompt_of(seq![], timezone) == "<context timezone=\""@ + escaped(timezone, true)
            + "\" />"@,
{
    let zone = zone_of(timezone);
    let more = batch.push(message);
    assert(more.drop_last() =~= batch);
    let (is_chat, block) = block_of(message, zone);
    let header = "<context timezone=\""@ + escaped(timezone, true) + "\" />"@;
    let chats = blocks_of(batch, zone, true);
    let others = blocks_of(batch, zone, false);
    let said = if chats.len() > 0 {
        seq![text::joined(chats, "\n"@)]
    } else {
        seq![]
    };
    let parts = seq![header] + said + others;
    let empty: Seq<PromptSource> = seq![];
    let none: Seq<Seq<char>> = seq![];
    assert(blocks_of(empty, zone, true) =~= none && blocks_of(empty, zone, false) =~= none);
    assert(seq![header] + none + none =~= seq![header]);
    text::one_more_part_is_joined(none, header, "\n\n"@);
    if !is_chat {
        assert(seq![header] + said + others.push(block) =~= parts.push(block));
        text::one_more_part_is_joined(parts, block, "\n\n"@);
    } else if others.len() == 0 {
        let all = text::joined(chats.push(block), "\n"@);
        text::one_more_part_is_joined(chats, block, "\n"@);
        assert(seq![header] + seq![all] + others =~= seq![header].push(all));
        text::one_more_part_is_joined(seq![header], all, "\n\n"@);
        if chats.len() > 0 {
            let was = text::joined(chats, "\n"@);
            assert(parts =~= seq![header].push(was));
            text::one_more_part_is_joined(seq![header], was, "\n\n"@);
            assert(header + "\n\n"@ + (was + "\n"@ + block) =~= header + "\n\n"@ + was + "\n"@
                + block);
        } else {
            assert(parts =~= seq![header]);
            assert(chats.push(block) =~= seq![block]);
        }
    }
}

/// Times are shown as the local time of the zone, which is UTC where the zone is not
/// known; a time that cannot be read is shown as it came.
pub proof fn times_are_local(timestamp: Seq<char>, timezone: Seq<char>, at: int, stamp: Seq<char>)
    ensures
        time::instant_of(timestamp) == Some(at) && time::known_zone(timezone)
            && time::local_stamp_of(at, timezone) == Some(stamp) ==> shown_time(
            timestamp,
            zone_of(timezone),
        ) == stamp,
        time::instant_of(timestamp) == Some(at) && !time::known_zone(timezone)
            && time::local_stamp_of(at, "UTC"@) == Some(stamp) ==> shown_time(
            timestamp,
            zone_of(timezone),
        ) == stamp,
        time::instant_of(timestamp) is None ==> shown_time(timestamp, zone_of(timezone))
            == timestamp,
{
}

} // verus!
