//! What of a conversation a model is shown.

use vstd::prelude::*;

use crate::json;
use crate::protocol::content;
use crate::protocol::content::{InboundContent, InboundView, OutboundContent};
use crate::providers::native::client;
use crate::providers::native::client::{ChatMessage, ChatMessageView, Role};
use crate::session::{TranscriptEntry, TranscriptEntryView};
use crate::text;

verus! {

broadcast use vstd::string::group_string_axioms;

/// The tokens that a text is taken to cost: one for every four bytes begun.
pub open spec fn tokens(s: Seq<char>) -> int {
    (text::bytes(s) + 3) / 4
}

/// The tokens that a text is taken to cost.
#[must_use]
pub fn estimate_tokens(text: &str) -> (r: usize)
    ensures
        r == tokens(text@),
{
    let n: usize = text::byte_len(text);
    if n % 4 == 0 {
        n / 4
    } else {
        n / 4 + 1
    }
}

/// What a model is shown of an inbound message. All but chat is labelled, so that
/// the model knows what it looks at; where a message came from is not shown.
pub open spec fn inbound_text(kind: Seq<char>, content: Seq<char>) -> Seq<char> {
    match content::inbound_meaning(kind, content) {
        Ok(InboundView::Chat(chat)) => if chat.sender.len() == 0 {
            chat.text
        } else {
            "["@ + chat.sender + "] "@ + chat.text
        },
        Ok(InboundView::Task(task)) => "[scheduled task] "@ + task.prompt,
        Ok(InboundView::Webhook(hook)) => "[webhook "@ + hook.source + "/"@ + hook.event + "] "@
            + json::encoded(hook.payload),
        Ok(InboundView::System(done)) => "[system "@ + done.action + " "@ + done.status + "] "@
            + json::encoded(done.result),
        Ok(InboundView::Raw(value)) => json::encoded(value),
        Err(_) => content,
    }
}

/// What a model is shown of an entry; `None` for an answer without a text.
pub open spec fn message_of(entry: TranscriptEntryView) -> Option<ChatMessageView> {
    if entry.inbound {
        Some(client::plain_message(Role::User, inbound_text(entry.kind, entry.content)))
    } else {
        match content::outbound_meaning(entry.content) {
            Ok(answer) => match answer.text {
                Some(said) => Some(client::plain_message(Role::Assistant, said)),
                None => None,
            },
            Err(_) => None,
        }
    }
}

/// The tokens that a message is taken to cost.
pub open spec fn cost(m: ChatMessageView) -> int {
    match m.content {
        Some(said) => tokens(said),
        None => 0,
    }
}

/// The newest entries that fit into a budget, oldest first. The first entry, seen
/// from the end, that does not fit ends the list.
pub open spec fn kept(transcript: Seq<TranscriptEntryView>, budget: int) -> Seq<ChatMessageView>
    decreases transcript.len(),
{
    if transcript.len() == 0 {
        Seq::empty()
    } else {
        match message_of(transcript.last()) {
            None => kept(transcript.drop_last(), budget),
            Some(m) => if cost(m) > budget {
                Seq::empty()
            } else {
                kept(transcript.drop_last(), budget - cost(m)).push(m)
            },
        }
    }
}

/// The messages that a model is shown: the system prompt, and what fits of the
/// conversation.
pub open spec fn shown(
    system_prompt: Option<Seq<char>>,
    transcript: Seq<TranscriptEntryView>,
    budget: int,
) -> Seq<ChatMessageView> {
    match system_prompt {
        Some(prompt) => seq![client::plain_message(Role::System, prompt)] + kept(
            transcript,
            budget,
        ),
        None => kept(transcript, budget),
    }
}

/// The mathematical values of some entries.
pub open spec fn entries_view(list: Seq<TranscriptEntry>) -> Seq<TranscriptEntryView> {
    list.map_values(|e: TranscriptEntry| e@)
}

fn show_inbound(kind: &str, content: &str) -> (r: String)
    ensures
        r@ == inbound_text(kind@, content@),
{
    match InboundContent::parse(kind, content) {
        Ok(InboundContent::Chat(chat)) => {
            if chat.sender.as_str().unicode_len() == 0 {
                chat.text
            } else {
                let mut out = text::concat3("[", &chat.sender, "] ");
                out.append(&chat.text);
                out
            }
        },
        Ok(InboundContent::Task(task)) => text::concat2("[scheduled task] ", &task.prompt),
        Ok(InboundContent::Webhook(hook)) => {
            let mut out = text::concat3("[webhook ", &hook.source, "/");
            out.append(&hook.event);
            out.append("] ");
            out.append(&hook.payload.encode());
            out
        },
        Ok(InboundContent::System(done)) => {
            let mut out = text::concat3("[system ", &done.action, " ");
            out.append(&done.status);
            out.append("] ");
            out.append(&done.result.encode());
            out
        },
        Ok(InboundContent::Raw(value)) => value.encode(),
        Err(_) => content.to_owned(),
    }
}

fn to_chat_message(entry: &TranscriptEntry) -> (r: Option<ChatMessage>)
    ensures
        match r {
            Some(m) => message_of(entry@) == Some(m@),
            None => message_of(entry@) is None,
        },
{
    if entry.inbound {
        let said = show_inbound(&entry.kind, &entry.content);
        Some(ChatMessage::new(Role::User, &said))
    } else {
        match OutboundContent::parse(&entry.content) {
            Ok(answer) => match answer.text {
                Some(said) => Some(ChatMessage::new(Role::Assistant, &said)),
                None => None,
            },
            Err(_) => None,
        }
    }
}

fn cost_of(message: &ChatMessage) -> (r: usize)
    ensures
        r == cost(message@),
{
    match &message.content {
        Some(said) => estimate_tokens(said),
        None => 0,
    }
}

/// The messages that a model is shown: the system prompt first, then the newest
/// entries that fit into the budget, oldest of them first.
#[must_use]
pub fn build_messages(
    system_prompt: Option<&str>,
    transcript: &Vec<TranscriptEntry>,
    token_budget: usize,
) -> (r: Vec<ChatMessage>)
    ensures
        client::messages_view(r@) == shown(
            text::opt_str_view(system_prompt),
            entries_view(transcript@),
            token_budget as int,
        ),
{
    let ghost all = entries_view(transcript@);
    let ghost want = kept(all, token_budget as int);
    let mut newest_first: Vec<ChatMessage> = Vec::new();
    let mut remaining: usize = token_budget;
    let mut i: usize = transcript.len();
    let mut full = false;
    assert(all.take(i as int) =~= all);
    proof {
        assert(client::messages_view(newest_first@).reverse() =~= Seq::empty());
        assert(want =~= kept(all.take(i as int), remaining as int) + Seq::empty());
    }
    while i > 0 && !full
        invariant
            i <= transcript@.len(),
            all == entries_view(transcript@),
            full ==> want == client::messages_view(newest_first@).reverse(),
            !full ==> want == kept(all.take(i as int), remaining as int) + client::messages_view(
                newest_first@,
            ).reverse(),
        decreases
                i + (if full {
                    0int
                } else {
                    1int
                }),
    {
        let ghost was = client::messages_view(newest_first@);
        proof {
            assert(all.take(i as int).last() == transcript@[i - 1]@);
            assert(all.take(i as int).drop_last() =~= all.take(i - 1));
        }
        match to_chat_message(&transcript[i - 1]) {
            None => {
                i -= 1;
            },
            Some(message) => {
                let price: usize = cost_of(&message);
                if price > remaining {
                    full = true;
                    assert(Seq::<ChatMessageView>::empty() + was.reverse() =~= was.reverse());
                } else {
                    remaining = remaining - price;
                    newest_first.push(message);
                    i -= 1;
                    proof {
                        let now = client::messages_view(newest_first@);
                        assert(now =~= was.push(message@));
                        assert(now.reverse() =~= seq![message@] + was.reverse());
                        let older = kept(all.take(i as int), remaining as int);
                        assert(older.push(message@) + was.reverse() =~= older + now.reverse());
                    }
                }
            },
        }
    }
    assert(want =~= client::messages_view(newest_first@).reverse());
    let mut messages: Vec<ChatMessage> = Vec::new();
    let ghost head: Seq<ChatMessageView> = match system_prompt {
        Some(prompt) => seq![client::plain_message(Role::System, prompt@)],
        None => Seq::empty(),
    };
    match system_prompt {
        Some(prompt) => {
            messages.push(ChatMessage::new(Role::System, prompt));
        },
        None => {},
    }
    assert(client::messages_view(messages@) =~= head);
    let ghost listed = client::messages_view(newest_first@);
    assert(head + Seq::empty() =~= head);
    assert(listed.skip(listed.len() as int).reverse() =~= Seq::empty());
    while newest_first.len() > 0
        invariant
            newest_first@.len() <= listed.len(),
            client::messages_view(newest_first@) == listed.take(newest_first@.len() as int),
            client::messages_view(messages@) == head + listed.skip(
                newest_first@.len() as int,
            ).reverse(),
        decreases newest_first@.len(),
    {
        let ghost n = newest_first@.len() as int;
        let ghost before = client::messages_view(newest_first@);
        let ghost so_far = client::messages_view(messages@);
        match newest_first.pop() {
            Some(message) => {
                proof {
                    assert(before[n - 1] == message@);
                    assert(client::messages_view(newest_first@) =~= listed.take(n - 1));
                }
                messages.push(message);
                proof {
                    assert(client::messages_view(messages@) =~= so_far.push(message@));
                    assert(listed.skip(n - 1).reverse() =~= listed.skip(n).reverse().push(
                        message@,
                    ));
                    assert(head + listed.skip(n - 1).reverse() =~= (head + listed.skip(
                        n,
                    ).reverse()).push(message@));
                }
            },
            None => {},
        }
    }
    assert(listed.skip(0) =~= listed);
    proof {
        if system_prompt is None {
            assert(head + want =~= want);
        }
    }
    messages
}

// ---------------------------------------------------------------------------
// Laws

/// The tokens of some messages.
pub open spec fn total_cost(messages: Seq<ChatMessageView>) -> int
    decreases messages.len(),
{
    if messages.len() == 0 {
        0
    } else {
        total_cost(messages.drop_last()) + cost(messages.last())
    }
}

/// What is kept of a conversation fits into the budget.
pub proof fn kept_messages_fit(transcript: Seq<TranscriptEntryView>, budget: int)
    requires
        budget >= 0,
    ensures
        total_cost(kept(transcript, budget)) <= budget,
    decreases transcript.len(),
{
    if transcript.len() > 0 {
        match message_of(transcript.last()) {
            None => {
                kept_messages_fit(transcript.drop_last(), budget);
            },
            Some(m) => {
                if cost(m) <= budget {
                    let rest = kept(transcript.drop_last(), budget - cost(m));
                    kept_messages_fit(transcript.drop_last(), budget - cost(m));
                    assert(rest.push(m).drop_last() =~= rest);
                }
            },
        }
    }
}

/// All messages of a conversation that can be shown.
pub open spec fn readable(transcript: Seq<TranscriptEntryView>) -> Seq<ChatMessageView>
    decreases transcript.len(),
{
    if transcript.len() == 0 {
        Seq::empty()
    } else {
        match message_of(transcript.last()) {
            None => readable(transcript.drop_last()),
            Some(m) => readable(transcript.drop_last()).push(m),
        }
    }
}

/// What is kept is the end of the conversation: the oldest messages go first, and
/// none is left out between those that stay.
pub proof fn the_oldest_go_first(transcript: Seq<TranscriptEntryView>, budget: int)
    ensures
        kept(transcript, budget).len() <= readable(transcript).len(),
        kept(transcript, budget) == readable(transcript).skip(
            readable(transcript).len() - kept(transcript, budget).len(),
        ),
    decreases transcript.len(),
{
    let all = readable(transcript);
    let some = kept(transcript, budget);
    if transcript.len() > 0 {
        let init = transcript.drop_last();
        match message_of(transcript.last()) {
            None => {
                the_oldest_go_first(init, budget);
            },
            Some(m) => {
                if cost(m) <= budget {
                    the_oldest_go_first(init, budget - cost(m));
                    assert(some =~= all.skip(all.len() - some.len()));
                } else {
                    assert(some =~= all.skip(all.len() as int));
                }
            },
        }
    } else {
        assert(some =~= all.skip(0));
    }
}

/// The system prompt is shown whatever the budget, and stands first.
pub proof fn the_system_prompt_stays(
    prompt: Seq<char>,
    transcript: Seq<TranscriptEntryView>,
    budget: int,
)
    ensures
        shown(Some(prompt), transcript, budget).len() > 0,
        shown(Some(prompt), transcript, budget)[0] == client::plain_message(Role::System, prompt),
{
}

/// A larger budget keeps at least as much.
pub proof fn more_budget_keeps_more(transcript: Seq<TranscriptEntryView>, less: int, more: int)
    requires
        less <= more,
    ensures
        kept(transcript, less).len() <= kept(transcript, more).len(),
    decreases transcript.len(),
{
    if transcript.len() > 0 {
        let init = transcript.drop_last();
        match message_of(transcript.last()) {
            None => {
                more_budget_keeps_more(init, less, more);
            },
            Some(m) => {
                more_budget_keeps_more(init, less - cost(m), more - cost(m));
            },
        }
    }
}

/// A message of the user is shown with its sender and its text, a task with its
/// prompt, and any other content as it is; what the agent said is shown as said.
pub proof fn messages_are_shown_as_said(entry: TranscriptEntryView)
    ensures
        entry.inbound ==> (message_of(entry) matches Some(m) && m.role == Role::User && (
        m.content matches Some(shown) && {
            &&& content::inbound_meaning(entry.kind, entry.content) matches Ok(
                InboundView::Chat(chat),
            ) ==> {
                &&& chat.sender.len() > 0 ==> shown == "["@ + chat.sender + "] "@ + chat.text
                &&& chat.sender.len() == 0 ==> shown == chat.text
            }
            &&& content::inbound_meaning(entry.kind, entry.content) matches Ok(
                InboundView::Task(task),
            ) ==> shown == "[scheduled task] "@ + task.prompt
            &&& content::inbound_meaning(entry.kind, entry.content) matches Ok(
                InboundView::Webhook(hook),
            ) ==> text::within(shown, json::encoded(hook.payload))
            &&& content::inbound_meaning(entry.kind, entry.content) matches Ok(
                InboundView::System(done),
            ) ==> text::within(shown, json::encoded(done.result))
            &&& content::inbound_meaning(entry.kind, entry.content) is Err ==> shown
                == entry.content
        })),
        !entry.inbound ==> (content::outbound_meaning(entry.content) matches Ok(answer) ==> (
        answer.text matches Some(said) ==> (message_of(entry) matches Some(m) && m.role
            == Role::Assistant && m.content == Some(said) && m.tool_calls.len() == 0))),
{
    match content::inbound_meaning(entry.kind, entry.content) {
        Ok(InboundView::Webhook(hook)) => {
            let head = "[webhook "@ + hook.source + "/"@ + hook.event + "] "@;
            let whole = head + json::encoded(hook.payload);
            assert(whole.subrange(head.len() as int, whole.len() as int) =~= json::encoded(
                hook.payload,
            ));
            assert(text::at(whole, json::encoded(hook.payload), head.len() as int));
        },
        Ok(InboundView::System(done)) => {
            let head = "[system "@ + done.action + " "@ + done.status + "] "@;
            let whole = head + json::encoded(done.result);
            assert(whole.subrange(head.len() as int, whole.len() as int) =~= json::encoded(
                done.result,
            ));
            assert(text::at(whole, json::encoded(done.result), head.len() as int));
        },
        _ => {},
    }
}

/// The newest message is shown last if there is room for it, with what the rest of
/// the budget shows before it; if there is no room, nothing is.
pub proof fn the_newest_message_is_shown_last(
    transcript: Seq<TranscriptEntryView>,
    entry: TranscriptEntryView,
    budget: int,
)
    ensures
        message_of(entry) matches Some(m) ==> {
            &&& cost(m) <= budget ==> kept(transcript.push(entry), budget) == kept(
                transcript,
                budget - cost(m),
            ).push(m)
            &&& cost(m) > budget ==> kept(transcript.push(entry), budget).len() == 0
        },
        message_of(entry) is None ==> kept(transcript.push(entry), budget) == kept(
            transcript,
            budget,
        ),
        readable(transcript.push(entry)) == (match message_of(entry) {
            Some(m) => readable(transcript).push(m),
            None => readable(transcript),
        }),
{
    assert(transcript.push(entry).drop_last() =~= transcript);
}

proof fn lemma_cost_is_not_negative(messages: Seq<ChatMessageView>)
    ensures
        total_cost(messages) >= 0,
    decreases messages.len(),
{
    if messages.len() > 0 {
        lemma_cost_is_not_negative(messages.drop_last());
        if let Some(said) = messages.last().content {
            text::lemma_bytes_add(said, Seq::empty());
        }
    }
}

/// A conversation that fits is shown whole.
pub proof fn what_fits_is_shown_whole(transcript: Seq<TranscriptEntryView>, budget: int)
    requires
        total_cost(readable(transcript)) <= budget,
    ensures
        kept(transcript, budget) == readable(transcript),
    decreases transcript.len(),
{
    if transcript.len() > 0 {
        match message_of(transcript.last()) {
            None => {
                what_fits_is_shown_whole(transcript.drop_last(), budget);
            },
            Some(m) => {
                let before = readable(transcript.drop_last());
                assert(before.push(m).drop_last() =~= before);
                lemma_cost_is_not_negative(before);
                what_fits_is_shown_whole(transcript.drop_last(), budget - cost(m));
            },
        }
    }
}

/// A token stands for up to four bytes.
pub proof fn a_token_is_four_bytes(s: Seq<char>)
    ensures
        4 * tokens(s) >= text::bytes(s),
        4 * tokens(s) < text::bytes(s) + 4,
{
}

/// Nothing but the system prompt is put before the conversation.
pub proof fn the_system_prompt_comes_first(
    prompt: Seq<char>,
    transcript: Seq<TranscriptEntryView>,
    budget: int,
)
    ensures
        ({
            let with = shown(Some(prompt), transcript, budget);
            let without = shown(None, transcript, budget);
            &&& with.len() == without.len() + 1
            &&& with.drop_first() == without
            &&& with[0].role == Role::System
            &&& with[0].content == Some(prompt)
            &&& without == kept(transcript, budget)
        }),
{
    assert(shown(Some(prompt), transcript, budget).drop_first() =~= kept(transcript, budget));
}

} // verus!
