//! Whether an inbound message wakes the agent or waits for the next run.

use vstd::prelude::*;

use crate::protocol::entities::EngageMode;
use crate::text;

verus! {

broadcast use vstd::string::group_string_axioms;

/// What an inbound message does: wake the agent now, or accumulate in the
/// session for the next run.
#[derive(Debug, Clone, Copy, PartialEq, Eq, Structural)]
pub enum Engage {
    Run,
    Accumulate,
}

/// Everything the decision needs. `sticky` is the session's carried mention
/// state.
pub struct EngageInput<'a> {
    /// Kinds that the daemon makes (task, system, webhook) always wake the agent.
    pub is_chat: bool,
    pub is_group: bool,
    pub is_mention: bool,
    pub sticky: bool,
    pub mode: EngageMode,
    pub pattern: Option<&'a str>,
    pub text: &'a str,
}

/// Whether a pattern is in a text: it is not empty, and its lower-case form
/// stands in the text's.
pub open spec fn pattern_in(pattern: Seq<char>, text: Seq<char>) -> bool {
    pattern.len() > 0 && text::within(text::lowercase(text), text::lowercase(pattern))
}

/// Whether a message of a group chat engages the agent.
pub open spec fn engages_in_group(
    mode: EngageMode,
    is_mention: bool,
    sticky: bool,
    pattern: Option<Seq<char>>,
    text: Seq<char>,
) -> bool {
    match mode {
        EngageMode::Pattern => pattern matches Some(p) && pattern_in(p, text),
        EngageMode::Mention => is_mention,
        EngageMode::MentionSticky => is_mention || sticky,
    }
}

impl<'a> EngageInput<'a> {
    /// Whether the message wakes the agent.
    pub open spec fn runs(&self) -> bool {
        ||| !self.is_chat
        ||| !self.is_group
        ||| engages_in_group(
            self.mode,
            self.is_mention,
            self.sticky,
            text::opt_str_view(self.pattern),
            self.text@,
        )
    }
}

/// Decides engagement. Kinds other than chat and direct messages always run;
/// group chats go by the wiring's mode.
pub fn evaluate(input: &EngageInput<'_>) -> (r: Engage)
    ensures
        r == (if input.runs() {
            Engage::Run
        } else {
            Engage::Accumulate
        }),
{
    if !input.is_chat || !input.is_group {
        return Engage::Run;
    }
    let engaged = match input.mode {
        EngageMode::Pattern => match input.pattern {
            Some(pattern) => matches_pattern(pattern, input.text),
            None => false,
        },
        EngageMode::Mention => input.is_mention,
        EngageMode::MentionSticky => input.is_mention || input.sticky,
    };
    if engaged {
        Engage::Run
    } else {
        Engage::Accumulate
    }
}

/// Whether a pattern is in a text, whatever the case of either.
fn matches_pattern(pattern: &str, text: &str) -> (r: bool)
    ensures
        r == pattern_in(pattern@, text@),
{
    matches_lowered(pattern, &text::to_lowercase(pattern), &text::to_lowercase(text))
}

/// Whether a pattern that is not empty stands, in its lower-case form, in a
/// text in its lower-case form.
pub fn matches_lowered(pattern: &str, pattern_lower: &str, text_lower: &str) -> (r: bool)
    ensures
        r == (pattern@.len() > 0 && text::within(text_lower@, pattern_lower@)),
{
    !pattern.is_empty() && text::contains(text_lower, pattern_lower)
}

/// A direct message always runs, and so does every kind but chat.
pub proof fn direct_messages_and_other_kinds_always_run(input: EngageInput<'_>)
    ensures
        !input.is_group ==> input.runs(),
        !input.is_chat ==> input.runs(),
{
}

/// In a group that goes by mentions, a mention always runs; without one, only a
/// sticky session in sticky mode does.
pub proof fn mentions_decide_in_mention_modes(input: EngageInput<'_>)
    requires
        input.is_chat,
        input.is_group,
        input.mode != EngageMode::Pattern,
    ensures
        input.is_mention ==> input.runs(),
        !input.is_mention ==> (input.runs() <==> input.mode == EngageMode::MentionSticky
            && input.sticky),
{
}

/// In a group that goes by a pattern, a missing or empty pattern never runs.
pub proof fn no_pattern_never_runs(input: EngageInput<'_>)
    requires
        input.is_chat,
        input.is_group,
        input.mode == EngageMode::Pattern,
        input.pattern is None || input.pattern->0@.len() == 0,
    ensures
        !input.runs(),
{
}

/// Where a pattern decides, a group message runs exactly when its text holds the
/// pattern, whatever the case of either.
pub proof fn patterns_decide_in_pattern_mode(input: EngageInput<'_>)
    requires
        input.is_chat,
        input.is_group,
        input.mode == EngageMode::Pattern,
    ensures
        input.pattern matches Some(p) ==> p@.len() > 0 ==> (input.runs() <==> text::within(
            text::lowercase(input.text@),
            text::lowercase(p@),
        )),
{
}

} // verus!
