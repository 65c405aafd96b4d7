//! Message kinds, message states and the sequence numbers that claw and the
//! agent assign without meeting.

use vstd::prelude::*;

use crate::protocol::ParseEnumError;
use crate::text;

verus! {

broadcast use vstd::string::group_string_axioms;

/// A message's place in a session's conversation. The daemon assigns even
/// numbers and the agent odd ones, so neither takes a number of the other.
#[derive(Debug, Clone, Copy, PartialEq, Eq, Hash, PartialOrd, Ord, Structural)]
pub struct MessageSeq(i64);

/// The smallest number above `floor` that leaves `parity` when divided by two.
pub open spec fn next_above(floor: int, parity: int) -> int {
    if (floor + 1) % 2 == parity {
        floor + 1
    } else {
        floor + 2
    }
}

/// The number to count from: one before the first where there is none yet.
pub open spec fn floor_of(highest: Option<MessageSeq>) -> int {
    match highest {
        Some(seq) => seq@,
        None => -1,
    }
}

impl MessageSeq {
    /// The number.
    pub closed spec fn view(&self) -> int {
        self.0 as int
    }

    /// A sequence number fits into 64 bits.
    pub proof fn fits(self)
        ensures
            i64::MIN <= self@ <= i64::MAX,
    {
    }

    /// Makes a sequence number.
    pub fn new(value: i64) -> (r: Self)
        ensures
            r@ == value,
    {
        Self(value)
    }

    /// The number.
    pub fn value(self) -> (r: i64)
        ensures
            r == self@,
    {
        self.0
    }

    /// Whether the daemon assigns such a number.
    pub fn is_claw_assigned(self) -> (r: bool)
        ensures
            r == (self@ % 2 == 0),
    {
        self.0 % 2 == 0
    }

    /// Whether the agent assigns such a number.
    pub fn is_agent_assigned(self) -> (r: bool)
        ensures
            r == (self@ % 2 != 0),
    {
        !self.is_claw_assigned()
    }

    /// The daemon's next number after the highest so far.
    pub fn next_claw_after(highest: Option<Self>) -> (r: Self)
        requires
            floor_of(highest) <= i64::MAX - 2,
        ensures
            r@ == next_above(floor_of(highest), 0),
    {
        Self::next_with_parity(highest, 0)
    }

    /// The agent's next number after the highest so far.
    pub fn next_agent_after(highest: Option<Self>) -> (r: Self)
        requires
            floor_of(highest) <= i64::MAX - 2,
        ensures
            r@ == next_above(floor_of(highest), 1),
    {
        Self::next_with_parity(highest, 1)
    }

    fn next_with_parity(highest: Option<Self>, parity: i64) -> (r: Self)
        requires
            floor_of(highest) <= i64::MAX - 2,
            parity == 0 || parity == 1,
        ensures
            r@ == next_above(floor_of(highest), parity as int),
    {
        let floor: i64 = match highest {
            Some(seq) => seq.0,
            None => -1,
        };
        let candidate: i64 = floor + 1;
        let even = candidate % 2 == 0;
        if even == (parity == 0) {
            Self(candidate)
        } else {
            Self(candidate + 1)
        }
    }

    /// The decimal text of the number.
    pub fn to_text(self) -> (r: String)
        ensures
            r@ == text::decimal(self@),
    {
        text::decimal_i64(self.0)
    }
}

/// A next number is above the highest so far, has the asked parity, and no
/// smaller one has both.
pub proof fn next_number_is_the_smallest_above(floor: int, parity: int, n: int)
    requires
        parity == 0 || parity == 1,
    ensures
        next_above(floor, parity) > floor,
        next_above(floor, parity) % 2 == parity,
        n > floor && n % 2 == parity ==> n >= next_above(floor, parity),
{
}

/// The daemon and the agent never assign the same number, whatever each has
/// seen last.
pub proof fn claw_and_agent_numbers_never_meet(claw_floor: int, agent_floor: int)
    ensures
        next_above(claw_floor, 0) != next_above(agent_floor, 1),
{
}

/// What an inbound message is.
#[derive(Debug, Clone, Copy, PartialEq, Eq, Hash, Structural)]
pub enum MessageKind {
    Chat,
    Task,
    Webhook,
    System,
}

impl MessageKind {
    /// The text by which the value is stored and shown.
    pub open spec fn text(self) -> Seq<char> {
        match self {
            MessageKind::Chat => "chat"@,
            MessageKind::Task => "task"@,
            MessageKind::Webhook => "webhook"@,
            MessageKind::System => "system"@,
        }
    }

    /// No two values share a text.
    pub proof fn texts_differ(a: MessageKind, b: MessageKind)
        ensures
            a.text() == b.text() ==> a == b,
    {
        reveal_strlit("chat");
        reveal_strlit("task");
        reveal_strlit("webhook");
        reveal_strlit("system");
        if a != b && a.text() == b.text() {
            assert(a.text().len() == b.text().len());
            assert(a.text()[0] == b.text()[0]);
        }
    }

    /// Every value, in order of declaration.
    pub fn all() -> (r: Vec<MessageKind>)
        ensures
            r@ == seq![MessageKind::Chat, MessageKind::Task, MessageKind::Webhook, MessageKind::System],
            forall|v: MessageKind| #[trigger] r@.contains(v),
    {
        let r = vec![MessageKind::Chat, MessageKind::Task, MessageKind::Webhook, MessageKind::System];
        proof {
            assert(r@[0] == MessageKind::Chat);
            assert(r@[1] == MessageKind::Task);
            assert(r@[2] == MessageKind::Webhook);
            assert(r@[3] == MessageKind::System);
        }
        r
    }

    /// The text by which the value is stored and shown.
    pub fn as_str(self) -> (r: &'static str)
        ensures
            r@ == self.text(),
    {
        match self {
            MessageKind::Chat => "chat",
            MessageKind::Task => "task",
            MessageKind::Webhook => "webhook",
            MessageKind::System => "system",
        }
    }

    /// The value with the given text; any other text is refused.
    pub fn parse(value: &str) -> (r: Result<MessageKind, ParseEnumError>)
        ensures
            forall|v: MessageKind| #[trigger] v.text() == value@ ==> r == Ok::<MessageKind, ParseEnumError>(v),
            match r {
                Ok(v) => v.text() == value@,
                Err(e) => e.type_label@ == "MessageKind"@ && e.value@ == value@,
            },
    {
        let r = if text::same(value, "chat") {
            Ok(MessageKind::Chat)
        } else if text::same(value, "task") {
            Ok(MessageKind::Task)
        } else if text::same(value, "webhook") {
            Ok(MessageKind::Webhook)
        } else if text::same(value, "system") {
            Ok(MessageKind::System)
        } else {
            Err(ParseEnumError { type_label: "MessageKind", value: value.to_owned() })
        };
        proof {
            assert forall|v: MessageKind| #[trigger] v.text() == value@ implies r == Ok::<MessageKind, ParseEnumError>(v) by {
                if r is Ok {
                    MessageKind::texts_differ(v, r->Ok_0);
                }
            }
        }
        r
    }
}

impl std::str::FromStr for MessageKind {
    type Err = ParseEnumError;

    fn from_str(value: &str) -> Result<Self, ParseEnumError> {
        MessageKind::parse(value)
    }
}

/// How far the handling of a message has come.
#[derive(Debug, Clone, Copy, PartialEq, Eq, Hash, Structural)]
pub enum MessageStatus {
    Pending,
    Processing,
    Completed,
    Failed,
    Paused,
}

impl MessageStatus {
    /// The text by which the value is stored and shown.
    pub open spec fn text(self) -> Seq<char> {
        match self {
            MessageStatus::Pending => "pending"@,
            MessageStatus::Processing => "processing"@,
            MessageStatus::Completed => "completed"@,
            MessageStatus::Failed => "failed"@,
            MessageStatus::Paused => "paused"@,
        }
    }

    /// No two values share a text.
    pub proof fn texts_differ(a: MessageStatus, b: MessageStatus)
        ensures
            a.text() == b.text() ==> a == b,
    {
        reveal_strlit("pending");
        reveal_strlit("processing");
        reveal_strlit("completed");
        reveal_strlit("failed");
        reveal_strlit("paused");
        if a != b && a.text() == b.text() {
            assert(a.text().len() == b.text().len());
            assert(a.text()[0] == b.text()[0]);
        }
    }

    /// Every value, in order of declaration.
    pub fn all() -> (r: Vec<MessageStatus>)
        ensures
            r@ == seq![MessageStatus::Pending, MessageStatus::Processing, MessageStatus::Completed, MessageStatus::Failed, MessageStatus::Paused],
            forall|v: MessageStatus| #[trigger] r@.contains(v),
    {
        let r = vec![MessageStatus::Pending, MessageStatus::Processing, MessageStatus::Completed, MessageStatus::Failed, MessageStatus::Paused];
        proof {
            assert(r@[0] == MessageStatus::Pending);
            assert(r@[1] == MessageStatus::Processing);
            assert(r@[2] == MessageStatus::Completed);
            assert(r@[3] == MessageStatus::Failed);
            assert(r@[4] == MessageStatus::Paused);
        }
        r
    }

    /// The text by which the value is stored and shown.
    pub fn as_str(self) -> (r: &'static str)
        ensures
            r@ == self.text(),
    {
        match self {
            MessageStatus::Pending => "pending",
            MessageStatus::Processing => "processing",
            MessageStatus::Completed => "completed",
            MessageStatus::Failed => "failed",
            MessageStatus::Paused => "paused",
        }
    }

    /// The value with the given text; any other text is refused.
    pub fn parse(value: &str) -> (r: Result<MessageStatus, ParseEnumError>)
        ensures
            forall|v: MessageStatus| #[trigger] v.text() == value@ ==> r == Ok::<MessageStatus, ParseEnumError>(v),
            match r {
                Ok(v) => v.text() == value@,
                Err(e) => e.type_label@ == "MessageStatus"@ && e.value@ == value@,
            },
    {
        let r = if text::same(value, "pending") {
            Ok(MessageStatus::Pending)
        } else if text::same(value, "processing") {
            Ok(MessageStatus::Processing)
        } else if text::same(value, "completed") {
            Ok(MessageStatus::Completed)
        } else if text::same(value, "failed") {
            Ok(MessageStatus::Failed)
        } else if text::same(value, "paused") {
            Ok(MessageStatus::Paused)
        } else {
            Err(ParseEnumError { type_label: "MessageStatus", value: value.to_owned() })
        };
        proof {
            assert forall|v: MessageStatus| #[trigger] v.text() == value@ implies r == Ok::<MessageStatus, ParseEnumError>(v) by {
                if r is Ok {
                    MessageStatus::texts_differ(v, r->Ok_0);
                }
            }
        }
        r
    }
}

impl std::str::FromStr for MessageStatus {
    type Err = ParseEnumError;

    fn from_str(value: &str) -> Result<Self, ParseEnumError> {
        MessageStatus::parse(value)
    }
}
/// Numbers that nothing came before start from the smallest of their parity that is
/// not negative, and each one that follows another is larger by at most two.
pub proof fn numbers_follow_one_another(highest: MessageSeq, parity: int)
    requires
        parity == 0 || parity == 1,
    ensures
        next_above(floor_of(None), parity) == parity,
        highest@ < next_above(floor_of(Some(highest)), parity) <= highest@ + 2,
        highest@ % 2 == parity ==> next_above(floor_of(Some(highest)), parity) == highest@ + 2,
{
}

} // verus!
