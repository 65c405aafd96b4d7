//! Stored enumerations and the settings of connectors.

use vstd::prelude::*;

use crate::json;
use crate::json::{Json, JsonView};
use crate::protocol::ParseEnumError;
use crate::text;

verus! {

broadcast use vstd::string::group_string_axioms;

/// Whether the threads of a chat share one session.
#[derive(Debug, Clone, Copy, PartialEq, Eq, Hash, Structural)]
pub enum SessionMode {
    Shared,
    PerThread,
}

impl SessionMode {
    /// The text by which the value is stored and shown.
    pub open spec fn text(self) -> Seq<char> {
        match self {
            SessionMode::Shared => "shared"@,
            SessionMode::PerThread => "per-thread"@,
        }
    }

    /// No two values share a text.
    pub proof fn texts_differ(a: SessionMode, b: SessionMode)
        ensures
            a.text() == b.text() ==> a == b,
    {
        reveal_strlit("shared");
        reveal_strlit("per-thread");
        if a != b && a.text() == b.text() {
            assert(a.text().len() == b.text().len());
        }
    }

    /// Every value, in order of declaration.
    pub fn all() -> (r: Vec<SessionMode>)
        ensures
            r@ == seq![SessionMode::Shared, SessionMode::PerThread],
            forall|v: SessionMode| #[trigger] r@.contains(v),
    {
        let r = vec![SessionMode::Shared, SessionMode::PerThread];
        proof {
            assert(r@[0] == SessionMode::Shared);
            assert(r@[1] == SessionMode::PerThread);
        }
        r
    }

    /// The text by which the value is stored and shown.
    pub fn as_str(self) -> (r: &'static str)
        ensures
            r@ == self.text(),
    {
        match self {
            SessionMode::Shared => "shared",
            SessionMode::PerThread => "per-thread",
        }
    }

    /// The value with the given text; any other text is refused.
    pub fn parse(value: &str) -> (r: Result<SessionMode, ParseEnumError>)
        ensures
            forall|v: SessionMode| #[trigger] v.text() == value@ ==> r == Ok::<SessionMode, ParseEnumError>(v),
            match r {
                Ok(v) => v.text() == value@,
                Err(e) => e.type_label@ == "SessionMode"@ && e.value@ == value@,
            },
    {
        let r = if text::same(value, "shared") {
            Ok(SessionMode::Shared)
        } else if text::same(value, "per-thread") {
            Ok(SessionMode::PerThread)
        } else {
            Err(ParseEnumError { type_label: "SessionMode", value: value.to_owned() })
        };
        proof {
            assert forall|v: SessionMode| #[trigger] v.text() == value@ implies r == Ok::<SessionMode, ParseEnumError>(v) by {
                if r is Ok {
                    SessionMode::texts_differ(v, r->Ok_0);
                }
            }
        }
        r
    }
}

impl std::str::FromStr for SessionMode {
    type Err = ParseEnumError;

    fn from_str(value: &str) -> Result<Self, ParseEnumError> {
        SessionMode::parse(value)
    }
}

/// When a message in a group chat starts a run.
#[derive(Debug, Clone, Copy, PartialEq, Eq, Hash, Structural)]
pub enum EngageMode {
    Pattern,
    Mention,
    MentionSticky,
}

impl EngageMode {
    /// The text by which the value is stored and shown.
    pub open spec fn text(self) -> Seq<char> {
        match self {
            EngageMode::Pattern => "pattern"@,
            EngageMode::Mention => "mention"@,
            EngageMode::MentionSticky => "mention-sticky"@,
        }
    }

    /// No two values share a text.
    pub proof fn texts_differ(a: EngageMode, b: EngageMode)
        ensures
            a.text() == b.text() ==> a == b,
    {
        reveal_strlit("pattern");
        reveal_strlit("mention");
        reveal_strlit("mention-sticky");
        if a != b && a.text() == b.text() {
            assert(a.text().len() == b.text().len());
            assert(a.text()[0] == b.text()[0]);
        }
    }

    /// Every value, in order of declaration.
    pub fn all() -> (r: Vec<EngageMode>)
        ensures
            r@ == seq![EngageMode::Pattern, EngageMode::Mention, EngageMode::MentionSticky],
            forall|v: EngageMode| #[trigger] r@.contains(v),
    {
        let r = vec![EngageMode::Pattern, EngageMode::Mention, EngageMode::MentionSticky];
        proof {
            assert(r@[0] == EngageMode::Pattern);
            assert(r@[1] == EngageMode::Mention);
            assert(r@[2] == EngageMode::MentionSticky);
        }
        r
    }

    /// The text by which the value is stored and shown.
    pub fn as_str(self) -> (r: &'static str)
        ensures
            r@ == self.text(),
    {
        match self {
            EngageMode::Pattern => "pattern",
            EngageMode::Mention => "mention",
            EngageMode::MentionSticky => "mention-sticky",
        }
    }

    /// The value with the given text; any other text is refused.
    pub fn parse(value: &str) -> (r: Result<EngageMode, ParseEnumError>)
        ensures
            forall|v: EngageMode| #[trigger] v.text() == value@ ==> r == Ok::<EngageMode, ParseEnumError>(v),
            match r {
                Ok(v) => v.text() == value@,
                Err(e) => e.type_label@ == "EngageMode"@ && e.value@ == value@,
            },
    {
        let r = if text::same(value, "pattern") {
            Ok(EngageMode::Pattern)
        } else if text::same(value, "mention") {
            Ok(EngageMode::Mention)
        } else if text::same(value, "mention-sticky") {
            Ok(EngageMode::MentionSticky)
        } else {
            Err(ParseEnumError { type_label: "EngageMode", value: value.to_owned() })
        };
        proof {
            assert forall|v: EngageMode| #[trigger] v.text() == value@ implies r == Ok::<EngageMode, ParseEnumError>(v) by {
                if r is Ok {
                    EngageMode::texts_differ(v, r->Ok_0);
                }
            }
        }
        r
    }
}

impl std::str::FromStr for EngageMode {
    type Err = ParseEnumError;

    fn from_str(value: &str) -> Result<Self, ParseEnumError> {
        EngageMode::parse(value)
    }
}

/// How far an agent may use the admin commands.
#[derive(Debug, Clone, Copy, PartialEq, Eq, Hash, Structural)]
pub enum CliScope {
    Disabled,
    Group,
    Global,
}

impl CliScope {
    /// The text by which the value is stored and shown.
    pub open spec fn text(self) -> Seq<char> {
        match self {
            CliScope::Disabled => "disabled"@,
            CliScope::Group => "group"@,
            CliScope::Global => "global"@,
        }
    }

    /// No two values share a text.
    pub proof fn texts_differ(a: CliScope, b: CliScope)
        ensures
            a.text() == b.text() ==> a == b,
    {
        reveal_strlit("disabled");
        reveal_strlit("group");
        reveal_strlit("global");
        if a != b && a.text() == b.text() {
            assert(a.text().len() == b.text().len());
        }
    }

    /// Every value, in order of declaration.
    pub fn all() -> (r: Vec<CliScope>)
        ensures
            r@ == seq![CliScope::Disabled, CliScope::Group, CliScope::Global],
            forall|v: CliScope| #[trigger] r@.contains(v),
    {
        let r = vec![CliScope::Disabled, CliScope::Group, CliScope::Global];
        proof {
            assert(r@[0] == CliScope::Disabled);
            assert(r@[1] == CliScope::Group);
            assert(r@[2] == CliScope::Global);
        }
        r
    }

    /// The text by which the value is stored and shown.
    pub fn as_str(self) -> (r: &'static str)
        ensures
            r@ == self.text(),
    {
        match self {
            CliScope::Disabled => "disabled",
            CliScope::Group => "group",
            CliScope::Global => "global",
        }
    }

    /// The value with the given text; any other text is refused.
    pub fn parse(value: &str) -> (r: Result<CliScope, ParseEnumError>)
        ensures
            forall|v: CliScope| #[trigger] v.text() == value@ ==> r == Ok::<CliScope, ParseEnumError>(v),
            match r {
                Ok(v) => v.text() == value@,
                Err(e) => e.type_label@ == "CliScope"@ && e.value@ == value@,
            },
    {
        let r = if text::same(value, "disabled") {
            Ok(CliScope::Disabled)
        } else if text::same(value, "group") {
            Ok(CliScope::Group)
        } else if text::same(value, "global") {
            Ok(CliScope::Global)
        } else {
            Err(ParseEnumError { type_label: "CliScope", value: value.to_owned() })
        };
        proof {
            assert forall|v: CliScope| #[trigger] v.text() == value@ implies r == Ok::<CliScope, ParseEnumError>(v) by {
                if r is Ok {
                    CliScope::texts_differ(v, r->Ok_0);
                }
            }
        }
        r
    }
}

impl std::str::FromStr for CliScope {
    type Err = ParseEnumError;

    fn from_str(value: &str) -> Result<Self, ParseEnumError> {
        CliScope::parse(value)
    }
}

/// Which provider runs an agent.
#[derive(Debug, Clone, Copy, PartialEq, Eq, Hash, Structural)]
pub enum AgentProviderKind {
    Native,
    Echo,
}

impl AgentProviderKind {
    /// The text by which the value is stored and shown.
    pub open spec fn text(self) -> Seq<char> {
        match self {
            AgentProviderKind::Native => "native"@,
            AgentProviderKind::Echo => "echo"@,
        }
    }

    /// No two values share a text.
    pub proof fn texts_differ(a: AgentProviderKind, b: AgentProviderKind)
        ensures
            a.text() == b.text() ==> a == b,
    {
        reveal_strlit("native");
        reveal_strlit("echo");
        if a != b && a.text() == b.text() {
            assert(a.text().len() == b.text().len());
        }
    }

    /// Every value, in order of declaration.
    pub fn all() -> (r: Vec<AgentProviderKind>)
        ensures
            r@ == seq![AgentProviderKind::Native, AgentProviderKind::Echo],
            forall|v: AgentProviderKind| #[trigger] r@.contains(v),
    {
        let r = vec![AgentProviderKind::Native, AgentProviderKind::Echo];
        proof {
            assert(r@[0] == AgentProviderKind::Native);
            assert(r@[1] == AgentProviderKind::Echo);
        }
        r
    }

    /// The text by which the value is stored and shown.
    pub fn as_str(self) -> (r: &'static str)
        ensures
            r@ == self.text(),
    {
        match self {
            AgentProviderKind::Native => "native",
            AgentProviderKind::Echo => "echo",
        }
    }

    /// The value with the given text; any other text is refused.
    pub fn parse(value: &str) -> (r: Result<AgentProviderKind, ParseEnumError>)
        ensures
            forall|v: AgentProviderKind| #[trigger] v.text() == value@ ==> r == Ok::<AgentProviderKind, ParseEnumError>(v),
            match r {
                Ok(v) => v.text() == value@,
                Err(e) => e.type_label@ == "AgentProviderKind"@ && e.value@ == value@,
            },
    {
        let r = if text::same(value, "native") {
            Ok(AgentProviderKind::Native)
        } else if text::same(value, "echo") {
            Ok(AgentProviderKind::Echo)
        } else {
            Err(ParseEnumError { type_label: "AgentProviderKind", value: value.to_owned() })
        };
        proof {
            assert forall|v: AgentProviderKind| #[trigger] v.text() == value@ implies r == Ok::<AgentProviderKind, ParseEnumError>(v) by {
                if r is Ok {
                    AgentProviderKind::texts_differ(v, r->Ok_0);
                }
            }
        }
        r
    }
}

impl std::str::FromStr for AgentProviderKind {
    type Err = ParseEnumError;

    fn from_str(value: &str) -> Result<Self, ParseEnumError> {
        AgentProviderKind::parse(value)
    }
}

/// Which tools an agent may call.
#[derive(Debug, Clone, Copy, PartialEq, Eq, Hash, Structural)]
pub enum ToolProfile {
    Chat,
    Coder,
}

impl ToolProfile {
    /// The text by which the value is stored and shown.
    pub open spec fn text(self) -> Seq<char> {
        match self {
            ToolProfile::Chat => "chat"@,
            ToolProfile::Coder => "coder"@,
        }
    }

    /// No two values share a text.
    pub proof fn texts_differ(a: ToolProfile, b: ToolProfile)
        ensures
            a.text() == b.text() ==> a == b,
    {
        reveal_strlit("chat");
        reveal_strlit("coder");
        if a != b && a.text() == b.text() {
            assert(a.text().len() == b.text().len());
        }
    }

    /// Every value, in order of declaration.
    pub fn all() -> (r: Vec<ToolProfile>)
        ensures
            r@ == seq![ToolProfile::Chat, ToolProfile::Coder],
            forall|v: ToolProfile| #[trigger] r@.contains(v),
    {
        let r = vec![ToolProfile::Chat, ToolProfile::Coder];
        proof {
            assert(r@[0] == ToolProfile::Chat);
            assert(r@[1] == ToolProfile::Coder);
        }
        r
    }

    /// The text by which the value is stored and shown.
    pub fn as_str(self) -> (r: &'static str)
        ensures
            r@ == self.text(),
    {
        match self {
            ToolProfile::Chat => "chat",
            ToolProfile::Coder => "coder",
        }
    }

    /// The value with the given text; any other text is refused.
    pub fn parse(value: &str) -> (r: Result<ToolProfile, ParseEnumError>)
        ensures
            forall|v: ToolProfile| #[trigger] v.text() == value@ ==> r == Ok::<ToolProfile, ParseEnumError>(v),
            match r {
                Ok(v) => v.text() == value@,
                Err(e) => e.type_label@ == "ToolProfile"@ && e.value@ == value@,
            },
    {
        let r = if text::same(value, "chat") {
            Ok(ToolProfile::Chat)
        } else if text::same(value, "coder") {
            Ok(ToolProfile::Coder)
        } else {
            Err(ParseEnumError { type_label: "ToolProfile", value: value.to_owned() })
        };
        proof {
            assert forall|v: ToolProfile| #[trigger] v.text() == value@ implies r == Ok::<ToolProfile, ParseEnumError>(v) by {
                if r is Ok {
                    ToolProfile::texts_differ(v, r->Ok_0);
                }
            }
        }
        r
    }
}

impl std::str::FromStr for ToolProfile {
    type Err = ParseEnumError;

    fn from_str(value: &str) -> Result<Self, ParseEnumError> {
        ToolProfile::parse(value)
    }
}

/// What happens to messages of unknown senders.
#[derive(Debug, Clone, Copy, PartialEq, Eq, Hash, Structural)]
pub enum UnknownSenderPolicy {
    Strict,
    RequestApproval,
    Public,
}

impl UnknownSenderPolicy {
    /// The text by which the value is stored and shown.
    pub open spec fn text(self) -> Seq<char> {
        match self {
            UnknownSenderPolicy::Strict => "strict"@,
            UnknownSenderPolicy::RequestApproval => "request-approval"@,
            UnknownSenderPolicy::Public => "public"@,
        }
    }

    /// No two values share a text.
    pub proof fn texts_differ(a: UnknownSenderPolicy, b: UnknownSenderPolicy)
        ensures
            a.text() == b.text() ==> a == b,
    {
        reveal_strlit("strict");
        reveal_strlit("request-approval");
        reveal_strlit("public");
        if a != b && a.text() == b.text() {
            assert(a.text().len() == b.text().len());
            assert(a.text()[0] == b.text()[0]);
        }
    }

    /// Every value, in order of declaration.
    pub fn all() -> (r: Vec<UnknownSenderPolicy>)
        ensures
            r@ == seq![UnknownSenderPolicy::Strict, UnknownSenderPolicy::RequestApproval, UnknownSenderPolicy::Public],
            forall|v: UnknownSenderPolicy| #[trigger] r@.contains(v),
    {
        let r = vec![UnknownSenderPolicy::Strict, UnknownSenderPolicy::RequestApproval, UnknownSenderPolicy::Public];
        proof {
            assert(r@[0] == UnknownSenderPolicy::Strict);
            assert(r@[1] == UnknownSenderPolicy::RequestApproval);
            assert(r@[2] == UnknownSenderPolicy::Public);
        }
        r
    }

    /// The text by which the value is stored and shown.
    pub fn as_str(self) -> (r: &'static str)
        ensures
            r@ == self.text(),
    {
        match self {
            UnknownSenderPolicy::Strict => "strict",
            UnknownSenderPolicy::RequestApproval => "request-approval",
            UnknownSenderPolicy::Public => "public",
        }
    }

    /// The value with the given text; any other text is refused.
    pub fn parse(value: &str) -> (r: Result<UnknownSenderPolicy, ParseEnumError>)
        ensures
            forall|v: UnknownSenderPolicy| #[trigger] v.text() == value@ ==> r == Ok::<UnknownSenderPolicy, ParseEnumError>(v),
            match r {
                Ok(v) => v.text() == value@,
                Err(e) => e.type_label@ == "UnknownSenderPolicy"@ && e.value@ == value@,
            },
    {
        let r = if text::same(value, "strict") {
            Ok(UnknownSenderPolicy::Strict)
        } else if text::same(value, "request-approval") {
            Ok(UnknownSenderPolicy::RequestApproval)
        } else if text::same(value, "public") {
            Ok(UnknownSenderPolicy::Public)
        } else {
            Err(ParseEnumError { type_label: "UnknownSenderPolicy", value: value.to_owned() })
        };
        proof {
            assert forall|v: UnknownSenderPolicy| #[trigger] v.text() == value@ implies r == Ok::<UnknownSenderPolicy, ParseEnumError>(v) by {
                if r is Ok {
                    UnknownSenderPolicy::texts_differ(v, r->Ok_0);
                }
            }
        }
        r
    }
}

impl std::str::FromStr for UnknownSenderPolicy {
    type Err = ParseEnumError;

    fn from_str(value: &str) -> Result<Self, ParseEnumError> {
        UnknownSenderPolicy::parse(value)
    }
}

/// Whose messages a wiring takes.
#[derive(Debug, Clone, Copy, PartialEq, Eq, Hash, Structural)]
pub enum SenderScope {
    All,
    Known,
}

impl SenderScope {
    /// The text by which the value is stored and shown.
    pub open spec fn text(self) -> Seq<char> {
        match self {
            SenderScope::All => "all"@,
            SenderScope::Known => "known"@,
        }
    }

    /// No two values share a text.
    pub proof fn texts_differ(a: SenderScope, b: SenderScope)
        ensures
            a.text() == b.text() ==> a == b,
    {
        reveal_strlit("all");
        reveal_strlit("known");
        if a != b && a.text() == b.text() {
            assert(a.text().len() == b.text().len());
        }
    }

    /// Every value, in order of declaration.
    pub fn all() -> (r: Vec<SenderScope>)
        ensures
            r@ == seq![SenderScope::All, SenderScope::Known],
            forall|v: SenderScope| #[trigger] r@.contains(v),
    {
        let r = vec![SenderScope::All, SenderScope::Known];
        proof {
            assert(r@[0] == SenderScope::All);
            assert(r@[1] == SenderScope::Known);
        }
        r
    }

    /// The text by which the value is stored and shown.
    pub fn as_str(self) -> (r: &'static str)
        ensures
            r@ == self.text(),
    {
        match self {
            SenderScope::All => "all",
            SenderScope::Known => "known",
        }
    }

    /// The value with the given text; any other text is refused.
    pub fn parse(value: &str) -> (r: Result<SenderScope, ParseEnumError>)
        ensures
            forall|v: SenderScope| #[trigger] v.text() == value@ ==> r == Ok::<SenderScope, ParseEnumError>(v),
            match r {
                Ok(v) => v.text() == value@,
                Err(e) => e.type_label@ == "SenderScope"@ && e.value@ == value@,
            },
    {
        let r = if text::same(value, "all") {
            Ok(SenderScope::All)
        } else if text::same(value, "known") {
            Ok(SenderScope::Known)
        } else {
            Err(ParseEnumError { type_label: "SenderScope", value: value.to_owned() })
        };
        proof {
            assert forall|v: SenderScope| #[trigger] v.text() == value@ implies r == Ok::<SenderScope, ParseEnumError>(v) by {
                if r is Ok {
                    SenderScope::texts_differ(v, r->Ok_0);
                }
            }
        }
        r
    }
}

impl std::str::FromStr for SenderScope {
    type Err = ParseEnumError;

    fn from_str(value: &str) -> Result<Self, ParseEnumError> {
        SenderScope::parse(value)
    }
}

/// What happens to a message that starts no run.
#[derive(Debug, Clone, Copy, PartialEq, Eq, Hash, Structural)]
pub enum IgnoredMessagePolicy {
    Drop,
    Accumulate,
}

impl IgnoredMessagePolicy {
    /// The text by which the value is stored and shown.
    pub open spec fn text(self) -> Seq<char> {
        match self {
            IgnoredMessagePolicy::Drop => "drop"@,
            IgnoredMessagePolicy::Accumulate => "accumulate"@,
        }
    }

    /// No two values share a text.
    pub proof fn texts_differ(a: IgnoredMessagePolicy, b: IgnoredMessagePolicy)
        ensures
            a.text() == b.text() ==> a == b,
    {
        reveal_strlit("drop");
        reveal_strlit("accumulate");
        if a != b && a.text() == b.text() {
            assert(a.text().len() == b.text().len());
        }
    }

    /// Every value, in order of declaration.
    pub fn all() -> (r: Vec<IgnoredMessagePolicy>)
        ensures
            r@ == seq![IgnoredMessagePolicy::Drop, IgnoredMessagePolicy::Accumulate],
            forall|v: IgnoredMessagePolicy| #[trigger] r@.contains(v),
    {
        let r = vec![IgnoredMessagePolicy::Drop, IgnoredMessagePolicy::Accumulate];
        proof {
            assert(r@[0] == IgnoredMessagePolicy::Drop);
            assert(r@[1] == IgnoredMessagePolicy::Accumulate);
        }
        r
    }

    /// The text by which the value is stored and shown.
    pub fn as_str(self) -> (r: &'static str)
        ensures
            r@ == self.text(),
    {
        match self {
            IgnoredMessagePolicy::Drop => "drop",
            IgnoredMessagePolicy::Accumulate => "accumulate",
        }
    }

    /// The value with the given text; any other text is refused.
    pub fn parse(value: &str) -> (r: Result<IgnoredMessagePolicy, ParseEnumError>)
        ensures
            forall|v: IgnoredMessagePolicy| #[trigger] v.text() == value@ ==> r == Ok::<IgnoredMessagePolicy, ParseEnumError>(v),
            match r {
                Ok(v) => v.text() == value@,
                Err(e) => e.type_label@ == "IgnoredMessagePolicy"@ && e.value@ == value@,
            },
    {
        let r = if text::same(value, "drop") {
            Ok(IgnoredMessagePolicy::Drop)
        } else if text::same(value, "accumulate") {
            Ok(IgnoredMessagePolicy::Accumulate)
        } else {
            Err(ParseEnumError { type_label: "IgnoredMessagePolicy", value: value.to_owned() })
        };
        proof {
            assert forall|v: IgnoredMessagePolicy| #[trigger] v.text() == value@ implies r == Ok::<IgnoredMessagePolicy, ParseEnumError>(v) by {
                if r is Ok {
                    IgnoredMessagePolicy::texts_differ(v, r->Ok_0);
                }
            }
        }
        r
    }
}

impl std::str::FromStr for IgnoredMessagePolicy {
    type Err = ParseEnumError;

    fn from_str(value: &str) -> Result<Self, ParseEnumError> {
        IgnoredMessagePolicy::parse(value)
    }
}

/// A role that a user can hold.
#[derive(Debug, Clone, Copy, PartialEq, Eq, Hash, Structural)]
pub enum Role {
    Owner,
    Admin,
}

impl Role {
    /// The text by which the value is stored and shown.
    pub open spec fn text(self) -> Seq<char> {
        match self {
            Role::Owner => "owner"@,
            Role::Admin => "admin"@,
        }
    }

    /// No two values share a text.
    pub proof fn texts_differ(a: Role, b: Role)
        ensures
            a.text() == b.text() ==> a == b,
    {
        reveal_strlit("owner");
        reveal_strlit("admin");
        if a != b && a.text() == b.text() {
            assert(a.text().len() == b.text().len());
            assert(a.text()[0] == b.text()[0]);
        }
    }

    /// Every value, in order of declaration.
    pub fn all() -> (r: Vec<Role>)
        ensures
            r@ == seq![Role::Owner, Role::Admin],
            forall|v: Role| #[trigger] r@.contains(v),
    {
        let r = vec![Role::Owner, Role::Admin];
        proof {
            assert(r@[0] == Role::Owner);
            assert(r@[1] == Role::Admin);
        }
        r
    }

    /// The text by which the value is stored and shown.
    pub fn as_str(self) -> (r: &'static str)
        ensures
            r@ == self.text(),
    {
        match self {
            Role::Owner => "owner",
            Role::Admin => "admin",
        }
    }

    /// The value with the given text; any other text is refused.
    pub fn parse(value: &str) -> (r: Result<Role, ParseEnumError>)
        ensures
            forall|v: Role| #[trigger] v.text() == value@ ==> r == Ok::<Role, ParseEnumError>(v),
            match r {
                Ok(v) => v.text() == value@,
                Err(e) => e.type_label@ == "Role"@ && e.value@ == value@,
            },
    {
        let r = if text::same(value, "owner") {
            Ok(Role::Owner)
        } else if text::same(value, "admin") {
            Ok(Role::Admin)
        } else {
            Err(ParseEnumError { type_label: "Role", value: value.to_owned() })
        };
        proof {
            assert forall|v: Role| #[trigger] v.text() == value@ implies r == Ok::<Role, ParseEnumError>(v) by {
                if r is Ok {
                    Role::texts_differ(v, r->Ok_0);
                }
            }
        }
        r
    }
}

impl std::str::FromStr for Role {
    type Err = ParseEnumError;

    fn from_str(value: &str) -> Result<Self, ParseEnumError> {
        Role::parse(value)
    }
}

/// The kinds of connector.
#[derive(Debug, Clone, Copy, PartialEq, Eq, Hash, Structural)]
pub enum ConnectorKind {
    Sms,
}

impl ConnectorKind {
    /// The text by which the value is stored and shown.
    pub open spec fn text(self) -> Seq<char> {
        match self {
            ConnectorKind::Sms => "sms"@,
        }
    }

    /// No two values share a text.
    pub proof fn texts_differ(a: ConnectorKind, b: ConnectorKind)
        ensures
            a.text() == b.text() ==> a == b,
    {
        reveal_strlit("sms");
        if a != b && a.text() == b.text() {
            assert(a.text().len() == b.text().len());
        }
    }

    /// Every value, in order of declaration.
    pub fn all() -> (r: Vec<ConnectorKind>)
        ensures
            r@ == seq![ConnectorKind::Sms],
            forall|v: ConnectorKind| #[trigger] r@.contains(v),
    {
        let r = vec![ConnectorKind::Sms];
        proof {
            assert(r@[0] == ConnectorKind::Sms);
        }
        r
    }

    /// The text by which the value is stored and shown.
    pub fn as_str(self) -> (r: &'static str)
        ensures
            r@ == self.text(),
    {
        match self {
            ConnectorKind::Sms => "sms",
        }
    }

    /// The value with the given text; any other text is refused.
    pub fn parse(value: &str) -> (r: Result<ConnectorKind, ParseEnumError>)
        ensures
            forall|v: ConnectorKind| #[trigger] v.text() == value@ ==> r == Ok::<ConnectorKind, ParseEnumError>(v),
            match r {
                Ok(v) => v.text() == value@,
                Err(e) => e.type_label@ == "ConnectorKind"@ && e.value@ == value@,
            },
    {
        let r = if text::same(value, "sms") {
            Ok(ConnectorKind::Sms)
        } else {
            Err(ParseEnumError { type_label: "ConnectorKind", value: value.to_owned() })
        };
        proof {
            assert forall|v: ConnectorKind| #[trigger] v.text() == value@ implies r == Ok::<ConnectorKind, ParseEnumError>(v) by {
                if r is Ok {
                    ConnectorKind::texts_differ(v, r->Ok_0);
                }
            }
        }
        r
    }
}

impl std::str::FromStr for ConnectorKind {
    type Err = ParseEnumError;

    fn from_str(value: &str) -> Result<Self, ParseEnumError> {
        ConnectorKind::parse(value)
    }
}

/// Whether a session is in use.
#[derive(Debug, Clone, Copy, PartialEq, Eq, Hash, Structural)]
pub enum SessionStatus {
    Active,
    Closed,
}

impl SessionStatus {
    /// The text by which the value is stored and shown.
    pub open spec fn text(self) -> Seq<char> {
        match self {
            SessionStatus::Active => "active"@,
            SessionStatus::Closed => "closed"@,
        }
    }

    /// No two values share a text.
    pub proof fn texts_differ(a: SessionStatus, b: SessionStatus)
        ensures
            a.text() == b.text() ==> a == b,
    {
        reveal_strlit("active");
        reveal_strlit("closed");
        if a != b && a.text() == b.text() {
            assert(a.text().len() == b.text().len());
            assert(a.text()[0] == b.text()[0]);
        }
    }

    /// Every value, in order of declaration.
    pub fn all() -> (r: Vec<SessionStatus>)
        ensures
            r@ == seq![SessionStatus::Active, SessionStatus::Closed],
            forall|v: SessionStatus| #[trigger] r@.contains(v),
    {
        let r = vec![SessionStatus::Active, SessionStatus::Closed];
        proof {
            assert(r@[0] == SessionStatus::Active);
            assert(r@[1] == SessionStatus::Closed);
        }
        r
    }

    /// The text by which the value is stored and shown.
    pub fn as_str(self) -> (r: &'static str)
        ensures
            r@ == self.text(),
    {
        match self {
            SessionStatus::Active => "active",
            SessionStatus::Closed => "closed",
        }
    }

    /// The value with the given text; any other text is refused.
    pub fn parse(value: &str) -> (r: Result<SessionStatus, ParseEnumError>)
        ensures
            forall|v: SessionStatus| #[trigger] v.text() == value@ ==> r == Ok::<SessionStatus, ParseEnumError>(v),
            match r {
                Ok(v) => v.text() == value@,
                Err(e) => e.type_label@ == "SessionStatus"@ && e.value@ == value@,
            },
    {
        let r = if text::same(value, "active") {
            Ok(SessionStatus::Active)
        } else if text::same(value, "closed") {
            Ok(SessionStatus::Closed)
        } else {
            Err(ParseEnumError { type_label: "SessionStatus", value: value.to_owned() })
        };
        proof {
            assert forall|v: SessionStatus| #[trigger] v.text() == value@ implies r == Ok::<SessionStatus, ParseEnumError>(v) by {
                if r is Ok {
                    SessionStatus::texts_differ(v, r->Ok_0);
                }
            }
        }
        r
    }
}

impl std::str::FromStr for SessionStatus {
    type Err = ParseEnumError;

    fn from_str(value: &str) -> Result<Self, ParseEnumError> {
        SessionStatus::parse(value)
    }
}

/// Credentials of an SMS gateway. `base_url` has no trailing slash; `token`
/// needs the read and send scopes; `webhook_secret` enables the wake-up hook.
#[derive(Debug, PartialEq, Eq)]
pub struct SmsConnectorConfig {
    pub base_url: String,
    pub token: String,
    pub webhook_secret: Option<String>,
}

/// The mathematical value of an [`SmsConnectorConfig`].
#[verifier::ext_equal]
pub struct SmsConfigView {
    pub base_url: Seq<char>,
    pub token: Seq<char>,
    pub webhook_secret: Option<Seq<char>>,
}

impl SmsConnectorConfig {
    pub open spec fn view(&self) -> SmsConfigView {
        SmsConfigView {
            base_url: self.base_url@,
            token: self.token@,
            webhook_secret: text::opt_view(self.webhook_secret),
        }
    }
}

impl Clone for SmsConnectorConfig {
    fn clone(&self) -> (r: Self)
        ensures
            r == *self,
    {
        SmsConnectorConfig {
            base_url: self.base_url.clone(),
            token: self.token.clone(),
            webhook_secret: text::clone_opt(&self.webhook_secret),
        }
    }
}

/// Settings of a connector. The kind picks the variant, so that stored settings
/// are always read against the right shape.
#[derive(Debug, PartialEq, Eq)]
pub enum ConnectorConfig {
    Sms(SmsConnectorConfig),
}

/// The mathematical value of a [`ConnectorConfig`].
#[verifier::ext_equal]
pub enum ConfigView {
    Sms(SmsConfigView),
}

/// The settings that a value holds, read against the shape of the kind.
pub open spec fn config_of(kind: ConnectorKind, value: JsonView) -> Option<ConfigView> {
    match kind {
        ConnectorKind::Sms => {
            let base_url = json::text_of(json::part(value, 0, "base_url"@));
            let token = json::text_of(json::part(value, 1, "token"@));
            let secret = json::optional_text(json::part(value, 2, "webhook_secret"@));
            if json::is_record(value, 3) && base_url is Some && token is Some && secret is Some {
                Some(
                    ConfigView::Sms(
                        SmsConfigView {
                            base_url: base_url->0,
                            token: token->0,
                            webhook_secret: secret->0,
                        },
                    ),
                )
            } else {
                None
            }
        },
    }
}

/// The value that holds the settings; an absent secret is left out.
pub open spec fn config_value(config: ConfigView) -> JsonView {
    match config {
        ConfigView::Sms(sms) => {
            let fields = seq![
                ("base_url"@, JsonView::Text(sms.base_url)),
                ("token"@, JsonView::Text(sms.token)),
            ];
            JsonView::Object(
                match sms.webhook_secret {
                    Some(secret) => fields.push(("webhook_secret"@, JsonView::Text(secret))),
                    None => fields,
                },
            )
        },
    }
}

impl ConnectorConfig {
    pub open spec fn view(&self) -> ConfigView {
        match self {
            ConnectorConfig::Sms(config) => ConfigView::Sms(config@),
        }
    }

    /// The kind that the settings are for.
    pub open spec fn kind_of(&self) -> ConnectorKind {
        match self {
            ConnectorConfig::Sms(_) => ConnectorKind::Sms,
        }
    }

    /// The kind that the settings are for.
    pub fn kind(&self) -> (r: ConnectorKind)
        ensures
            r == self.kind_of(),
    {
        match self {
            ConnectorConfig::Sms(_) => ConnectorKind::Sms,
        }
    }

    /// Reads the settings of a connector from a JSON value.
    pub fn decode(kind: ConnectorKind, value: &Json) -> (r: Option<Self>)
        ensures
            match r {
                Some(config) => config_of(kind, value@) == Some(config@) && config.kind_of()
                    == kind,
                None => config_of(kind, value@) is None,
            },
    {
        match kind {
            ConnectorKind::Sms => {
                if !value.is_record(3) {
                    return None;
                }
                let base_url = json::as_text(value.part(0, "base_url"))?;
                let token = json::as_text(value.part(1, "token"))?;
                let webhook_secret = json::as_optional_text(value.part(2, "webhook_secret"))?;
                Some(ConnectorConfig::Sms(SmsConnectorConfig { base_url, token, webhook_secret }))
            },
        }
    }

    /// Reads the settings of a connector from JSON text. The error says why the
    /// text is refused.
    pub fn parse(kind: ConnectorKind, json: &str) -> (r: Result<Self, String>)
        ensures
            match json::parsed(json@) {
                Err(reason) => r matches Err(e) && e@ == reason,
                Ok(value) => match config_of(kind, value) {
                    Some(config) => r matches Ok(c) && c@ == config && c.kind_of() == kind,
                    None => r matches Err(e) && e@ == "wrong shape for a connector of this kind"@,
                },
            },
    {
        match Json::parse(json) {
            Err(reason) => Err(reason),
            Ok(value) => match Self::decode(kind, &value) {
                Some(config) => Ok(config),
                None => Err("wrong shape for a connector of this kind".to_owned()),
            },
        }
    }

    /// The settings as a JSON value.
    pub fn to_value(&self) -> (r: Json)
        ensures
            r@ == config_value(self@),
    {
        match self {
            ConnectorConfig::Sms(config) => {
                let mut fields: Vec<(String, Json)> = Vec::new();
                json::add_field(&mut fields, "base_url", json::text_json(&config.base_url));
                json::add_field(&mut fields, "token", json::text_json(&config.token));
                match &config.webhook_secret {
                    Some(secret) => {
                        json::add_field(&mut fields, "webhook_secret", json::text_json(secret));
                    },
                    None => {},
                }
                let r = json::object(fields);
                assert(r@->Object_0 =~= config_value(self@)->Object_0);
                r
            },
        }
    }

    /// The settings as JSON text.
    pub fn to_json(&self) -> (r: Result<String, String>)
        ensures
            r matches Ok(t) && t@ == json::encoded(config_value(self@)),
    {
        Ok(self.to_value().encode())
    }
}

impl Clone for ConnectorConfig {
    fn clone(&self) -> (r: Self)
        ensures
            r == *self,
    {
        match self {
            ConnectorConfig::Sms(config) => ConnectorConfig::Sms(config.clone()),
        }
    }
}

/// Reading the value that holds some settings gives the settings back.
pub proof fn config_round_trips(config: ConfigView)
    ensures
        config_of(ConnectorKind::Sms, config_value(config)) == Some(config),
{
    reveal_strlit("base_url");
    reveal_strlit("token");
    reveal_strlit("webhook_secret");
    reveal_with_fuel(json::lookup, 4);
    assert("base_url"@.len() != "token"@.len());
    assert("base_url"@.len() != "webhook_secret"@.len());
    assert("token"@.len() != "webhook_secret"@.len());
    let fields = config_value(config)->Object_0;
    assert(fields.drop_first().drop_first().len() <= 1);
}

/// An absent secret leaves no trace in the value.
pub proof fn absent_secret_is_left_out(config: SmsConfigView)
    ensures
        config.webhook_secret is None ==> json::get(
            config_value(ConfigView::Sms(config)),
            "webhook_secret"@,
        ) is None,
{
    reveal_strlit("base_url");
    reveal_strlit("token");
    reveal_strlit("webhook_secret");
    reveal_with_fuel(json::lookup, 4);
    assert("base_url"@.len() != "webhook_secret"@.len());
    assert("token"@.len() != "webhook_secret"@.len());
}

/// The settings of a connector for text messages are read from the fields of their
/// names, or by place; the secret may be left out.
pub proof fn settings_are_read_field_by_field(value: JsonView)
    ensures
        config_of(ConnectorKind::Sms, value) matches Some(ConfigView::Sms(sms)) ==> {
            &&& json::is_record(value, 3)
            &&& json::part(value, 0, "base_url"@) == Some(JsonView::Text(sms.base_url))
            &&& json::part(value, 1, "token"@) == Some(JsonView::Text(sms.token))
            &&& sms.webhook_secret is Some ==> json::part(value, 2, "webhook_secret"@) == Some(
                JsonView::Text(sms.webhook_secret->0),
            )
            &&& sms.webhook_secret is None ==> json::part(value, 2, "webhook_secret"@) is None
                || json::part(value, 2, "webhook_secret"@) == Some(JsonView::Null)
        },
{
}

} // verus!
