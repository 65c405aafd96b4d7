//! Providers run agents: what they are given, and what they report.

pub mod echo;
pub mod native;
pub mod pi;
pub mod resolution;

use vstd::prelude::*;

use crate::protocol::entities::AgentProviderKind;
use crate::text;

verus! {

broadcast use vstd::string::group_string_axioms;

/// Why a run did not start.
#[derive(Debug, PartialEq, Eq)]
pub enum ProviderError {
    Spawn(String),
}

/// The mathematical value of a [`ProviderError`].
#[verifier::ext_equal]
pub enum ProviderErrorView {
    Spawn(Seq<char>),
}

impl ProviderErrorView {
    /// The error as one line of text.
    pub open spec fn text(self) -> Seq<char> {
        match self {
            ProviderErrorView::Spawn(reason) => "failed to start agent run: "@ + reason,
        }
    }
}

impl ProviderError {
    pub open spec fn view(&self) -> ProviderErrorView {
        match self {
            ProviderError::Spawn(reason) => ProviderErrorView::Spawn(reason@),
        }
    }

    /// The error as one line of text.
    pub fn message(&self) -> (r: String)
        ensures
            r@ == self@.text(),
    {
        match self {
            ProviderError::Spawn(reason) => text::concat2("failed to start agent run: ", reason),
        }
    }
}

/// What a run reports.
#[derive(Debug, PartialEq, Eq)]
pub enum ProviderEvent {
    TurnEnd { text: Option<String> },
    Activity,
    Progress { message: String },
    Error { message: String, retryable: bool },
}

/// The mathematical value of a [`ProviderEvent`].
#[verifier::ext_equal]
pub enum ProviderEventView {
    TurnEnd { text: Option<Seq<char>> },
    Activity,
    Progress { message: Seq<char> },
    Error { message: Seq<char>, retryable: bool },
}

impl ProviderEvent {
    pub open spec fn view(&self) -> ProviderEventView {
        match self {
            ProviderEvent::TurnEnd { text } => ProviderEventView::TurnEnd {
                text: text::opt_view(*text),
            },
            ProviderEvent::Activity => ProviderEventView::Activity,
            ProviderEvent::Progress { message } => ProviderEventView::Progress {
                message: message@,
            },
            ProviderEvent::Error { message, retryable } => ProviderEventView::Error {
                message: message@,
                retryable: *retryable,
            },
        }
    }
}

/// The provider that runs an agent: the native one unless the group says
/// otherwise.
pub fn provider_kind(chosen: Option<AgentProviderKind>) -> (r: AgentProviderKind)
    ensures
        r == (match chosen {
            Some(kind) => kind,
            None => AgentProviderKind::Native,
        }),
{
    match chosen {
        Some(kind) => kind,
        None => AgentProviderKind::Native,
    }
}

} // verus!
