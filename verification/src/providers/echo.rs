//! A provider that answers every prompt with the prompt.

use vstd::prelude::*;

use crate::providers::{ProviderEvent, ProviderEventView};

verus! {

broadcast use vstd::string::group_string_axioms;

/// Answers every prompt and every follow-up with the text it received.
pub struct EchoProvider;

impl EchoProvider {
    /// What the provider reports for a prompt or a follow-up.
    pub fn turn(&self, prompt: String) -> (r: ProviderEvent)
        ensures
            r@ == (ProviderEventView::TurnEnd { text: Some(prompt@) }),
    {
        ProviderEvent::TurnEnd { text: Some(prompt) }
    }
}

} // verus!
