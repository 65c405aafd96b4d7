//! The data that crosses the daemon's borders: identifiers, message contents,
//! stored enumerations and the admin frames.

use vstd::prelude::*;

use crate::text;

pub mod content;
pub mod entities;
pub mod frame;
pub mod ids;
pub mod message;
pub mod stored;

verus! {

/// A text that names no value of an enumeration.
#[derive(Debug, PartialEq, Eq)]
pub struct ParseEnumError {
    pub type_label: &'static str,
    pub value: String,
}

impl ParseEnumError {
    /// The error as one line of text.
    pub open spec fn message_text(&self) -> Seq<char> {
        "invalid "@ + self.type_label@ + ": "@ + text::quoted(self.value@)
    }

    /// The error as one line of text.
    pub fn message(&self) -> (r: String)
        ensures
            r@ == self.message_text(),
    {
        let mut out = "invalid ".to_owned();
        out.append(self.type_label);
        out.append(": ");
        out.append(&text::quote(&self.value));
        out
    }
}

} // verus!
