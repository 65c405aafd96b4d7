//! The rows of the central database, and what is decided about them. The
//! queries themselves are run by the program around the library.

use vstd::prelude::*;

use crate::text;

pub mod agent_groups;
pub mod approvals;
pub mod connectors;
pub mod endpoints;
pub mod messaging_groups;
pub mod migrations;
pub mod questions;
pub mod sessions;
pub mod users;
pub mod web_messages;

verus! {

broadcast use vstd::string::group_string_axioms;

/// Length of the text of a ULID.
pub const ULID_LEN: usize = 26;

/// Whether a text has the form of a ULID: 26 digits and upper-case letters.
pub open spec fn ulid_text(s: Seq<char>) -> bool {
    &&& s.len() == ULID_LEN
    &&& forall|i: int|
        0 <= i < s.len() ==> '0' <= #[trigger] s[i] <= '9' || 'A' <= s[i] <= 'Z'
}

/// `ulid::Ulid::new`, then `to_string`: a text of 26 digits and upper-case letters.
/// Which one it is depends on the clock and on chance.
#[verifier::external_body]
pub(crate) fn fresh_ulid() -> (r: String)
    ensures
        ulid_text(r@),
{
    ulid::Ulid::new().to_string()
}

/// The identifier of a kind of row for a ULID text.
pub open spec fn id_text(prefix: Seq<char>, ulid: Seq<char>) -> Seq<char> {
    prefix + "-"@ + text::lowercase(ulid)
}

/// Makes the identifier of a kind of row out of a ULID text.
pub fn id_from(prefix: &str, ulid: &str) -> (r: String)
    ensures
        r@ == id_text(prefix@, ulid@),
{
    text::concat3(prefix, "-", &text::to_lowercase(ulid))
}

/// A fresh identifier: the prefix, a dash and a lower-case ULID.
pub fn generate_id(prefix: &str) -> (r: String)
    ensures
        exists|ulid: Seq<char>|
            ulid_text(ulid) && r@ == #[trigger] id_text(prefix@, ulid),
{
    let ulid = fresh_ulid();
    id_from(prefix, &ulid)
}

/// An identifier begins with its prefix and a hyphen, and two of one prefix are the
/// same only where what was drawn for them is the same in lower case.
pub proof fn identifiers_keep_their_prefix(prefix: Seq<char>, a: Seq<char>, b: Seq<char>)
    ensures
        id_text(prefix, a).take(prefix.len() as int) == prefix,
        id_text(prefix, a)[prefix.len() as int] == '-',
        id_text(prefix, a).skip(prefix.len() as int + 1) == text::lowercase(a),
        id_text(prefix, a) == id_text(prefix, b) ==> text::lowercase(a) == text::lowercase(b),
{
    reveal_strlit("-");
    assert(id_text(prefix, a).take(prefix.len() as int) =~= prefix);
    assert(id_text(prefix, a).skip(prefix.len() as int + 1) =~= text::lowercase(a));
    assert(id_text(prefix, b).skip(prefix.len() as int + 1) =~= text::lowercase(b));
}

} // verus!
