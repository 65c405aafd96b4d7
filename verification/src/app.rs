//! What the daemon decides when it starts.

use vstd::prelude::*;

use crate::config;
use crate::db;
use crate::protocol::entities::AgentProviderKind;
use crate::text;

verus! {

broadcast use vstd::string::group_string_axioms;

/// Inbound messages that may wait for the router.
pub const INBOUND_CHANNEL_CAPACITY: usize = 64;

/// The name of the agent group that an empty database gets.
pub const BOOTSTRAP_NAME: &'static str = "Andy";

/// Its folder.
pub const BOOTSTRAP_FOLDER: &'static str = "andy";

/// The provider that runs it.
pub fn bootstrap_provider() -> (r: AgentProviderKind)
    ensures
        r == AgentProviderKind::Echo,
{
    AgentProviderKind::Echo
}

/// The token that is known without making one: an explicit one wins over one that
/// was stored.
pub open spec fn known_token(explicit: Option<Seq<char>>, stored: Option<Seq<char>>) -> Option<
    Seq<char>,
> {
    match explicit {
        Some(token) => Some(token),
        None => match stored {
            Some(content) => if text::blank(content) {
                None
            } else {
                Some(text::trimmed(content))
            },
            None => None,
        },
    }
}

/// The login token of the daemon.
pub enum AuthToken {
    /// One that is known; nothing is to be stored.
    Known(String),
    /// A fresh one, which is to be stored.
    Fresh(String),
}

/// A token out of two ULID texts.
pub open spec fn token_text(a: Seq<char>, b: Seq<char>) -> Seq<char> {
    text::lowercase(a + b)
}

/// The login token, given what makes a fresh one.
pub fn token_from(explicit: Option<&str>, stored: Option<&str>, a: &str, b: &str) -> (r: AuthToken)
    ensures
        match known_token(text::opt_str_view(explicit), text::opt_str_view(stored)) {
            Some(token) => r matches AuthToken::Known(t) && t@ == token,
            None => r matches AuthToken::Fresh(t) && t@ == token_text(a@, b@) && (db::ulid_text(a@)
                && db::ulid_text(b@) ==> known_token(None, Some(t@)) == Some(t@)),
        },
{
    match explicit {
        Some(token) => {
            return AuthToken::Known(token.to_owned());
        },
        None => {},
    }
    match stored {
        Some(content) => {
            if !text::is_blank(content) {
                return AuthToken::Known(text::trim(content));
            }
        },
        None => {},
    }
    let both = text::concat2(a, b);
    let token = text::to_lowercase(&both);
    proof {
        if db::ulid_text(a@) && db::ulid_text(b@) {
            lemma_tokens_are_whole(both@, token@);
        }
    }
    AuthToken::Fresh(token)
}

proof fn lemma_tokens_are_whole(both: Seq<char>, token: Seq<char>)
    requires
        both.len() > 0,
        forall|i: int|
            0 <= i < both.len() ==> '0' <= #[trigger] both[i] <= '9' || 'A' <= both[i] <= 'Z',
        text::all_ascii(both) ==> token == both.map_values(|c: char| text::lower_ascii(c)),
    ensures
        known_token(None, Some(token)) == Some(token),
{
    assert(text::all_ascii(both));
    assert forall|i: int| 0 <= i < token.len() implies !text::white(#[trigger] token[i]) by {
        assert(token[i] == text::lower_ascii(both[i]));
    }
    assert(!text::white(token[0]));
    text::lemma_trim_start_at(token, 0);
    assert(token.skip(0) =~= token);
    text::lemma_trim_end_at(token, token.len() as int);
    assert(token.take(token.len() as int) =~= token);
}

/// The login token: an explicit one, the one that was stored, or a fresh one.
/// `stored` is what the token's file holds, if it could be read.
pub fn resolve_auth_token(explicit: Option<&str>, stored: Option<&str>) -> (r: AuthToken)
    ensures
        match known_token(text::opt_str_view(explicit), text::opt_str_view(stored)) {
            Some(token) => r matches AuthToken::Known(t) && t@ == token,
            None => r matches AuthToken::Fresh(t) && exists|a: Seq<char>, b: Seq<char>|
                db::ulid_text(a) && db::ulid_text(b) && t@ == #[trigger] token_text(a, b),
        },
        r matches AuthToken::Fresh(t) ==> known_token(None, Some(t@)) == Some(t@),
{
    let a = db::fresh_ulid();
    let b = db::fresh_ulid();
    token_from(explicit, stored, &a, &b)
}

/// Where a token is stored.
pub fn token_path(data_dir: &str) -> (r: String)
    ensures
        r@ == config::path_in(data_dir@, "auth_token"@),
{
    config::join_path(data_dir, "auth_token")
}

// ---------------------------------------------------------------------------
// Laws

/// A token that was stored is used from then on.
pub proof fn stored_tokens_are_reused(token: Seq<char>)
    requires
        !text::blank(token),
        text::trimmed(token) == token,
    ensures
        known_token(None, Some(token)) == Some(token),
{
}

/// A fresh token is the one that every later start uses, once it is stored.
pub fn fresh_tokens_are_reused() -> (r: (AuthToken, AuthToken))
    ensures
        r.0 matches AuthToken::Fresh(token) && (r.1 matches AuthToken::Known(again) && again@
            == token@),
{
    let first = resolve_auth_token(None, None);
    let second = match &first {
        AuthToken::Fresh(token) => resolve_auth_token(None, Some(token.as_str())),
        AuthToken::Known(token) => resolve_auth_token(None, Some(token.as_str())),
    };
    (first, second)
}

/// An explicit token wins, whatever was stored.
pub proof fn explicit_tokens_win(token: Seq<char>, stored: Option<Seq<char>>)
    ensures
        known_token(Some(token), stored) == Some(token),
{
}

/// A stored token is used without the white space around it, and nothing is used of
/// a file that holds white space alone.
pub proof fn stored_tokens_are_trimmed(content: Seq<char>) -> (r: (Seq<char>, Seq<char>))
    ensures
        text::blank(content) ==> known_token(None, Some(content)) is None,
        known_token(None, None) is None,
        known_token(None, Some(content)) matches Some(token) ==> content == r.0 + token + r.1,
        text::blank(r.0) && text::blank(r.1),
        !text::blank(content) ==> (known_token(None, Some(content)) matches Some(token)
            && token.len() > 0 && !text::white(token[0]) && !text::white(token.last())),
{
    let r = text::trimming_takes_white_space_alone(content);
    if text::trimmed(content).len() == 0 {
        assert forall|i: int| 0 <= i < content.len() implies text::white(#[trigger] content[i]) by {
            if i < r.0.len() {
                assert(content[i] == r.0[i]);
            } else {
                assert(content[i] == r.1[i - r.0.len()]);
            }
        }
    }
    r
}

} // verus!
