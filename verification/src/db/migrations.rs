//! The versions of the schema of the central database.

use vstd::prelude::*;

verus! {

broadcast use vstd::string::group_string_axioms;

/// The first tables.
pub const INITIAL: &'static str = "CREATE TABLE endpoints (
           name        TEXT PRIMARY KEY,
           base_url    TEXT NOT NULL,
           api_key     TEXT,
           api_key_env TEXT,
           notes       TEXT,
           created_at  TEXT NOT NULL
         );

         CREATE TABLE agent_groups (
           id             TEXT PRIMARY KEY,
           name           TEXT NOT NULL,
           folder         TEXT NOT NULL UNIQUE,
           agent_provider TEXT,
           endpoint       TEXT REFERENCES endpoints(name),
           model          TEXT,
           thinking_level TEXT,
           cli_scope      TEXT NOT NULL DEFAULT 'group',
           created_at     TEXT NOT NULL
         );

         CREATE TABLE messaging_groups (
           id                    TEXT PRIMARY KEY,
           channel_type          TEXT NOT NULL,
           platform_id           TEXT NOT NULL,
           name                  TEXT,
           is_group              INTEGER NOT NULL DEFAULT 0,
           unknown_sender_policy TEXT NOT NULL DEFAULT 'strict',
           denied_at             TEXT,
           created_at            TEXT NOT NULL,
           UNIQUE(channel_type, platform_id)
         );

         CREATE TABLE messaging_group_agents (
           id                     TEXT PRIMARY KEY,
           messaging_group_id     TEXT NOT NULL REFERENCES messaging_groups(id),
           agent_group_id         TEXT NOT NULL REFERENCES agent_groups(id),
           engage_mode            TEXT NOT NULL DEFAULT 'mention',
           engage_pattern         TEXT,
           sender_scope           TEXT NOT NULL DEFAULT 'all',
           ignored_message_policy TEXT NOT NULL DEFAULT 'drop',
           session_mode           TEXT NOT NULL DEFAULT 'shared',
           priority               INTEGER NOT NULL DEFAULT 0,
           created_at             TEXT NOT NULL,
           UNIQUE(messaging_group_id, agent_group_id)
         );

         CREATE TABLE users (
           id           TEXT PRIMARY KEY,
           kind         TEXT NOT NULL,
           display_name TEXT,
           created_at   TEXT NOT NULL
         );

         CREATE TABLE user_roles (
           user_id        TEXT NOT NULL REFERENCES users(id),
           role           TEXT NOT NULL,
           agent_group_id TEXT REFERENCES agent_groups(id),
           granted_by     TEXT REFERENCES users(id),
           granted_at     TEXT NOT NULL,
           PRIMARY KEY (user_id, role, agent_group_id)
         );
         -- NULLs are pairwise-distinct in SQLite unique constraints; global grants need their own index
         CREATE UNIQUE INDEX idx_user_roles_global
           ON user_roles(user_id, role) WHERE agent_group_id IS NULL;

         CREATE TABLE agent_group_members (
           user_id        TEXT NOT NULL REFERENCES users(id),
           agent_group_id TEXT NOT NULL REFERENCES agent_groups(id),
           added_by       TEXT REFERENCES users(id),
           added_at       TEXT NOT NULL,
           PRIMARY KEY (user_id, agent_group_id)
         );

         CREATE TABLE user_dms (
           user_id            TEXT NOT NULL REFERENCES users(id),
           channel_type       TEXT NOT NULL,
           messaging_group_id TEXT NOT NULL REFERENCES messaging_groups(id),
           resolved_at        TEXT NOT NULL,
           PRIMARY KEY (user_id, channel_type)
         );

         CREATE TABLE sessions (
           id                 TEXT PRIMARY KEY,
           agent_group_id     TEXT NOT NULL REFERENCES agent_groups(id),
           messaging_group_id TEXT REFERENCES messaging_groups(id),
           thread_id          TEXT,
           status             TEXT NOT NULL DEFAULT 'active',
           last_active        TEXT,
           created_at         TEXT NOT NULL
         );
         CREATE INDEX idx_sessions_agent_group ON sessions(agent_group_id);
         CREATE INDEX idx_sessions_lookup ON sessions(messaging_group_id, thread_id);

         CREATE TABLE pending_questions (
           question_id    TEXT PRIMARY KEY,
           session_id     TEXT NOT NULL REFERENCES sessions(id),
           message_out_id TEXT NOT NULL,
           platform_id    TEXT,
           channel_type   TEXT,
           thread_id      TEXT,
           title          TEXT NOT NULL,
           options_json   TEXT NOT NULL,
           created_at     TEXT NOT NULL
         );

         CREATE TABLE dropped_messages (
           id           TEXT PRIMARY KEY,
           channel_type TEXT NOT NULL,
           platform_id  TEXT NOT NULL,
           reason       TEXT NOT NULL,
           content      TEXT,
           created_at   TEXT NOT NULL
         );";

/// The transcript of the web channel.
pub const WEB_MESSAGES: &'static str = "CREATE TABLE web_messages (
           id                 INTEGER PRIMARY KEY AUTOINCREMENT,
           messaging_group_id TEXT NOT NULL REFERENCES messaging_groups(id),
           direction          TEXT NOT NULL,
           sender             TEXT NOT NULL,
           body               TEXT NOT NULL,
           message_out_id     TEXT,
           created_at         TEXT NOT NULL
         );
         CREATE INDEX idx_web_messages_group ON web_messages(messaging_group_id, id);";

/// The tools that an agent has.
pub const TOOL_PROFILE: &'static str = "ALTER TABLE agent_groups ADD COLUMN tool_profile TEXT NOT NULL DEFAULT 'chat';";

/// Rows of the transcript that are questions; without an answer one is open.
pub const QUESTION_CARDS: &'static str = "ALTER TABLE web_messages ADD COLUMN kind TEXT NOT NULL DEFAULT 'chat';
         ALTER TABLE web_messages ADD COLUMN question_id TEXT;
         ALTER TABLE web_messages ADD COLUMN options_json TEXT;
         ALTER TABLE web_messages ADD COLUMN answer TEXT;";

/// Commands that wait for the approval of an owner.
pub const PENDING_APPROVALS: &'static str = "CREATE TABLE pending_approvals (
           approval_id    TEXT PRIMARY KEY,
           session_id     TEXT NOT NULL REFERENCES sessions(id),
           agent_group_id TEXT NOT NULL REFERENCES agent_groups(id),
           command        TEXT NOT NULL,
           args_json      TEXT NOT NULL,
           platform_id    TEXT,
           channel_type   TEXT,
           thread_id      TEXT,
           summary        TEXT NOT NULL,
           created_at     TEXT NOT NULL
         );";

/// Chats that are kept but no longer listed.
pub const ARCHIVE_CHATS: &'static str = "ALTER TABLE messaging_groups ADD COLUMN archived_at TEXT;";

/// External channels; there is at most one of each kind.
pub const CONNECTORS: &'static str = "CREATE TABLE connectors (
           id             TEXT PRIMARY KEY,
           kind           TEXT NOT NULL UNIQUE,
           label          TEXT,
           config         TEXT NOT NULL,
           agent_group_id TEXT NOT NULL REFERENCES agent_groups(id),
           enabled        INTEGER NOT NULL DEFAULT 1,
           created_at     TEXT NOT NULL
         );";

/// How far each channel has been read.
pub const CHANNEL_CURSORS: &'static str = "CREATE TABLE channel_cursors (
           channel_type TEXT PRIMARY KEY,
           cursor       INTEGER NOT NULL
         );";

/// A version of the schema, and the statements that lead to it.
#[derive(Debug, Clone, Copy)]
pub struct Migration {
    pub version: u32,
    pub name: &'static str,
    pub sql: &'static str,
}

impl Migration {
    pub open spec fn view(&self) -> (u32, Seq<char>, Seq<char>) {
        (self.version, self.name@, self.sql@)
    }
}

/// Every version in order: its number, its name and its statements.
pub open spec fn catalogue() -> Seq<(u32, Seq<char>, Seq<char>)> {
    seq![
        (1u32, "001-initial"@, INITIAL@),
        (2u32, "002-web-messages"@, WEB_MESSAGES@),
        (3u32, "003-tool-profile"@, TOOL_PROFILE@),
        (4u32, "004-question-cards"@, QUESTION_CARDS@),
        (5u32, "005-pending-approvals"@, PENDING_APPROVALS@),
        (6u32, "006-archive-chats"@, ARCHIVE_CHATS@),
        (7u32, "007-connectors"@, CONNECTORS@),
        (8u32, "008-channel-cursors"@, CHANNEL_CURSORS@),
    ]
}

/// The versions that are still to be applied, in order.
pub open spec fn pending_of(
    all: Seq<(u32, Seq<char>, Seq<char>)>,
    applied: Seq<u32>,
) -> Seq<(u32, Seq<char>, Seq<char>)> {
    all.filter(|m: (u32, Seq<char>, Seq<char>)| !applied.contains(m.0))
}

/// The mathematical values of some versions.
pub open spec fn migrations_view(list: Seq<Migration>) -> Seq<(u32, Seq<char>, Seq<char>)> {
    list.map_values(|m: Migration| m@)
}

/// Every version in order.
pub fn migrations() -> (r: Vec<Migration>)
    ensures
        migrations_view(r@) == catalogue(),
{
    let list = vec![
        Migration { version: 1, name: "001-initial", sql: INITIAL },
        Migration { version: 2, name: "002-web-messages", sql: WEB_MESSAGES },
        Migration { version: 3, name: "003-tool-profile", sql: TOOL_PROFILE },
        Migration { version: 4, name: "004-question-cards", sql: QUESTION_CARDS },
        Migration { version: 5, name: "005-pending-approvals", sql: PENDING_APPROVALS },
        Migration { version: 6, name: "006-archive-chats", sql: ARCHIVE_CHATS },
        Migration { version: 7, name: "007-connectors", sql: CONNECTORS },
        Migration { version: 8, name: "008-channel-cursors", sql: CHANNEL_CURSORS },
    ];
    assert(migrations_view(list@) =~= catalogue());
    list
}

fn listed(versions: &Vec<u32>, version: u32) -> (r: bool)
    ensures
        r == versions@.contains(version),
{
    let mut i: usize = 0;
    while i < versions.len()
        invariant
            i <= versions@.len(),
            forall|j: int| 0 <= j < i ==> versions@[j] != version,
        decreases versions@.len() - i,
    {
        if versions[i] == version {
            return true;
        }
        i += 1;
    }
    false
}

/// The versions that are still to be applied, in order.
pub fn pending(applied: &Vec<u32>) -> (r: Vec<Migration>)
    ensures
        migrations_view(r@) == pending_of(catalogue(), applied@),
{
    let all = migrations();
    let ghost views = migrations_view(all@);
    let ghost wanted = |m: (u32, Seq<char>, Seq<char>)| !applied@.contains(m.0);
    let mut out: Vec<Migration> = Vec::new();
    let mut i: usize = 0;
    proof {
        reveal(Seq::filter);
        assert(views.take(0) =~= Seq::empty());
        assert(migrations_view(out@) =~= Seq::empty());
    }
    while i < all.len()
        invariant
            i <= all@.len(),
            views == migrations_view(all@),
            wanted == (|m: (u32, Seq<char>, Seq<char>)| !applied@.contains(m.0)),
            migrations_view(out@) == views.take(i as int).filter(wanted),
        decreases all@.len() - i,
    {
        let migration = all[i];
        let ghost was = out@;
        proof {
            reveal(Seq::filter);
            assert(views.take(i + 1).drop_last() =~= views.take(i as int));
            assert(views.take(i + 1).last() == migration@);
        }
        if !listed(applied, migration.version) {
            out.push(migration);
            assert(migrations_view(out@) =~= migrations_view(was).push(migration@));
        }
        i += 1;
    }
    assert(views.take(i as int) =~= views);
    out
}

// ---------------------------------------------------------------------------
// Laws

/// Versions are numbered in strictly increasing order, from one.
pub proof fn versions_strictly_increase(i: int, j: int)
    requires
        0 <= i < j < catalogue().len(),
    ensures
        1 <= catalogue()[i].0 < catalogue()[j].0,
{
}

/// A database that lacks some versions gets exactly those, whatever they are:
/// none that it has, and every one that it lacks.
pub proof fn only_what_is_missing_is_applied(applied: Seq<u32>, i: int)
    requires
        0 <= i < catalogue().len(),
    ensures
        pending_of(catalogue(), applied).contains(catalogue()[i]) <==> !applied.contains(
            catalogue()[i].0,
        ),
{
    let wanted = |m: (u32, Seq<char>, Seq<char>)| !applied.contains(m.0);
    let all = catalogue();
    broadcast use vstd::seq_lib::group_filter_ensures;

    assert(all.contains(all[i]));
    if pending_of(all, applied).contains(all[i]) {
        assert(wanted(all[i]));
    }
}

/// Once every version is applied, nothing is left to apply.
pub proof fn applying_twice_is_applying_once(applied: Seq<u32>)
    requires
        forall|i: int| 0 <= i < catalogue().len() ==> applied.contains((#[trigger] catalogue()[i]).0),
    ensures
        pending_of(catalogue(), applied).len() == 0,
{
    broadcast use vstd::seq_lib::group_filter_ensures;

    let left = pending_of(catalogue(), applied);
    if left.len() > 0 {
        let m = left[0];
        assert(left.contains(m));
        let wanted = |m: (u32, Seq<char>, Seq<char>)| !applied.contains(m.0);
        catalogue().lemma_filter_contains_rev(wanted, m);
        let i = choose|i: int| 0 <= i < catalogue().len() && catalogue()[i] == m;
        assert(applied.contains(catalogue()[i].0));
    }
}

/// What is applied is applied in the order of the catalogue: of two versions that
/// are both missing the lower one comes first.
pub proof fn lower_versions_are_applied_first(applied: Seq<u32>, i: int, j: int)
    requires
        0 <= i < j < pending_of(catalogue(), applied).len(),
    ensures
        pending_of(catalogue(), applied)[i].0 < pending_of(catalogue(), applied)[j].0,
{
    let wanted = |m: (u32, Seq<char>, Seq<char>)| !applied.contains(m.0);
    lemma_filter_in_order(catalogue(), wanted, i, j);
}

proof fn lemma_filter_in_order(
    all: Seq<(u32, Seq<char>, Seq<char>)>,
    wanted: spec_fn((u32, Seq<char>, Seq<char>)) -> bool,
    i: int,
    j: int,
)
    requires
        forall|a: int, b: int| 0 <= a < b < all.len() ==> (#[trigger] all[a]).0 < (
        #[trigger] all[b]).0,
        0 <= i < j < all.filter(wanted).len(),
    ensures
        all.filter(wanted)[i].0 < all.filter(wanted)[j].0,
    decreases all.len(),
{
    reveal(Seq::filter);
    if all.len() > 0 {
        let init = all.drop_last();
        let kept = init.filter(wanted);
        assert forall|a: int, b: int| 0 <= a < b < init.len() implies (#[trigger] init[a]).0 < (
        #[trigger] init[b]).0 by {
            assert(init[a] == all[a] && init[b] == all[b]);
        }
        if wanted(all.last()) && j == kept.len() {
            init.lemma_filter_contains_rev(wanted, kept[i]);
            let a = choose|a: int| 0 <= a < init.len() && init[a] == kept[i];
            assert(all[a].0 < all[all.len() - 1].0);
        } else {
            lemma_filter_in_order(init, wanted, i, j);
        }
    }
}

} // verus!
