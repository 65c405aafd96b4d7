//! What each agent is doing, and a feed of recent events. For display only: it
//! never affects a run.

use std::collections::VecDeque;

use vstd::prelude::*;

use crate::protocol::ids::AgentGroupId;
use crate::text;

verus! {

broadcast use vstd::string::group_string_axioms;

/// How many recent events the feed keeps.
pub const FEED_CAPACITY: usize = 200;

/// Whether an agent is at work.
#[derive(Debug, Clone, Copy, PartialEq, Eq, Structural)]
pub enum Status {
    Idle,
    Running,
    Failed,
}

/// The current state of one agent, as the activity board shows it.
#[derive(Debug, PartialEq, Eq)]
pub struct AgentActivity {
    pub agent: String,
    pub status: Status,
    pub chat: Option<String>,
    pub delegated_by: Option<String>,
    pub phase: Option<String>,
    pub message: Option<String>,
    /// Start of the current run, for an elapsed timer.
    pub started_at: Option<String>,
}

/// The mathematical value of an [`AgentActivity`].
#[verifier::ext_equal]
pub struct AgentActivityView {
    pub agent: Seq<char>,
    pub status: Status,
    pub chat: Option<Seq<char>>,
    pub delegated_by: Option<Seq<char>>,
    pub phase: Option<Seq<char>>,
    pub message: Option<Seq<char>>,
    pub started_at: Option<Seq<char>>,
}

impl AgentActivity {
    pub open spec fn view(&self) -> AgentActivityView {
        AgentActivityView {
            agent: self.agent@,
            status: self.status,
            chat: text::opt_view(self.chat),
            delegated_by: text::opt_view(self.delegated_by),
            phase: text::opt_view(self.phase),
            message: text::opt_view(self.message),
            started_at: text::opt_view(self.started_at),
        }
    }
}

impl Clone for AgentActivity {
    fn clone(&self) -> (r: Self)
        ensures
            r == *self,
    {
        AgentActivity {
            agent: self.agent.clone(),
            status: self.status,
            chat: text::clone_opt(&self.chat),
            delegated_by: text::clone_opt(&self.delegated_by),
            phase: text::clone_opt(&self.phase),
            message: text::clone_opt(&self.message),
            started_at: text::clone_opt(&self.started_at),
        }
    }
}


/// What is known when a run begins.
pub struct RunContext {
    pub agent_group_id: AgentGroupId,
    pub agent: String,
    pub chat: Option<String>,
    pub delegated_by: Option<String>,
    pub message: Option<String>,
}

/// One entry of the feed.
#[derive(Debug, PartialEq, Eq)]
pub struct ActivityEvent {
    pub ts: String,
    pub agent: String,
    pub kind: &'static str,
    pub text: String,
}

/// The mathematical value of an [`ActivityEvent`].
#[verifier::ext_equal]
pub struct EventView {
    pub ts: Seq<char>,
    pub agent: Seq<char>,
    pub kind: Seq<char>,
    pub text: Seq<char>,
}

impl ActivityEvent {
    pub open spec fn view(&self) -> EventView {
        EventView { ts: self.ts@, agent: self.agent@, kind: self.kind@, text: self.text@ }
    }
}

impl Clone for ActivityEvent {
    fn clone(&self) -> (r: Self)
        ensures
            r == *self,
    {
        ActivityEvent {
            ts: self.ts.clone(),
            agent: self.agent.clone(),
            kind: self.kind,
            text: self.text.clone(),
        }
    }
}

/// What subscribers get: the agent that changed, and the feed entry.
#[derive(Debug)]
pub struct ActivityUpdate {
    pub agent_id: String,
    pub activity: AgentActivity,
    pub event: ActivityEvent,
}

/// The mathematical value of an [`ActivityUpdate`].
#[verifier::ext_equal]
pub struct UpdateView {
    pub agent_id: Seq<char>,
    pub activity: AgentActivityView,
    pub event: EventView,
}

impl ActivityUpdate {
    pub open spec fn view(&self) -> UpdateView {
        UpdateView {
            agent_id: self.agent_id@,
            activity: self.activity@,
            event: self.event@,
        }
    }
}

/// One agent of the board.
#[derive(Debug)]
pub struct AgentSlot {
    pub agent_id: String,
    pub activity: AgentActivity,
}

/// The board and the feed, newest entry first.
#[derive(Debug)]
pub struct ActivitySnapshot {
    pub agents: Vec<AgentSlot>,
    pub feed: Vec<ActivityEvent>,
}

/// The state of the board: what each known agent does, and the feed, oldest
/// entry first.
#[verifier::ext_equal]
pub struct HubView {
    pub agents: Map<Seq<char>, AgentActivityView>,
    pub feed: Seq<EventView>,
}

/// The last entries of a feed, as many as it may keep.
pub open spec fn capped(feed: Seq<EventView>, capacity: int) -> Seq<EventView> {
    if feed.len() > capacity {
        feed.skip(feed.len() - capacity)
    } else {
        feed
    }
}

impl HubView {
    /// The state after an agent changed and an event was added to the feed.
    pub open spec fn after(
        self,
        id: Seq<char>,
        activity: AgentActivityView,
        event: EventView,
    ) -> HubView {
        HubView {
            agents: self.agents.insert(id, activity),
            feed: capped(self.feed.push(event), FEED_CAPACITY as int),
        }
    }
}

/// The state of an agent whose run begins.
pub open spec fn running(ctx: RunContext, now: Seq<char>) -> AgentActivityView {
    AgentActivityView {
        agent: ctx.agent@,
        status: Status::Running,
        chat: text::opt_view(ctx.chat),
        delegated_by: text::opt_view(ctx.delegated_by),
        phase: Some("thinking\u{2026}"@),
        message: text::opt_view(ctx.message),
        started_at: Some(now),
    }
}

/// Where a run takes place, for the feed.
pub open spec fn place(chat: Option<Seq<char>>) -> Seq<char> {
    match chat {
        Some(name) => name,
        None => "background"@,
    }
}

/// The state of an agent that has nothing to do.
pub open spec fn idle(a: AgentActivityView) -> AgentActivityView {
    AgentActivityView {
        agent: a.agent,
        status: Status::Idle,
        chat: None,
        delegated_by: None,
        phase: None,
        message: None,
        started_at: None,
    }
}

/// The state of an agent whose run failed; an agent that was not known yet
/// shows its name and the failure alone.
pub open spec fn failure(
    was: Option<AgentActivityView>,
    agent: Seq<char>,
    detail: Seq<char>,
) -> AgentActivityView {
    match was {
        Some(a) => AgentActivityView {
            status: Status::Failed,
            phase: Some(detail),
            started_at: None,
            ..a
        },
        None => AgentActivityView {
            agent,
            status: Status::Failed,
            chat: None,
            delegated_by: None,
            phase: Some(detail),
            message: None,
            started_at: None,
        },
    }
}

/// The agents of a list of slots.
pub open spec fn agent_map(slots: Seq<(AgentGroupId, AgentActivity)>) -> Map<
    Seq<char>,
    AgentActivityView,
> {
    Map::new(
        |id: Seq<char>| exists|i: int| 0 <= i < slots.len() && (#[trigger] slots[i]).0@ == id,
        |id: Seq<char>|
            slots[choose|i: int| 0 <= i < slots.len() && (#[trigger] slots[i]).0@ == id].1@,
    )
}

/// Whether no agent has two slots.
pub open spec fn distinct_agents(slots: Seq<(AgentGroupId, AgentActivity)>) -> bool {
    forall|i: int, j: int|
        0 <= i < j < slots.len() ==> (#[trigger] slots[i]).0@ != (#[trigger] slots[j]).0@
}

/// In-memory record of what each agent is doing, plus a feed of recent events.
pub struct ActivityHub {
    agents: Vec<(AgentGroupId, AgentActivity)>,
    feed: VecDeque<ActivityEvent>,
}

proof fn lemma_agent_map_at(slots: Seq<(AgentGroupId, AgentActivity)>, i: int)
    requires
        distinct_agents(slots),
        0 <= i < slots.len(),
    ensures
        agent_map(slots).dom().contains(slots[i].0@),
        agent_map(slots)[slots[i].0@] == slots[i].1@,
{
    let id = slots[i].0@;
    let k = choose|k: int| 0 <= k < slots.len() && (#[trigger] slots[k]).0@ == id;
    if k < i {
        assert(slots[k].0@ != slots[i].0@);
    } else if i < k {
        assert(slots[i].0@ != slots[k].0@);
    }
}

proof fn lemma_agent_map_update(
    slots: Seq<(AgentGroupId, AgentActivity)>,
    i: int,
    id: AgentGroupId,
    activity: AgentActivity,
)
    requires
        distinct_agents(slots),
        0 <= i < slots.len(),
        slots[i].0@ == id@,
    ensures
        distinct_agents(slots.update(i, (id, activity))),
        agent_map(slots.update(i, (id, activity))) == agent_map(slots).insert(id@, activity@),
{
    let now = slots.update(i, (id, activity));
    assert(distinct_agents(now)) by {
        assert forall|a: int, b: int| 0 <= a < b < now.len() implies (#[trigger] now[a]).0@ != (
        #[trigger] now[b]).0@ by {
            assert(slots[a].0@ != slots[b].0@);
        }
    }
    assert forall|key: Seq<char>| agent_map(now).dom().contains(key) == agent_map(slots).insert(
        id@,
        activity@,
    ).dom().contains(key) by {
        if agent_map(slots).dom().contains(key) {
            let j = choose|j: int| 0 <= j < slots.len() && (#[trigger] slots[j]).0@ == key;
            assert(now[j].0@ == key);
        }
        if agent_map(now).dom().contains(key) {
            let j = choose|j: int| 0 <= j < now.len() && (#[trigger] now[j]).0@ == key;
            assert(slots[j].0@ == key);
        }
        assert(now[i].0@ == id@);
    }
    assert forall|key: Seq<char>| agent_map(now).dom().contains(key) implies agent_map(now)[key]
        == agent_map(slots).insert(id@, activity@)[key] by {
        let j = choose|j: int| 0 <= j < now.len() && (#[trigger] now[j]).0@ == key;
        lemma_agent_map_at(now, j);
        lemma_agent_map_at(slots, j);
        if j != i {
            if j < i {
                assert(slots[j].0@ != slots[i].0@);
            } else {
                assert(slots[i].0@ != slots[j].0@);
            }
        }
    }
    assert(agent_map(now) =~= agent_map(slots).insert(id@, activity@));
}

proof fn lemma_agent_map_push(
    slots: Seq<(AgentGroupId, AgentActivity)>,
    id: AgentGroupId,
    activity: AgentActivity,
)
    requires
        distinct_agents(slots),
        forall|i: int| 0 <= i < slots.len() ==> (#[trigger] slots[i]).0@ != id@,
    ensures
        distinct_agents(slots.push((id, activity))),
        agent_map(slots.push((id, activity))) == agent_map(slots).insert(id@, activity@),
{
    let now = slots.push((id, activity));
    assert(distinct_agents(now)) by {
        assert forall|a: int, b: int| 0 <= a < b < now.len() implies (#[trigger] now[a]).0@ != (
        #[trigger] now[b]).0@ by {
            assert(slots[a].0@ == now[a].0@);
            if b < slots.len() {
                assert(slots[a].0@ != slots[b].0@);
            }
        }
    }
    assert forall|key: Seq<char>| agent_map(now).dom().contains(key) == agent_map(slots).insert(
        id@,
        activity@,
    ).dom().contains(key) by {
        if agent_map(slots).dom().contains(key) {
            let j = choose|j: int| 0 <= j < slots.len() && (#[trigger] slots[j]).0@ == key;
            assert(now[j].0@ == key);
        }
        if agent_map(now).dom().contains(key) && key != id@ {
            let j = choose|j: int| 0 <= j < now.len() && (#[trigger] now[j]).0@ == key;
            assert(slots[j].0@ == key);
        }
        assert(now[slots.len() as int].0@ == id@);
    }
    assert forall|key: Seq<char>| agent_map(now).dom().contains(key) implies agent_map(now)[key]
        == agent_map(slots).insert(id@, activity@)[key] by {
        let j = choose|j: int| 0 <= j < now.len() && (#[trigger] now[j]).0@ == key;
        lemma_agent_map_at(now, j);
        if j < slots.len() {
            lemma_agent_map_at(slots, j);
            assert(slots[j].0@ != id@);
        }
    }
    assert(agent_map(now) =~= agent_map(slots).insert(id@, activity@));
}

proof fn lemma_agent_map_absent(slots: Seq<(AgentGroupId, AgentActivity)>, id: Seq<char>)
    requires
        forall|i: int| 0 <= i < slots.len() ==> (#[trigger] slots[i]).0@ != id,
    ensures
        !agent_map(slots).dom().contains(id),
{
}

impl ActivityHub {
    pub closed spec fn view(&self) -> HubView {
        HubView {
            agents: agent_map(self.agents@),
            feed: self.feed@.map_values(|e: ActivityEvent| e@),
        }
    }

    /// Whether no agent has two slots and the feed is within its capacity.
    pub closed spec fn well_formed(&self) -> bool {
        distinct_agents(self.agents@) && self.feed@.len() <= FEED_CAPACITY
    }

    /// An empty board.
    pub fn new() -> (r: Self)
        ensures
            r.well_formed(),
            r@ == (HubView { agents: Map::empty(), feed: Seq::empty() }),
    {
        let r = ActivityHub { agents: Vec::new(), feed: VecDeque::new() };
        proof {
            assert(r@.agents =~= Map::empty());
            assert(r@.feed =~= Seq::empty());
        }
        r
    }

    fn position(&self, id: &AgentGroupId) -> (r: Option<usize>)
        ensures
            match r {
                Some(i) => i < self.agents@.len() && self.agents@[i as int].0@ == id@,
                None => forall|i: int|
                    0 <= i < self.agents@.len() ==> (#[trigger] self.agents@[i]).0@ != id@,
            },
    {
        let mut i: usize = 0;
        while i < self.agents.len()
            invariant
                i <= self.agents@.len(),
                forall|j: int| 0 <= j < i ==> (#[trigger] self.agents@[j]).0@ != id@,
            decreases self.agents@.len() - i,
        {
            if text::same(self.agents[i].0.as_str(), id.as_str()) {
                return Some(i);
            }
            i += 1;
        }
        None
    }

    /// The state of an agent, if it is known.
    fn current(&self, id: &AgentGroupId) -> (r: Option<AgentActivity>)
        requires
            self.well_formed(),
        ensures
            match r {
                Some(a) => self@.agents.dom().contains(id@) && self@.agents[id@] == a@,
                None => !self@.agents.dom().contains(id@),
            },
    {
        match self.position(id) {
            Some(i) => {
                proof {
                    lemma_agent_map_at(self.agents@, i as int);
                }
                Some(self.agents[i].1.clone())
            },
            None => {
                proof {
                    lemma_agent_map_absent(self.agents@, id@);
                }
                None
            },
        }
    }

    /// Replaces an agent's state and adds an event to the feed.
    fn record(&mut self, id: &AgentGroupId, activity: AgentActivity, event: ActivityEvent) -> (r:
        ActivityUpdate)
        requires
            old(self).well_formed(),
        ensures
            final(self).well_formed(),
            final(self)@ == old(self)@.after(id@, activity@, event@),
            r@ == (UpdateView { agent_id: id@, activity: activity@, event: event@ }),
    {
        let ghost was = self.agents@;
        match self.position(id) {
            Some(i) => {
                let slot = (id.clone(), activity.clone());
                self.agents.set(i, slot);
                proof {
                    lemma_agent_map_update(was, i as int, *id, activity);
                }
            },
            None => {
                self.agents.push((id.clone(), activity.clone()));
                proof {
                    lemma_agent_map_push(was, *id, activity);
                }
            },
        }
        let ghost feed = self.feed@.map_values(|e: ActivityEvent| e@);
        let shown = event.clone();
        self.feed.push_back(event);
        proof {
            assert(self.feed@.map_values(|e: ActivityEvent| e@) =~= feed.push(shown@));
        }
        if self.feed.len() > FEED_CAPACITY {
            self.feed.pop_front();
            proof {
                assert(self.feed@.map_values(|e: ActivityEvent| e@) =~= feed.push(shown@).skip(1));
            }
        }
        ActivityUpdate { agent_id: id.as_str().to_owned(), activity, event: shown }
    }

    /// A run begins: the agent is running.
    pub fn started(&mut self, ctx: &RunContext, now: &str) -> (r: ActivityUpdate)
        requires
            old(self).well_formed(),
        ensures
            final(self).well_formed(),
            r@ == (UpdateView {
                agent_id: ctx.agent_group_id@,
                activity: running(*ctx, now@),
                event: EventView {
                    ts: now@,
                    agent: ctx.agent@,
                    kind: "started"@,
                    text: "started \u{b7} "@ + place(text::opt_view(ctx.chat)),
                },
            }),
            final(self)@ == old(self)@.after(r.agent_id@, r@.activity, r@.event),
    {
        let activity = AgentActivity {
            agent: ctx.agent.clone(),
            status: Status::Running,
            chat: text::clone_opt(&ctx.chat),
            delegated_by: text::clone_opt(&ctx.delegated_by),
            phase: Some("thinking\u{2026}".to_owned()),
            message: text::clone_opt(&ctx.message),
            started_at: Some(now.to_owned()),
        };
        let mut line = "started \u{b7} ".to_owned();
        match &ctx.chat {
            Some(chat) => {
                line.append(chat);
            },
            None => {
                line.append("background");
            },
        }
        let event = ActivityEvent {
            ts: now.to_owned(),
            agent: ctx.agent.clone(),
            kind: "started",
            text: line,
        };
        self.record(&ctx.agent_group_id, activity, event)
    }

    /// A run goes on with something else. An agent that is not known stays so.
    pub fn phase(&mut self, id: &AgentGroupId, agent: &str, what: &str, now: &str) -> (r: Option<
        ActivityUpdate,
    >)
        requires
            old(self).well_formed(),
        ensures
            final(self).well_formed(),
            r is Some <==> old(self)@.agents.dom().contains(id@),
            r is None ==> final(self)@ == old(self)@,
            r matches Some(u) ==> {
                &&& u@ == (UpdateView {
                    agent_id: id@,
                    activity: AgentActivityView {
                        phase: Some(what@),
                        ..old(self)@.agents[id@]
                    },
                    event: EventView { ts: now@, agent: agent@, kind: "phase"@, text: what@ },
                })
                &&& final(self)@ == old(self)@.after(id@, u@.activity, u@.event)
            },
    {
        let mut activity = self.current(id)?;
        activity.phase = Some(what.to_owned());
        let event = ActivityEvent {
            ts: now.to_owned(),
            agent: agent.to_owned(),
            kind: "phase",
            text: what.to_owned(),
        };
        Some(self.record(id, activity, event))
    }

    /// A run ended: a running agent is idle again. An agent that failed stays so,
    /// so that the failure is seen.
    pub fn finished(&mut self, id: &AgentGroupId, agent: &str, now: &str) -> (r: Option<
        ActivityUpdate,
    >)
        requires
            old(self).well_formed(),
        ensures
            final(self).well_formed(),
            r is Some <==> old(self)@.agents.dom().contains(id@) && old(self)@.agents[id@].status
                == Status::Running,
            r is None ==> final(self)@ == old(self)@,
            r matches Some(u) ==> {
                &&& u@ == (UpdateView {
                    agent_id: id@,
                    activity: idle(old(self)@.agents[id@]),
                    event: EventView { ts: now@, agent: agent@, kind: "finished"@, text: "done"@ },
                })
                &&& final(self)@ == old(self)@.after(id@, u@.activity, u@.event)
            },
    {
        let was = self.current(id)?;
        if was.status != Status::Running {
            return None;
        }
        let activity = AgentActivity {
            agent: was.agent,
            status: Status::Idle,
            chat: None,
            delegated_by: None,
            phase: None,
            message: None,
            started_at: None,
        };
        let event = ActivityEvent {
            ts: now.to_owned(),
            agent: agent.to_owned(),
            kind: "finished",
            text: "done".to_owned(),
        };
        Some(self.record(id, activity, event))
    }

    /// A run failed. The failure is recorded even if the agent was not known,
    /// as when a run failed before it began.
    pub fn failed(&mut self, id: &AgentGroupId, agent: &str, detail: &str, now: &str) -> (r:
        ActivityUpdate)
        requires
            old(self).well_formed(),
        ensures
            final(self).well_formed(),
            ({
                let was = if old(self)@.agents.dom().contains(id@) {
                    Some(old(self)@.agents[id@])
                } else {
                    None
                };
                let shown = failure(was, agent@, detail@);
                r@ == (UpdateView {
                    agent_id: id@,
                    activity: shown,
                    event: EventView {
                        ts: now@,
                        agent: agent@,
                        kind: "failed"@,
                        text: "failed \u{b7} "@ + detail@,
                    },
                })
            }),
            final(self)@ == old(self)@.after(id@, r@.activity, r@.event),
    {
        let activity = match self.current(id) {
            Some(was) => AgentActivity {
                agent: was.agent,
                status: Status::Failed,
                chat: was.chat,
                delegated_by: was.delegated_by,
                phase: Some(detail.to_owned()),
                message: was.message,
                started_at: None,
            },
            None => AgentActivity {
                agent: agent.to_owned(),
                status: Status::Failed,
                chat: None,
                delegated_by: None,
                phase: Some(detail.to_owned()),
                message: None,
                started_at: None,
            },
        };
        let event = ActivityEvent {
            ts: now.to_owned(),
            agent: agent.to_owned(),
            kind: "failed",
            text: text::concat2("failed \u{b7} ", detail),
        };
        self.record(id, activity, event)
    }

    /// The board and the feed, newest entry first.
    pub fn snapshot(&self) -> (r: ActivitySnapshot)
        requires
            self.well_formed(),
        ensures
            r.feed@.map_values(|e: ActivityEvent| e@) == self@.feed.reverse(),
            forall|i: int|
                0 <= i < r.agents@.len() ==> {
                    let slot = #[trigger] r.agents@[i];
                    self@.agents.dom().contains(slot.agent_id@) && self@.agents[slot.agent_id@]
                        == slot.activity@
                },
            forall|id: Seq<char>| #[trigger]
                self@.agents.dom().contains(id) ==> exists|i: int|
                    0 <= i < r.agents@.len() && (#[trigger] r.agents@[i]).agent_id@ == id,
            forall|i: int, j: int|
                0 <= i < j < r.agents@.len() ==> (#[trigger] r.agents@[i]).agent_id@ != (
                #[trigger] r.agents@[j]).agent_id@,
    {
        let mut agents: Vec<AgentSlot> = Vec::new();
        let mut i: usize = 0;
        while i < self.agents.len()
            invariant
                i <= self.agents@.len(),
                agents@.len() == i,
                forall|j: int|
                    0 <= j < i ==> (#[trigger] agents@[j]).agent_id@ == self.agents@[j].0@
                        && agents@[j].activity@ == self.agents@[j].1@,
            decreases self.agents@.len() - i,
        {
            agents.push(
                AgentSlot {
                    agent_id: self.agents[i].0.as_str().to_owned(),
                    activity: self.agents[i].1.clone(),
                },
            );
            i += 1;
        }
        let mut feed: Vec<ActivityEvent> = Vec::new();
        let mut left: usize = self.feed.len();
        while left > 0
            invariant
                left <= self.feed@.len(),
                feed@.len() == self.feed@.len() - left,
                forall|j: int|
                    0 <= j < feed@.len() ==> #[trigger] feed@[j] == self.feed@[self.feed@.len() - 1
                        - j],
            decreases left,
        {
            left -= 1;
            feed.push(self.feed[left].clone());
        }
        proof {
            assert(feed@.map_values(|e: ActivityEvent| e@) =~= self@.feed.reverse());
            assert forall|k: int| 0 <= k < agents@.len() implies {
                let slot = #[trigger] agents@[k];
                self@.agents.dom().contains(slot.agent_id@) && self@.agents[slot.agent_id@]
                    == slot.activity@
            } by {
                lemma_agent_map_at(self.agents@, k);
            }
            assert forall|id: Seq<char>| #[trigger] self@.agents.dom().contains(id) implies exists|
                i: int,
            |
                0 <= i < agents@.len() && (#[trigger] agents@[i]).agent_id@ == id by {
                let k = choose|k: int|
                    0 <= k < self.agents@.len() && (#[trigger] self.agents@[k]).0@ == id;
                assert(agents@[k].agent_id@ == id);
            }
            assert forall|a: int, b: int| 0 <= a < b < agents@.len() implies (
            #[trigger] agents@[a]).agent_id@ != (#[trigger] agents@[b]).agent_id@ by {
                assert(self.agents@[a].0@ != self.agents@[b].0@);
            }
        }
        ActivitySnapshot { agents, feed }
    }
}

// ---------------------------------------------------------------------------
// Laws

/// The feed never grows beyond its capacity, and keeps the newest entries in
/// their order.
pub proof fn feed_keeps_the_newest(
    hub: HubView,
    id: Seq<char>,
    activity: AgentActivityView,
    event: EventView,
)
    requires
        hub.feed.len() <= FEED_CAPACITY,
    ensures
        ({
            let next = hub.after(id, activity, event).feed;
            &&& next.len() <= FEED_CAPACITY
            &&& next.last() == event
            &&& next.drop_last() == hub.feed.skip(hub.feed.len() + 1 - next.len())
        }),
{
    let next = hub.after(id, activity, event).feed;
    assert(next.drop_last() =~= hub.feed.skip(hub.feed.len() + 1 - next.len()));
}

/// A change of one agent leaves the others as they were.
pub proof fn other_agents_stay(
    hub: HubView,
    id: Seq<char>,
    activity: AgentActivityView,
    event: EventView,
    other: Seq<char>,
)
    requires
        other != id,
    ensures
        hub.after(id, activity, event).agents.dom().contains(other)
            == hub.agents.dom().contains(other),
        hub.agents.dom().contains(other) ==> hub.after(id, activity, event).agents[other]
            == hub.agents[other],
{
}

/// An agent that starts is shown as running in the chat that it was started from,
/// on the message that it was started for, from then on.
pub proof fn starts_are_shown(ctx: RunContext, now: Seq<char>)
    ensures
        ({
            let a = running(ctx, now);
            &&& a.status == Status::Running
            &&& a.agent == ctx.agent@
            &&& a.chat == text::opt_view(ctx.chat)
            &&& a.delegated_by == text::opt_view(ctx.delegated_by)
            &&& a.message == text::opt_view(ctx.message)
            &&& a.started_at == Some(now)
        }),
{
}

/// An agent that is done is shown as idle, with nothing left of its run but its name.
pub proof fn the_idle_do_nothing(a: AgentActivityView)
    ensures
        idle(a).status == Status::Idle,
        idle(a).agent == a.agent,
        idle(a).chat is None && idle(a).delegated_by is None && idle(a).phase is None
            && idle(a).message is None && idle(a).started_at is None,
{
}

/// A failure is shown with what went wrong, and keeps what the agent was on; an agent
/// that was not shown is shown by the name that is given.
pub proof fn failures_are_shown(a: AgentActivityView, agent: Seq<char>, detail: Seq<char>)
    ensures
        ({
            let f = failure(Some(a), agent, detail);
            &&& f.status == Status::Failed
            &&& f.phase == Some(detail)
            &&& f.started_at is None
            &&& f.agent == a.agent
            &&& f.chat == a.chat
            &&& f.delegated_by == a.delegated_by
            &&& f.message == a.message
        }),
        failure(None, agent, detail).agent == agent,
        failure(None, agent, detail).status == Status::Failed,
        failure(None, agent, detail).phase == Some(detail),
{
}

/// What happened to an agent is what is shown of it, and the feed ends with it.
pub proof fn the_latest_is_shown(
    hub: HubView,
    id: Seq<char>,
    activity: AgentActivityView,
    event: EventView,
)
    ensures
        hub.after(id, activity, event).agents.dom().contains(id),
        hub.after(id, activity, event).agents[id] == activity,
        hub.after(id, activity, event).feed.last() == event,
        hub.feed.len() < FEED_CAPACITY ==> hub.after(id, activity, event).feed == hub.feed.push(
            event,
        ),
        place(None) == "background"@,
        forall|chat: Seq<char>| #[trigger] place(Some(chat)) == chat,
{
}

} // verus!
