//! Where an inbound message goes: to every agent that is wired to its chat, or
//! to the agent of its channel's connector.

use vstd::prelude::*;

use crate::db::connectors::{Connector, ConnectorView};
use crate::db::messaging_groups::{Wiring, WiringView};
use crate::engage;
use crate::engage::{evaluate, Engage, EngageInput};
use crate::protocol::content;
use crate::protocol::content::{InboundContent, InboundView, Routing, RoutingView};
use crate::protocol::entities::{ConnectorKind, EngageMode, SessionMode};
use crate::protocol::ids::{AgentGroupId, MessagingGroupId, SessionId};
use crate::protocol::message::MessageKind;
use crate::runs::queue;
use crate::runs::queue::RunQueue;
use crate::session::{NewInboundMessage, NewInboundMessageView};
use crate::text;

verus! {

broadcast use vstd::string::group_string_axioms;

/// A message as a channel hands it in.
#[derive(Debug, PartialEq, Eq)]
pub struct InboundEvent {
    pub channel_type: String,
    pub platform_id: String,
    pub thread_id: Option<String>,
    pub kind: MessageKind,
    pub content: String,
    pub is_mention: bool,
    pub is_group: bool,
}

/// The mathematical value of an [`InboundEvent`].
#[verifier::ext_equal]
pub struct InboundEventView {
    pub channel_type: Seq<char>,
    pub platform_id: Seq<char>,
    pub thread_id: Option<Seq<char>>,
    pub kind: MessageKind,
    pub content: Seq<char>,
    pub is_mention: bool,
    pub is_group: bool,
}

impl InboundEvent {
    pub open spec fn view(&self) -> InboundEventView {
        InboundEventView {
            channel_type: self.channel_type@,
            platform_id: self.platform_id@,
            thread_id: text::opt_view(self.thread_id),
            kind: self.kind,
            content: self.content@,
            is_mention: self.is_mention,
            is_group: self.is_group,
        }
    }
}

impl Clone for InboundEvent {
    fn clone(&self) -> (r: Self)
        ensures
            r == *self,
    {
        InboundEvent {
            channel_type: self.channel_type.clone(),
            platform_id: self.platform_id.clone(),
            thread_id: text::clone_opt(&self.thread_id),
            kind: self.kind,
            content: self.content.clone(),
            is_mention: self.is_mention,
            is_group: self.is_group,
        }
    }
}

/// An agent that a message goes to, and when it starts a run.
#[derive(Debug, PartialEq, Eq)]
pub struct RouteTarget {
    pub agent_group_id: AgentGroupId,
    pub session_mode: SessionMode,
    pub engage_mode: EngageMode,
    pub engage_pattern: Option<String>,
    pub messaging_group_id: MessagingGroupId,
}

/// The mathematical value of a [`RouteTarget`].
#[verifier::ext_equal]
pub struct RouteTargetView {
    pub agent_group_id: Seq<char>,
    pub session_mode: SessionMode,
    pub engage_mode: EngageMode,
    pub engage_pattern: Option<Seq<char>>,
    pub messaging_group_id: Seq<char>,
}

impl RouteTarget {
    pub open spec fn view(&self) -> RouteTargetView {
        RouteTargetView {
            agent_group_id: self.agent_group_id@,
            session_mode: self.session_mode,
            engage_mode: self.engage_mode,
            engage_pattern: text::opt_view(self.engage_pattern),
            messaging_group_id: self.messaging_group_id@,
        }
    }
}

impl Clone for RouteTarget {
    fn clone(&self) -> (r: Self)
        ensures
            r == *self,
    {
        RouteTarget {
            agent_group_id: self.agent_group_id.clone(),
            session_mode: self.session_mode,
            engage_mode: self.engage_mode,
            engage_pattern: text::clone_opt(&self.engage_pattern),
            messaging_group_id: self.messaging_group_id.clone(),
        }
    }
}

/// What to write for one target: the thread of the session, and the message with
/// its routing.
#[derive(Debug, PartialEq, Eq)]
pub struct InboundPlan {
    pub session_thread: Option<String>,
    pub message: NewInboundMessage,
}

/// The mathematical value of an [`InboundPlan`].
#[verifier::ext_equal]
pub struct InboundPlanView {
    pub session_thread: Option<Seq<char>>,
    pub message: NewInboundMessageView,
}

impl InboundPlan {
    pub open spec fn view(&self) -> InboundPlanView {
        InboundPlanView {
            session_thread: text::opt_view(self.session_thread),
            message: self.message@,
        }
    }
}

impl Clone for InboundPlan {
    fn clone(&self) -> (r: Self)
        ensures
            r == *self,
    {
        InboundPlan {
            session_thread: text::clone_opt(&self.session_thread),
            message: self.message.clone(),
        }
    }
}

/// What became of an inbound message.
#[derive(Debug, PartialEq, Eq)]
pub enum RouteOutcome {
    Delivered { sessions: Vec<SessionId> },
    Dropped { reason: &'static str },
}

/// A connector with the kind that its settings are for.
pub open spec fn connectors_view(rows: Seq<Connector>) -> Seq<(ConnectorView, ConnectorKind)> {
    rows.map_values(|c: Connector| (c@, c.config.kind_of()))
}

/// The kind of connector that a channel is, if it is one.
pub open spec fn channel_kind_of(channel_type: Seq<char>) -> Option<ConnectorKind> {
    if channel_type == ConnectorKind::Sms.text() {
        Some(ConnectorKind::Sms)
    } else {
        None
    }
}

/// The first connector of a kind that is switched on.
pub open spec fn enabled_by_kind_of(
    rows: Seq<(ConnectorView, ConnectorKind)>,
    kind: ConnectorKind,
) -> Option<ConnectorView>
    decreases rows.len(),
{
    if rows.len() == 0 {
        None
    } else if rows[0].0.enabled && rows[0].1 == kind {
        Some(rows[0].0)
    } else {
        enabled_by_kind_of(rows.drop_first(), kind)
    }
}

/// The target that a wiring of a chat is.
pub open spec fn wired_target(w: WiringView, chat: Seq<char>) -> RouteTargetView {
    RouteTargetView {
        agent_group_id: w.agent_group_id,
        session_mode: w.session_mode,
        engage_mode: w.engage_mode,
        engage_pattern: w.engage_pattern,
        messaging_group_id: chat,
    }
}

/// The target that a connector is for the chats of its channel that have no
/// wiring: a shared session, with the default mode.
pub open spec fn fallback_target(c: ConnectorView, chat: Seq<char>) -> RouteTargetView {
    RouteTargetView {
        agent_group_id: c.agent_group_id,
        session_mode: SessionMode::Shared,
        engage_mode: EngageMode::Mention,
        engage_pattern: None,
        messaging_group_id: chat,
    }
}

/// Where a message of a chat goes: to each agent wired to the chat; without a
/// wiring, to the agent of the channel's connector, if that is switched on.
pub open spec fn targets_of(
    channel_type: Seq<char>,
    chat: Seq<char>,
    wirings: Seq<WiringView>,
    connectors: Seq<(ConnectorView, ConnectorKind)>,
) -> Seq<RouteTargetView> {
    if wirings.len() > 0 {
        wirings.map_values(|w: WiringView| wired_target(w, chat))
    } else {
        match channel_kind_of(channel_type) {
            None => Seq::empty(),
            Some(kind) => match enabled_by_kind_of(connectors, kind) {
                None => Seq::empty(),
                Some(connector) => seq![fallback_target(connector, chat)],
            },
        }
    }
}

/// The first connector of a kind that is switched on.
pub fn enabled_by_kind<'a>(rows: &'a Vec<Connector>, kind: ConnectorKind) -> (r: Option<
    &'a Connector,
>)
    ensures
        match r {
            Some(connector) => enabled_by_kind_of(connectors_view(rows@), kind) == Some(connector@),
            None => enabled_by_kind_of(connectors_view(rows@), kind) is None,
        },
{
    let ghost all = connectors_view(rows@);
    let mut i: usize = 0;
    assert(all.skip(0) =~= all);
    while i < rows.len()
        invariant
            i <= rows@.len(),
            all == connectors_view(rows@),
            enabled_by_kind_of(all, kind) == enabled_by_kind_of(all.skip(i as int), kind),
        decreases rows@.len() - i,
    {
        proof {
            assert(all.skip(i as int)[0] == (rows@[i as int]@, rows@[i as int].config.kind_of()));
            assert(all.skip(i as int).drop_first() =~= all.skip(i + 1));
        }
        if rows[i].enabled && rows[i].kind() == kind {
            return Some(&rows[i]);
        }
        i += 1;
    }
    None
}

/// The targets that a channel falls back on where a chat has no wiring.
pub fn connector_fallback_targets(
    channel_type: &str,
    chat: &MessagingGroupId,
    connectors: &Vec<Connector>,
) -> (r: Vec<RouteTarget>)
    ensures
        r@.map_values(|t: RouteTarget| t@) == targets_of(
            channel_type@,
            chat@,
            Seq::empty(),
            connectors_view(connectors@),
        ),
{
    let mut out: Vec<RouteTarget> = Vec::new();
    assert(out@.map_values(|t: RouteTarget| t@) =~= Seq::empty());
    let kind = match ConnectorKind::parse(channel_type) {
        Ok(kind) => kind,
        Err(_) => {
            assert(channel_type@ != ConnectorKind::Sms.text());
            return out;
        },
    };
    assert(channel_kind_of(channel_type@) == Some(kind));
    match enabled_by_kind(connectors, kind) {
        Some(connector) => {
            out.push(
                RouteTarget {
                    agent_group_id: connector.agent_group_id.clone(),
                    session_mode: SessionMode::Shared,
                    engage_mode: EngageMode::Mention,
                    engage_pattern: None,
                    messaging_group_id: chat.clone(),
                },
            );
            assert(out@.map_values(|t: RouteTarget| t@) =~= seq![
                fallback_target(connector@, chat@),
            ]);
        },
        None => {},
    }
    out
}

/// Where a message of a chat goes.
pub fn resolve_targets(
    channel_type: &str,
    chat: &MessagingGroupId,
    wirings: &Vec<Wiring>,
    connectors: &Vec<Connector>,
) -> (r: Vec<RouteTarget>)
    ensures
        r@.map_values(|t: RouteTarget| t@) == targets_of(
            channel_type@,
            chat@,
            wirings@.map_values(|w: Wiring| w@),
            connectors_view(connectors@),
        ),
{
    if wirings.len() == 0 {
        assert(wirings@.map_values(|w: Wiring| w@) =~= Seq::empty());
        return connector_fallback_targets(channel_type, chat, connectors);
    }
    let mut out: Vec<RouteTarget> = Vec::new();
    let mut i: usize = 0;
    while i < wirings.len()
        invariant
            i <= wirings@.len(),
            out@.len() == i,
            forall|j: int| 0 <= j < i ==> (#[trigger] out@[j])@ == wired_target(wirings@[j]@, chat@),
        decreases wirings@.len() - i,
    {
        let wiring = &wirings[i];
        out.push(
            RouteTarget {
                agent_group_id: wiring.agent_group_id.clone(),
                session_mode: wiring.session_mode,
                engage_mode: wiring.engage_mode,
                engage_pattern: text::clone_opt(&wiring.engage_pattern),
                messaging_group_id: chat.clone(),
            },
        );
        i += 1;
    }
    assert(out@.map_values(|t: RouteTarget| t@) =~= wirings@.map_values(
        |w: Wiring| w@,
    ).map_values(|w: WiringView| wired_target(w, chat@)));
    out
}

/// The text of a chat message; none of any other content.
pub open spec fn chat_text_of(kind: Seq<char>, content: Seq<char>) -> Seq<char> {
    match content::inbound_meaning(kind, content) {
        Ok(InboundView::Chat(chat)) => chat.text,
        _ => Seq::empty(),
    }
}

fn chat_text(kind: MessageKind, content: &str) -> (r: String)
    ensures
        r@ == chat_text_of(kind.text(), content@),
{
    match InboundContent::parse(kind.as_str(), content) {
        Ok(InboundContent::Chat(chat)) => chat.text,
        _ => String::new(),
    }
}

/// Whether a message starts a run of a target: every kind but chat does, every
/// direct message does, and in a group the target's mode decides.
pub open spec fn engages_of(event: InboundEventView, target: RouteTargetView) -> bool {
    ||| event.kind != MessageKind::Chat
    ||| !event.is_group
    ||| engage::engages_in_group(
        target.engage_mode,
        event.is_mention,
        false,
        target.engage_pattern,
        chat_text_of(event.kind.text(), event.content),
    )
}

/// Whether a message starts a run of a target. Sessions carry no mention state.
pub fn engages(event: &InboundEvent, target: &RouteTarget) -> (r: bool)
    ensures
        r == engages_of(event@, target@),
{
    let is_chat = event.kind == MessageKind::Chat;
    let said = if is_chat {
        chat_text(event.kind, &event.content)
    } else {
        String::new()
    };
    let pattern: Option<&str> = match &target.engage_pattern {
        Some(pattern) => Some(pattern.as_str()),
        None => None,
    };
    let decision = evaluate(
        &EngageInput {
            is_chat,
            is_group: event.is_group,
            is_mention: event.is_mention,
            sticky: false,
            mode: target.engage_mode,
            pattern,
            text: said.as_str(),
        },
    );
    decision == Engage::Run
}

/// The thread of the session that a message goes to: the message's own where
/// threads have sessions of their own.
pub open spec fn session_thread_of(mode: SessionMode, thread: Option<Seq<char>>) -> Option<
    Seq<char>,
> {
    match mode {
        SessionMode::Shared => None,
        SessionMode::PerThread => thread,
    }
}

/// Where a message came from.
pub open spec fn event_routing(event: InboundEventView) -> RoutingView {
    RoutingView {
        channel_type: Some(event.channel_type),
        platform_id: Some(event.platform_id),
        thread_id: event.thread_id,
    }
}

/// What to write for a target: the message is always written, and starts a run
/// only if it engages.
pub open spec fn plan_of(event: InboundEventView, target: RouteTargetView) -> InboundPlanView {
    InboundPlanView {
        session_thread: session_thread_of(target.session_mode, event.thread_id),
        message: NewInboundMessageView {
            kind: event.kind,
            content: event.content,
            routing: event_routing(event),
            trigger: engages_of(event, target),
        },
    }
}

/// What to write for a target.
pub fn deliver_to_target(event: &InboundEvent, target: &RouteTarget) -> (r: InboundPlan)
    ensures
        r@ == plan_of(event@, target@),
        r@.message.kind == event@.kind,
        r@.message.content == event@.content,
        r@.message.routing.channel_type == Some(event@.channel_type),
        r@.message.routing.platform_id == Some(event@.platform_id),
        r@.message.routing.thread_id == event@.thread_id,
        target.session_mode == SessionMode::Shared ==> r@.session_thread is None,
        target.session_mode == SessionMode::PerThread ==> r@.session_thread == event@.thread_id,
        !event.is_group ==> r@.message.trigger,
{
    let session_thread = match target.session_mode {
        SessionMode::Shared => None,
        SessionMode::PerThread => text::clone_opt(&event.thread_id),
    };
    let routing = Routing {
        channel_type: Some(event.channel_type.clone()),
        platform_id: Some(event.platform_id.clone()),
        thread_id: text::clone_opt(&event.thread_id),
    };
    let mut message = NewInboundMessage::chat(event.content.clone(), routing);
    message.kind = event.kind;
    message.trigger = engages(event, target);
    InboundPlan { session_thread, message }
}

/// What a route begins with: a drop, or a route with targets to write to.
pub enum RouteStart {
    Drop { reason: &'static str },
    Deliver(Route),
}

/// A route of one message under way: the message, its targets, and the sessions
/// that it was written to so far, one for each of the first targets.
pub struct Route {
    event: InboundEvent,
    targets: Vec<RouteTarget>,
    delivered: Vec<SessionId>,
}

/// The mathematical value of a [`Route`].
#[verifier::ext_equal]
pub struct RouteView {
    pub event: InboundEventView,
    pub targets: Seq<RouteTargetView>,
    pub sessions: Seq<Seq<char>>,
}

impl RouteView {
    /// Whether there is a target that the message was not written to yet.
    pub open spec fn under_way(self) -> bool {
        self.sessions.len() < self.targets.len()
    }

    /// The target that is next.
    pub open spec fn target(self) -> RouteTargetView {
        self.targets[self.sessions.len() as int]
    }

    /// The route once the message was written to a session of the next target.
    pub open spec fn with_session(self, session: Seq<char>) -> RouteView {
        RouteView { sessions: self.sessions.push(session), ..self }
    }
}

/// The mathematical values of some targets.
pub open spec fn targets_view(targets: Seq<RouteTarget>) -> Seq<RouteTargetView> {
    targets.map_values(|t: RouteTarget| t@)
}

/// The texts of some sessions' identifiers.
pub open spec fn sessions_view(ids: Seq<SessionId>) -> Seq<Seq<char>> {
    ids.map_values(|id: SessionId| id@)
}

/// The reason for dropping a message that no agent handles.
pub open spec fn no_wiring() -> Seq<char> {
    "no-wiring"@
}

impl Route {
    pub closed spec fn view(&self) -> RouteView {
        RouteView {
            event: self.event@,
            targets: targets_view(self.targets@),
            sessions: sessions_view(self.delivered@),
        }
    }

    /// Whether the message was written to no more sessions than it has targets.
    pub open spec fn well_formed(&self) -> bool {
        self@.sessions.len() <= self@.targets.len()
    }

    /// Begins the route of a message: one without a target is dropped.
    pub fn begin(event: InboundEvent, targets: Vec<RouteTarget>) -> (r: RouteStart)
        ensures
            match r {
                RouteStart::Drop { reason } => targets@.len() == 0 && reason@ == no_wiring(),
                RouteStart::Deliver(route) => {
                    &&& targets@.len() > 0
                    &&& route.well_formed()
                    &&& route@ == (RouteView {
                        event: event@,
                        targets: targets_view(targets@),
                        sessions: Seq::empty(),
                    })
                },
            },
    {
        if targets.len() == 0 {
            return RouteStart::Drop { reason: "no-wiring" };
        }
        let route = Route { event, targets, delivered: Vec::new() };
        assert(route@.sessions =~= Seq::empty());
        RouteStart::Deliver(route)
    }

    /// The next target and what to write for it, as long as there is one.
    pub fn next(&self) -> (r: Option<(RouteTarget, InboundPlan)>)
        ensures
            match r {
                Some((target, plan)) => {
                    &&& self@.under_way()
                    &&& target@ == self@.target()
                    &&& plan@ == plan_of(self@.event, self@.target())
                },
                None => !self@.under_way(),
            },
    {
        let at: usize = self.delivered.len();
        if at < self.targets.len() {
            let target = &self.targets[at];
            Some((target.clone(), deliver_to_target(&self.event, target)))
        } else {
            None
        }
    }

    /// Notes that the message was written to a session of the next target. If it
    /// engages that target, the session goes into the queue of runs; any other
    /// message accumulates.
    pub fn written(&mut self, queue: &mut RunQueue, session: SessionId)
        requires
            old(self)@.under_way(),
            old(queue).well_formed(),
        ensures
            final(self).well_formed(),
            final(self)@ == old(self)@.with_session(session@),
            final(queue).well_formed(),
            final(queue)@ == (if engages_of(old(self)@.event, old(self)@.target()) {
                queue::arrived(old(queue)@, session@)
            } else {
                old(queue)@
            }),
    {
        if engages(&self.event, &self.targets[self.delivered.len()]) {
            queue.enqueue(session.clone());
        }
        let ghost was = sessions_view(self.delivered@);
        self.delivered.push(session);
        assert(sessions_view(self.delivered@) =~= was.push(session@));
    }

    /// What became of a message that was written for all its targets: one session
    /// for each of them, in their order.
    pub fn finish(self) -> (r: RouteOutcome)
        requires
            self.well_formed(),
            !self@.under_way(),
        ensures
            r matches RouteOutcome::Delivered { sessions } && sessions_view(sessions@)
                == self@.sessions && sessions@.len() == self@.targets.len(),
    {
        RouteOutcome::Delivered { sessions: self.delivered }
    }
}

/// What became of a message that had no target.
pub fn dropped() -> (r: RouteOutcome)
    ensures
        r matches RouteOutcome::Dropped { reason } && reason@ == no_wiring(),
{
    RouteOutcome::Dropped { reason: "no-wiring" }
}

// ---------------------------------------------------------------------------
// Laws

/// A wiring beats the connector: where a chat has one, the connectors do not
/// matter, and every wired agent gets the message.
pub proof fn wirings_beat_the_connector(
    channel_type: Seq<char>,
    chat: Seq<char>,
    wirings: Seq<WiringView>,
    a: Seq<(ConnectorView, ConnectorKind)>,
    b: Seq<(ConnectorView, ConnectorKind)>,
)
    requires
        wirings.len() > 0,
    ensures
        targets_of(channel_type, chat, wirings, a) == targets_of(channel_type, chat, wirings, b),
        targets_of(channel_type, chat, wirings, a).len() == wirings.len(),
        forall|i: int|
            0 <= i < wirings.len() ==> (#[trigger] targets_of(
                channel_type,
                chat,
                wirings,
                a,
            )[i]).agent_group_id == wirings[i].agent_group_id,
{
}

/// A connector that is switched off never gets a message.
pub proof fn disabled_connectors_get_nothing(
    channel_type: Seq<char>,
    chat: Seq<char>,
    connectors: Seq<(ConnectorView, ConnectorKind)>,
)
    requires
        forall|i: int| 0 <= i < connectors.len() ==> !(#[trigger] connectors[i]).0.enabled,
    ensures
        targets_of(channel_type, chat, Seq::empty(), connectors).len() == 0,
{
    lemma_none_enabled(connectors, ConnectorKind::Sms);
}

proof fn lemma_none_enabled(rows: Seq<(ConnectorView, ConnectorKind)>, kind: ConnectorKind)
    requires
        forall|i: int| 0 <= i < rows.len() ==> !(#[trigger] rows[i]).0.enabled,
    ensures
        enabled_by_kind_of(rows, kind) is None,
    decreases rows.len(),
{
    if rows.len() > 0 {
        assert(!rows[0].0.enabled);
        let rest = rows.drop_first();
        assert forall|i: int| 0 <= i < rest.len() implies !(#[trigger] rest[i]).0.enabled by {
            assert(rest[i] == rows[i + 1]);
        }
        lemma_none_enabled(rest, kind);
    }
}

/// A message is written whether or not it starts a run; a direct message always
/// starts one.
pub proof fn direct_messages_always_start_a_run(event: InboundEventView, target: RouteTargetView)
    ensures
        plan_of(event, target).message.content == event.content,
        plan_of(event, target).message.routing == event_routing(event),
        !event.is_group ==> plan_of(event, target).message.trigger,
{
}

/// In a shared chat all threads go to one session; with sessions per thread, two
/// messages share one only if they share the thread.
pub proof fn threads_share_a_session_only_when_shared(
    mode: SessionMode,
    a: Option<Seq<char>>,
    b: Option<Seq<char>>,
)
    ensures
        mode == SessionMode::Shared ==> session_thread_of(mode, a) == session_thread_of(mode, b),
        mode == SessionMode::PerThread ==> (session_thread_of(mode, a) == session_thread_of(mode, b)
            <==> a == b),
{
}

/// The queue after a message was written to some sessions, one for each target in
/// turn: the sessions whose target it engages came, in that order.
pub open spec fn queued_after(
    queue: Seq<Seq<char>>,
    event: InboundEventView,
    targets: Seq<RouteTargetView>,
    sessions: Seq<Seq<char>>,
) -> Seq<Seq<char>>
    decreases sessions.len(),
{
    if sessions.len() == 0 {
        queue
    } else {
        let before = queued_after(queue, event, targets, sessions.drop_last());
        if engages_of(event, targets[sessions.len() - 1]) {
            queue::arrived(before, sessions.last())
        } else {
            before
        }
    }
}

/// A message goes to every target: the outcome has the session of each of them,
/// in their order, and the queue gets those whose target it engages. Only a
/// message without a target is dropped, and then the queue stays as it is.
pub fn messages_reach_every_target(
    event: InboundEvent,
    targets: Vec<RouteTarget>,
    sessions: &Vec<SessionId>,
    queue: &mut RunQueue,
) -> (r: RouteOutcome)
    requires
        sessions@.len() == targets@.len(),
        old(queue).well_formed(),
    ensures
        final(queue).well_formed(),
        final(queue)@ == queued_after(
            old(queue)@,
            event@,
            targets_view(targets@),
            sessions_view(sessions@),
        ),
        match r {
            RouteOutcome::Delivered { sessions: reached } => targets@.len() > 0 && sessions_view(
                reached@,
            ) == sessions_view(sessions@),
            RouteOutcome::Dropped { reason } => targets@.len() == 0 && reason@ == no_wiring(),
        },
{
    let ghost all = sessions_view(sessions@);
    let ghost begun = RouteView {
        event: event@,
        targets: targets_view(targets@),
        sessions: Seq::empty(),
    };
    let ghost waiting = queue@;
    let mut route = match Route::begin(event, targets) {
        RouteStart::Drop { .. } => {
            return dropped();
        },
        RouteStart::Deliver(route) => route,
    };
    let mut i: usize = 0;
    assert(all.take(0) =~= Seq::empty());
    while i < sessions.len()
        invariant
            i <= sessions@.len(),
            all == sessions_view(sessions@),
            begun.targets.len() == sessions@.len(),
            route.well_formed(),
            route@ == (RouteView { sessions: all.take(i as int), ..begun }),
            queue.well_formed(),
            queue@ == queued_after(waiting, begun.event, begun.targets, all.take(i as int)),
        decreases sessions@.len() - i,
    {
        route.written(queue, sessions[i].clone());
        proof {
            let now = all.take(i + 1);
            assert(now =~= all.take(i as int).push(sessions@[i as int]@));
            assert(now.drop_last() =~= all.take(i as int));
        }
        i += 1;
    }
    assert(all.take(i as int) =~= all);
    route.finish()
}

/// The sessions that wait after a message was written are those that waited
/// before, and those of the targets that it engages; no other ones.
pub proof fn only_engaged_sessions_are_queued(
    queue: Seq<Seq<char>>,
    event: InboundEventView,
    targets: Seq<RouteTargetView>,
    sessions: Seq<Seq<char>>,
    session: Seq<char>,
)
    requires
        sessions.len() <= targets.len(),
    ensures
        queued_after(queue, event, targets, sessions).contains(session) <==> {
            ||| queue.contains(session)
            ||| exists|i: int|
                0 <= i < sessions.len() && #[trigger] sessions[i] == session && engages_of(
                    event,
                    targets[i],
                )
        },
    decreases sessions.len(),
{
    if sessions.len() > 0 {
        let init = sessions.drop_last();
        let last = sessions.len() - 1;
        only_engaged_sessions_are_queued(queue, event, targets, init, session);
        let before = queued_after(queue, event, targets, init);
        assert(before.push(sessions.last()).contains(session) <==> before.contains(session)
            || session == sessions.last()) by {
            let after = before.push(sessions.last());
            assert(after[before.len() as int] == sessions.last());
            if before.contains(session) {
                let k = choose|k: int| 0 <= k < before.len() && before[k] == session;
                assert(after[k] == session);
            }
        }
        if exists|i: int|
            0 <= i < init.len() && #[trigger] init[i] == session && engages_of(event, targets[i]) {
            let i = choose|i: int|
                0 <= i < init.len() && #[trigger] init[i] == session && engages_of(
                    event,
                    targets[i],
                );
            assert(sessions[i] == session);
        }
        assert forall|i: int|
            0 <= i < sessions.len() && #[trigger] sessions[i] == session && engages_of(
                event,
                targets[i],
            ) && i != last implies init[i] == session by {}
        assert(sessions[last] == sessions.last());
    }
}

/// A routed message keeps where it came from, part by part, whatever its target: the
/// channel, the conversation and the thread. So a reply goes back there.
pub proof fn messages_keep_where_they_came_from(event: InboundEventView, target: RouteTargetView)
    ensures
        ({
            let message = plan_of(event, target).message;
            &&& message.kind == event.kind
            &&& message.content == event.content
            &&& message.routing.channel_type == Some(event.channel_type)
            &&& message.routing.platform_id == Some(event.platform_id)
            &&& message.routing.thread_id == event.thread_id
        }),
{
}

/// Two events that differ in their thread alone are written to different places.
pub proof fn threads_are_told_apart(
    event: InboundEventView,
    thread: Option<Seq<char>>,
    target: RouteTargetView,
)
    requires
        thread != event.thread_id,
    ensures
        plan_of(event, target).message.routing != plan_of(
            InboundEventView { thread_id: thread, ..event },
            target,
        ).message.routing,
{
}

/// A message that is no chat message, or comes from no group, starts a run of every
/// target; in a group a mention does so where the target waits for one, and where it
/// waits for a pattern, the pattern does.
pub proof fn who_wakes_on_a_message(event: InboundEventView, target: RouteTargetView)
    ensures
        ({
            let wakes = plan_of(event, target).message.trigger;
            &&& event.kind != MessageKind::Chat ==> wakes
            &&& !event.is_group ==> wakes
            &&& event.kind == MessageKind::Chat && event.is_group ==> {
                &&& target.engage_mode == EngageMode::Mention ==> wakes == event.is_mention
                &&& target.engage_mode == EngageMode::MentionSticky ==> wakes == event.is_mention
                &&& target.engage_mode == EngageMode::Pattern ==> wakes == (
                target.engage_pattern matches Some(pattern) && pattern.len() > 0 && text::within(
                    text::lowercase(chat_text_of(event.kind.text(), event.content)),
                    text::lowercase(pattern),
                ))
            }
        }),
{
}

/// A chat that is wired reaches each wired agent in turn, with the modes of its own
/// wiring.
pub proof fn every_wiring_is_a_target(
    channel_type: Seq<char>,
    chat: Seq<char>,
    wirings: Seq<WiringView>,
    connectors: Seq<(ConnectorView, ConnectorKind)>,
    i: int,
)
    requires
        0 <= i < wirings.len(),
    ensures
        ({
            let targets = targets_of(channel_type, chat, wirings, connectors);
            &&& targets.len() == wirings.len()
            &&& targets[i].agent_group_id == wirings[i].agent_group_id
            &&& targets[i].session_mode == wirings[i].session_mode
            &&& targets[i].engage_mode == wirings[i].engage_mode
            &&& targets[i].engage_pattern == wirings[i].engage_pattern
            &&& targets[i].messaging_group_id == chat
        }),
{
}

/// A chat without a wiring reaches the agent of the first connector of its channel
/// that is switched on: one shared session, woken by a mention.
pub proof fn unwired_chats_reach_the_connectors_agent(
    chat: Seq<char>,
    connectors: Seq<(ConnectorView, ConnectorKind)>,
    i: int,
)
    requires
        0 <= i < connectors.len(),
        connectors[i].0.enabled,
        forall|j: int| 0 <= j < i ==> !(#[trigger] connectors[j]).0.enabled,
    ensures
        ({
            let targets = targets_of("sms"@, chat, Seq::empty(), connectors);
            &&& targets.len() == 1
            &&& targets[0].agent_group_id == connectors[i].0.agent_group_id
            &&& targets[0].session_mode == SessionMode::Shared
            &&& targets[0].engage_mode == EngageMode::Mention
            &&& targets[0].engage_pattern is None
            &&& targets[0].messaging_group_id == chat
        }),
{
    lemma_first_enabled(connectors, i);
}

proof fn lemma_first_enabled(rows: Seq<(ConnectorView, ConnectorKind)>, i: int)
    requires
        0 <= i < rows.len(),
        rows[i].0.enabled,
        forall|j: int| 0 <= j < i ==> !(#[trigger] rows[j]).0.enabled,
    ensures
        enabled_by_kind_of(rows, ConnectorKind::Sms) == Some(rows[i].0),
    decreases i,
{
    if i > 0 {
        assert(!rows[0].0.enabled);
        let rest = rows.drop_first();
        assert forall|j: int| 0 <= j < i - 1 implies !(#[trigger] rest[j]).0.enabled by {
            assert(rest[j] == rows[j + 1]);
        }
        assert(rest[i - 1] == rows[i]);
        lemma_first_enabled(rest, i - 1);
    }
}

/// A channel that is no connector's reaches nobody without a wiring.
pub proof fn other_channels_need_a_wiring(
    channel_type: Seq<char>,
    chat: Seq<char>,
    connectors: Seq<(ConnectorView, ConnectorKind)>,
)
    requires
        channel_type != "sms"@,
    ensures
        targets_of(channel_type, chat, Seq::empty(), connectors).len() == 0,
{
}

} // verus!
