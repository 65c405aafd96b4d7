//! The polling of the text message channel, step by step: where it begins, what
//! it hands to the router, which position it stores, and how long it waits.

use vstd::prelude::*;

use crate::router::{InboundEvent, InboundEventView};

use super::protocol;
use super::protocol::{SmsMessage, SmsMessageView};
use super::{Poll, PollError, PollLog};

verus! {

/// Where polling stands.
enum Stage {
    Loading { failures: u32 },
    History { failures: u32 },
    Resting { failures: u32 },
    Keeping { cursor: i64 },
    Waiting { cursor: i64, failures: u32 },
    Fetching { cursor: i64, failures: u32 },
    Routing(Poll),
    Storing(Poll),
    Stopped,
}

/// The polling of a channel.
pub struct Poller {
    interval: u64,
    stage: Stage,
}

/// Where polling stands.
#[verifier::ext_equal]
pub enum PollStage {
    /// The stored position is to be loaded.
    Loading { failures: u32 },
    /// Nothing is stored yet, and what the server holds is to be fetched.
    History { failures: u32 },
    /// The beginning failed and is to be tried again.
    Resting { failures: u32 },
    /// The first position is to be stored.
    Keeping { cursor: int },
    /// The next poll is to be waited for.
    Waiting { cursor: int, failures: u32 },
    /// The messages after the position are to be fetched.
    Fetching { cursor: int, failures: u32 },
    /// The first message of the rest is to be routed.
    Routing { rest: Seq<SmsMessageView>, cursor: int },
    /// The position is to be stored before the rest is looked at.
    Storing { rest: Seq<SmsMessageView>, cursor: int },
    /// Polling is over.
    Stopped,
}

/// What happened to the polling of a channel.
pub enum PollEvent {
    /// The stored position, if there is one, or why it could not be loaded.
    Loaded(Result<Option<i64>, String>),
    /// The messages that came, or why the poll failed.
    Fetched(Result<Vec<SmsMessage>, PollError>),
    /// The wait is over, or was cut short.
    Waited,
    /// Whether the router took the message.
    Routed(bool),
    /// The position was stored, or an attempt was made to.
    Stored,
}

/// The mathematical value of a [`PollEvent`].
pub enum PollEventView {
    Loaded(Option<Option<i64>>),
    Fetched(Option<Seq<SmsMessageView>>),
    Waited,
    Routed(bool),
    Stored,
}

impl PollEvent {
    pub open spec fn view(&self) -> PollEventView {
        match self {
            PollEvent::Loaded(Ok(cursor)) => PollEventView::Loaded(Some(*cursor)),
            PollEvent::Loaded(Err(_)) => PollEventView::Loaded(None),
            PollEvent::Fetched(Ok(messages)) => PollEventView::Fetched(
                Some(protocol::messages_view(messages@)),
            ),
            PollEvent::Fetched(Err(_)) => PollEventView::Fetched(None),
            PollEvent::Waited => PollEventView::Waited,
            PollEvent::Routed(taken) => PollEventView::Routed(*taken),
            PollEvent::Stored => PollEventView::Stored,
        }
    }
}

/// What is to be done next.
pub enum PollAction {
    /// Load the stored position.
    Load,
    /// Fetch the messages after a position.
    Fetch { cursor: i64 },
    /// Wait so many milliseconds.
    Wait { millis: u64 },
    /// Hand a message to the router.
    Route(InboundEvent),
    /// Store a position.
    Store { cursor: i64 },
    /// Nothing.
    Stop,
}

/// The mathematical value of a [`PollAction`].
#[verifier::ext_equal]
pub enum PollActionView {
    Load,
    Fetch { cursor: int },
    Wait { millis: int },
    Route(InboundEventView),
    Store { cursor: int },
    Stop,
}

impl PollAction {
    pub open spec fn view(&self) -> PollActionView {
        match self {
            PollAction::Load => PollActionView::Load,
            PollAction::Fetch { cursor } => PollActionView::Fetch { cursor: *cursor as int },
            PollAction::Wait { millis } => PollActionView::Wait { millis: *millis as int },
            PollAction::Route(event) => PollActionView::Route(event@),
            PollAction::Store { cursor } => PollActionView::Store { cursor: *cursor as int },
            PollAction::Stop => PollActionView::Stop,
        }
    }
}

/// What is to be done where polling stands.
pub open spec fn action_at(interval: int, stage: PollStage) -> PollActionView {
    match stage {
        PollStage::Loading { .. } => PollActionView::Load,
        PollStage::History { .. } => PollActionView::Fetch { cursor: 0 },
        PollStage::Resting { failures } => PollActionView::Wait {
            millis: super::delay(interval, failures as nat),
        },
        PollStage::Keeping { cursor } => PollActionView::Store { cursor },
        PollStage::Waiting { failures, .. } => PollActionView::Wait {
            millis: super::delay(interval, failures as nat),
        },
        PollStage::Fetching { cursor, .. } => PollActionView::Fetch { cursor },
        PollStage::Routing { rest, .. } => PollActionView::Route(
            protocol::event_of(rest[0])->0,
        ),
        PollStage::Storing { cursor, .. } => PollActionView::Store { cursor },
        PollStage::Stopped => PollActionView::Stop,
    }
}

/// Where polling goes on with some messages: to the next one that is to be
/// routed, or to a position that is to be stored on the way there, or to the next
/// poll where none is left.
pub open spec fn onward(rest: Seq<SmsMessageView>, cursor: int) -> PollStage
    decreases rest.len(),
{
    if rest.len() == 0 {
        PollStage::Waiting { cursor, failures: 0 }
    } else if protocol::event_of(rest[0]) is Some {
        PollStage::Routing { rest, cursor }
    } else if protocol::advanced(cursor, seq![rest[0]]) != cursor {
        PollStage::Storing {
            rest: rest.drop_first(),
            cursor: protocol::advanced(cursor, seq![rest[0]]),
        }
    } else {
        onward(rest.drop_first(), cursor)
    }
}

/// Where polling goes on past its first message.
pub open spec fn past(rest: Seq<SmsMessageView>, cursor: int) -> PollStage {
    let next = protocol::advanced(cursor, seq![rest[0]]);
    if next != cursor {
        PollStage::Storing { rest: rest.drop_first(), cursor: next }
    } else {
        onward(rest.drop_first(), cursor)
    }
}

/// Where polling stands after an event. An event that does not belong to where
/// polling stands changes nothing.
pub open spec fn stage_after(stage: PollStage, event: PollEventView) -> PollStage {
    match (stage, event) {
        (PollStage::Loading { failures }, PollEventView::Loaded(loaded)) => match loaded {
            Some(Some(cursor)) => PollStage::Waiting { cursor: cursor as int, failures: 0 },
            Some(None) => PollStage::History { failures },
            None => PollStage::Resting { failures: super::one_more(failures) },
        },
        (PollStage::History { failures }, PollEventView::Fetched(fetched)) => match fetched {
            Some(messages) => PollStage::Keeping { cursor: protocol::advanced(0, messages) },
            None => PollStage::Resting { failures: super::one_more(failures) },
        },
        (PollStage::Resting { failures }, PollEventView::Waited) => PollStage::Loading { failures },
        (PollStage::Keeping { cursor }, PollEventView::Stored) => PollStage::Waiting {
            cursor,
            failures: 0,
        },
        (PollStage::Waiting { cursor, failures }, PollEventView::Waited) => PollStage::Fetching {
            cursor,
            failures,
        },
        (PollStage::Fetching { cursor, failures }, PollEventView::Fetched(fetched)) =>
        match fetched {
            Some(messages) => onward(messages, cursor),
            None => PollStage::Waiting { cursor, failures: super::one_more(failures) },
        },
        (PollStage::Routing { rest, cursor }, PollEventView::Routed(taken)) => if taken {
            past(rest, cursor)
        } else {
            PollStage::Stopped
        },
        (PollStage::Storing { rest, cursor }, PollEventView::Stored) => onward(rest, cursor),
        _ => stage,
    }
}

/// Whether a stage is one that polling comes to: only a message that can be
/// routed is to be routed.
pub open spec fn proper(stage: PollStage) -> bool {
    match stage {
        PollStage::Routing { rest, .. } => rest.len() > 0 && protocol::event_of(rest[0]) is Some,
        _ => true,
    }
}

impl Poller {
    /// Where polling stands.
    pub closed spec fn view(&self) -> PollStage {
        match self.stage {
            Stage::Loading { failures } => PollStage::Loading { failures },
            Stage::History { failures } => PollStage::History { failures },
            Stage::Resting { failures } => PollStage::Resting { failures },
            Stage::Keeping { cursor } => PollStage::Keeping { cursor: cursor as int },
            Stage::Waiting { cursor, failures } => PollStage::Waiting {
                cursor: cursor as int,
                failures,
            },
            Stage::Fetching { cursor, failures } => PollStage::Fetching {
                cursor: cursor as int,
                failures,
            },
            Stage::Routing(poll) => PollStage::Routing {
                rest: poll.rest(),
                cursor: poll.position(),
            },
            Stage::Storing(poll) => PollStage::Storing {
                rest: poll.rest(),
                cursor: poll.position(),
            },
            Stage::Stopped => PollStage::Stopped,
        }
    }

    /// The milliseconds between two polls.
    pub closed spec fn interval(&self) -> int {
        self.interval as int
    }

    /// Whether polling stands where it can come to.
    pub closed spec fn well_formed(&self) -> bool {
        &&& proper(self@)
        &&& match self.stage {
            Stage::Routing(poll) => poll.well_formed(),
            Stage::Storing(poll) => poll.well_formed(),
            _ => true,
        }
    }

    /// Polling begins with the stored position.
    pub fn new(interval: u64) -> (r: Self)
        ensures
            r.well_formed(),
            r.interval() == interval,
            r@ == (PollStage::Loading { failures: 0 }),
    {
        Poller { interval, stage: Stage::Loading { failures: 0 } }
    }

    /// What is to be done next.
    pub fn action(&self) -> (r: PollAction)
        requires
            self.well_formed(),
        ensures
            r@ == action_at(self.interval(), self@),
    {
        match &self.stage {
            Stage::Loading { .. } => PollAction::Load,
            Stage::History { .. } => PollAction::Fetch { cursor: 0 },
            Stage::Resting { failures } => PollAction::Wait {
                millis: super::backoff_delay(self.interval, *failures),
            },
            Stage::Keeping { cursor } => PollAction::Store { cursor: *cursor },
            Stage::Waiting { failures, .. } => PollAction::Wait {
                millis: super::backoff_delay(self.interval, *failures),
            },
            Stage::Fetching { cursor, .. } => PollAction::Fetch { cursor: *cursor },
            Stage::Routing(poll) => match poll.event() {
                Some(event) => PollAction::Route(event),
                None => PollAction::Stop,
            },
            Stage::Storing(poll) => PollAction::Store { cursor: poll.cursor() },
            Stage::Stopped => PollAction::Stop,
        }
    }

    /// What a failed poll is worth in the log; nothing for any other event.
    pub fn log(&self, event: &PollEvent) -> (r: PollLog)
        ensures
            r == (match (self@, *event) {
                (PollStage::History { failures }, PollEvent::Fetched(Err(e))) => super::logged(
                    e,
                    failures,
                ),
                (PollStage::Fetching { failures, .. }, PollEvent::Fetched(Err(e))) => super::logged(
                    e,
                    failures,
                ),
                (PollStage::Loading { .. }, PollEvent::Loaded(Err(_))) => PollLog::Failed,
                _ => PollLog::Quiet,
            }),
    {
        match (&self.stage, event) {
            (Stage::History { failures }, PollEvent::Fetched(Err(e))) => {
                let mut counted: u32 = *failures;
                super::log_poll_error(e, &mut counted)
            },
            (Stage::Fetching { failures, .. }, PollEvent::Fetched(Err(e))) => {
                let mut counted: u32 = *failures;
                super::log_poll_error(e, &mut counted)
            },
            (Stage::Loading { .. }, PollEvent::Loaded(Err(_))) => PollLog::Failed,
            _ => PollLog::Quiet,
        }
    }

    /// Goes on after an event.
    pub fn advance(self, event: PollEvent) -> (r: Self)
        requires
            self.well_formed(),
        ensures
            r.well_formed(),
            r.interval() == self.interval(),
            r@ == stage_after(self@, event@),
    {
        let stage = match (self.stage, event) {
            (Stage::Loading { failures }, PollEvent::Loaded(loaded)) => match loaded {
                Ok(Some(cursor)) => Stage::Waiting { cursor, failures: 0 },
                Ok(None) => Stage::History { failures },
                Err(_) => Stage::Resting { failures: one_more(failures) },
            },
            (Stage::History { failures }, PollEvent::Fetched(fetched)) => match fetched {
                Ok(messages) => Stage::Keeping { cursor: protocol::advance_cursor(0, &messages) },
                Err(_) => Stage::Resting { failures: one_more(failures) },
            },
            (Stage::Resting { failures }, PollEvent::Waited) => Stage::Loading { failures },
            (Stage::Keeping { cursor }, PollEvent::Stored) => Stage::Waiting {
                cursor,
                failures: 0,
            },
            (Stage::Waiting { cursor, failures }, PollEvent::Waited) => Stage::Fetching {
                cursor,
                failures,
            },
            (Stage::Fetching { cursor, failures }, PollEvent::Fetched(fetched)) => match fetched {
                Ok(messages) => go_on(Poll::new(cursor, messages)),
                Err(_) => Stage::Waiting { cursor, failures: one_more(failures) },
            },
            (Stage::Routing(poll), PollEvent::Routed(taken)) => if taken {
                go_past(poll)
            } else {
                Stage::Stopped
            },
            (Stage::Storing(poll), PollEvent::Stored) => go_on(poll),
            (stage, _) => stage,
        };
        Poller { interval: self.interval, stage }
    }
}

fn one_more(failures: u32) -> (r: u32)
    ensures
        r == super::one_more(failures),
{
    if failures < u32::MAX {
        failures + 1
    } else {
        failures
    }
}

/// Where some stage stands, whatever the interval.
spec fn standing(stage: Stage) -> PollStage {
    Poller { interval: 0, stage }@
}

/// Whether some stage is one that polling comes to.
spec fn sound(stage: Stage) -> bool {
    Poller { interval: 0, stage }.well_formed()
}

fn go_on(start: Poll) -> (r: Stage)
    requires
        start.well_formed(),
    ensures
        sound(r),
        standing(r) == onward(start.rest(), start.position()),
{
    let mut poll = start;
    while !poll.is_done()
        invariant
            poll.well_formed(),
            onward(start.rest(), start.position()) == onward(poll.rest(), poll.position()),
        decreases poll.rest().len(),
    {
        match poll.event() {
            Some(_) => {
                return Stage::Routing(poll);
            },
            None => {},
        }
        let ghost was = poll.rest();
        let ghost at = poll.position();
        match poll.advance() {
            Some(_) => {
                assert(onward(was, at) == (PollStage::Storing {
                    rest: poll.rest(),
                    cursor: poll.position(),
                }));
                return Stage::Storing(poll);
            },
            None => {
                assert(onward(was, at) == onward(poll.rest(), poll.position()));
            },
        }
    }
    Stage::Waiting { cursor: poll.cursor(), failures: 0 }
}

fn go_past(poll: Poll) -> (r: Stage)
    requires
        poll.well_formed(),
        poll.rest().len() > 0,
    ensures
        sound(r),
        standing(r) == past(poll.rest(), poll.position()),
{
    let mut poll = poll;
    match poll.advance() {
        Some(_) => Stage::Storing(poll),
        None => go_on(poll),
    }
}

// ---------------------------------------------------------------------------
// Laws

/// The position that polling has come to, where it has one.
pub open spec fn position(stage: PollStage) -> Option<int> {
    match stage {
        PollStage::Keeping { cursor } => Some(cursor),
        PollStage::Waiting { cursor, .. } => Some(cursor),
        PollStage::Fetching { cursor, .. } => Some(cursor),
        PollStage::Routing { cursor, .. } => Some(cursor),
        PollStage::Storing { cursor, .. } => Some(cursor),
        _ => None,
    }
}

proof fn lemma_one_step(cursor: int, message: SmsMessageView)
    ensures
        protocol::advanced(cursor, seq![message]) >= cursor,
        message.seq is None ==> protocol::advanced(cursor, seq![message]) == cursor,
{
    reveal_with_fuel(protocol::advanced, 2);
    assert(seq![message].drop_last() =~= Seq::empty());
    assert(seq![message].last() == message);
}

proof fn lemma_onward_position(rest: Seq<SmsMessageView>, cursor: int)
    ensures
        position(onward(rest, cursor)) matches Some(next) && next >= cursor,
    decreases rest.len(),
{
    if rest.len() > 0 {
        lemma_one_step(cursor, rest[0]);
        if protocol::event_of(rest[0]) is None && protocol::advanced(cursor, seq![rest[0]])
            == cursor {
            lemma_onward_position(rest.drop_first(), cursor);
        }
    }
}

/// Polling never goes back behind a position.
pub proof fn polling_never_goes_back(stage: PollStage, event: PollEventView)
    requires
        position(stage) is Some,
    ensures
        position(stage_after(stage, event)) matches Some(next) ==> next >= position(stage)->0,
{
    match (stage, event) {
        (PollStage::Fetching { cursor, .. }, PollEventView::Fetched(Some(messages))) => {
            lemma_onward_position(messages, cursor);
        },
        (PollStage::Routing { rest, cursor }, PollEventView::Routed(true)) => {
            lemma_one_step(cursor, rest[0]);
            lemma_onward_position(rest.drop_first(), cursor);
        },
        (PollStage::Storing { rest, cursor }, PollEventView::Stored) => {
            lemma_onward_position(rest, cursor);
        },
        _ => {},
    }
}

/// A message that can be routed is passed only once the router has taken it: a
/// crash before that finds it again.
pub proof fn messages_are_passed_only_once_taken(
    rest: Seq<SmsMessageView>,
    cursor: int,
    event: PollEventView,
)
    requires
        !(event matches PollEventView::Routed(true)),
    ensures
        ({
            let next = stage_after(PollStage::Routing { rest, cursor }, event);
            next == (PollStage::Routing { rest, cursor }) || next is Stopped
        }),
{
}

/// What the server held before the first poll is never routed: the first
/// position lies past all of it.
pub proof fn history_is_not_routed(failures: u32, messages: Seq<SmsMessageView>, i: int)
    requires
        0 <= i < messages.len(),
    ensures
        ({
            let kept = stage_after(
                PollStage::History { failures },
                PollEventView::Fetched(Some(messages)),
            );
            &&& kept is Keeping
            &&& stage_after(kept, PollEventView::Stored) is Waiting
            &&& messages[i].seq matches Some(seq) ==> seq <= position(kept)->0
        }),
{
    protocol::cursor_is_past_every_message(0, messages);
}

/// A poll that succeeds ends the waiting that failures had made longer: once
/// its messages are worked off, the next poll is waited for as if none had failed.
pub proof fn success_resets_the_waiting(stage: PollStage, event: PollEventView)
    requires
        stage is Routing || stage is Storing || (stage is Fetching && (
        event matches PollEventView::Fetched(Some(_)))),
    ensures
        stage_after(stage, event) matches PollStage::Waiting { failures, .. } ==> failures == 0,
{
    match (stage, event) {
        (PollStage::Fetching { cursor, .. }, PollEventView::Fetched(Some(messages))) => {
            lemma_onward_waits_afresh(messages, cursor);
        },
        (PollStage::Routing { rest, cursor }, PollEventView::Routed(true)) => {
            lemma_onward_waits_afresh(rest.drop_first(), cursor);
        },
        (PollStage::Storing { rest, cursor }, PollEventView::Stored) => {
            lemma_onward_waits_afresh(rest, cursor);
        },
        _ => {},
    }
}

proof fn lemma_onward_waits_afresh(rest: Seq<SmsMessageView>, cursor: int)
    ensures
        onward(rest, cursor) matches PollStage::Waiting { failures, .. } ==> failures == 0,
    decreases rest.len(),
{
    if rest.len() > 0 && protocol::event_of(rest[0]) is None && protocol::advanced(
        cursor,
        seq![rest[0]],
    ) == cursor {
        lemma_onward_waits_afresh(rest.drop_first(), cursor);
    }
}

/// A poll that fails makes the next one wait as long or longer.
pub proof fn failures_make_waiting_longer(interval: int, cursor: int, failures: u32)
    requires
        0 <= interval <= super::MAX_BACKOFF,
    ensures
        ({
            let before = PollStage::Waiting { cursor, failures };
            let after = stage_after(
                PollStage::Fetching { cursor, failures },
                PollEventView::Fetched(None),
            );
            &&& action_at(interval, before) matches PollActionView::Wait { millis: short }
            &&& action_at(interval, after) matches PollActionView::Wait { millis: long }
            &&& short <= long
        }),
{
    super::waits_never_shrink(interval, failures as nat);
}

/// The events of some messages, in their order: those that can be routed.
pub open spec fn events_of(messages: Seq<SmsMessageView>) -> Seq<InboundEventView>
    decreases messages.len(),
{
    if messages.len() == 0 {
        Seq::empty()
    } else {
        let rest = events_of(messages.drop_first());
        match protocol::event_of(messages[0]) {
            Some(event) => seq![event] + rest,
            None => rest,
        }
    }
}

/// The events that polling has fetched and not routed yet.
pub open spec fn pending(stage: PollStage) -> Seq<InboundEventView> {
    match stage {
        PollStage::Routing { rest, .. } => events_of(rest),
        PollStage::Storing { rest, .. } => events_of(rest),
        _ => Seq::empty(),
    }
}

proof fn lemma_onward_keeps_events(rest: Seq<SmsMessageView>, cursor: int)
    ensures
        pending(onward(rest, cursor)) == events_of(rest),
        onward(rest, cursor) is Routing || onward(rest, cursor) is Storing || onward(
            rest,
            cursor,
        ) is Waiting,
        onward(rest, cursor) matches PollStage::Routing { rest: left, .. } ==> left.len() > 0
            && protocol::event_of(left[0]) is Some,
    decreases rest.len(),
{
    if rest.len() > 0 {
        lemma_onward_keeps_events(rest.drop_first(), cursor);
    }
}

/// Everything that is fetched and can be routed is routed, once and in its order: a
/// fetch makes its events pending, the first pending event is the one that is routed
/// next, it goes once it is taken, and nothing else takes one away.
pub proof fn every_message_is_routed_in_order(
    interval: int,
    cursor: int,
    failures: u32,
    messages: Seq<SmsMessageView>,
)
    ensures
        pending(
            stage_after(
                PollStage::Fetching { cursor, failures },
                PollEventView::Fetched(Some(messages)),
            ),
        ) == events_of(messages),
        pending(
            stage_after(PollStage::Storing { rest: messages, cursor }, PollEventView::Stored),
        ) == events_of(messages),
        messages.len() > 0 && protocol::event_of(messages[0]) is Some ==> {
            &&& action_at(interval, PollStage::Routing { rest: messages, cursor })
                == PollActionView::Route(events_of(messages)[0])
            &&& pending(
                stage_after(
                    PollStage::Routing { rest: messages, cursor },
                    PollEventView::Routed(true),
                ),
            ) == events_of(messages).drop_first()
        },
{
    lemma_onward_keeps_events(messages, cursor);
    if messages.len() > 0 && protocol::event_of(messages[0]) is Some {
        lemma_onward_keeps_events(messages.drop_first(), cursor);
        let rest = events_of(messages.drop_first());
        assert(events_of(messages).drop_first() =~= rest);
    }
}

/// As long as events are pending, polling does not wait: it routes or it stores.
pub proof fn pending_events_come_first(stage: PollStage, event: PollEventView)
    requires
        pending(stage_after(stage, event)).len() > 0,
    ensures
        stage_after(stage, event) is Routing || stage_after(stage, event) is Storing,
{
}

/// Polling asks for what comes after the position that it holds, and stores each
/// position that it reaches before it goes on.
pub proof fn polling_goes_on_from_its_position(interval: int, cursor: int, failures: u32)
    ensures
        action_at(interval, PollStage::Fetching { cursor, failures }) == (PollActionView::Fetch {
            cursor,
        }),
        stage_after(PollStage::Waiting { cursor, failures }, PollEventView::Waited) == (
        PollStage::Fetching { cursor, failures }),
        action_at(interval, PollStage::Keeping { cursor }) == (PollActionView::Store { cursor }),
        stage_after(PollStage::Keeping { cursor }, PollEventView::Stored) == (PollStage::Waiting {
            cursor,
            failures: 0,
        }),
        action_at(interval, PollStage::Loading { failures }) == PollActionView::Load,
        action_at(interval, PollStage::History { failures }) == (PollActionView::Fetch {
            cursor: 0,
        }),
        action_at(interval, PollStage::Waiting { cursor, failures: 0 }) == (PollActionView::Wait {
            millis: interval,
        }),
{
}

/// A position that was stored is taken up again; without one the history is read
/// first; where it cannot be loaded, polling waits and tries again.
pub proof fn stored_positions_are_taken_up(failures: u32, cursor: i64)
    ensures
        stage_after(
            PollStage::Loading { failures },
            PollEventView::Loaded(Some(Some(cursor))),
        ) == (PollStage::Waiting { cursor: cursor as int, failures: 0 }),
        stage_after(PollStage::Loading { failures }, PollEventView::Loaded(Some(None))) == (
        PollStage::History { failures }),
        ({
            let resting = stage_after(PollStage::Loading { failures }, PollEventView::Loaded(None));
            &&& resting is Resting
            &&& stage_after(resting, PollEventView::Waited) is Loading
        }),
{
}

/// A message that was taken is behind the position that is stored next.
pub proof fn taken_messages_are_passed(rest: Seq<SmsMessageView>, cursor: int, seq: i64)
    requires
        rest.len() > 0,
        rest[0].seq == Some(seq),
        seq > cursor,
    ensures
        stage_after(PollStage::Routing { rest, cursor }, PollEventView::Routed(true)) == (
        PollStage::Storing { rest: rest.drop_first(), cursor: seq as int }),
{
    assert(seq![rest[0]].drop_last() =~= Seq::empty());
    assert(protocol::advanced(cursor, Seq::empty()) == cursor);
    assert(protocol::advanced(cursor, seq![rest[0]]) == seq);
}

} // verus!
