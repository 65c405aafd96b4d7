//! What becomes of the messages of a run: which batch is run, on which prompt,
//! and how it ends.

use vstd::prelude::*;

use crate::json;
use crate::protocol::content;
use crate::protocol::content::{InboundContent, InboundView, OutboundContent, Routing};
use crate::protocol::ids::{MessageInId, SessionId};
use crate::protocol::message::MessageStatus;
use crate::providers::{ProviderError, ProviderErrorView, ProviderEvent, ProviderEventView};
use crate::session::{InboundMessage, NewOutboundMessage, NewOutboundMessageView};
use crate::text;

verus! {

broadcast use vstd::string::group_string_axioms;

/// How many messages one run takes at most.
pub const BATCH_LIMIT: i64 = 10;

/// Why a run did not take place.
#[derive(Debug, PartialEq, Eq)]
pub enum RunError {
    UnknownSession(SessionId),
    Provider(ProviderError),
}

/// The mathematical value of a [`RunError`].
#[verifier::ext_equal]
pub enum RunErrorView {
    UnknownSession(Seq<char>),
    Provider(ProviderErrorView),
}

impl RunErrorView {
    /// The error as one line of text.
    pub open spec fn text(self) -> Seq<char> {
        match self {
            RunErrorView::UnknownSession(id) => "session "@ + id + " not found or inactive"@,
            RunErrorView::Provider(error) => error.text(),
        }
    }
}

impl RunError {
    pub open spec fn view(&self) -> RunErrorView {
        match self {
            RunError::UnknownSession(id) => RunErrorView::UnknownSession(id@),
            RunError::Provider(error) => RunErrorView::Provider(error@),
        }
    }

    /// The error as one line of text.
    pub fn message(&self) -> (r: String)
        ensures
            r@ == self@.text(),
    {
        match self {
            RunError::UnknownSession(id) => text::concat3(
                "session ",
                id.as_str(),
                " not found or inactive",
            ),
            RunError::Provider(error) => error.message(),
        }
    }
}

/// Whether a batch is to be run: some message of it triggers a run. Messages
/// that only accumulate wait for one that does.
pub open spec fn triggers(batch: Seq<InboundMessage>) -> bool {
    exists|i: int| 0 <= i < batch.len() && (#[trigger] batch[i]).trigger
}

/// The identifiers of a batch.
pub open spec fn batch_ids(batch: Seq<InboundMessage>) -> Seq<Seq<char>> {
    batch.map_values(|m: InboundMessage| m.id@)
}

/// What a message adds to the prompt: the text of a chat message, and the
/// content of any other as it is.
pub open spec fn prompt_line_of(kind: Seq<char>, content: Seq<char>) -> Seq<char> {
    match content::inbound_meaning(kind, content) {
        Ok(InboundView::Chat(chat)) => chat.text,
        _ => content,
    }
}

/// The lines that a batch adds to the prompt.
pub open spec fn prompt_lines(batch: Seq<InboundMessage>) -> Seq<Seq<char>> {
    batch.map_values(|m: InboundMessage| prompt_line_of(m.kind@, m.content@))
}

/// The prompt of a batch: a line for each message.
pub fn draft_prompt(batch: &Vec<InboundMessage>) -> (r: String)
    ensures
        r@ == text::joined(prompt_lines(batch@), "\n"@),
{
    let mut lines: Vec<String> = Vec::new();
    let mut i: usize = 0;
    while i < batch.len()
        invariant
            i <= batch@.len(),
            lines@.len() == i,
            forall|j: int|
                0 <= j < i ==> (#[trigger] lines@[j])@ == prompt_line_of(
                    batch@[j].kind@,
                    batch@[j].content@,
                ),
        decreases batch@.len() - i,
    {
        let message = &batch[i];
        let line = match InboundContent::parse(&message.kind, &message.content) {
            Ok(InboundContent::Chat(chat)) => chat.text,
            _ => message.content.clone(),
        };
        lines.push(line);
        i += 1;
    }
    assert(text::views(lines@) =~= prompt_lines(batch@));
    text::join(&lines, "\n")
}

/// A batch that is being run. All of its messages are marked as processing.
pub struct RunningBatch {
    ids: Vec<MessageInId>,
    prompt: String,
}

/// The identifiers' texts.
pub open spec fn ids_view(ids: Seq<MessageInId>) -> Seq<Seq<char>> {
    ids.map_values(|id: MessageInId| id@)
}

impl RunningBatch {
    /// The messages of the batch.
    pub closed spec fn ids_text(&self) -> Seq<Seq<char>> {
        ids_view(self.ids@)
    }

    /// The prompt of the run.
    pub closed spec fn prompt_text(&self) -> Seq<char> {
        self.prompt@
    }

    /// The batch to run, or none where nothing is to be run.
    pub fn start(batch: &Vec<InboundMessage>) -> (r: Option<RunningBatch>)
        ensures
            r is Some <==> triggers(batch@),
            r matches Some(run) ==> {
                &&& run.ids_text() == batch_ids(batch@)
                &&& run.ids_text().len() > 0
                &&& run.prompt_text() == text::joined(prompt_lines(batch@), "\n"@)
            },
    {
        let mut ids: Vec<MessageInId> = Vec::new();
        let mut triggered = false;
        let mut i: usize = 0;
        while i < batch.len()
            invariant
                i <= batch@.len(),
                ids@.len() == i,
                forall|j: int| 0 <= j < i ==> (#[trigger] ids@[j])@ == batch@[j].id@,
                triggered == exists|j: int| 0 <= j < i && (#[trigger] batch@[j]).trigger,
            decreases batch@.len() - i,
        {
            ids.push(batch[i].id.clone());
            if batch[i].trigger {
                triggered = true;
            }
            i += 1;
        }
        if !triggered {
            return None;
        }
        assert(ids_view(ids@) =~= batch_ids(batch@));
        Some(RunningBatch { ids, prompt: draft_prompt(batch) })
    }

    /// The messages of the batch.
    pub fn ids(&self) -> (r: &Vec<MessageInId>)
        ensures
            ids_view(r@) == self.ids_text(),
    {
        &self.ids
    }

    /// The prompt of the run.
    pub fn prompt(&self) -> (r: &str)
        ensures
            r@ == self.prompt_text(),
    {
        self.prompt.as_str()
    }

    /// How the batch ends: what its messages are marked as, and the reply. A
    /// turn that ended completes them and is answered by its text, unless that
    /// is blank; a turn that failed fails them.
    pub fn settle(&self, outcome: &Result<Option<String>, String>) -> (r: Settlement)
        requires
            self.ids_text().len() > 0,
        ensures
            r@ == settlement_of(self.ids_text(), outcome_view(*outcome)),
    {
        match outcome {
            Err(_) => Settlement { status: MessageStatus::Failed, reply: None },
            Ok(reply) => {
                let message = match reply {
                    None => None,
                    Some(said) => {
                        if text::is_blank(said) {
                            None
                        } else {
                            let content = OutboundContent::from_text(said);
                            Some(
                                NewOutboundMessage {
                                    kind: "chat".to_owned(),
                                    content: content.to_text(),
                                    routing: Routing::default(),
                                    in_reply_to: Some(self.ids[0].clone()),
                                },
                            )
                        }
                    },
                };
                Settlement { status: MessageStatus::Completed, reply: message }
            },
        }
    }
}

/// How a batch ended.
pub struct Settlement {
    pub status: MessageStatus,
    pub reply: Option<NewOutboundMessage>,
}

/// The mathematical value of a [`Settlement`].
#[verifier::ext_equal]
pub struct SettlementView {
    pub status: MessageStatus,
    pub reply: Option<NewOutboundMessageView>,
}

impl Settlement {
    pub open spec fn view(&self) -> SettlementView {
        SettlementView {
            status: self.status,
            reply: match self.reply {
                Some(reply) => Some(reply@),
                None => None,
            },
        }
    }
}

/// How a turn came out: its text, or why it failed.
pub open spec fn outcome_view(outcome: Result<Option<String>, String>) -> Result<
    Option<Seq<char>>,
    Seq<char>,
> {
    match outcome {
        Ok(reply) => Ok(text::opt_view(reply)),
        Err(message) => Err(message@),
    }
}

/// The reply that a text is sent as: it answers the first message of the batch
/// and inherits the session's routing.
pub open spec fn reply_of(said: Seq<char>, first: Seq<char>) -> NewOutboundMessageView {
    NewOutboundMessageView {
        kind: "chat"@,
        content: json::encoded(content::outbound_value(content::text_content(said))),
        routing: content::open_routing(),
        in_reply_to: Some(first),
    }
}

/// How a batch ends.
pub open spec fn settlement_of(
    ids: Seq<Seq<char>>,
    outcome: Result<Option<Seq<char>>, Seq<char>>,
) -> SettlementView {
    match outcome {
        Err(_) => SettlementView { status: MessageStatus::Failed, reply: None },
        Ok(None) => SettlementView { status: MessageStatus::Completed, reply: None },
        Ok(Some(said)) => SettlementView {
            status: MessageStatus::Completed,
            reply: if text::blank(said) {
                None
            } else {
                Some(reply_of(said, ids[0]))
            },
        },
    }
}

/// What an event of a run decides: the end of a turn and an error end it, and
/// nothing else does.
pub open spec fn decides(event: ProviderEventView) -> Option<
    Result<Option<Seq<char>>, Seq<char>>,
> {
    match event {
        ProviderEventView::TurnEnd { text } => Some(Ok(text)),
        ProviderEventView::Error { message, .. } => Some(Err(message)),
        _ => None,
    }
}

/// What an event of a run decides.
pub fn turn_result(event: &ProviderEvent) -> (r: Option<Result<Option<String>, String>>)
    ensures
        match r {
            Some(outcome) => decides(event@) == Some(outcome_view(outcome)),
            None => decides(event@) is None,
        },
{
    match event {
        ProviderEvent::TurnEnd { text } => Some(Ok(text::clone_opt(text))),
        ProviderEvent::Error { message, .. } => Some(Err(message.clone())),
        ProviderEvent::Activity => None,
        ProviderEvent::Progress { .. } => None,
    }
}

/// How a run comes out, given the events up to the end of its stream: the first
/// event that decides, or a failure where none does.
pub open spec fn run_outcome(events: Seq<ProviderEventView>) -> Result<
    Option<Seq<char>>,
    Seq<char>,
>
    decreases events.len(),
{
    if events.len() == 0 {
        Err("agent run ended without a result"@)
    } else {
        match decides(events[0]) {
            Some(outcome) => outcome,
            None => run_outcome(events.drop_first()),
        }
    }
}

/// How a run comes out, given the events up to the end of its stream.
pub fn consume_run(events: &Vec<ProviderEvent>) -> (r: Result<Option<String>, String>)
    ensures
        outcome_view(r) == run_outcome(events@.map_values(|e: ProviderEvent| e@)),
{
    let ghost all = events@.map_values(|e: ProviderEvent| e@);
    let mut i: usize = 0;
    assert(all.skip(0) =~= all);
    while i < events.len()
        invariant
            i <= events@.len(),
            all == events@.map_values(|e: ProviderEvent| e@),
            run_outcome(all) == run_outcome(all.skip(i as int)),
        decreases events@.len() - i,
    {
        proof {
            assert(all.skip(i as int)[0] == events@[i as int]@);
            assert(all.skip(i as int).drop_first() =~= all.skip(i + 1));
        }
        match turn_result(&events[i]) {
            Some(outcome) => {
                return outcome;
            },
            None => {},
        }
        i += 1;
    }
    Err("agent run ended without a result".to_owned())
}

// ---------------------------------------------------------------------------
// A session's run, step by step

/// Where the run of a session stands.
enum Stage {
    Fetching,
    Marking(RunningBatch),
    Running(RunningBatch),
    Settling(RunningBatch, Settlement),
    Releasing(RunningBatch, RunError),
    Touching,
    Done,
    Failed(RunError),
}

/// The run of a session: due batches are worked off one after the other until
/// none is to be run.
pub struct SessionRun {
    stage: Stage,
}

/// Where the run of a session stands.
#[verifier::ext_equal]
pub enum StageView {
    /// The due messages are to be fetched.
    Fetching,
    /// A batch is to be marked as processing.
    Marking { ids: Seq<Seq<char>>, prompt: Seq<char> },
    /// A batch is being run.
    Running { ids: Seq<Seq<char>>, prompt: Seq<char> },
    /// A batch has been run, and its end is to be written.
    Settling { ids: Seq<Seq<char>>, end: SettlementView },
    /// The run of a batch could not start, and the batch is to be given back.
    Releasing { ids: Seq<Seq<char>>, error: RunErrorView },
    /// No batch is left, and the session is to be marked as active.
    Touching,
    /// Nothing is left to do.
    Done,
    /// The run has failed.
    Failed { error: RunErrorView },
}

/// What happened to the run of a session.
pub enum RunEvent {
    /// The due messages, at most as many as were asked for.
    Fetched(Vec<InboundMessage>),
    /// The batch was marked, and its run started.
    Started,
    /// The run of the batch could not start.
    StartFailed(ProviderError),
    /// The batch was given back.
    Released,
    /// The run reported an event.
    Reported(ProviderEvent),
    /// The run ended its stream of events.
    Ended,
    /// The end of the batch was written.
    Settled,
    /// The session was marked as active.
    Touched,
}

/// The mathematical value of a [`RunEvent`].
pub enum RunEventView {
    Fetched(Seq<InboundMessage>),
    Started,
    StartFailed(ProviderErrorView),
    Released,
    Reported(ProviderEventView),
    Ended,
    Settled,
    Touched,
}

impl RunEvent {
    pub open spec fn view(&self) -> RunEventView {
        match self {
            RunEvent::Fetched(batch) => RunEventView::Fetched(batch@),
            RunEvent::Started => RunEventView::Started,
            RunEvent::StartFailed(error) => RunEventView::StartFailed(error@),
            RunEvent::Released => RunEventView::Released,
            RunEvent::Reported(event) => RunEventView::Reported(event@),
            RunEvent::Ended => RunEventView::Ended,
            RunEvent::Settled => RunEventView::Settled,
            RunEvent::Touched => RunEventView::Touched,
        }
    }
}

/// What is to be done next in the run of a session.
pub enum RunAction<'a> {
    /// Fetch the due messages, at most so many.
    Fetch { limit: i64 },
    /// Mark the messages as processing, and start a run on the prompt.
    Start { ids: &'a Vec<MessageInId>, prompt: &'a str },
    /// Wait for an event of the run.
    Await,
    /// Write the reply, if there is one, and then mark the messages.
    Settle {
        ids: &'a Vec<MessageInId>,
        reply: Option<&'a NewOutboundMessage>,
        status: MessageStatus,
    },
    /// Mark the messages as pending again.
    Release { ids: &'a Vec<MessageInId> },
    /// Mark the session as active.
    Touch,
    /// Nothing.
    Stop,
    /// Give up with this error.
    Fail { error: &'a RunError },
}

/// The mathematical value of a [`RunAction`].
#[verifier::ext_equal]
pub enum RunActionView {
    Fetch { limit: int },
    Start { ids: Seq<Seq<char>>, prompt: Seq<char> },
    Await,
    Settle { ids: Seq<Seq<char>>, end: SettlementView },
    Release { ids: Seq<Seq<char>> },
    Touch,
    Stop,
    Fail { error: RunErrorView },
}

impl<'a> RunAction<'a> {
    pub open spec fn view(&self) -> RunActionView {
        match self {
            RunAction::Fetch { limit } => RunActionView::Fetch { limit: *limit as int },
            RunAction::Start { ids, prompt } => RunActionView::Start {
                ids: ids_view(ids@),
                prompt: prompt@,
            },
            RunAction::Await => RunActionView::Await,
            RunAction::Settle { ids, reply, status } => RunActionView::Settle {
                ids: ids_view(ids@),
                end: SettlementView {
                    status: *status,
                    reply: match reply {
                        Some(message) => Some(message@),
                        None => None,
                    },
                },
            },
            RunAction::Release { ids } => RunActionView::Release { ids: ids_view(ids@) },
            RunAction::Touch => RunActionView::Touch,
            RunAction::Stop => RunActionView::Stop,
            RunAction::Fail { error } => RunActionView::Fail { error: error@ },
        }
    }
}

/// What is to be done where the run of a session stands.
pub open spec fn action_at(stage: StageView) -> RunActionView {
    match stage {
        StageView::Fetching => RunActionView::Fetch { limit: BATCH_LIMIT as int },
        StageView::Marking { ids, prompt } => RunActionView::Start { ids, prompt },
        StageView::Running { .. } => RunActionView::Await,
        StageView::Settling { ids, end } => RunActionView::Settle { ids, end },
        StageView::Releasing { ids, .. } => RunActionView::Release { ids },
        StageView::Touching => RunActionView::Touch,
        StageView::Done => RunActionView::Stop,
        StageView::Failed { error } => RunActionView::Fail { error },
    }
}

/// Where the run of a session stands after an event. A batch that triggers is
/// run; without one the session is done. A batch whose run could not start is given
/// back before the run fails with the provider's error. An event that does not belong to where
/// the run stands changes nothing.
pub open spec fn stage_after(stage: StageView, event: RunEventView) -> StageView {
    match (stage, event) {
        (StageView::Fetching, RunEventView::Fetched(batch)) => if triggers(batch) {
            StageView::Marking {
                ids: batch_ids(batch),
                prompt: text::joined(prompt_lines(batch), "\n"@),
            }
        } else {
            StageView::Touching
        },
        (StageView::Marking { ids, prompt }, RunEventView::Started) => StageView::Running {
            ids,
            prompt,
        },
        (StageView::Marking { ids, .. }, RunEventView::StartFailed(error)) => StageView::Releasing {
            ids,
            error: RunErrorView::Provider(error),
        },
        (StageView::Releasing { error, .. }, RunEventView::Released) => StageView::Failed { error },
        (StageView::Running { ids, .. }, RunEventView::Reported(event)) => match decides(event) {
            Some(outcome) => StageView::Settling { ids, end: settlement_of(ids, outcome) },
            None => stage,
        },
        (StageView::Running { ids, .. }, RunEventView::Ended) => StageView::Settling {
            ids,
            end: settlement_of(ids, run_outcome(Seq::empty())),
        },
        (StageView::Settling { .. }, RunEventView::Settled) => StageView::Fetching,
        (StageView::Touching, RunEventView::Touched) => StageView::Done,
        _ => stage,
    }
}

impl SessionRun {
    /// Where the run stands.
    pub closed spec fn view(&self) -> StageView {
        match self.stage {
            Stage::Fetching => StageView::Fetching,
            Stage::Marking(batch) => StageView::Marking {
                ids: batch.ids_text(),
                prompt: batch.prompt_text(),
            },
            Stage::Running(batch) => StageView::Running {
                ids: batch.ids_text(),
                prompt: batch.prompt_text(),
            },
            Stage::Settling(batch, end) => StageView::Settling { ids: batch.ids_text(), end: end@ },
            Stage::Releasing(batch, error) => StageView::Releasing {
                ids: batch.ids_text(),
                error: error@,
            },
            Stage::Touching => StageView::Touching,
            Stage::Done => StageView::Done,
            Stage::Failed(error) => StageView::Failed { error: error@ },
        }
    }

    /// Whether the batch under way, if there is one, holds a message.
    pub closed spec fn well_formed(&self) -> bool {
        match self.stage {
            Stage::Marking(batch) => batch.ids_text().len() > 0,
            Stage::Running(batch) => batch.ids_text().len() > 0,
            _ => true,
        }
    }

    /// The run of a session begins with its due messages.
    pub fn new() -> (r: Self)
        ensures
            r.well_formed(),
            r@ == StageView::Fetching,
    {
        SessionRun { stage: Stage::Fetching }
    }

    /// What is to be done next.
    pub fn action(&self) -> (r: RunAction<'_>)
        ensures
            r@ == action_at(self@),
    {
        match &self.stage {
            Stage::Fetching => RunAction::Fetch { limit: BATCH_LIMIT },
            Stage::Marking(batch) => RunAction::Start { ids: batch.ids(), prompt: batch.prompt() },
            Stage::Running(_) => RunAction::Await,
            Stage::Settling(batch, end) => RunAction::Settle {
                ids: batch.ids(),
                reply: match &end.reply {
                    Some(message) => Some(message),
                    None => None,
                },
                status: end.status,
            },
            Stage::Releasing(batch, _) => RunAction::Release { ids: batch.ids() },
            Stage::Touching => RunAction::Touch,
            Stage::Done => RunAction::Stop,
            Stage::Failed(error) => RunAction::Fail { error },
        }
    }

    /// Goes on after an event.
    pub fn advance(self, event: RunEvent) -> (r: Self)
        requires
            self.well_formed(),
        ensures
            r.well_formed(),
            r@ == stage_after(self@, event@),
    {
        let stage = match (self.stage, event) {
            (Stage::Fetching, RunEvent::Fetched(batch)) => match RunningBatch::start(&batch) {
                Some(running) => Stage::Marking(running),
                None => Stage::Touching,
            },
            (Stage::Marking(batch), RunEvent::Started) => Stage::Running(batch),
            (Stage::Marking(batch), RunEvent::StartFailed(error)) => Stage::Releasing(
                batch,
                RunError::Provider(error),
            ),
            (Stage::Releasing(_, error), RunEvent::Released) => Stage::Failed(error),
            (Stage::Running(batch), RunEvent::Reported(reported)) => match turn_result(&reported) {
                Some(outcome) => {
                    let end = batch.settle(&outcome);
                    Stage::Settling(batch, end)
                },
                None => Stage::Running(batch),
            },
            (Stage::Running(batch), RunEvent::Ended) => {
                let outcome = consume_run(&Vec::new());
                proof {
                    let none = Seq::<ProviderEvent>::empty().map_values(|e: ProviderEvent| e@);
                    assert(none =~= Seq::<ProviderEventView>::empty());
                }
                let end = batch.settle(&outcome);
                Stage::Settling(batch, end)
            },
            (Stage::Settling(_, _), RunEvent::Settled) => Stage::Fetching,
            (Stage::Touching, RunEvent::Touched) => Stage::Done,
            (stage, _) => stage,
        };
        SessionRun { stage }
    }
}

/// Where the run of a session stands after some events.
pub open spec fn stage_after_all(stage: StageView, events: Seq<RunEventView>) -> StageView
    decreases events.len(),
{
    if events.len() == 0 {
        stage
    } else {
        stage_after_all(stage_after(stage, events[0]), events.drop_first())
    }
}

/// The messages of the batch under way.
pub open spec fn under_way(stage: StageView) -> Option<Seq<Seq<char>>> {
    match stage {
        StageView::Marking { ids, .. } => Some(ids),
        StageView::Running { ids, .. } => Some(ids),
        StageView::Settling { ids, .. } => Some(ids),
        StageView::Releasing { ids, .. } => Some(ids),
        _ => None,
    }
}

// ---------------------------------------------------------------------------
// Laws

/// Context that only accumulated never starts a run.
pub proof fn accumulated_context_never_runs(batch: Seq<InboundMessage>)
    requires
        forall|i: int| 0 <= i < batch.len() ==> !(#[trigger] batch[i]).trigger,
    ensures
        !triggers(batch),
{
}

/// A batch that was run is completed or failed, never left as it was; it is
/// failed exactly when the run was, and then it gets no reply.
pub proof fn every_run_settles_its_batch(
    ids: Seq<Seq<char>>,
    outcome: Result<Option<Seq<char>>, Seq<char>>,
)
    ensures
        ({
            let end = settlement_of(ids, outcome);
            &&& end.status == MessageStatus::Completed || end.status == MessageStatus::Failed
            &&& end.status == MessageStatus::Failed <==> outcome is Err
            &&& end.status == MessageStatus::Failed ==> end.reply is None
            &&& end.reply is Some <==> (outcome matches Ok(Some(said)) && !text::blank(said))
        }),
{
}

/// Events after the one that decides do not matter.
pub proof fn later_events_do_not_matter(
    events: Seq<ProviderEventView>,
    more: Seq<ProviderEventView>,
    i: int,
)
    requires
        0 <= i < events.len(),
        decides(events[i]) is Some,
    ensures
        run_outcome(events + more) == run_outcome(events),
    decreases events.len(),
{
    let both = events + more;
    assert(both[0] == events[0]);
    if decides(events[0]) is None {
        assert(both.drop_first() =~= events.drop_first() + more);
        later_events_do_not_matter(events.drop_first(), more, i - 1);
    }
}

/// A batch that was started stays under way, and no other is fetched, until its
/// end has been written or it was given back.
pub proof fn batches_are_settled_before_the_next(stage: StageView, events: Seq<RunEventView>)
    requires
        under_way(stage) is Some,
        forall|i: int|
            0 <= i < events.len() ==> !((#[trigger] events[i]) is Settled || events[i] is Released),
    ensures
        under_way(stage_after_all(stage, events)) == under_way(stage),
    decreases events.len(),
{
    if events.len() > 0 {
        let rest = events.drop_first();
        assert(!(events[0] is Settled || events[0] is Released));
        assert forall|i: int| 0 <= i < rest.len() implies !((#[trigger] rest[i]) is Settled
            || rest[i] is Released) by {
            assert(rest[i] == events[i + 1]);
        }
        batches_are_settled_before_the_next(stage_after(stage, events[0]), rest);
    }
}

/// A provider that cannot start leaves the batch pending: every message of it is
/// marked so, and then the run fails with the provider's error and does no more.
pub proof fn unstarted_batches_stay_pending(
    ids: Seq<Seq<char>>,
    prompt: Seq<char>,
    error: ProviderErrorView,
    later: Seq<RunEventView>,
)
    ensures
        ({
            let refused = stage_after(
                StageView::Marking { ids, prompt },
                RunEventView::StartFailed(error),
            );
            let released = stage_after(refused, RunEventView::Released);
            &&& action_at(refused) == RunActionView::Release { ids }
            &&& action_at(stage_after_all(released, later)) == (RunActionView::Fail {
                error: RunErrorView::Provider(error),
            })
        }),
{
    lemma_failed_runs_stay(RunErrorView::Provider(error), later);
}

proof fn lemma_failed_runs_stay(error: RunErrorView, later: Seq<RunEventView>)
    ensures
        stage_after_all(StageView::Failed { error }, later) == (StageView::Failed { error }),
    decreases later.len(),
{
    if later.len() > 0 {
        lemma_failed_runs_stay(error, later.drop_first());
    }
}

/// A session is left only when a fetch brought nothing to run.
pub proof fn sessions_are_drained(stage: StageView, event: RunEventView)
    requires
        !(stage is Touching),
        stage_after(stage, event) is Touching,
    ensures
        stage is Fetching,
        event matches RunEventView::Fetched(batch) && !triggers(batch),
{
}

/// A run that is stepped through its events comes out as its events say,
/// however they come in.
pub proof fn steps_come_to_the_outcome(
    ids: Seq<Seq<char>>,
    prompt: Seq<char>,
    events: Seq<ProviderEventView>,
)
    ensures
        stage_after_all(
            StageView::Running { ids, prompt },
            events.map_values(|e: ProviderEventView| RunEventView::Reported(e)).push(
                RunEventView::Ended,
            ),
        ) == (StageView::Settling { ids, end: settlement_of(ids, run_outcome(events)) }),
    decreases events.len(),
{
    let running = StageView::Running { ids, prompt };
    let steps = events.map_values(|e: ProviderEventView| RunEventView::Reported(e)).push(
        RunEventView::Ended,
    );
    if events.len() == 0 {
        assert(events =~= Seq::empty());
        assert(steps[0] == RunEventView::Ended);
        assert(steps.drop_first() =~= Seq::empty());
        assert(stage_after_all(stage_after(running, steps[0]), steps.drop_first()) == stage_after(
            running,
            steps[0],
        ));
    } else {
        let rest = events.drop_first();
        assert(steps[0] == RunEventView::Reported(events[0]));
        assert(steps.drop_first() =~= rest.map_values(
            |e: ProviderEventView| RunEventView::Reported(e),
        ).push(RunEventView::Ended));
        match decides(events[0]) {
            None => {
                steps_come_to_the_outcome(ids, prompt, rest);
            },
            Some(outcome) => {
                let settled = StageView::Settling { ids, end: settlement_of(ids, outcome) };
                lemma_settling_waits(settled, steps.drop_first());
            },
        }
    }
}

proof fn lemma_settling_waits(stage: StageView, events: Seq<RunEventView>)
    requires
        stage is Settling,
        forall|i: int| 0 <= i < events.len() ==> !((#[trigger] events[i]) is Settled),
    ensures
        stage_after_all(stage, events) == stage,
    decreases events.len(),
{
    if events.len() > 0 {
        let rest = events.drop_first();
        assert(!(events[0] is Settled));
        assert forall|i: int| 0 <= i < rest.len() implies !((#[trigger] rest[i]) is Settled) by {
            assert(rest[i] == events[i + 1]);
        }
        lemma_settling_waits(stage, rest);
    }
}

/// What a batch is run on: the prompt of the run that its fetch starts.
pub open spec fn prompt_for(batch: Seq<InboundMessage>) -> Option<Seq<char>> {
    match action_at(stage_after(StageView::Fetching, RunEventView::Fetched(batch))) {
        RunActionView::Start { prompt, .. } => Some(prompt),
        _ => None,
    }
}

/// A run is shown every message of its batch, those that only accumulated
/// included: each further message adds a line, whether or not it triggers.
pub proof fn every_message_adds_a_line(batch: Seq<InboundMessage>, message: InboundMessage)
    requires
        batch.len() > 0,
        triggers(batch),
    ensures
        prompt_for(batch) is Some,
        prompt_for(batch.push(message)) == Some(
            prompt_for(batch)->0 + "\n"@ + (match content::inbound_meaning(
                message.kind@,
                message.content@,
            ) {
                Ok(InboundView::Chat(chat)) => chat.text,
                _ => message.content@,
            }),
        ),
{
    let more = batch.push(message);
    let i = choose|i: int| 0 <= i < batch.len() && (#[trigger] batch[i]).trigger;
    assert(more[i].trigger);
    let line = prompt_line_of(message.kind@, message.content@);
    assert(prompt_lines(more) =~= prompt_lines(batch).push(line));
    text::one_more_part_is_joined(prompt_lines(batch), line, "\n"@);
}

/// A batch that triggers is run as a whole: all of its messages are marked, in their
/// order, and the prompt has a line for each, which is the text of a chat message
/// and the content of any other, the accumulated ones included.
pub proof fn prompts_show_the_whole_batch(batch: Seq<InboundMessage>, i: int)
    requires
        triggers(batch),
        0 <= i < batch.len(),
    ensures
        action_at(stage_after(StageView::Fetching, RunEventView::Fetched(batch))) matches
            RunActionView::Start { ids, prompt } && {
            &&& ids.len() == batch.len()
            &&& ids[i] == batch[i].id@
            &&& exists|lines: Seq<Seq<char>>|
                prompt == #[trigger] text::joined(lines, "\n"@) && lines.len() == batch.len() && (
                content::inbound_meaning(batch[i].kind@, batch[i].content@) matches Ok(
                    InboundView::Chat(chat),
                ) ==> lines[i] == chat.text) && (!(content::inbound_meaning(
                    batch[i].kind@,
                    batch[i].content@,
                ) matches Ok(InboundView::Chat(_))) ==> lines[i] == batch[i].content@)
            &&& content::inbound_meaning(batch[i].kind@, batch[i].content@) matches Ok(
                InboundView::Chat(chat),
            ) ==> text::within(prompt, chat.text)
            &&& !(content::inbound_meaning(batch[i].kind@, batch[i].content@) matches Ok(
                InboundView::Chat(_),
            )) ==> text::within(prompt, batch[i].content@)
        },
{
    let lines = prompt_lines(batch);
    assert(lines[i] == prompt_line_of(batch[i].kind@, batch[i].content@));
    text::every_part_is_joined(lines, "\n"@, i);
    assert(text::joined(lines, "\n"@) == prompt_for(batch)->0);
}

/// A batch that one message makes up is run on that message alone.
pub proof fn one_message_is_the_prompt(message: InboundMessage)
    requires
        message.trigger,
    ensures
        prompt_for(seq![message]) == Some(
            match content::inbound_meaning(message.kind@, message.content@) {
                Ok(InboundView::Chat(chat)) => chat.text,
                _ => message.content@,
            },
        ),
{
    assert(seq![message][0].trigger);
    assert(prompt_lines(seq![message]) =~= seq![
        prompt_line_of(message.kind@, message.content@),
    ]);
}

/// A batch is run exactly when a message of it triggers, wherever that stands.
pub proof fn one_trigger_is_enough(batch: Seq<InboundMessage>, i: int)
    requires
        0 <= i < batch.len(),
        batch[i].trigger,
    ensures
        prompt_for(batch) is Some,
{
}

/// The reply of a turn says what the turn said, word for word: it is a chat message
/// that answers the first message of the batch, with no address of its own.
pub proof fn replies_say_what_the_turn_said(
    ids: Seq<Seq<char>>,
    prompt: Seq<char>,
    said: Seq<char>,
)
    requires
        !text::blank(said),
    ensures
        action_at(
            stage_after(
                StageView::Running { ids, prompt },
                RunEventView::Reported(ProviderEventView::TurnEnd { text: Some(said) }),
            ),
        ) matches RunActionView::Settle { ids: settled, end } && {
            &&& settled == ids
            &&& end.status == MessageStatus::Completed
            &&& end.reply matches Some(reply) && {
                &&& reply.kind == "chat"@
                &&& reply.in_reply_to == Some(ids[0])
                &&& reply.content == json::encoded(
                    json::JsonView::Object(seq![("text"@, json::JsonView::Text(said))]),
                )
                &&& reply.routing.channel_type is None
                &&& reply.routing.platform_id is None
                &&& reply.routing.thread_id is None
            }
        },
{
    let value = content::outbound_value(content::text_content(said));
    assert(value->Object_0 =~= seq![("text"@, json::JsonView::Text(said))]);
}

/// A run that fails fails its whole batch, and sends nothing.
pub proof fn failed_runs_fail_their_batch(
    ids: Seq<Seq<char>>,
    prompt: Seq<char>,
    message: Seq<char>,
    retryable: bool,
)
    ensures
        ({
            let running = StageView::Running { ids, prompt };
            let failed = RunActionView::Settle {
                ids,
                end: SettlementView { status: MessageStatus::Failed, reply: None },
            };
            &&& action_at(
                stage_after(
                    running,
                    RunEventView::Reported(ProviderEventView::Error { message, retryable }),
                ),
            ) == failed
            &&& action_at(stage_after(running, RunEventView::Ended)) == failed
        }),
{
}

/// Progress and signs of life end nothing.
pub proof fn progress_ends_nothing(stage: StageView, message: Seq<char>)
    requires
        stage is Running,
    ensures
        stage_after(stage, RunEventView::Reported(ProviderEventView::Activity)) == stage,
        stage_after(stage, RunEventView::Reported(ProviderEventView::Progress { message }))
            == stage,
{
}

/// A run comes out as its first event that ends it says: a turn's end with its
/// text, an error with its message.
pub proof fn the_first_end_counts(events: Seq<ProviderEventView>, i: int)
    requires
        0 <= i < events.len(),
        events[i] is TurnEnd || events[i] is Error,
        forall|j: int| 0 <= j < i ==> (#[trigger] events[j]) is Activity || events[j] is Progress,
    ensures
        events[i] matches ProviderEventView::TurnEnd { text } ==> run_outcome(events) == Ok::<
            Option<Seq<char>>,
            Seq<char>,
        >(text),
        events[i] matches ProviderEventView::Error { message, .. } ==> run_outcome(events) == Err::<
            Option<Seq<char>>,
            Seq<char>,
        >(message),
    decreases i,
{
    if i > 0 {
        assert(events[0] is Activity || events[0] is Progress);
        let rest = events.drop_first();
        assert forall|j: int| 0 <= j < i - 1 implies (#[trigger] rest[j]) is Activity
            || rest[j] is Progress by {
            assert(rest[j] == events[j + 1]);
        }
        assert(rest[i - 1] == events[i]);
        the_first_end_counts(rest, i - 1);
    }
}

/// A run whose stream ends without a turn's end or an error has failed.
pub proof fn silence_is_a_failure(events: Seq<ProviderEventView>)
    requires
        forall|j: int|
            0 <= j < events.len() ==> (#[trigger] events[j]) is Activity || events[j] is Progress,
    ensures
        run_outcome(events) is Err,
    decreases events.len(),
{
    if events.len() > 0 {
        assert(events[0] is Activity || events[0] is Progress);
        let rest = events.drop_first();
        assert forall|j: int| 0 <= j < rest.len() implies (#[trigger] rest[j]) is Activity
            || rest[j] is Progress by {
            assert(rest[j] == events[j + 1]);
        }
        silence_is_a_failure(rest);
    }
}

/// A run goes through its steps in order: it marks and starts the batch before it
/// waits for it, settles it before it fetches again, and ends once it is touched.
pub proof fn runs_take_their_steps_in_order(
    ids: Seq<Seq<char>>,
    prompt: Seq<char>,
    end: SettlementView,
)
    ensures
        stage_after(StageView::Marking { ids, prompt }, RunEventView::Started) == (
        StageView::Running { ids, prompt }),
        action_at(StageView::Running { ids, prompt }) == RunActionView::Await,
        stage_after(StageView::Settling { ids, end }, RunEventView::Settled)
            == StageView::Fetching,
        action_at(StageView::Fetching) matches RunActionView::Fetch { limit } && limit == 10,
        action_at(StageView::Touching) == RunActionView::Touch,
        action_at(stage_after(StageView::Touching, RunEventView::Touched)) == RunActionView::Stop,
{
}

} // verus!
