//! The text message channel: what it polls for, how long it waits after
//! failures, and the request that a delivery makes.

pub mod poller;
pub mod protocol;

use vstd::prelude::*;

use crate::channels::{Address, ChannelError, OutboundDelivery};
use crate::json;
use crate::json::{Json, JsonView};
use crate::protocol::entities::SmsConnectorConfig;
use crate::router::InboundEvent;
use crate::text;

use protocol::{SmsMessage, SmsMessageView};

verus! {

broadcast use vstd::string::group_string_axioms;

/// Milliseconds between two polls.
pub const POLL_INTERVAL: u64 = 2000;

/// The most milliseconds to wait after failures.
pub const MAX_BACKOFF: u64 = 30000;

/// The most milliseconds that a request may take.
pub const REQUEST_TIMEOUT: u64 = 10000;

// ---------------------------------------------------------------------------
// Waiting

/// Two to the power of the number of failures, at most of four.
pub open spec fn doubling(failures: nat) -> nat
    decreases failures,
{
    if failures == 0 {
        1
    } else if failures > 4 {
        16
    } else {
        2 * doubling((failures - 1) as nat)
    }
}

/// How long to wait before the next poll: the interval, doubled for each failure
/// in a row up to a limit.
pub open spec fn delay(base: int, failures: nat) -> int {
    if failures == 0 {
        base
    } else if base * doubling(failures) < MAX_BACKOFF {
        base * doubling(failures)
    } else {
        MAX_BACKOFF as int
    }
}

/// How many milliseconds to wait before the next poll.
pub fn backoff_delay(base: u64, failures: u32) -> (r: u64)
    ensures
        r == delay(base as int, failures as nat),
{
    proof {
        reveal_with_fuel(doubling, 6);
    }
    if failures == 0 {
        return base;
    }
    let factor: u64 = if failures == 1 {
        2
    } else if failures == 2 {
        4
    } else if failures == 3 {
        8
    } else {
        16
    };
    assert(factor == doubling(failures as nat));
    if base >= MAX_BACKOFF {
        assert(base * factor >= MAX_BACKOFF) by (nonlinear_arith)
            requires
                base >= MAX_BACKOFF,
                factor >= 1,
        ;
        return MAX_BACKOFF;
    }
    assert(base * factor <= MAX_BACKOFF * 16) by (nonlinear_arith)
        requires
            0 <= base < MAX_BACKOFF,
            0 <= factor <= 16,
    ;
    let product: u64 = base * factor;
    if product < MAX_BACKOFF {
        product
    } else {
        MAX_BACKOFF
    }
}

/// Why a poll failed.
#[derive(Debug, PartialEq, Eq)]
pub enum PollError {
    Unauthorized,
    Transport(String),
}

/// What to log about a failed poll.
#[derive(Debug, Clone, Copy, PartialEq, Eq, Structural)]
pub enum PollLog {
    /// Nothing: a refused token was logged before.
    Quiet,
    /// An error: the server refused the token.
    TokenRefused,
    /// A warning, with the reason.
    Failed,
}

/// The failures in a row, one more: it stays at the highest number there is.
pub open spec fn one_more(failures: u32) -> u32 {
    if failures < u32::MAX {
        (failures + 1) as u32
    } else {
        failures
    }
}

/// What to log about a poll that failed after some failures in a row. A refused
/// token does not heal by retrying, so it is logged at the first failure and then
/// not again.
pub open spec fn logged(error: PollError, failures: u32) -> PollLog {
    match error {
        PollError::Unauthorized => if failures == 0 {
            PollLog::TokenRefused
        } else {
            PollLog::Quiet
        },
        PollError::Transport(_) => PollLog::Failed,
    }
}

/// What to log about a failed poll, which counts as one more failure.
pub fn log_poll_error(error: &PollError, failures: &mut u32) -> (r: PollLog)
    ensures
        *final(failures) == one_more(*old(failures)),
        r == logged(*error, *old(failures)),
{
    let refused_first = *failures == 0;
    if *failures < u32::MAX {
        *failures = *failures + 1;
    }
    match error {
        PollError::Unauthorized => {
            if refused_first {
                PollLog::TokenRefused
            } else {
                PollLog::Quiet
            }
        },
        PollError::Transport(_) => PollLog::Failed,
    }
}

// ---------------------------------------------------------------------------
// Requests

/// How the channel talks to its SIM server.
#[derive(Debug, PartialEq, Eq)]
pub struct SmsChannel {
    pub base_url: String,
    pub token: String,
    pub webhook_secret: Option<String>,
    pub poll_interval: u64,
}

/// The mathematical value of an [`SmsChannel`].
#[verifier::ext_equal]
pub struct SmsChannelView {
    pub base_url: Seq<char>,
    pub token: Seq<char>,
    pub webhook_secret: Option<Seq<char>>,
    pub poll_interval: int,
}

/// A reply of the SIM server.
pub struct Reply {
    pub status: u16,
    /// The status with its reason, as it is shown.
    pub status_line: String,
    pub body: String,
}

/// Whether a status is one of success.
pub open spec fn success(status: u16) -> bool {
    200 <= status < 300
}

/// The messages of a reply to a poll, or why the poll failed.
pub open spec fn polled(status: u16, status_line: Seq<char>, body: Seq<char>) -> Result<
    Seq<SmsMessageView>,
    Option<Seq<char>>,
> {
    if status == 401 {
        Err(None)
    } else if !success(status) {
        Err(Some("sim-server returned "@ + status_line))
    } else {
        match json::parsed(body) {
            Err(reason) => Err(Some(reason)),
            Ok(value) => match protocol::messages_of(value) {
                Some(messages) => Ok(messages),
                None => Err(Some("unexpected shape"@)),
            },
        }
    }
}

impl PollError {
    /// The reason; none for a refused token.
    pub open spec fn reason(&self) -> Option<Seq<char>> {
        match self {
            PollError::Unauthorized => None,
            PollError::Transport(reason) => Some(reason@),
        }
    }
}

impl SmsChannel {
    pub open spec fn view(&self) -> SmsChannelView {
        SmsChannelView {
            base_url: self.base_url@,
            token: self.token@,
            webhook_secret: text::opt_view(self.webhook_secret),
            poll_interval: self.poll_interval as int,
        }
    }

    /// The channel of a connector's settings.
    pub fn new(config: &SmsConnectorConfig) -> (r: Self)
        ensures
            r@ == settings_of(config.base_url@, config.token@, text::opt_view(config.webhook_secret)),
    {
        SmsChannel {
            base_url: text::trim_end_char(&config.base_url, '/'),
            token: config.token.clone(),
            webhook_secret: text::clone_opt(&config.webhook_secret),
            poll_interval: POLL_INTERVAL,
        }
    }

    /// The secret that a wake-up call must show, if there is one.
    #[must_use]
    pub fn webhook_secret(&self) -> (r: Option<&str>)
        ensures
            text::opt_str_view(r) == self@.webhook_secret,
    {
        match &self.webhook_secret {
            Some(secret) => Some(secret.as_str()),
            None => None,
        }
    }

    /// The channel with another interval between polls.
    #[must_use]
    pub fn with_poll_interval(self, poll_interval: u64) -> (r: Self)
        ensures
            r@ == (SmsChannelView { poll_interval: poll_interval as int, ..self@ }),
    {
        SmsChannel {
            base_url: self.base_url,
            token: self.token,
            webhook_secret: self.webhook_secret,
            poll_interval,
        }
    }

    /// Where to ask for the messages after a position.
    pub fn poll_url(&self, cursor: i64) -> (r: String)
        ensures
            r@ == self@.base_url + "/api/messages?after_seq="@ + text::decimal(cursor as int),
    {
        text::concat3(&self.base_url, "/api/messages?after_seq=", &text::decimal_i64(cursor))
    }

    /// The messages of a reply to a poll.
    pub fn read_poll(reply: &Reply) -> (r: Result<Vec<SmsMessage>, PollError>)
        ensures
            match r {
                Ok(list) => polled(reply.status, reply.status_line@, reply.body@) == Ok::<
                    Seq<SmsMessageView>,
                    Option<Seq<char>>,
                >(protocol::messages_view(list@)),
                Err(e) => polled(reply.status, reply.status_line@, reply.body@) == Err::<
                    Seq<SmsMessageView>,
                    Option<Seq<char>>,
                >(e.reason()),
            },
    {
        if reply.status == 401 {
            return Err(PollError::Unauthorized);
        }
        if !(200 <= reply.status && reply.status < 300) {
            return Err(
                PollError::Transport(text::concat2("sim-server returned ", &reply.status_line)),
            );
        }
        match Json::parse(&reply.body) {
            Err(reason) => Err(PollError::Transport(reason)),
            Ok(value) => match SmsMessage::decode_all(&value) {
                Some(messages) => Ok(messages),
                None => Err(PollError::Transport("unexpected shape".to_owned())),
            },
        }
    }

    /// Where to send a message, and the body of the request; `None` where there
    /// is nothing to send.
    pub fn send_request(&self, address: &Address, delivery: &OutboundDelivery) -> (r: Option<
        (String, String),
    >)
        ensures
            ({
                let said = protocol::gsm7(
                    protocol::combined(delivery.content@, delivery.files@.len() as int),
                );
                match r {
                    None => said.len() == 0,
                    Some((url, body)) => said.len() > 0 && url@ == self@.base_url + "/api/messages"@
                        && body@ == json::encoded(message_value(address.platform_id@, said)),
                }
            }),
    {
        let said = protocol::render_sms(delivery);
        if said.as_str().unicode_len() == 0 {
            return None;
        }
        let mut fields: Vec<(String, Json)> = Vec::new();
        json::add_field(&mut fields, "content", json::text_json(&said));
        json::add_field(&mut fields, "phone", json::text_json(&address.platform_id));
        let value = json::object(fields);
        assert(value@->Object_0 =~= message_value(address.platform_id@, said@)->Object_0);
        Some((text::concat2(&self.base_url, "/api/messages"), value.encode()))
    }

    /// What a delivery came to: the server gives no message identifiers.
    pub fn read_send(status: u16, status_line: &str) -> (r: Result<Option<String>, ChannelError>)
        ensures
            match r {
                Ok(id) => success(status) && id is None,
                Err(e) => !success(status) && e.message_text() == "delivery failed: "@ + (
                "sim-server returned "@ + status_line@),
            },
    {
        if 200 <= status && status < 300 {
            Ok(None)
        } else {
            Err(ChannelError::Delivery(text::concat2("sim-server returned ", status_line)))
        }
    }
}

/// The channel that a connector's settings make: the address of the server
/// without slashes at its end.
pub open spec fn settings_of(
    base_url: Seq<char>,
    token: Seq<char>,
    webhook_secret: Option<Seq<char>>,
) -> SmsChannelView {
    SmsChannelView {
        base_url: text::strip_end(base_url, '/'),
        token,
        webhook_secret,
        poll_interval: POLL_INTERVAL as int,
    }
}

/// The body of a request to send a text message.
pub open spec fn message_value(phone: Seq<char>, said: Seq<char>) -> JsonView {
    JsonView::Object(
        seq![("content"@, JsonView::Text(said)), ("phone"@, JsonView::Text(phone))],
    )
}

// ---------------------------------------------------------------------------
// Polling

/// A poll under way: the messages that came, how far they are routed, and the
/// position to poll from next.
pub struct Poll {
    messages: Vec<SmsMessage>,
    next: usize,
    cursor: i64,
}

impl Poll {
    /// The messages that are still to be routed.
    pub closed spec fn rest(&self) -> Seq<SmsMessageView> {
        protocol::messages_view(self.messages@).skip(self.next as int)
    }

    /// The position so far.
    pub closed spec fn position(&self) -> int {
        self.cursor as int
    }

    /// Whether the poll is within its messages.
    pub closed spec fn well_formed(&self) -> bool {
        self.next <= self.messages@.len()
    }

    /// Begins with the messages that came after a position.
    pub fn new(cursor: i64, messages: Vec<SmsMessage>) -> (r: Self)
        ensures
            r.well_formed(),
            r.rest() == protocol::messages_view(messages@),
            r.position() == cursor,
    {
        let poll = Poll { messages, next: 0, cursor };
        assert(poll.rest() =~= protocol::messages_view(messages@));
        poll
    }

    /// What the next message is to the router; `None` where there is nothing to
    /// route, or no message left.
    pub fn event(&self) -> (r: Option<InboundEvent>)
        requires
            self.well_formed(),
        ensures
            match r {
                Some(event) => self.rest().len() > 0 && protocol::event_of(self.rest()[0]) == Some(
                    event@,
                ),
                None => self.rest().len() == 0 || protocol::event_of(self.rest()[0]) is None,
            },
    {
        if self.next < self.messages.len() {
            assert(self.rest()[0] == self.messages@[self.next as int]@);
            protocol::to_inbound_event(&self.messages[self.next])
        } else {
            None
        }
    }

    /// Whether no message is left.
    pub fn is_done(&self) -> (r: bool)
        requires
            self.well_formed(),
        ensures
            r == (self.rest().len() == 0),
    {
        self.next == self.messages.len()
    }

    /// Goes past the next message, which was routed or had nothing to route: the
    /// new position, if it is to be stored.
    pub fn advance(&mut self) -> (r: Option<i64>)
        requires
            old(self).well_formed(),
            old(self).rest().len() > 0,
        ensures
            final(self).well_formed(),
            final(self).rest() == old(self).rest().drop_first(),
            final(self).position() == protocol::advanced(
                old(self).position(),
                seq![old(self).rest()[0]],
            ),
            match r {
                Some(cursor) => cursor == final(self).position() && cursor != old(self).position(),
                None => final(self).position() == old(self).position(),
            },
    {
        let ghost was = self.rest();
        let ghost first = was[0];
        assert(first == self.messages@[self.next as int]@);
        proof {
            reveal_with_fuel(protocol::advanced, 2);
            assert(seq![first].drop_last() =~= Seq::empty());
            assert(seq![first].last() == first);
        }
        let seen: Option<i64> = self.messages[self.next].seq;
        assert(self.next < self.messages.len());
        self.next = self.next + 1;
        assert(self.rest() =~= was.drop_first());
        match seen {
            Some(seq) => {
                if seq > self.cursor {
                    self.cursor = seq;
                    return Some(seq);
                }
            },
            None => {},
        }
        None
    }

    /// The position to poll from next.
    pub fn cursor(&self) -> (r: i64)
        ensures
            r == self.position(),
    {
        self.cursor
    }
}

// ---------------------------------------------------------------------------
// Laws

proof fn lemma_doubling_range(failures: nat)
    ensures
        1 <= doubling(failures) <= 16,
        failures > 0 ==> doubling(failures) >= 2,
{
    reveal_with_fuel(doubling, 6);
}

/// Polling never waits longer than the limit, nor less than the interval, where
/// the interval is within the limit.
pub proof fn waits_are_bounded(base: int, failures: nat)
    requires
        0 <= base <= MAX_BACKOFF,
    ensures
        base <= delay(base, failures) <= MAX_BACKOFF,
{
    lemma_doubling_range(failures);
    assert(base <= base * doubling(failures)) by (nonlinear_arith)
        requires
            0 <= base,
            1 <= doubling(failures),
    ;
}

/// More failures in a row never shorten the wait.
pub proof fn waits_never_shrink(base: int, failures: nat)
    requires
        0 <= base <= MAX_BACKOFF,
    ensures
        delay(base, failures) <= delay(base, failures + 1),
{
    lemma_doubling_range(failures);
    lemma_doubling_range(failures + 1);
    assert(doubling(failures) <= doubling(failures + 1)) by {
        reveal_with_fuel(doubling, 7);
    }
    assert(base <= base * doubling(failures + 1)) by (nonlinear_arith)
        requires
            0 <= base,
            1 <= doubling(failures + 1),
    ;
    assert(base * doubling(failures) <= base * doubling(failures + 1)) by (nonlinear_arith)
        requires
            0 <= base,
            doubling(failures) <= doubling(failures + 1),
    ;
}

/// Going through the messages one by one ends at the position past them all.
pub proof fn step_by_step_is_all_at_once(cursor: int, messages: Seq<SmsMessageView>)
    requires
        messages.len() > 0,
    ensures
        protocol::advanced(cursor, messages) == protocol::advanced(
            protocol::advanced(cursor, seq![messages[0]]),
            messages.drop_first(),
        ),
    decreases messages.len(),
{
    let rest = messages.drop_first();
    if rest.len() == 0 {
        assert(messages =~= seq![messages[0]]);
    } else {
        let init = messages.drop_last();
        step_by_step_is_all_at_once(cursor, init);
        assert(init.drop_first() =~= rest.drop_last());
        assert(init[0] == messages[0]);
        assert(rest.last() == messages.last());
    }
}

/// The first wait is the base; each of the next four failures doubles it, up to the
/// limit of half a minute, and then it stays.
pub proof fn waits_double_up_to_the_limit(base: int, failures: nat)
    requires
        0 <= base,
    ensures
        delay(base, 0) == base,
        base <= 30_000 && failures < 4 ==> delay(base, failures + 1) == (if 2 * delay(base, failures)
            < 30_000 {
            2 * delay(base, failures)
        } else {
            30_000
        }),
        failures >= 4 ==> delay(base, failures + 1) == delay(base, failures),
{
    reveal_with_fuel(doubling, 6);
    assert(doubling(0) == 1);
    assert(doubling(1) == 2);
    assert(doubling(2) == 4);
    assert(doubling(3) == 8);
    assert(doubling(4) == 16);
    if failures < 4 {
        assert(doubling(failures + 1) == 2 * doubling(failures));
        let d = doubling(failures) as int;
        assert(base * (2 * d) == 2 * (base * d)) by (nonlinear_arith);
    }
}

/// A poll that is refused for its token is told apart from one that fails; only a
/// successful reply is read.
pub proof fn replies_are_told_by_their_status(
    status: u16,
    status_line: Seq<char>,
    body: Seq<char>,
)
    ensures
        status == 401 ==> polled(status, status_line, body) == Err::<
            Seq<SmsMessageView>,
            Option<Seq<char>>,
        >(None),
        status != 401 && !(200 <= status < 300) ==> (polled(status, status_line, body) matches Err(
            Some(reason),
        ) && text::within(reason, status_line)),
        200 <= status < 300 ==> {
            &&& polled(status, status_line, body) is Ok <==> (json::parsed(body) matches Ok(value)
                && protocol::messages_of(value) is Some)
            &&& polled(status, status_line, body) matches Ok(messages) ==> protocol::messages_of(
                json::parsed(body)->Ok_0,
            ) == Some(messages)
        },
{
    let head = "sim-server returned "@;
    let whole = head + status_line;
    assert(whole.subrange(head.len() as int, whole.len() as int) =~= status_line);
    assert(text::at(whole, status_line, head.len() as int));
}

/// A refused token is reported once, until a poll works again; any other failure is
/// reported each time.
pub proof fn refusals_are_reported_once(error: PollError, failures: u32)
    ensures
        error is Unauthorized && failures == 0 ==> logged(error, failures) == PollLog::TokenRefused,
        error is Unauthorized && failures > 0 ==> logged(error, failures) == PollLog::Quiet,
        error is Transport ==> logged(error, failures) == PollLog::Failed,
        failures < u32::MAX ==> one_more(failures) == failures + 1,
        one_more(u32::MAX) == u32::MAX,
{
}

/// A text message is sent to the number that it is for and says what it says.
pub proof fn messages_go_to_their_number(phone: Seq<char>, said: Seq<char>)
    ensures
        message_value(phone, said) matches JsonView::Object(sent) && json::lookup(sent, "phone"@)
            == Some(JsonView::Text(phone)) && json::lookup(sent, "content"@) == Some(
            JsonView::Text(said),
        ),
{
    reveal_strlit("content");
    reveal_strlit("phone");
    assert("content"@.len() == 7 && "phone"@.len() == 5);
    let sent = message_value(phone, said)->Object_0;
    json::lemma_lookup_at(sent, "content"@, 0);
    json::lemma_lookup_at(sent, "phone"@, 1);
}

/// A channel has the settings of its connector; slashes at the end of the address
/// make no difference, and nothing else is taken from it.
pub proof fn settings_are_those_of_the_connector(
    base_url: Seq<char>,
    token: Seq<char>,
    webhook_secret: Option<Seq<char>>,
)
    ensures
        settings_of(base_url, token, webhook_secret).token == token,
        settings_of(base_url, token, webhook_secret).webhook_secret == webhook_secret,
        settings_of(base_url.push('/'), token, webhook_secret).base_url == settings_of(
            base_url,
            token,
            webhook_secret,
        ).base_url,
        base_url.len() > 0 && base_url.last() != '/' ==> settings_of(
            base_url,
            token,
            webhook_secret,
        ).base_url == base_url,
{
    assert(base_url.push('/').drop_last() =~= base_url);
}

} // verus!
