//! Crash-loop guard: if the daemon keeps dying and restarting quickly, back off
//! before each restart instead of spinning. A marker in the data directory
//! records the attempt count and the last start; a clean shutdown removes it, so
//! that the next start is attempt 1.

use vstd::prelude::*;

use crate::config;
use crate::json;
use crate::json::{Json, JsonView};
use crate::text;
use crate::time;

verus! {

broadcast use vstd::string::group_string_axioms;

/// Restarts within this window of the previous start count as a crash loop.
pub const RESET_WINDOW_SECS: i128 = 3600;

/// What the marker holds.
#[derive(Debug, PartialEq, Eq)]
pub struct Marker {
    pub attempt: u32,
    pub last_start: String,
}

/// The mathematical value of a [`Marker`].
#[verifier::ext_equal]
pub struct MarkerView {
    pub attempt: int,
    pub last_start: Seq<char>,
}

/// The marker that a value is.
pub open spec fn marker_of(value: JsonView) -> Option<MarkerView> {
    let attempt = json::integer_of(json::part(value, 0, "attempt"@));
    let last_start = json::text_of(json::part(value, 1, "last_start"@));
    if json::is_record(value, 2) && attempt is Some && 0 <= attempt->0 <= u32::MAX && last_start is Some {
        Some(MarkerView { attempt: attempt->0, last_start: last_start->0 })
    } else {
        None
    }
}

/// The marker that a stored text is; a text that is none counts as absent.
pub open spec fn stored_marker(stored: Option<Seq<char>>) -> Option<MarkerView> {
    match stored {
        None => None,
        Some(raw) => match json::parsed(raw) {
            Ok(value) => marker_of(value),
            Err(_) => None,
        },
    }
}

/// The value that a marker is stored as.
pub open spec fn marker_value(m: MarkerView) -> JsonView {
    let attempt = json::with(
        Seq::empty(),
        "attempt"@,
        Some(JsonView::Number(text::decimal(m.attempt))),
    );
    JsonView::Object(
        json::with(attempt, "last_start"@, Some(JsonView::Text(m.last_start))),
    )
}

impl Marker {
    pub open spec fn view(&self) -> MarkerView {
        MarkerView { attempt: self.attempt as int, last_start: self.last_start@ }
    }

    /// The marker that a stored text is.
    pub fn read(stored: Option<&str>) -> (r: Option<Marker>)
        ensures
            match r {
                Some(m) => stored_marker(text::opt_str_view(stored)) == Some(m@),
                None => stored_marker(text::opt_str_view(stored)) is None,
            },
    {
        let raw = stored?;
        let value = match Json::parse(raw) {
            Ok(value) => value,
            Err(_) => {
                return None;
            },
        };
        if !value.is_record(2) {
            return None;
        }
        let attempt = json::as_integer(value.part(0, "attempt"))?;
        if attempt < 0 || attempt > 4_294_967_295 {
            return None;
        }
        let last_start = json::as_text(value.part(1, "last_start"))?;
        Some(Marker { attempt: attempt as u32, last_start })
    }

    /// The text that a marker is stored as.
    pub fn write(&self) -> (r: String)
        ensures
            r@ == json::encoded(marker_value(self@)),
    {
        self.to_value().encode()
    }

    fn to_value(&self) -> (r: Json)
        ensures
            r@ == marker_value(self@),
    {
        let mut fields: Vec<(String, Json)> = Vec::new();
        assert(json::fields_view(fields@) =~= Seq::empty());
        json::add_optional(&mut fields, "attempt", Some(Json::from_i64(self.attempt as i64)));
        json::add_optional(&mut fields, "last_start", Some(json::text_json(&self.last_start)));
        json::object(fields)
    }
}

/// Where the marker is kept.
pub struct CircuitBreaker {
    path: String,
}

/// Whether a start follows the previous one within the reset window. A previous
/// start that cannot be read is not recent.
pub open spec fn is_recent(last_start: Seq<char>, now: int) -> bool {
    time::instant_of(last_start) matches Some(previous) && now - previous < RESET_WINDOW_SECS
        * time::SECOND
}

/// The number of this attempt: one more than the last if that was recent.
pub open spec fn next_attempt_of(previous: Option<MarkerView>, now: int) -> int {
    match previous {
        Some(m) => if is_recent(m.last_start, now) {
            if m.attempt < u32::MAX {
                m.attempt + 1
            } else {
                m.attempt
            }
        } else {
            1
        },
        None => 1,
    }
}

/// The seconds to wait before a start, by attempt: 1 and 2 wait none; 3 waits
/// 10, 4 waits 30, 5 waits 120, 6 waits 300, and every later one 900.
pub open spec fn backoff(attempt: int) -> int {
    if attempt <= 2 {
        0
    } else if attempt == 3 {
        10
    } else if attempt == 4 {
        30
    } else if attempt == 5 {
        120
    } else if attempt == 6 {
        300
    } else {
        900
    }
}

/// The seconds to wait before a start, by attempt.
pub fn crash_backoff(attempt: u32) -> (r: u64)
    ensures
        r == backoff(attempt as int),
{
    if attempt <= 2 {
        0
    } else if attempt == 3 {
        10
    } else if attempt == 4 {
        30
    } else if attempt == 5 {
        120
    } else if attempt == 6 {
        300
    } else {
        900
    }
}

fn recent(last_start: &str, now: i128) -> (r: bool)
    requires
        time::valid_instant(now as int),
    ensures
        r == is_recent(last_start@, now as int),
{
    match time::parse_instant(last_start) {
        Some(previous) => within_window(previous, now),
        None => false,
    }
}

/// Whether a start at `now` follows one at `previous` within the reset window.
pub fn within_window(previous: i128, now: i128) -> (r: bool)
    requires
        time::valid_instant(previous as int),
        time::valid_instant(now as int),
    ensures
        r == (now - previous < RESET_WINDOW_SECS * time::SECOND),
{
    now - previous < RESET_WINDOW_SECS * time::SECOND
}

/// The marker that a start leaves behind.
pub open spec fn marker_after(previous: Option<MarkerView>, now: int) -> MarkerView {
    MarkerView { attempt: next_attempt_of(previous, now), last_start: time::utc_stamp_of(now)->0 }
}

impl CircuitBreaker {
    /// The path of the marker.
    pub closed spec fn view(&self) -> Seq<char> {
        self.path@
    }

    /// A guard whose marker lies in the data directory.
    pub fn new(data_dir: &str) -> (r: Self)
        ensures
            r@ == config::path_in(data_dir@, "circuit-breaker.json"@),
    {
        CircuitBreaker { path: config::join_path(data_dir, "circuit-breaker.json") }
    }

    /// The path of the marker.
    pub fn path(&self) -> (r: &str)
        ensures
            r@ == self@,
    {
        self.path.as_str()
    }

    /// Records a start: the marker to store in place of the stored one, and the
    /// seconds to wait before going on. A fast restart raises the attempt
    /// count; a start long after the previous one is attempt 1 again.
    pub fn record_start(&self, stored: Option<&str>, now: i128) -> (r: (Marker, u64))
        requires
            time::valid_instant(now as int),
        ensures
            r.0@ == marker_after(stored_marker(text::opt_str_view(stored)), now as int),
            r.1 == backoff(r.0.attempt as int),
            now >= time::YEAR_ZERO ==> time::instant_of(r.0.last_start@) == Some(now - now % time::SECOND),
    {
        let previous = Marker::read(stored);
        let attempt: u32 = match &previous {
            Some(marker) => {
                if recent(&marker.last_start, now) {
                    if marker.attempt < u32::MAX {
                        marker.attempt + 1
                    } else {
                        marker.attempt
                    }
                } else {
                    1
                }
            },
            None => 1,
        };
        let last_start = match time::utc_stamp(now) {
            Some(stamp) => stamp,
            None => String::new(),
        };
        (Marker { attempt, last_start }, crash_backoff(attempt))
    }
}

// ---------------------------------------------------------------------------
// Laws

/// The wait never shrinks from one attempt to the next and is at most a quarter
/// of an hour.
pub proof fn backoff_grows_and_is_capped(attempt: int)
    ensures
        0 <= backoff(attempt) <= backoff(attempt + 1) <= 900,
{
}

/// Reading the value that a marker is stored as gives the marker back.
pub proof fn marker_round_trips(m: MarkerView)
    requires
        0 <= m.attempt <= u32::MAX,
    ensures
        marker_of(marker_value(m)) == Some(m),
{
    broadcast use {json::lemma_lookup_with, json::lemma_lookup_empty};

    reveal_strlit("attempt");
    reveal_strlit("last_start");
    assert("attempt"@.len() == 7);
    assert("last_start"@.len() == 10);
    text::lemma_decimal_read_back(m.attempt);
}

/// Without a marker, after a clean shutdown, a start is attempt 1 and does not
/// wait.
pub proof fn clean_shutdown_resets(now: int)
    ensures
        next_attempt_of(None, now) == 1,
        backoff(next_attempt_of(None, now)) == 0,
{
}

/// An instant, cut to its second.
pub open spec fn whole_second(at: int) -> int {
    at - at % time::SECOND as int
}

/// The attempt after another one: one more if it follows within the window, counted
/// from the whole second of the other, and 1 otherwise.
pub open spec fn attempt_after(attempt: int, last: int, now: int) -> int {
    if now - whole_second(last) < RESET_WINDOW_SECS * time::SECOND {
        if attempt < u32::MAX {
            attempt + 1
        } else {
            attempt
        }
    } else {
        1
    }
}

/// The attempt that the last of some starts is, where there was no marker before
/// the first.
pub open spec fn attempt_of(starts: Seq<i128>) -> int
    decreases starts.len(),
{
    if starts.len() <= 1 {
        1
    } else {
        attempt_after(
            attempt_of(starts.drop_last()),
            starts[starts.len() - 2] as int,
            starts.last() as int,
        )
    }
}

/// A start after another, of which the marker was stored.
fn start_again(breaker: &CircuitBreaker, marker: &Marker, last: i128, now: i128) -> (r: (
    Marker,
    u64,
))
    requires
        time::instant_of(marker.last_start@) == Some(whole_second(last as int)),
        time::valid_instant(now as int),
    ensures
        r.0.attempt == attempt_after(marker.attempt as int, last as int, now as int),
        r.0.last_start@ == time::utc_stamp_of(now as int)->0,
        r.1 == backoff(r.0.attempt as int),
        now >= time::YEAR_ZERO ==> time::instant_of(r.0.last_start@) == Some(
            whole_second(now as int),
        ),
{
    let raw = marker.write();
    proof {
        broadcast use {json::lemma_lookup_with, json::lemma_lookup_empty};

        reveal_strlit("attempt");
        reveal_strlit("last_start");
        assert("attempt"@.len() == 7);
        assert("last_start"@.len() == 10);
        let value = marker_value(marker@);
        let fields = value->Object_0;
        assert(fields.len() == 2);
        assert(fields[0] == ("attempt"@, JsonView::Number(text::decimal(marker.attempt as int))));
        assert(fields[1] == ("last_start"@, JsonView::Text(marker.last_start@)));
        assert(json::plain(fields[0].1, (json::MAX_DEPTH - 1) as nat));
        assert(json::plain(fields[1].1, (json::MAX_DEPTH - 1) as nat));
        assert(json::distinct(fields));
        assert(json::plain(value, json::MAX_DEPTH as nat));
        marker_round_trips(marker@);
    }
    let again = breaker.record_start(Some(raw.as_str()), now);
    match Json::parse(&raw) {
        Ok(back) => {
            proof {
                let value = marker_value(marker@);
                assert(json::alike(value, back@));
                assert(back@ is Object);
                json::alike_objects_agree_on_every_key(
                    value->Object_0,
                    back@->Object_0,
                    "attempt"@,
                );
                json::alike_objects_agree_on_every_key(
                    value->Object_0,
                    back@->Object_0,
                    "last_start"@,
                );
                assert(marker_of(back@) == Some(marker@));
            }
        },
        Err(_) => {},
    }
    again
}

/// Two starts in a row: what the first stores is read by the second, whose
/// attempt is one more if it follows within the window, counted from the whole
/// second of the first, and 1 otherwise.
pub fn two_starts(breaker: &CircuitBreaker, stored: Option<&str>, first: i128, second: i128) -> (r:
    (Marker, Marker))
    requires
        time::YEAR_ZERO <= first <= time::LAST_INSTANT,
        time::valid_instant(second as int),
    ensures
        r.0@ == marker_after(stored_marker(text::opt_str_view(stored)), first as int),
        r.1.attempt == attempt_after(r.0.attempt as int, first as int, second as int),
        r.1.last_start@ == time::utc_stamp_of(second as int)->0,
{
    let (marker, _) = breaker.record_start(stored, first);
    let (again, _) = start_again(breaker, &marker, first, second);
    (marker, again)
}

/// Any number of starts in a row, each of which reads what the one before it
/// stored: how long each of them waits.
pub fn restarts(breaker: &CircuitBreaker, starts: &Vec<i128>) -> (r: Vec<u64>)
    requires
        forall|i: int|
            0 <= i < starts@.len() ==> time::YEAR_ZERO <= #[trigger] starts@[i]
                <= time::LAST_INSTANT,
    ensures
        r@.len() == starts@.len(),
        forall|i: int|
            0 <= i < r@.len() ==> #[trigger] r@[i] == backoff(attempt_of(starts@.take(i + 1))),
{
    let mut waits: Vec<u64> = Vec::new();
    if starts.len() == 0 {
        return waits;
    }
    let (first, wait) = breaker.record_start(None, starts[0]);
    waits.push(wait);
    let mut marker = first;
    let mut i: usize = 1;
    while i < starts.len()
        invariant
            1 <= i <= starts@.len(),
            waits@.len() == i,
            forall|j: int|
                0 <= j < starts@.len() ==> time::YEAR_ZERO <= #[trigger] starts@[j]
                    <= time::LAST_INSTANT,
            marker.attempt == attempt_of(starts@.take(i as int)),
            time::instant_of(marker.last_start@) == Some(whole_second(starts@[i - 1] as int)),
            forall|j: int|
                0 <= j < i ==> #[trigger] waits@[j] == backoff(attempt_of(starts@.take(j + 1))),
        decreases starts@.len() - i,
    {
        let (next, wait) = start_again(breaker, &marker, starts[i - 1], starts[i]);
        proof {
            let now = starts@.take(i + 1);
            assert(now.drop_last() =~= starts@.take(i as int));
        }
        waits.push(wait);
        marker = next;
        i += 1;
    }
    waits
}

/// The first two starts do not wait, and each of those that follow waits longer than
/// the one before, up to a quarter of an hour.
pub proof fn waits_grow_with_each_crash(attempt: int)
    ensures
        attempt <= 2 ==> backoff(attempt) == 0,
        2 <= attempt < 7 ==> backoff(attempt) < backoff(attempt + 1),
        3 <= attempt < 7 ==> 2 * backoff(attempt) < backoff(attempt + 1) || backoff(attempt) >= 120,
        backoff(3) == 10,
        attempt >= 7 ==> backoff(attempt) == 15 * 60,
{
}

/// A start within the hour counts one up from the one before it, and a later one, or
/// one after a start whose time cannot be read, counts from the beginning.
pub proof fn starts_within_the_hour_count_up(m: MarkerView, previous: int, now: int)
    requires
        0 <= m.attempt <= u32::MAX,
    ensures
        time::instant_of(m.last_start) == Some(previous) && now - previous < 60 * 60 * 1_000_000_000
            && m.attempt < u32::MAX ==> next_attempt_of(Some(m), now) == m.attempt + 1,
        time::instant_of(m.last_start) == Some(previous) && now - previous >= 60 * 60
            * 1_000_000_000 ==> next_attempt_of(Some(m), now) == 1,
        time::instant_of(m.last_start) is None ==> next_attempt_of(Some(m), now) == 1,
        marker_after(Some(m), now).attempt == next_attempt_of(Some(m), now),
{
}

/// A marker holds the attempt and the time of the last start, by name or by place,
/// and an attempt that no number of starts can be is refused.
pub proof fn markers_are_read_field_by_field(value: JsonView)
    ensures
        marker_of(value) matches Some(m) ==> {
            &&& json::is_record(value, 2)
            &&& json::integer_of(json::part(value, 0, "attempt"@)) == Some(m.attempt)
            &&& 0 <= m.attempt <= 0xffff_ffff
            &&& json::part(value, 1, "last_start"@) == Some(JsonView::Text(m.last_start))
        },
{
}

} // verus!
