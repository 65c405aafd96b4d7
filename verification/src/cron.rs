//! A standard five-field cron evaluator.
//! Fields: minute hour day-of-month month day-of-week. Supports `*`, numbers,
//! `,` lists, `-` ranges, and `/step`. Day-of-week 0 and 7 both mean Sunday.
//! The next occurrence is aligned to the minute grid of the time zone, so there
//! is no drift.

use vstd::prelude::*;

use crate::text;
use crate::time;
use crate::time::LocalTime;

verus! {

broadcast use vstd::string::group_string_axioms;

/// Upper bound on the minute-by-minute search (just over one year) so that an
/// expression that never matches (February 30) ends the search.
pub const SEARCH_LIMIT_MINUTES: u32 = 527_100;

/// Why a cron expression was refused.
#[derive(Debug, PartialEq, Eq)]
pub struct CronError {
    pub expr: String,
    pub reason: String,
}

impl CronError {
    /// The error as one line of text.
    pub open spec fn message_text(&self) -> Seq<char> {
        "invalid cron expression "@ + text::quoted(self.expr@) + ": "@ + self.reason@
    }

    /// The error as one line of text.
    pub fn message(&self) -> (r: String)
        ensures
            r@ == self.message_text(),
    {
        let mut out = "invalid cron expression ".to_owned();
        out.append(&text::quote(&self.expr));
        out.append(": ");
        out.append(&self.reason);
        out
    }
}

/// A parsed cron expression: one bit per allowed value of each field.
#[derive(Debug, PartialEq, Eq)]
pub struct Cron {
    minute: u64,
    hour: u64,
    day_of_month: u64,
    month: u64,
    day_of_week: u64,
    dom_restricted: bool,
    dow_restricted: bool,
}

impl Clone for Cron {
    fn clone(&self) -> (r: Self)
        ensures
            r == *self,
    {
        Cron {
            minute: self.minute,
            hour: self.hour,
            day_of_month: self.day_of_month,
            month: self.month,
            day_of_week: self.day_of_week,
            dom_restricted: self.dom_restricted,
            dow_restricted: self.dow_restricted,
        }
    }
}

/// What a cron expression allows: the values of each field, and whether the two
/// day fields were restricted. Sunday is day 0 of the week.
#[verifier::ext_equal]
pub struct Schedule {
    pub minutes: Set<int>,
    pub hours: Set<int>,
    pub days_of_month: Set<int>,
    pub months: Set<int>,
    pub days_of_week: Set<int>,
    pub dom_restricted: bool,
    pub dow_restricted: bool,
}

impl Schedule {
    /// If both day fields are restricted, a day matches either; if only one is,
    /// that one must match; otherwise any day matches.
    pub open spec fn allows_day(self, dom: int, dow: int) -> bool {
        match (self.dom_restricted, self.dow_restricted) {
            (false, false) => true,
            (true, false) => self.days_of_month.contains(dom),
            (false, true) => self.days_of_week.contains(dow),
            (true, true) => self.days_of_month.contains(dom) || self.days_of_week.contains(dow),
        }
    }

    /// Whether the schedule allows a local time.
    pub open spec fn allows(self, t: LocalTime) -> bool {
        &&& self.months.contains(t.month as int)
        &&& self.hours.contains(t.hour as int)
        &&& self.minutes.contains(t.minute as int)
        &&& self.allows_day(t.day as int, t.weekday as int)
    }

    /// Whether the schedule allows an instant in a time zone.
    pub open spec fn matches_at(self, at: int, zone: Seq<char>) -> bool {
        time::local_time_of(at, zone) matches Some(t) && self.allows(t)
    }
}

// ---------------------------------------------------------------------------
// What an expression means

/// Every `step`-th value from `lo` to `hi`.
pub open spec fn every(lo: int, hi: int, step: int) -> Set<int> {
    Set::new(|v: int| lo <= v <= hi && (v - lo) % step == 0)
}

/// A single value of a field, or the reason why it is refused.
pub open spec fn value_meaning(token: Seq<char>, min: int, max: int) -> Result<int, Seq<char>> {
    match text::unsigned(token, 255) {
        None => Err("field value is not an integer"@),
        Some(v) => if min <= v <= max {
            Ok(v)
        } else {
            Err("field value is out of range"@)
        },
    }
}

/// The range and the step, if it has one, of one part of a list: what stands
/// before and after the first `/`.
pub open spec fn part_step(part: Seq<char>) -> Result<(Seq<char>, Option<int>), Seq<char>> {
    match text::cut(part, "/"@) {
        None => Ok((part, None)),
        Some((range, step)) => match text::unsigned(step, 255) {
            Some(n) => if n > 0 {
                Ok((range, Some(n)))
            } else {
                Err("step must be a positive integer"@)
            },
            None => Err("step must be a positive integer"@),
        },
    }
}

/// The first and last value of a range. `N/step` runs from N to the field's
/// maximum; a bare `N` is a single value.
pub open spec fn range_meaning(range: Seq<char>, stepped: bool, min: int, max: int) -> Result<
    (int, int),
    Seq<char>,
> {
    if range == "*"@ {
        Ok((min, max))
    } else {
        match text::cut(range, "-"@) {
            Some((start, end)) => match value_meaning(start, min, max) {
                Err(reason) => Err(reason),
                Ok(lo) => match value_meaning(end, min, max) {
                    Err(reason) => Err(reason),
                    Ok(hi) => Ok((lo, hi)),
                },
            },
            None => match value_meaning(range, min, max) {
                Err(reason) => Err(reason),
                Ok(v) => if stepped {
                    Ok((v, max))
                } else {
                    Ok((v, v))
                },
            },
        }
    }
}

/// The values that one part of a list stands for.
pub open spec fn part_meaning(part: Seq<char>, min: int, max: int) -> Result<Set<int>, Seq<char>> {
    match part_step(part) {
        Err(reason) => Err(reason),
        Ok((range, step)) => match range_meaning(range, step is Some, min, max) {
            Err(reason) => Err(reason),
            Ok((lo, hi)) => if lo > hi {
                Err("range start is after its end"@)
            } else {
                Ok(
                    every(
                        lo,
                        hi,
                        match step {
                            Some(n) => n,
                            None => 1,
                        },
                    ),
                )
            },
        },
    }
}

/// The values that a list of parts stands for: their union, or the reason of
/// the first part that is refused.
pub open spec fn parts_meaning(parts: Seq<Seq<char>>, min: int, max: int) -> Result<
    Set<int>,
    Seq<char>,
>
    decreases parts.len(),
{
    if parts.len() == 0 {
        Ok(Set::empty())
    } else {
        match parts_meaning(parts.drop_last(), min, max) {
            Err(reason) => Err(reason),
            Ok(before) => match part_meaning(parts.last(), min, max) {
                Err(reason) => Err(reason),
                Ok(values) => Ok(before.union(values)),
            },
        }
    }
}

/// The values that a field stands for, and whether it is restricted (anything
/// but `*`).
pub open spec fn field_meaning(field: Seq<char>, min: int, max: int) -> Result<
    (Set<int>, bool),
    Seq<char>,
> {
    if field == "*"@ {
        Ok((every(min, max, 1), false))
    } else {
        match parts_meaning(text::pieces(field, ',', 0), min, max) {
            Err(reason) => Err(reason),
            Ok(values) => Ok((values, true)),
        }
    }
}

/// Day 7 of the week is day 0.
pub open spec fn fold_sunday(days: Set<int>) -> Set<int> {
    if days.contains(7) {
        days.insert(0).remove(7)
    } else {
        days
    }
}

/// What an expression allows, or the reason why it is refused.
pub open spec fn meaning(expr: Seq<char>) -> Result<Schedule, Seq<char>> {
    let fields = text::words(expr);
    if fields.len() != 5 {
        Err("expected 5 space-separated fields"@)
    } else {
        match field_meaning(fields[0], 0, 59) {
            Err(reason) => Err(reason),
            Ok((minutes, _)) => match field_meaning(fields[1], 0, 23) {
                Err(reason) => Err(reason),
                Ok((hours, _)) => match field_meaning(fields[2], 1, 31) {
                    Err(reason) => Err(reason),
                    Ok((days_of_month, dom_restricted)) => match field_meaning(fields[3], 1, 12) {
                        Err(reason) => Err(reason),
                        Ok((months, _)) => match field_meaning(fields[4], 0, 7) {
                            Err(reason) => Err(reason),
                            Ok((days, dow_restricted)) => Ok(
                                Schedule {
                                    minutes,
                                    hours,
                                    days_of_month,
                                    months,
                                    days_of_week: fold_sunday(days),
                                    dom_restricted,
                                    dow_restricted,
                                },
                            ),
                        },
                    },
                },
            },
        }
    }
}

// ---------------------------------------------------------------------------
// Value masks

/// The values whose bit is set in a mask.
pub open spec fn mask_values(mask: u64) -> Set<int> {
    Set::new(|v: int| 0 <= v < 64 && mask & (1u64 << (v as u64)) != 0)
}

proof fn lemma_mask_empty()
    ensures
        mask_values(0) =~= Set::empty(),
{
    assert forall|v: int| !mask_values(0).contains(v) by {
        let k = v as u64;
        assert(0u64 & (1u64 << k) == 0) by (bit_vector);
    }
}

proof fn lemma_mask_insert(mask: u64, bit: u64)
    requires
        bit < 64,
    ensures
        mask_values(mask | (1u64 << bit)) =~= mask_values(mask).insert(bit as int),
{
    let wider = mask | (1u64 << bit);
    assert forall|v: int| mask_values(wider).contains(v) == mask_values(mask).insert(
        bit as int,
    ).contains(v) by {
        if 0 <= v < 64 {
            let k = v as u64;
            assert((mask | (1u64 << bit)) & (1u64 << k) != 0 <==> (mask & (1u64 << k) != 0 || k
                == bit)) by (bit_vector)
                requires
                    bit < 64,
                    k < 64,
            ;
        }
    }
}

proof fn lemma_mask_union(a: u64, b: u64)
    ensures
        mask_values(a | b) =~= mask_values(a).union(mask_values(b)),
{
    assert forall|v: int|
        mask_values(a | b).contains(v) == mask_values(a).union(mask_values(b)).contains(v) by {
        let k = v as u64;
        assert((a | b) & (1u64 << k) != 0 <==> (a & (1u64 << k) != 0 || b & (1u64 << k) != 0))
            by (bit_vector);
    }
}

proof fn lemma_mask_fold(mask: u64)
    ensures
        mask_values(mask).contains(7) == (mask & (1u64 << 7u64) != 0),
        mask_values((mask | (1u64 << 0u64)) & !(1u64 << 7u64)) =~= mask_values(mask).insert(
            0,
        ).remove(7),
{
    let folded = (mask | (1u64 << 0u64)) & !(1u64 << 7u64);
    assert forall|v: int|
        mask_values(folded).contains(v) == mask_values(mask).insert(0).remove(7).contains(v) by {
        if 0 <= v < 64 {
            let k = v as u64;
            assert(((mask | (1u64 << 0u64)) & !(1u64 << 7u64)) & (1u64 << k) != 0 <==> ((mask & (
            1u64 << k) != 0 || k == 0) && k != 7)) by (bit_vector)
                requires
                    k < 64,
            ;
        }
    }
}

/// Whether the bit of a value is set.
fn has(mask: u64, value: u8) -> (r: bool)
    ensures
        r == mask_values(mask).contains(value as int),
{
    value < 64 && mask & (1u64 << (value as u64)) != 0
}

/// The mask of every `step`-th value from `lo` to `hi`.
fn range_mask(lo: u8, hi: u8, step: u8) -> (r: u64)
    requires
        lo <= hi < 64,
        step > 0,
    ensures
        mask_values(r) == every(lo as int, hi as int, step as int),
{
    let mut bits: u64 = 0;
    let mut value: u16 = lo as u16;
    let ghost mut count: int = 0;
    proof {
        lemma_mask_empty();
        assert(mask_values(bits) =~= every(lo as int, value - 1, step as int));
    }
    while value <= hi as u16
        invariant
            hi < 64,
            step > 0,
            lo <= value <= hi + step,
            count >= 0,
            value == lo + count * step,
            mask_values(bits) == every(lo as int, value - 1, step as int),
        decreases hi + step - value,
    {
        let ghost before = every(lo as int, value - 1, step as int);
        let ghost after = every(lo as int, value + step - 1, step as int);
        proof {
            lemma_mask_insert(bits, value as u64);
            assert forall|v: int| after.contains(v) == before.insert(value as int).contains(v) by {
                lemma_step(lo as int, value as int, step as int, count, v);
            }
            assert(before.insert(value as int) =~= after);
            assert((count + 1) * step == count * step + step) by (nonlinear_arith);
            count = count + 1;
        }
        bits = bits | (1u64 << (value as u64));
        value = value + step as u16;
    }
    proof {
        let reached = every(lo as int, value - 1, step as int);
        let wanted = every(lo as int, hi as int, step as int);
        assert forall|v: int| reached.contains(v) == wanted.contains(v) by {
            if hi < v < value {
                let last = value - step;
                assert(last <= hi || count == 0);
                if count > 0 {
                    assert(last == lo + (count - 1) * step) by (nonlinear_arith)
                        requires
                            value == lo + count * step,
                            last == value - step,
                    ;
                    lemma_step(lo as int, last, step as int, count - 1, v);
                }
            }
        }
        assert(reached =~= wanted);
    }
    bits
}

/// Between two neighbouring steps no value is a whole number of steps away.
proof fn lemma_step(lo: int, value: int, step: int, count: int, v: int)
    requires
        step > 0,
        count >= 0,
        value == lo + count * step,
    ensures
        (value - lo) % step == 0,
        value < v < value + step ==> (v - lo) % step != 0,
{
    vstd::arithmetic::div_mod::lemma_mod_multiples_basic(count, step);
    if value < v < value + step {
        let d = v - value;
        assert(v - lo == step * count + d) by (nonlinear_arith)
            requires
                value == lo + count * step,
                d == v - value,
        ;
        vstd::arithmetic::div_mod::lemma_mod_multiples_vanish(count, d, step);
        vstd::arithmetic::div_mod::lemma_small_mod(d as nat, step as nat);
    }
}

// ---------------------------------------------------------------------------
// Parsing

fn err(expr: &str, reason: &str) -> (r: CronError)
    ensures
        r.expr@ == expr@,
        r.reason@ == reason@,
{
    CronError { expr: expr.to_owned(), reason: reason.to_owned() }
}

fn parse_value(expr: &str, token: &str, min: u8, max: u8) -> (r: Result<u8, CronError>)
    ensures
        match r {
            Ok(v) => value_meaning(token@, min as int, max as int) == Ok::<int, Seq<char>>(v as int),
            Err(e) => e.expr@ == expr@ && value_meaning(token@, min as int, max as int) == Err::<
                int,
                Seq<char>,
            >(e.reason@),
        },
{
    let value: u8 = match text::parse_unsigned(token, 255) {
        Some(v) => v as u8,
        None => {
            return Err(err(expr, "field value is not an integer"));
        },
    };
    if value < min || value > max {
        return Err(err(expr, "field value is out of range"));
    }
    Ok(value)
}

/// The value of an optional step.
spec fn step_view(step: Option<u8>) -> Option<int> {
    match step {
        Some(n) => Some(n as int),
        None => None,
    }
}

fn parse_step(expr: &str, part: &str) -> (r: Result<(String, Option<u8>), CronError>)
    ensures
        match r {
            Ok((range, step)) => (step matches Some(n) ==> n > 0) && part_step(part@) == Ok::<
                (Seq<char>, Option<int>),
                Seq<char>,
            >((range@, step_view(step))),
            Err(e) => e.expr@ == expr@ && part_step(part@) == Err::<
                (Seq<char>, Option<int>),
                Seq<char>,
            >(e.reason@),
        },
{
    match text::split_once(part, "/") {
        Some((range, step)) => match text::parse_unsigned(&step, 255) {
            Some(n) => {
                if n > 0 {
                    Ok((range, Some(n as u8)))
                } else {
                    Err(err(expr, "step must be a positive integer"))
                }
            },
            None => Err(err(expr, "step must be a positive integer")),
        },
        None => Ok((part.to_owned(), None)),
    }
}

fn parse_range(expr: &str, range: &str, stepped: bool, min: u8, max: u8) -> (r: Result<
    (u8, u8),
    CronError,
>)
    requires
        min <= max,
    ensures
        match r {
            Ok((lo, hi)) => range_meaning(range@, stepped, min as int, max as int) == Ok::<
                (int, int),
                Seq<char>,
            >((lo as int, hi as int)),
            Err(e) => e.expr@ == expr@ && range_meaning(
                range@,
                stepped,
                min as int,
                max as int,
            ) == Err::<(int, int), Seq<char>>(e.reason@),
        },
        r matches Ok((lo, hi)) ==> lo <= max && hi <= max,
{
    if text::same(range, "*") {
        return Ok((min, max));
    }
    match text::split_once(range, "-") {
        Some((start, end)) => {
            let lo = parse_value(expr, &start, min, max)?;
            let hi = parse_value(expr, &end, min, max)?;
            Ok((lo, hi))
        },
        None => {
            let value = parse_value(expr, range, min, max)?;
            if stepped {
                Ok((value, max))
            } else {
                Ok((value, value))
            }
        },
    }
}

/// Whether a result is what a field of an expression means, its values as a mask.
pub open spec fn is_reading(
    r: Result<(u64, bool), CronError>,
    expr: Seq<char>,
    field: Seq<char>,
    min: int,
    max: int,
) -> bool {
    match r {
        Ok((bits, restricted)) => field_meaning(field, min, max) == Ok::<
            (Set<int>, bool),
            Seq<char>,
        >((mask_values(bits), restricted)),
        Err(e) => e.expr@ == expr && field_meaning(field, min, max) == Err::<
            (Set<int>, bool),
            Seq<char>,
        >(e.reason@),
    }
}

/// The value mask of a field and whether it was restricted (anything but `*`).
pub fn parse_field(expr: &str, field: &str, min: u8, max: u8) -> (r: Result<(u64, bool), CronError>)
    requires
        min <= max < 64,
    ensures
        is_reading(r, expr@, field@, min as int, max as int),
{
    if text::same(field, "*") {
        return Ok((range_mask(min, max, 1), false));
    }
    let parts = text::split(field, ',');
    let ghost all = text::views(parts@);
    let mut bits: u64 = 0;
    let mut i: usize = 0;
    proof {
        lemma_mask_empty();
        assert(all.take(0).len() == 0);
    }
    while i < parts.len()
        invariant
            i <= parts@.len(),
            min <= max < 64,
            all == text::views(parts@),
            all == text::pieces(field@, ',', 0),
            field@ != "*"@,
            parts_meaning(all.take(i as int), min as int, max as int) == Ok::<Set<int>, Seq<char>>(
                mask_values(bits),
            ),
        decreases parts@.len() - i,
    {
        let ghost now = all.take(i + 1);
        proof {
            assert(now.drop_last() == all.take(i as int));
            assert(now.last() == parts@[i as int]@);
            lemma_refused(all, i + 1, min as int, max as int);
        }
        let (range, step) = parse_step(expr, &parts[i])?;
        let (lo, hi) = parse_range(expr, &range, step.is_some(), min, max)?;
        if lo > hi {
            return Err(err(expr, "range start is after its end"));
        }
        let every_nth: u8 = match step {
            Some(n) => n,
            None => 1,
        };
        let part_bits = range_mask(lo, hi, every_nth);
        proof {
            lemma_mask_union(bits, part_bits);
        }
        bits = bits | part_bits;
        i += 1;
    }
    assert(all.take(i as int) == all);
    Ok((bits, true))
}

/// A list is refused as soon as a part of it is.
proof fn lemma_refused(parts: Seq<Seq<char>>, k: int, min: int, max: int)
    requires
        0 <= k <= parts.len(),
    ensures
        parts_meaning(parts.take(k), min, max) matches Err(reason) ==> parts_meaning(
            parts,
            min,
            max,
        ) == Err::<Set<int>, Seq<char>>(reason),
    decreases parts.len() - k,
{
    if k < parts.len() {
        assert(parts.take(k + 1).drop_last() == parts.take(k));
        lemma_refused(parts, k + 1, min, max);
    } else {
        assert(parts.take(k) == parts);
    }
}

impl Cron {
    /// What the expression allows.
    pub closed spec fn view(&self) -> Schedule {
        Schedule {
            minutes: mask_values(self.minute),
            hours: mask_values(self.hour),
            days_of_month: mask_values(self.day_of_month),
            months: mask_values(self.month),
            days_of_week: mask_values(self.day_of_week),
            dom_restricted: self.dom_restricted,
            dow_restricted: self.dow_restricted,
        }
    }

    /// Parses an expression of five fields.
    pub fn parse(expr: &str) -> (r: Result<Self, CronError>)
        ensures
            match r {
                Ok(cron) => meaning(expr@) == Ok::<Schedule, Seq<char>>(cron@),
                Err(e) => e.expr@ == expr@ && meaning(expr@) == Err::<Schedule, Seq<char>>(e.reason@),
            },
    {
        let fields = text::split_whitespace(expr);
        assert(fields@.len() == text::views(fields@).len());
        if fields.len() != 5 {
            return Err(err(expr, "expected 5 space-separated fields"));
        }
        let (minute, _) = parse_field(expr, &fields[0], 0, 59)?;
        let (hour, _) = parse_field(expr, &fields[1], 0, 23)?;
        let (day_of_month, dom_restricted) = parse_field(expr, &fields[2], 1, 31)?;
        let (month, _) = parse_field(expr, &fields[3], 1, 12)?;
        let (parsed_days, dow_restricted) = parse_field(expr, &fields[4], 0, 7)?;
        let mut day_of_week: u64 = parsed_days;
        // Fold Sunday-as-7 into Sunday-as-0 so matching uses 0..=6.
        proof {
            lemma_mask_fold(day_of_week);
        }
        if day_of_week & (1u64 << 7u64) != 0 {
            day_of_week = (day_of_week | (1u64 << 0u64)) & !(1u64 << 7u64);
        }
        Ok(
            Self {
                minute,
                hour,
                day_of_month,
                month,
                day_of_week,
                dom_restricted,
                dow_restricted,
            },
        )
    }

    /// The first instant after `after` at which the expression matches in the
    /// time zone: the minute grid is walked from the start of the minute that
    /// follows `after`, for at most `SEARCH_LIMIT_MINUTES` steps.
    pub fn next_after(&self, after: i128, zone: &str) -> (r: Option<i128>)
        ensures
            match r {
                Some(at) => next_occurrence(self@, after as int, zone@) == Some(at as int),
                None => next_occurrence(self@, after as int, zone@) is None,
            },
            zone@ == "UTC"@ && 0 <= after <= time::LAST_INSTANT ==> (r matches Some(at) ==> after
                < at && at % time::MINUTE == 0),
    {
        let start = match time::floor_to_minute(after, zone) {
            Some(start) => start,
            None => {
                return None;
            },
        };
        let mut at: i128 = start + time::MINUTE;
        let mut step: u32 = 0;
        while step < SEARCH_LIMIT_MINUTES
            invariant
                step <= SEARCH_LIMIT_MINUTES,
                time::valid_instant(start as int),
                at == start + time::MINUTE * (step + 1),
                first_match(self@, start + time::MINUTE, zone@, SEARCH_LIMIT_MINUTES as nat)
                    == first_match(
                    self@,
                    at as int,
                    zone@,
                    (SEARCH_LIMIT_MINUTES - step) as nat,
                ),
                time::minute_start(after as int, zone@) == Some(start as int),
                zone@ == "UTC"@ && 0 <= after <= time::LAST_INSTANT ==> after < at && at
                    % time::MINUTE == 0,
            decreases SEARCH_LIMIT_MINUTES - step,
        {
            let local = match time::local_time(at, zone) {
                Some(local) => local,
                None => {
                    return None;
                },
            };
            if self.matches(&local) {
                return Some(at);
            }
            at = at + time::MINUTE;
            step += 1;
        }
        None
    }

    /// Whether the expression allows a local time.
    fn matches(&self, local: &LocalTime) -> (r: bool)
        ensures
            r == self@.allows(*local),
    {
        has(self.month, local.month) && has(self.hour, local.hour) && has(
            self.minute,
            local.minute,
        ) && self.day_matches(local.day, local.weekday)
    }

    /// If both day fields are restricted, a day matches either; if only one is
    /// restricted, that one must match; otherwise any day.
    fn day_matches(&self, dom: u8, dow: u8) -> (r: bool)
        ensures
            r == self@.allows_day(dom as int, dow as int),
    {
        let dom_ok = has(self.day_of_month, dom);
        let dow_ok = has(self.day_of_week, dow);
        match (self.dom_restricted, self.dow_restricted) {
            (false, false) => true,
            (true, false) => dom_ok,
            (false, true) => dow_ok,
            (true, true) => dom_ok || dow_ok,
        }
    }
}

/// The first instant on the grid `at`, `at + 1 minute`, ... that the schedule
/// allows, among the first `fuel` instants; none once the grid leaves the
/// calendar.
pub open spec fn first_match(schedule: Schedule, at: int, zone: Seq<char>, fuel: nat) -> Option<int>
    decreases fuel,
{
    if fuel == 0 {
        None
    } else {
        match time::local_time_of(at, zone) {
            None => None,
            Some(t) => if schedule.allows(t) {
                Some(at)
            } else {
                first_match(schedule, at + time::MINUTE, zone, (fuel - 1) as nat)
            },
        }
    }
}

/// The next occurrence of a schedule after an instant.
pub open spec fn next_occurrence(schedule: Schedule, after: int, zone: Seq<char>) -> Option<int> {
    match time::minute_start(after, zone) {
        None => None,
        Some(start) => first_match(
            schedule,
            start + time::MINUTE,
            zone,
            SEARCH_LIMIT_MINUTES as nat,
        ),
    }
}

/// The text of the next occurrence after the timestamp text `after`.
pub open spec fn next_stamp(schedule: Schedule, after: Seq<char>, zone: Seq<char>) -> Option<
    Seq<char>,
> {
    match time::instant_of(after) {
        None => None,
        Some(from) => match next_occurrence(schedule, from, zone) {
            None => None,
            Some(at) => time::utc_stamp_of(at),
        },
    }
}

/// Next occurrence after a UTC timestamp text, evaluated in the time zone,
/// written as stored timestamps are, so that the two compare as texts.
pub fn next_after_utc(cron: &Cron, after_utc: &str, zone: &str) -> (r: Option<String>)
    ensures
        match r {
            Some(stamp) => next_stamp(cron@, after_utc@, zone@) == Some(stamp@),
            None => next_stamp(cron@, after_utc@, zone@) is None,
        },
{
    let after = time::parse_instant(after_utc)?;
    let next = cron.next_after(after, zone)?;
    time::utc_stamp(next)
}

// ---------------------------------------------------------------------------
// Laws

/// An occurrence lies on the minute grid that starts one minute after the
/// minute of `after`; the schedule allows it, and allows no earlier instant of
/// the grid.
pub proof fn next_occurrence_is_the_first_match(schedule: Schedule, after: int, zone: Seq<char>)
    ensures
        next_occurrence(schedule, after, zone) matches Some(at) ==> {
            let start = time::minute_start(after, zone)->0;
            &&& time::minute_start(after, zone) is Some
            &&& schedule.matches_at(at, zone)
            &&& exists|k: int|
                1 <= k <= SEARCH_LIMIT_MINUTES && at == start + #[trigger] (k * time::MINUTE)
            &&& forall|k: int|
                1 <= k && start + #[trigger] (k * time::MINUTE) < at ==> !schedule.matches_at(
                    start + k * time::MINUTE,
                    zone,
                )
        },
{
    if let Some(start) = time::minute_start(after, zone) {
        lemma_first_match(schedule, start, zone, 1, SEARCH_LIMIT_MINUTES as nat);
    }
}

proof fn lemma_first_match(schedule: Schedule, start: int, zone: Seq<char>, k: int, fuel: nat)
    requires
        k >= 1,
    ensures
        first_match(schedule, start + k * time::MINUTE, zone, fuel) matches Some(at) ==> {
            &&& schedule.matches_at(at, zone)
            &&& exists|j: int| k <= j < k + fuel && at == start + #[trigger] (j * time::MINUTE)
            &&& forall|j: int|
                k <= j && start + #[trigger] (j * time::MINUTE) < at ==> !schedule.matches_at(
                    start + j * time::MINUTE,
                    zone,
                )
        },
    decreases fuel,
{
    let here = start + k * time::MINUTE;
    if fuel > 0 {
        if let Some(t) = time::local_time_of(here, zone) {
            if !schedule.allows(t) {
                assert((k + 1) * time::MINUTE == k * time::MINUTE + time::MINUTE);
                lemma_first_match(schedule, start, zone, k + 1, (fuel - 1) as nat);
                if let Some(at) = first_match(
                    schedule,
                    start + (k + 1) * time::MINUTE,
                    zone,
                    (fuel - 1) as nat,
                ) {
                    assert forall|j: int|
                        k <= j && start + #[trigger] (j * time::MINUTE)
                            < at implies !schedule.matches_at(start + j * time::MINUTE, zone) by {
                        if j == k {
                            assert(!schedule.matches_at(here, zone));
                        }
                    }
                }
            }
        }
    }
}

/// Where the start of the minute of `after` is at most a minute back, as it is
/// away from changes of the zone's offset inside a minute, an occurrence comes
/// strictly after `after`.
pub proof fn next_occurrence_is_strictly_later(schedule: Schedule, after: int, zone: Seq<char>)
    ensures
        time::minute_start(after, zone) matches Some(start) ==> start <= after < start
            + time::MINUTE ==> (next_occurrence(schedule, after, zone) matches Some(at) ==> after
            < at),
{
    next_occurrence_is_the_first_match(schedule, after, zone);
    if let Some(start) = time::minute_start(after, zone) {
        if let Some(at) = next_occurrence(schedule, after, zone) {
            let k = choose|k: int|
                1 <= k <= SEARCH_LIMIT_MINUTES && at == start + #[trigger] (k * time::MINUTE);
            assert(k * time::MINUTE >= time::MINUTE);
        }
    }
}

/// The values of a field lie in its range.
pub proof fn field_values_are_in_range(field: Seq<char>, min: int, max: int)
    requires
        min <= max,
    ensures
        field_meaning(field, min, max) matches Ok((values, _)) ==> forall|v: int|
            values.contains(v) ==> min <= v <= max,
{
    lemma_parts_in_range(text::pieces(field, ',', 0), min, max);
}

proof fn lemma_parts_in_range(parts: Seq<Seq<char>>, min: int, max: int)
    requires
        min <= max,
    ensures
        parts_meaning(parts, min, max) matches Ok(values) ==> forall|v: int|
            values.contains(v) ==> min <= v <= max,
    decreases parts.len(),
{
    if parts.len() > 0 {
        lemma_parts_in_range(parts.drop_last(), min, max);
    }
}

proof fn lemma_parts_join(a: Seq<Seq<char>>, b: Seq<Seq<char>>, min: int, max: int)
    requires
        parts_meaning(a, min, max) is Ok,
        parts_meaning(b, min, max) is Ok,
    ensures
        parts_meaning(a + b, min, max) == Ok::<Set<int>, Seq<char>>(
            parts_meaning(a, min, max)->Ok_0.union(parts_meaning(b, min, max)->Ok_0),
        ),
    decreases b.len(),
{
    let x = parts_meaning(a, min, max)->Ok_0;
    let y = parts_meaning(b, min, max)->Ok_0;
    if b.len() == 0 {
        assert(a + b =~= a);
        assert(x.union(y) =~= x);
    } else {
        assert((a + b).drop_last() =~= a + b.drop_last());
        assert((a + b).last() == b.last());
        lemma_parts_join(a, b.drop_last(), min, max);
        let before = parts_meaning(b.drop_last(), min, max)->Ok_0;
        let last = part_meaning(b.last(), min, max)->Ok_0;
        assert(x.union(before).union(last) =~= x.union(before.union(last)));
    }
}

proof fn lemma_field_is_its_parts(field: Seq<char>, min: int, max: int)
    requires
        min <= max,
        field_meaning(field, min, max) is Ok,
    ensures
        parts_meaning(text::pieces(field, ',', 0), min, max) == Ok::<Set<int>, Seq<char>>(
            field_meaning(field, min, max)->Ok_0.0,
        ),
{
    if field == "*"@ {
        reveal_strlit("*");
        reveal_strlit("/");
        text::lemma_one_piece(field, ',');
        let parts = seq![field];
        assert(!text::within(field, "/"@)) by {
            assert forall|i: int| !text::at(field, "/"@, i) by {
                if text::at(field, "/"@, i) {
                    assert(field.subrange(i, i + 1)[0] == "/"@[0]);
                }
            }
        }
        assert(parts.drop_last() =~= Seq::empty());
        assert(parts_meaning(parts.drop_last(), min, max) == Ok::<Set<int>, Seq<char>>(
            Set::empty(),
        ));
        assert(Set::empty().union(every(min, max, 1)) =~= every(min, max, 1));
    }
}

/// A list means what its parts mean together, and is always restricted.
pub proof fn lists_are_unions(a: Seq<char>, b: Seq<char>, min: int, max: int)
    requires
        min <= max,
        field_meaning(a, min, max) is Ok,
        field_meaning(b, min, max) is Ok,
    ensures
        field_meaning(a + ","@ + b, min, max) == Ok::<(Set<int>, bool), Seq<char>>(
            (field_meaning(a, min, max)->Ok_0.0.union(field_meaning(b, min, max)->Ok_0.0), true),
        ),
{
    reveal_strlit("*");
    reveal_strlit(",");
    let list = a + ","@ + b;
    assert(list[a.len() as int] == ',');
    lemma_field_is_its_parts(a, min, max);
    lemma_field_is_its_parts(b, min, max);
    text::lemma_pieces_join(a, ',', b);
    assert(list =~= a.push(',') + b);
    lemma_parts_join(text::pieces(a, ',', 0), text::pieces(b, ',', 0), min, max);
}

/// Whether a bit of a mask is set.
spec fn bit(mask: u64, k: u64) -> bool {
    mask & (1u64 << k) != 0
}

proof fn lemma_same_bits(a: u64, b: u64)
    requires
        forall|k: u64| k < 64 ==> #[trigger] bit(a, k) == bit(b, k),
    ensures
        a == b,
    decreases a + b,
{
    assert(bit(a, 0) == bit(b, 0));
    if a != 0 || b != 0 {
        let x = a >> 1u64;
        let y = b >> 1u64;
        assert forall|k: u64| k < 64 implies #[trigger] bit(x, k) == bit(y, k) by {
            if k < 63 {
                let next = (k + 1) as u64;
                assert(bit(a, next) == bit(b, next));
                assert((a >> 1u64) & (1u64 << k) != 0 <==> a & (1u64 << next) != 0) by (bit_vector)
                    requires
                        k < 63,
                        next == k + 1,
                ;
                assert((b >> 1u64) & (1u64 << k) != 0 <==> b & (1u64 << next) != 0) by (bit_vector)
                    requires
                        k < 63,
                        next == k + 1,
                ;
            } else {
                assert((a >> 1u64) & (1u64 << 63u64) == 0) by (bit_vector);
                assert((b >> 1u64) & (1u64 << 63u64) == 0) by (bit_vector);
            }
        }
        assert(a >> 1u64 <= a && (a != 0 ==> a >> 1u64 < a)) by (bit_vector);
        assert(b >> 1u64 <= b && (b != 0 ==> b >> 1u64 < b)) by (bit_vector);
        lemma_same_bits(x, y);
        assert(a == b) by (bit_vector)
            requires
                a >> 1u64 == b >> 1u64,
                (a & (1u64 << 0u64) != 0) == (b & (1u64 << 0u64) != 0),
        ;
    }
}

proof fn lemma_masks_differ(a: u64, b: u64)
    requires
        mask_values(a) == mask_values(b),
    ensures
        a == b,
{
    assert forall|k: u64| k < 64 implies #[trigger] bit(a, k) == bit(b, k) by {
        let v = k as int;
        assert(mask_values(a).contains(v) <==> bit(a, v as u64));
        assert(mask_values(b).contains(v) <==> bit(b, v as u64));
    }
    lemma_same_bits(a, b);
}

/// Reads two fields and the list of both: where each of the two is a field, the
/// mask of the list is theirs together, and the list is restricted.
pub fn parse_list(expr: &str, a: &str, b: &str, min: u8, max: u8) -> (r: (
    Result<(u64, bool), CronError>,
    Result<(u64, bool), CronError>,
    Result<(u64, bool), CronError>,
))
    requires
        min <= max < 64,
    ensures
        is_reading(r.0, expr@, a@, min as int, max as int),
        is_reading(r.1, expr@, b@, min as int, max as int),
        is_reading(r.2, expr@, a@ + ","@ + b@, min as int, max as int),
        match r {
            (Ok((x, _)), Ok((y, _)), list) => list matches Ok((bits, restricted)) && bits == x | y
                && restricted,
            _ => true,
        },
{
    let first = parse_field(expr, a, min, max);
    let second = parse_field(expr, b, min, max);
    let both = text::concat3(a, ",", b);
    let list = parse_field(expr, &both, min, max);
    proof {
        if first is Ok && second is Ok {
            let x = first->Ok_0.0;
            let y = second->Ok_0.0;
            lists_are_unions(a@, b@, min as int, max as int);
            lemma_mask_union(x, y);
            lemma_masks_differ(list->Ok_0.0, x | y);
        }
    }
    (first, second, list)
}

/// Sunday is day 0 whether it was written 0 or 7, and day 7 never remains.
pub proof fn sunday_is_zero_or_seven(expr: Seq<char>)
    ensures
        meaning(expr) matches Ok(schedule) ==> {
            let written = field_meaning(text::words(expr)[4], 0, 7)->Ok_0.0;
            &&& schedule.days_of_week.contains(0) <==> written.contains(0) || written.contains(7)
            &&& forall|d: int|
                schedule.days_of_week.contains(d) ==> 0 <= d <= 6
            &&& forall|d: int|
                1 <= d <= 6 ==> (schedule.days_of_week.contains(d) <==> written.contains(d))
        },
{
    field_values_are_in_range(text::words(expr)[4], 0, 7);
}

/// With both day fields open, a day is never the reason for no match; with one
/// of them restricted, that one decides; with both, either.
pub proof fn day_rule(schedule: Schedule, dom: int, dow: int)
    ensures
        schedule.allows_day(dom, dow) <==> {
            ||| !schedule.dom_restricted && !schedule.dow_restricted
            ||| schedule.dom_restricted && schedule.days_of_month.contains(dom)
            ||| schedule.dow_restricted && schedule.days_of_week.contains(dow)
        },
{
}

proof fn lemma_number_has_no_mark(s: Seq<char>, mark: char)
    requires
        text::unsigned(s, 255) is Some,
        mark == '-' || mark == '/' || mark == ',' || mark == '*',
    ensures
        !s.contains(mark),
{
    if s.contains(mark) {
        let i = choose|i: int| 0 <= i < s.len() && s[i] == mark;
        text::numbers_hold_digits(s, 255, i);
    }
}

proof fn lemma_one_part(field: Seq<char>, min: int, max: int)
    requires
        field != "*"@,
        !field.contains(','),
    ensures
        field_meaning(field, min, max) == (match part_meaning(field, min, max) {
            Ok(values) => Ok::<(Set<int>, bool), Seq<char>>((values, true)),
            Err(reason) => Err(reason),
        }),
{
    text::lemma_one_piece(field, ',');
    let parts = seq![field];
    assert(parts.drop_last() =~= Seq::empty());
    assert(parts_meaning(parts.drop_last(), min, max) == Ok::<Set<int>, Seq<char>>(Set::empty()));
    if let Ok(values) = part_meaning(field, min, max) {
        assert(Set::empty().union(values) =~= values);
    }
}

/// A range `a-b` stands for all values from its start to its end, and a range with a
/// step, `a-b/n`, for every n-th of them: none beyond the end that is written. A
/// range that runs backwards is refused.
pub proof fn ranges_end_where_they_say(
    a: Seq<char>,
    b: Seq<char>,
    n: Seq<char>,
    min: int,
    max: int,
)
    requires
        text::unsigned(a, 255) matches Some(lo) && min <= lo <= max,
        text::unsigned(b, 255) matches Some(hi) && min <= hi <= max,
        text::unsigned(n, 255) matches Some(step) && step > 0,
    ensures
        ({
            let lo = text::unsigned(a, 255)->0;
            let hi = text::unsigned(b, 255)->0;
            let step = text::unsigned(n, 255)->0;
            let range = a + "-"@ + b;
            &&& lo <= hi ==> {
                &&& field_meaning(range, min, max) matches Ok((values, restricted)) && restricted
                    && forall|v: int| values.contains(v) <==> lo <= v <= hi
                &&& field_meaning(range + "/"@ + n, min, max) matches Ok((values, restricted))
                    && restricted && forall|v: int|
                    values.contains(v) <==> lo <= v <= hi && (v - lo) % step == 0
            }
            &&& lo > hi ==> field_meaning(range, min, max) is Err && field_meaning(
                range + "/"@ + n,
                min,
                max,
            ) is Err
        }),
{
    reveal_strlit("-");
    reveal_strlit("/");
    reveal_strlit("*");
    lemma_number_has_no_mark(a, '-');
    lemma_number_has_no_mark(a, '/');
    lemma_number_has_no_mark(a, ',');
    lemma_number_has_no_mark(b, '/');
    lemma_number_has_no_mark(b, ',');
    lemma_number_has_no_mark(n, ',');
    let range = a + "-"@ + b;
    let stepped = range + "/"@ + n;
    assert(range[a.len() as int] == '-');
    assert(stepped[a.len() as int] == '-');
    assert("*"@[0] == '*' && "*"@.len() == 1);
    assert(range != "*"@) by {
        if range == "*"@ {
            assert(a.len() == 0);
            assert(range[0] == '-');
        }
    }
    assert(stepped != "*"@) by {
        if stepped == "*"@ {
            assert(a.len() == 0);
            assert(stepped[0] == '-');
        }
    }
    assert(!range.contains('/')) by {
        assert forall|i: int| 0 <= i < range.len() implies range[i] != '/' by {
            if i < a.len() {
                assert(range[i] == a[i]);
            } else if i > a.len() {
                assert(range[i] == b[i - a.len() - 1]);
            }
        }
    }
    assert(!range.contains(',')) by {
        assert forall|i: int| 0 <= i < range.len() implies range[i] != ',' by {
            if i < a.len() {
                assert(range[i] == a[i]);
            } else if i > a.len() {
                assert(range[i] == b[i - a.len() - 1]);
            }
        }
    }
    assert(!stepped.contains(',')) by {
        assert forall|i: int| 0 <= i < stepped.len() implies stepped[i] != ',' by {
            if i < range.len() {
                assert(stepped[i] == range[i]);
            } else if i > range.len() {
                assert(stepped[i] == n[i - range.len() - 1]);
            }
        }
    }
    text::texts_are_cut_at_the_first_separator(a, "-"@, b);
    text::texts_are_cut_at_the_first_separator(range, "/"@, n);
    lemma_one_part(range, min, max);
    lemma_one_part(stepped, min, max);
}

/// A bare number stands for itself, `a/n` for every n-th value from it to the
/// field's last one, and `*/n` for every n-th value of the field.
pub proof fn steps_run_to_the_end_of_the_field(
    a: Seq<char>,
    n: Seq<char>,
    min: int,
    max: int,
)
    requires
        text::unsigned(a, 255) matches Some(lo) && min <= lo <= max,
        text::unsigned(n, 255) matches Some(step) && step > 0,
    ensures
        ({
            let lo = text::unsigned(a, 255)->0;
            let step = text::unsigned(n, 255)->0;
            &&& field_meaning(a, min, max) matches Ok((values, restricted)) && restricted && forall|
                v: int,
            | values.contains(v) <==> v == lo
            &&& field_meaning(a + "/"@ + n, min, max) matches Ok((values, restricted)) && restricted
                && forall|v: int| values.contains(v) <==> lo <= v <= max && (v - lo) % step == 0
            &&& field_meaning("*"@ + "/"@ + n, min, max) matches Ok((values, restricted))
                && restricted && forall|v: int|
                values.contains(v) <==> min <= v <= max && (v - min) % step == 0
        }),
{
    reveal_strlit("-");
    reveal_strlit("/");
    reveal_strlit("*");
    lemma_number_has_no_mark(a, '-');
    lemma_number_has_no_mark(a, '/');
    lemma_number_has_no_mark(a, ',');
    lemma_number_has_no_mark(a, '*');
    lemma_number_has_no_mark(n, ',');
    let stepped = a + "/"@ + n;
    let all = "*"@ + "/"@ + n;
    assert("*"@[0] == '*' && "*"@.len() == 1);
    assert(a != "*"@) by {
        if a == "*"@ {
            assert(a[0] == '*');
        }
    }
    assert(stepped != "*"@) by {
        if stepped == "*"@ {
            assert(a.len() == 0);
            assert(stepped[0] == '/');
        }
    }
    assert(all.len() > 1);
    assert(!"*"@.contains('/'));
    assert(!stepped.contains(',')) by {
        assert forall|i: int| 0 <= i < stepped.len() implies stepped[i] != ',' by {
            if i < a.len() {
                assert(stepped[i] == a[i]);
            } else if i > a.len() {
                assert(stepped[i] == n[i - a.len() - 1]);
            }
        }
    }
    assert(!all.contains(',')) by {
        assert forall|i: int| 0 <= i < all.len() implies all[i] != ',' by {
            if i > 1 {
                assert(all[i] == n[i - 2]);
            }
        }
    }
    text::texts_are_cut_at_the_first_separator(a, "-"@, n);
    text::texts_are_cut_at_the_first_separator(a, "/"@, n);
    text::texts_are_cut_at_the_first_separator("*"@, "/"@, n);
    lemma_one_part(a, min, max);
    lemma_one_part(stepped, min, max);
    lemma_one_part(all, min, max);
}

/// A star stands for all values of the field, and is the one field that restricts
/// nothing.
pub proof fn only_a_star_restricts_nothing(field: Seq<char>, min: int, max: int)
    ensures
        field_meaning("*"@, min, max) matches Ok((values, restricted)) && !restricted && forall|
            v: int,
        | values.contains(v) <==> min <= v <= max,
        field != "*"@ ==> (field_meaning(field, min, max) matches Ok((_, restricted)) ==> restricted),
{
}

/// A number out of the field's range is refused, and so is a step of nothing.
pub proof fn fields_refuse_what_is_out_of_range(
    a: Seq<char>,
    range: Seq<char>,
    n: Seq<char>,
    min: int,
    max: int,
)
    requires
        text::unsigned(a, 255) matches Some(v) && !(min <= v <= max),
        text::unsigned(n, 255) == Some(0int),
        !range.contains('/'),
        !range.contains(','),
    ensures
        field_meaning(a, min, max) is Err,
        field_meaning(range + "/"@ + n, min, max) is Err,
{
    reveal_strlit("-");
    reveal_strlit("/");
    reveal_strlit("*");
    lemma_number_has_no_mark(a, '-');
    lemma_number_has_no_mark(a, '/');
    lemma_number_has_no_mark(a, ',');
    lemma_number_has_no_mark(a, '*');
    lemma_number_has_no_mark(n, ',');
    assert("*"@[0] == '*' && "*"@.len() == 1);
    assert(a != "*"@) by {
        if a == "*"@ {
            assert(a[0] == '*');
        }
    }
    let stepped = range + "/"@ + n;
    assert(stepped[range.len() as int] == '/');
    assert(stepped != "*"@) by {
        if stepped == "*"@ {
            assert(stepped[0] == '*');
            assert(stepped.len() == 1);
            assert(range.len() == 0);
        }
    }
    assert(!stepped.contains(',')) by {
        assert forall|i: int| 0 <= i < stepped.len() implies stepped[i] != ',' by {
            if i < range.len() {
                assert(stepped[i] == range[i]);
            } else if i > range.len() {
                assert(stepped[i] == n[i - range.len() - 1]);
            }
        }
    }
    text::texts_are_cut_at_the_first_separator(a, "-"@, n);
    text::texts_are_cut_at_the_first_separator(a, "/"@, n);
    text::texts_are_cut_at_the_first_separator(range, "/"@, n);
    lemma_one_part(a, min, max);
    lemma_one_part(stepped, min, max);
}

/// The five fields of an expression are minutes, hours, days of the month, months
/// and days of the week, in this order. A time is allowed if each of its parts is,
/// the day by the rule of the two day fields.
pub proof fn fields_are_read_in_order(expr: Seq<char>, t: LocalTime)
    requires
        text::words(expr).len() == 5,
        t.weekday <= 6,
    ensures
        ({
            let f = text::words(expr);
            let minutes = field_meaning(f[0], 0, 59);
            let hours = field_meaning(f[1], 0, 23);
            let days = field_meaning(f[2], 1, 31);
            let months = field_meaning(f[3], 1, 12);
            let weekdays = field_meaning(f[4], 0, 7);
            &&& meaning(expr) is Ok <==> minutes is Ok && hours is Ok && days is Ok && months is Ok
                && weekdays is Ok
            &&& meaning(expr) matches Ok(schedule) ==> (schedule.allows(t) <==> {
                let dom = days->Ok_0.0.contains(t.day as int);
                let dow = weekdays->Ok_0.0.contains(t.weekday as int) || (t.weekday == 0
                    && weekdays->Ok_0.0.contains(7));
                let by_month = days->Ok_0.1;
                let by_week = weekdays->Ok_0.1;
                &&& minutes->Ok_0.0.contains(t.minute as int)
                &&& hours->Ok_0.0.contains(t.hour as int)
                &&& months->Ok_0.0.contains(t.month as int)
                &&& if by_month && by_week {
                    dom || dow
                } else {
                    (by_month ==> dom) && (by_week ==> dow)
                }
            })
        }),
{
}

/// An expression that does not have five fields is refused.
pub proof fn expressions_have_five_fields(expr: Seq<char>)
    ensures
        text::words(expr).len() != 5 ==> meaning(expr) is Err,
{
}

/// The search misses nothing: where an instant of the grid matches, within a year
/// and with all before it in the calendar, there is an occurrence, and it is no
/// later.
pub proof fn the_search_misses_nothing(
    schedule: Schedule,
    after: int,
    zone: Seq<char>,
    start: int,
    k: int,
)
    requires
        time::minute_start(after, zone) == Some(start),
        1 <= k <= 366 * 24 * 60,
        schedule.matches_at(start + k * time::MINUTE, zone),
        forall|j: int|
            1 <= j <= k ==> time::local_time_of(start + #[trigger] (j * time::MINUTE), zone) is Some,
    ensures
        next_occurrence(schedule, after, zone) matches Some(at) && at <= start + k * time::MINUTE,
{
    lemma_search(schedule, start, zone, 1, k, SEARCH_LIMIT_MINUTES as nat);
    assert(1 * time::MINUTE == time::MINUTE);
}

proof fn lemma_search(
    schedule: Schedule,
    start: int,
    zone: Seq<char>,
    from: int,
    k: int,
    fuel: nat,
)
    requires
        1 <= from <= k < from + fuel,
        schedule.matches_at(start + k * time::MINUTE, zone),
        forall|j: int|
            1 <= j <= k ==> time::local_time_of(start + #[trigger] (j * time::MINUTE), zone) is Some,
    ensures
        first_match(schedule, start + from * time::MINUTE, zone, fuel) matches Some(at) && at
            <= start + k * time::MINUTE,
    decreases k - from,
{
    let here = start + from * time::MINUTE;
    assert(time::local_time_of(start + from * time::MINUTE, zone) is Some);
    assert(from * time::MINUTE <= k * time::MINUTE);
    if from < k && !schedule.matches_at(here, zone) {
        assert((from + 1) * time::MINUTE == from * time::MINUTE + time::MINUTE);
        lemma_search(schedule, start, zone, from + 1, k, (fuel - 1) as nat);
    }
}

} // verus!
