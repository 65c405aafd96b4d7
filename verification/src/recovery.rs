//! What happens to a message whose run failed: retry later, or give up.

use vstd::arithmetic::power2::pow2;
use vstd::prelude::*;

use crate::time;

verus! {

broadcast use vstd::string::group_string_axioms;

/// After this many attempts a message is abandoned.
pub const MAX_TRIES: i64 = 5;

/// A run that emits no provider event for this many seconds is presumed stuck.
pub const WATCHDOG_TIMEOUT_SECS: u64 = 600;

/// What to do with a failed message.
#[derive(Debug, Clone, Copy, PartialEq, Eq, Structural)]
pub enum Retry {
    /// Give up: mark the message failed.
    Fail,
    /// Try again after this many seconds.
    After(u64),
}

/// The seconds to wait after the given attempt: five, doubled with each attempt
/// after the first. A count of doublings that 32 bits do not hold counts as none.
pub open spec fn retry_delay(tries: int) -> nat {
    if tries <= 1 || tries - 1 > u32::MAX {
        5
    } else {
        5 * pow2((tries - 1) as nat)
    }
}

/// `tries` counts the attempt that just failed. 1, 2, 3 and 4 attempts wait 5,
/// 10, 20 and 40 seconds; from `max_tries` on the message has failed. The wait has
/// to be a number of seconds that 64 bits hold.
pub fn retry_decision(tries: i64, max_tries: i64) -> (r: Retry)
    requires
        tries < max_tries ==> retry_delay(tries as int) <= u64::MAX,
    ensures
        tries >= max_tries ==> r == Retry::Fail,
        tries < max_tries ==> (r matches Retry::After(seconds) && seconds == retry_delay(
            tries as int,
        )),
{
    if tries >= max_tries {
        return Retry::Fail;
    }
    let exponent: i64 = if tries > 1 && tries - 1 <= u32::MAX as i64 {
        tries - 1
    } else {
        0
    };
    proof {
        if exponent > 61 {
            vstd::arithmetic::power2::lemma2_to64_rest();
            if exponent > 62 {
                vstd::arithmetic::power2::lemma_pow2_strictly_increases(62, exponent as nat);
            }
        }
    }
    let mut delay: u64 = 5;
    let mut i: i64 = 0;
    proof {
        vstd::arithmetic::power2::lemma2_to64();
    }
    while i < exponent
        invariant
            0 <= i <= exponent <= 61,
            delay == 5 * pow2(i as nat),
            pow2(i as nat) <= 0x2000_0000_0000_0000,
        decreases exponent - i,
    {
        proof {
            vstd::arithmetic::power2::lemma_pow2_unfold((i + 1) as nat);
            lemma_pow2_small((i + 1) as nat);
        }
        delay = delay * 2;
        i += 1;
    }
    Retry::After(delay)
}

proof fn lemma_pow2_small(e: nat)
    requires
        e <= 61,
    ensures
        pow2(e) <= 0x2000_0000_0000_0000,
{
    vstd::arithmetic::power2::lemma2_to64_rest();
    if e < 61 {
        vstd::arithmetic::power2::lemma_pow2_strictly_increases(e, 61);
    }
}

/// The instant some seconds after another, if the calendar holds it.
pub open spec fn later(at: int, seconds: int) -> Option<int> {
    let then = at + seconds * time::SECOND;
    if seconds <= i64::MAX && time::valid_instant(then) {
        Some(then)
    } else {
        None
    }
}

/// The text of the instant some seconds after a timestamp text, to the millisecond.
pub open spec fn added(now: Seq<char>, seconds: int) -> Option<Seq<char>> {
    match time::instant_of(now) {
        None => None,
        Some(at) => match later(at, seconds) {
            None => None,
            Some(then) => time::utc_millis_of(then),
        },
    }
}

/// A stored timestamp plus some seconds, written as stored timestamps are, so
/// that the two compare as texts.
pub fn add_seconds_utc(now: &str, seconds: u64) -> (r: Option<String>)
    ensures
        match r {
            Some(stamp) => added(now@, seconds as int) == Some(stamp@),
            None => added(now@, seconds as int) is None,
        },
        (r is Some) == (time::instant_of(now@) matches Some(at) && later(at, seconds as int)
            is Some),
        r matches Some(stamp) ==> ({
            let then = time::instant_of(now@)->0 + seconds * time::SECOND;
            then >= time::YEAR_ZERO ==> time::instant_of(stamp@) == Some(
                then - then % time::MILLISECOND as int,
            )
        }),
{
    let at = time::parse_instant(now)?;
    let then = add_seconds(at, seconds)?;
    time::utc_millis(then)
}

/// The instant some seconds after another, if the calendar holds it.
pub fn add_seconds(at: i128, seconds: u64) -> (r: Option<i128>)
    requires
        time::valid_instant(at as int),
    ensures
        match r {
            Some(then) => later(at as int, seconds as int) == Some(then as int),
            None => later(at as int, seconds as int) is None,
        },
{
    if seconds > 9_223_372_036_854_775_807 {
        return None;
    }
    let then: i128 = at + (seconds as i128) * time::SECOND;
    if then < time::FIRST_INSTANT || then > time::LAST_INSTANT {
        None
    } else {
        Some(then)
    }
}

/// Each further attempt waits at least as long as the one before, and from the
/// second on twice as long.
pub proof fn retry_delay_doubles(tries: int)
    requires
        tries <= u32::MAX,
    ensures
        retry_delay(tries) <= retry_delay(tries + 1),
        tries >= 1 ==> retry_delay(tries + 1) == 2 * retry_delay(tries),
{
    if tries >= 1 {
        vstd::arithmetic::power2::lemma_pow2_unfold(tries as nat);
        vstd::arithmetic::power2::lemma2_to64();
    }
}

/// Adding some seconds to a stamp, and then some more, is adding all of them at
/// once: nothing but the fraction of a millisecond is lost on the way.
pub fn seconds_add_up(now: &str, first: u64, second: u64) -> (r: Option<String>)
    ensures
        time::instant_of(now@) matches Some(at) ==> at >= time::YEAR_ZERO ==> {
            let then = at + (first + second) * time::SECOND;
            &&& later(at, first + second) is Some ==> r is Some
            &&& r matches Some(stamp) ==> time::instant_of(stamp@) == Some(
                then - then % time::MILLISECOND as int,
            )
        },
{
    proof {
        let s = time::SECOND as int;
        assert((first + second) * s == first * s + second * s) by (nonlinear_arith);
        assert(first * s >= 0 && second * s >= 0) by (nonlinear_arith)
            requires
                s > 0,
        ;
    }
    let middle = add_seconds_utc(now, first)?;
    let r = add_seconds_utc(&middle, second)?;
    proof {
        let at = time::instant_of(now@)->0;
        let m = time::MILLISECOND as int;
        let s = time::SECOND as int;
        assert((first + second) * s == first * s + second * s) by (nonlinear_arith);
        assert(first * s >= 0 && second * s >= 0) by (nonlinear_arith)
            requires
                s > 0,
        ;
        assert(s == 1000 * m);
        let x = at + first * s;
        assert((second * s) % m == 0) by (nonlinear_arith)
            requires
                s == 1000 * m,
                m > 0,
        {
            assert(second * s == (second * 1000) * m);
            vstd::arithmetic::div_mod::lemma_mod_multiples_basic(second * 1000, m);
        }
        let cut = x - x % m;
        assert((cut + second * s) % m == 0);
        assert((x + second * s) % m == x % m);
    }
    Some(r)
}

/// A retry comes after the failure: waiting some seconds never gives an earlier
/// instant.
pub proof fn later_is_not_earlier(at: int, seconds: int)
    requires
        seconds >= 0,
    ensures
        later(at, seconds) matches Some(then) ==> at <= then,
        seconds > 0 ==> (later(at, seconds) matches Some(then) ==> at < then),
{
}

/// The first retry comes after five seconds.
pub proof fn the_first_retry_comes_soon(tries: int)
    requires
        tries <= 1,
    ensures
        retry_delay(tries) == 5,
{
}

/// A second is a thousand million nanoseconds: so much later is the time that lies a
/// second ahead.
pub proof fn seconds_are_counted_from_the_start(at: int, seconds: int)
    ensures
        later(at, seconds) matches Some(then) ==> then - at == seconds * 1_000_000_000,
        0 <= seconds <= i64::MAX && time::valid_instant(at + seconds * 1_000_000_000) ==> later(
            at,
            seconds,
        ) is Some,
{
}

} // verus!
