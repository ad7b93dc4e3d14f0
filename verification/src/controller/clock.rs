//! The clock, and the RFC 3339 times that statuses and leases record.
use vstd::prelude::*;

verus! {

/// A time: seconds since the start of 1970 (UTC), and nanoseconds into the
/// second.
#[derive(Clone, Copy, Debug, PartialEq, Eq, Structural)]
pub struct Moment {
    pub secs: u64,
    pub nanos: u32,
}

impl Moment {
    /// The moment in nanoseconds since the start of 1970.
    pub open spec fn total(self) -> int {
        self.secs * 1_000_000_000 + self.nanos
    }
}

/// The last second that RFC 3339 can write, in the year 9999.
pub const LAST_SECOND: u64 = 253_402_300_799;

/// Can the target's clock count to this second? A 32-bit target's may end in 2038.
pub open spec fn countable(secs: u64) -> bool {
    usize::BITS == 64 || secs <= 0x7fff_ffff
}

/// The time that an RFC 3339 text stands for, as `humantime::parse_rfc3339`
/// reads it on the target that the controller is built for.
pub uninterp spec fn rfc3339_moment(text: Seq<char>) -> Option<Moment>;

/// The RFC 3339 text of a whole second, as `humantime::format_rfc3339_seconds`
/// writes it.
pub uninterp spec fn rfc3339_text(secs: u64) -> Seq<char>;

/// Calls `humantime::parse_rfc3339`: the time depends on the text alone, and is
/// at most the last second of the year 9999.
#[verifier::external_body]
fn parse_moment(text: &str) -> (r: Option<Moment>)
    ensures
        r == rfc3339_moment(text@),
        r matches Some(m) ==> m.secs <= LAST_SECOND && m.nanos < 1_000_000_000,
{
    match humantime::parse_rfc3339(text) {
        Ok(t) => match t.duration_since(std::time::UNIX_EPOCH) {
            Ok(d) => Some(Moment { secs: d.as_secs(), nanos: d.subsec_nanos() }),
            Err(_) => None,
        },
        Err(_) => None,
    }
}

/// Calls `humantime::format_rfc3339_seconds` and renders the result: the text
/// depends on the second alone, and `humantime::parse_rfc3339` reads it back as
/// that second, on a 32-bit target up to the second 2^31 - 1. Whether later ones
/// are read back there is left unsaid. Seconds past the year 9999 cannot be
/// rendered.
#[verifier::external_body]
fn format_second(secs: u64) -> (r: String)
    requires
        secs <= LAST_SECOND,
    ensures
        r@ == rfc3339_text(secs),
        usize::BITS == 64 || secs <= 0x7fff_ffff ==> rfc3339_moment(r@) == Some(
            Moment { secs, nanos: 0 },
        ),
{
    let t = std::time::UNIX_EPOCH + std::time::Duration::from_secs(secs);
    humantime::format_rfc3339_seconds(t).to_string()
}

/// Calls `std::time::SystemTime::now`, and states it in seconds and
/// nanoseconds; there is no such statement of a clock set before 1970.
#[verifier::external_body]
fn system_time() -> (r: Option<Moment>)
    ensures
        r matches Some(m) ==> m.nanos < 1_000_000_000,
{
    match std::time::SystemTime::now().duration_since(std::time::UNIX_EPOCH) {
        Ok(d) => Some(Moment { secs: d.as_secs(), nanos: d.subsec_nanos() }),
        Err(_) => None,
    }
}

/// The current time; `None` if the clock is set before 1970.
pub fn now() -> (r: Option<Moment>)
    ensures
        r matches Some(m) ==> m.nanos < 1_000_000_000,
{
    system_time()
}

/// The second a clock shows, within what RFC 3339 can write.
pub open spec fn second_of(now: Option<Moment>) -> u64 {
    match now {
        Some(m) => if m.secs <= LAST_SECOND {
            m.secs
        } else {
            LAST_SECOND
        },
        None => 0,
    }
}

/// The second a clock shows, within what RFC 3339 can write.
pub fn clock_second(now: Option<Moment>) -> (r: u64)
    ensures
        r == second_of(now),
        r <= LAST_SECOND,
{
    match now {
        Some(m) => if m.secs <= LAST_SECOND {
            m.secs
        } else {
            LAST_SECOND
        },
        None => 0,
    }
}

/// A time as statuses record it: RFC 3339, to the second. It can be read back if
/// the target's clock can count to it.
pub fn rfc3339_at(now: Option<Moment>) -> (r: String)
    ensures
        r@ == rfc3339_text(second_of(now)),
        countable(second_of(now)) ==> rfc3339_moment(r@) == Some(
            Moment { secs: second_of(now), nanos: 0 },
        ),
{
    format_second(clock_second(now))
}

/// The current time as statuses record it: RFC 3339, to the second. It can be read
/// back if the target's clock can count to it.
pub fn now_rfc3339() -> (r: String)
    ensures
        exists|m: Option<Moment>| #[trigger]
            rfc3339_text(second_of(m)) == r@ && (countable(second_of(m)) ==> rfc3339_moment(r@)
                == Some(Moment { secs: second_of(m), nanos: 0 })),
{
    let m = now();
    let r = rfc3339_at(m);
    assert(r@ == rfc3339_text(second_of(m)));
    r
}

/// The whole seconds from one time to another; `None` if the other is earlier.
pub open spec fn seconds_between(from: Moment, to: Moment) -> Option<int> {
    if to.total() < from.total() {
        None
    } else {
        Some((to.total() - from.total()) / 1_000_000_000)
    }
}

/// The whole seconds a clock shows since a recorded time; `None` if the text is
/// no time, or one that is still to come.
pub open spec fn seconds_since(text: Seq<char>, now: Option<Moment>) -> Option<int> {
    match (rfc3339_moment(text), now) {
        (Some(from), Some(to)) => seconds_between(from, to),
        _ => None,
    }
}

/// The whole seconds from a recorded time to `now`; `None` if the text is no
/// time, or one that is still to come.
pub fn secs_since_at(text: &str, now: Option<Moment>) -> (r: Option<u64>)
    requires
        now matches Some(m) ==> m.nanos < 1_000_000_000,
    ensures
        r is Some == seconds_since(text@, now) is Some,
        r matches Some(n) ==> seconds_since(text@, now) == Some(n as int),
{
    let from = parse_moment(text);
    match (from, now) {
        (Some(a), Some(b)) => {
            if b.secs < a.secs || (b.secs == a.secs && b.nanos < a.nanos) {
                None
            } else if b.nanos < a.nanos {
                Some(b.secs - a.secs - 1)
            } else {
                Some(b.secs - a.secs)
            }
        },
        _ => None,
    }
}

/// The whole seconds since a recorded time; `None` if the text is no time, or
/// one that is still to come.
pub fn secs_since(text: &str) -> (r: Option<u64>)
    ensures
        exists|now: Option<Moment>|
            match #[trigger] seconds_since(text@, now) {
                Some(n) => r is Some && r->0 == n,
                None => r is None,
            },
{
    let m = now();
    let r = secs_since_at(text, m);
    assert(match seconds_since(text@, m) {
        Some(n) => r is Some && r->0 == n,
        None => r is None,
    });
    r
}

/// Whole seconds have passed since a moment that is not ahead: as many as fit
/// into what has passed. None have since one that is, or that cannot be read, or
/// without a clock.
pub proof fn whole_seconds_pass(text: Seq<char>, now: Option<Moment>)
    ensures
        ({
            let from = rfc3339_moment(text);
            let past = now->0.secs * 1_000_000_000 + now->0.nanos - (from->0.secs * 1_000_000_000
                + from->0.nanos);
            &&& seconds_since(text, now) is Some <==> from is Some && now is Some && past >= 0
            &&& seconds_since(text, now) matches Some(n) ==> n * 1_000_000_000 <= past < (n + 1)
                * 1_000_000_000
        }),
{
}

/// The second that is recorded is the clock's, up to the last of the year 9999;
/// without a clock it is the first there is.
pub proof fn recorded_seconds_are_the_clocks(now: Option<Moment>)
    ensures
        now is None ==> second_of(now) == 0,
        now is Some && now->0.secs <= 253_402_300_799 ==> second_of(now) == now->0.secs,
        now is Some && now->0.secs > 253_402_300_799 ==> second_of(now) == 253_402_300_799,
{
}

} // verus!
