//! Instants, days and time zones. The calendar arithmetic and the time zone
//! database are those of the crates `chrono` and `chrono_tz`.

use chrono::{DateTime, NaiveDate, Offset, TimeZone, Utc};
use chrono_tz::Tz;
use vstd::prelude::*;

verus! {

/// The first day that `chrono` knows, counted from January 1, 1970.
pub const MIN_DAY: i32 = -96_465_292;

/// The last day that `chrono` knows, counted from January 1, 1970.
pub const MAX_DAY: i32 = 95_026_236;

/// The day, counted from January 1, 1970, on which the given second falls.
pub open spec fn day_of(secs: int) -> int {
    secs / 86_400
}

/// An instant in UTC: seconds since January 1, 1970, and nanoseconds since the
/// beginning of that second. A leap second is the second before it with a
/// thousand million nanoseconds or more.
#[derive(Clone, Copy, Debug, PartialEq, Eq, Structural)]
pub struct Timestamp {
    pub secs: i64,
    pub nanos: u32,
}

impl Timestamp {
    /// The instant is one that `chrono` can represent.
    pub open spec fn valid(self) -> bool {
        &&& MIN_DAY <= day_of(self.secs as int) <= MAX_DAY
        &&& self.nanos < 2_000_000_000
        &&& self.nanos >= 1_000_000_000 ==> self.secs % 60 == 59
    }

    /// The instant is far enough from the ends of the calendar for the days
    /// around it to exist in every time zone.
    pub open spec fn has_days_around(self) -> bool {
        MIN_DAY + 2 <= day_of(self.secs as int) <= MAX_DAY - 4
    }

    /// This instant comes after `other`.
    pub open spec fn after(self, other: Timestamp) -> bool {
        self.secs > other.secs || (self.secs == other.secs && self.nanos > other.nanos)
    }

    /// Tells whether this instant comes after `other`.
    pub fn is_after(&self, other: &Timestamp) -> (r: bool)
        ensures
            r == self.after(*other),
            r <==> self.secs > other.secs || (self.secs == other.secs && self.nanos > other.nanos),
    {
        self.secs > other.secs || (self.secs == other.secs && self.nanos > other.nanos)
    }

    /// Tells whether the days around this instant exist in every time zone.
    pub fn days_around(&self) -> (r: bool)
        ensures
            r == self.has_days_around(),
            r <==> (-96_465_292 + 2) * 86_400 <= self.secs < (95_026_236 - 3) * 86_400,
    {
        let first: i64 = (MIN_DAY as i64 + 2) * 86_400;
        let end: i64 = (MAX_DAY as i64 - 3) * 86_400;
        first <= self.secs && self.secs < end
    }
}

/// The nanoseconds from one instant to another, negative where the second comes
/// first. A leap second that only one of the two times of day has passed counts.
pub open spec fn elapsed_nanos(from: Timestamp, to: Timestamp) -> int {
    let leap = if to.secs % 86_400 > from.secs % 86_400 && from.nanos >= 1_000_000_000 {
        1int
    } else if to.secs % 86_400 < from.secs % 86_400 && to.nanos >= 1_000_000_000 {
        -1int
    } else {
        0int
    };
    (to.secs - from.secs + leap) * 1_000_000_000 + to.nanos - from.nanos
}

/// `DateTime::signed_duration_since` of `chrono` and then `TimeDelta::to_std`:
/// the seconds and nanoseconds from `from` to `to`, or nothing if they are
/// negative.
#[verifier::external_body]
fn std_duration(from: Timestamp, to: Timestamp) -> (r: Option<(u64, u32)>)
    requires
        from.valid(),
        to.valid(),
    ensures
        r is None <==> elapsed_nanos(from, to) < 0,
        r matches Some(d) ==> d.1 < 1_000_000_000 && d.0 * 1_000_000_000 + d.1 == elapsed_nanos(
            from,
            to,
        ),
{
    let start: DateTime<Utc> = DateTime::from_timestamp(from.secs, from.nanos).unwrap();
    let end: DateTime<Utc> = DateTime::from_timestamp(to.secs, to.nanos).unwrap();
    match end.signed_duration_since(start).to_std() {
        Ok(d) => Some((d.as_secs(), d.subsec_nanos())),
        Err(_) => None,
    }
}

/// A span of time to wait.
#[derive(Clone, Copy, Debug, PartialEq, Eq, Structural)]
pub struct Wait {
    pub secs: u64,
    pub nanos: u32,
}

impl Wait {
    /// The whole span in nanoseconds.
    pub open spec fn total_nanos(self) -> int {
        self.secs * 1_000_000_000 + self.nanos
    }

    /// The span is the time from `now` until `then_at`: none if that has passed.
    pub open spec fn is_time_until(self, now: Timestamp, then_at: Timestamp) -> bool {
        &&& self.nanos < 1_000_000_000
        &&& self.total_nanos() == if elapsed_nanos(now, then_at) < 0 {
            0
        } else {
            elapsed_nanos(now, then_at)
        }
    }
}

/// The time to wait from `now` until `then_at`: none if that has passed.
pub fn wait_until(now: Timestamp, then_at: Timestamp) -> (r: Wait)
    requires
        now.valid(),
        then_at.valid(),
    ensures
        r.is_time_until(now, then_at),
        r.nanos < 1_000_000_000,
        now.nanos < 1_000_000_000 && then_at.nanos < 1_000_000_000 && then_at.after(now) ==> now.secs
            * 1_000_000_000 + now.nanos + r.secs * 1_000_000_000 + r.nanos == then_at.secs
            * 1_000_000_000 + then_at.nanos,
        now.nanos < 1_000_000_000 && then_at.nanos < 1_000_000_000 && !then_at.after(now) ==> r.secs
            == 0 && r.nanos == 0,
{
    match std_duration(now, then_at) {
        Some(d) => Wait { secs: d.0, nanos: d.1 },
        None => Wait { secs: 0, nanos: 0 },
    }
}

/// Outside leap seconds a wait for an instant to come ends at that instant.
pub proof fn wait_ends_on_time(now: Timestamp, then_at: Timestamp, wait: Wait)
    requires
        now.nanos < 1_000_000_000,
        then_at.nanos < 1_000_000_000,
        then_at.after(now),
        wait.is_time_until(now, then_at),
    ensures
        now.secs * 1_000_000_000 + now.nanos + wait.total_nanos() == then_at.secs * 1_000_000_000
            + then_at.nanos,
{
}

/// The second at which the given hour and minute of a day begin, as if the
/// clock showed UTC.
pub open spec fn clock_second(day: int, hour: int, minute: int) -> int {
    day * 86_400 + hour * 3_600 + minute * 60
}

/// `NaiveDate::and_hms_opt` of `chrono`, with no seconds: the hour and minute of
/// the day, or nothing if there is no such hour or minute.
#[verifier::external_body]
pub(crate) fn clock_time(day: i32, hour: u32, minute: u32) -> (r: Option<i64>)
    requires
        MIN_DAY <= day <= MAX_DAY,
    ensures
        r is Some <==> (hour < 24 && minute < 60),
        r matches Some(t) ==> t == clock_second(day as int, hour as int, minute as int),
{
    match NaiveDate::from_epoch_days(day).unwrap().and_hms_opt(hour, minute, 0) {
        Some(t) => Some(t.and_utc().timestamp()),
        None => None,
    }
}

/// Whether `Tz::from_str` of `chrono_tz` knows a time zone of this name.
pub uninterp spec fn is_zone_name(name: Seq<char>) -> bool;

/// `Tz::from_str` of `chrono_tz`: whether there is a time zone of this name. The
/// names are those of the time zone database, which is part of that crate.
#[verifier::external_body]
fn zone_exists(name: &str) -> (r: bool)
    ensures
        r == is_zone_name(name@),
{
    name.parse::<Tz>().is_ok()
}

/// The seconds by which the clocks of a zone are ahead of UTC at an instant,
/// as the time zone database has it.
pub uninterp spec fn utc_offset(zone: Seq<char>, secs: int) -> int;

/// `DateTime::with_timezone` of `chrono` with a zone of `chrono_tz`: the day that
/// the zone's calendar shows at the given second (`date_naive`), and the offset
/// from UTC by which it does; in the zone `UTC` that is none.
#[verifier::external_body]
fn local_date(zone: &str, secs: i64) -> (r: (i32, i32))
    requires
        is_zone_name(zone@),
        MIN_DAY < day_of(secs as int) < MAX_DAY,
    ensures
        r.1 == utc_offset(zone@, secs as int),
        -86_400 < r.1 < 86_400,
        r.0 == day_of(secs + r.1),
        zone@ == "UTC"@ ==> r.1 == 0,
{
    let zone: Tz = zone.parse().unwrap();
    let local: DateTime<Tz> = DateTime::from_timestamp(secs, 0).unwrap().with_timezone(&zone);
    (local.date_naive().to_epoch_days(), local.offset().fix().local_minus_utc())
}

/// An instant at which the clocks of a zone show a certain time, and by how many
/// seconds they are ahead of UTC then.
#[derive(Clone, Copy, Debug, PartialEq, Eq, Structural)]
pub struct ZonedInstant {
    pub secs: i64,
    pub offset: i32,
}

/// The instants at which the clocks of a zone show a certain time: none where
/// they are put forward over it, two where they are put back to it.
#[derive(Clone, Copy, Debug, PartialEq, Eq, Structural)]
pub enum LocalInstants {
    Gap,
    Single(ZonedInstant),
    Ambiguous(ZonedInstant, ZonedInstant),
}

/// The second is one of a day that `chrono` knows.
pub open spec fn in_calendar(secs: int) -> bool {
    MIN_DAY <= day_of(secs) <= MAX_DAY
}

/// What the clocks of a zone show at an instant, counted in seconds as if it were
/// UTC.
pub open spec fn local_second(zone: Seq<char>, secs: int) -> int {
    secs + utc_offset(zone, secs)
}

/// At the instant `z` the clocks of the zone show `local`.
pub open spec fn shows(zone: Seq<char>, local: int, z: ZonedInstant) -> bool {
    &&& -86_400 < z.offset < 86_400
    &&& z.secs == local - z.offset
    &&& utc_offset(zone, z.secs as int) == z.offset
}

/// The instants are all those at which the clocks of the zone show `local`, the
/// earlier one first.
pub open spec fn resolves(zone: Seq<char>, local: int, found: LocalInstants) -> bool {
    match found {
        LocalInstants::Gap => forall|s: int| #[trigger]
            local_second(zone, s) == local ==> !in_calendar(s),
        LocalInstants::Single(z) => {
            &&& shows(zone, local, z)
            &&& forall|s: int| #[trigger]
                local_second(zone, s) == local && in_calendar(s) ==> s == z.secs
        },
        LocalInstants::Ambiguous(a, b) => {
            &&& shows(zone, local, a)
            &&& shows(zone, local, b)
            &&& a.secs < b.secs
            &&& forall|s: int| #[trigger]
                local_second(zone, s) == local && in_calendar(s) ==> s == a.secs || s == b.secs
        },
    }
}

/// The instants at which the clocks of a zone show a certain time, which is
/// counted in seconds as if it were UTC.
pub open spec fn local_instants(zone: Seq<char>, local: int) -> LocalInstants {
    choose|found: LocalInstants| resolves(zone, local, found)
}

/// There is one answer to when the clocks of a zone show a time.
pub proof fn instants_are_unique(zone: Seq<char>, local: int, found: LocalInstants)
    requires
        MIN_DAY < day_of(local) < MAX_DAY,
        resolves(zone, local, found),
    ensures
        found == local_instants(zone, local),
{
    let other = local_instants(zone, local);
    assert(resolves(zone, local, other));
    lemma_resolved(zone, local, found);
    lemma_resolved(zone, local, other);
}

/// At the instants of an answer the clocks do show the time.
proof fn lemma_resolved(zone: Seq<char>, local: int, found: LocalInstants)
    requires
        MIN_DAY < day_of(local) < MAX_DAY,
        resolves(zone, local, found),
    ensures
        found matches LocalInstants::Single(z) ==> in_calendar(z.secs as int) && local_second(
            zone,
            z.secs as int,
        ) == local,
        found matches LocalInstants::Ambiguous(a, b) ==> {
            &&& in_calendar(a.secs as int) && local_second(zone, a.secs as int) == local
            &&& in_calendar(b.secs as int) && local_second(zone, b.secs as int) == local
        },
{
}

/// The clocks of a zone are never put forward or back.
pub open spec fn has_fixed_offset(zone: Seq<char>, offset: int) -> bool {
    &&& -86_400 < offset < 86_400
    &&& forall|s: int| in_calendar(s) ==> #[trigger] utc_offset(zone, s) == offset
}

/// Where the clocks are never changed they show every time once.
pub proof fn fixed_offset_shows_once(zone: Seq<char>, local: int, offset: int)
    requires
        MIN_DAY < day_of(local) < MAX_DAY,
        has_fixed_offset(zone, offset),
    ensures
        local_instants(zone, local) == LocalInstants::Single(
            ZonedInstant { secs: (local - offset) as i64, offset: offset as i32 },
        ),
{
    let z = ZonedInstant { secs: (local - offset) as i64, offset: offset as i32 };
    assert(in_calendar(z.secs as int));
    assert(shows(zone, local, z));
    instants_are_unique(zone, local, LocalInstants::Single(z));
}

/// `TimeZone::from_local_datetime` of `chrono` with a zone of `chrono_tz`: all the
/// instants at which the zone's clocks show the time: none where the time does
/// not exist, a single one, or two where it is ambiguous, the earlier one first.
/// The offset that is taken off the clock time is the one that the zone has at the
/// instant; in the zone `UTC` there is none.
#[verifier::external_body]
fn resolve_local(zone: &str, local: i64) -> (r: LocalInstants)
    requires
        is_zone_name(zone@),
        MIN_DAY < day_of(local as int) < MAX_DAY,
    ensures
        resolves(zone@, local as int, r),
        zone@ == "UTC"@ ==> r == LocalInstants::Single(ZonedInstant { secs: local, offset: 0 }),
{
    let zone: Tz = zone.parse().unwrap();
    let clock = DateTime::from_timestamp(local, 0).unwrap().naive_utc();
    match zone.from_local_datetime(&clock) {
        chrono::LocalResult::None => LocalInstants::Gap,
        chrono::LocalResult::Single(t) => LocalInstants::Single(
            ZonedInstant { secs: t.timestamp(), offset: t.offset().fix().local_minus_utc() },
        ),
        chrono::LocalResult::Ambiguous(a, b) => LocalInstants::Ambiguous(
            ZonedInstant { secs: a.timestamp(), offset: a.offset().fix().local_minus_utc() },
            ZonedInstant { secs: b.timestamp(), offset: b.offset().fix().local_minus_utc() },
        ),
    }
}

/// A time zone of the time zone database, known by its name.
#[derive(Debug)]
pub struct Timezone {
    name: String,
}

impl View for Timezone {
    type V = Seq<char>;

    closed spec fn view(&self) -> Seq<char> {
        self.name@
    }
}

impl Clone for Timezone {
    fn clone(&self) -> (r: Self)
        ensures
            r == *self,
    {
        proof {
            use_type_invariant(self);
        }
        Timezone { name: self.name.clone() }
    }
}

impl Timezone {
    #[verifier::type_invariant]
    spec fn in_database(self) -> bool {
        is_zone_name(self.name@)
    }

    /// The time zone of the given name, such as `Europe/Madrid`, if there is one.
    pub fn named(name: &str) -> (r: Option<Timezone>)
        ensures
            r is Some <==> is_zone_name(name@),
            r matches Some(z) ==> z@ == name@,
    {
        if zone_exists(name) {
            let owned: String = name.to_owned();
            Some(Timezone { name: owned })
        } else {
            None
        }
    }

    /// The name of the time zone.
    pub fn name(&self) -> (r: &str)
        ensures
            r@ == self@,
    {
        self.name.as_str()
    }

    /// The day that the zone's calendar shows at the given second.
    pub fn day_at(&self, secs: i64) -> (r: i32)
        requires
            MIN_DAY < day_of(secs as int) < MAX_DAY,
        ensures
            r == day_of(secs + utc_offset(self@, secs as int)),
            -86_400 < utc_offset(self@, secs as int) < 86_400,
            self@ == "UTC"@ ==> r == day_of(secs as int),
    {
        proof {
            use_type_invariant(self);
        }
        local_date(self.name.as_str(), secs).0
    }

    /// The instants at which the zone's clocks show the given time, all of them.
    pub fn instants_at(&self, local: i64) -> (r: LocalInstants)
        requires
            MIN_DAY < day_of(local as int) < MAX_DAY,
        ensures
            r == local_instants(self@, local as int),
            resolves(self@, local as int, r),
            self@ == "UTC"@ ==> r == LocalInstants::Single(ZonedInstant { secs: local, offset: 0 }),
    {
        proof {
            use_type_invariant(self);
        }
        let r = resolve_local(self.name.as_str(), local);
        proof {
            instants_are_unique(self@, local as int, r);
        }
        r
    }
}

/// A wait for an instant that begins a second is never too short, and at most a leap
/// second too long.
pub proof fn wait_is_never_short(now: Timestamp, then_at: Timestamp, wait: Wait)
    requires
        now.nanos < 2_000_000_000,
        then_at.nanos == 0,
        then_at.after(now),
        wait.is_time_until(now, then_at),
    ensures
        wait.nanos < 1_000_000_000,
        then_at.secs * 1_000_000_000 <= now.secs * 1_000_000_000 + now.nanos + wait.secs
            * 1_000_000_000 + wait.nanos <= (then_at.secs + 1) * 1_000_000_000,
{
}

} // verus!
