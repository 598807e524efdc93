//! Bedtimes: the daily schedule of a user and the instant of the next bedtime.

use crate::ids::{GuildId, UserId};
use crate::zone::{
    clock_second, clock_time, day_of, fixed_offset_shows_once, has_fixed_offset, in_calendar,
    local_instants, local_second, resolves, utc_offset, LocalInstants, Timestamp, Timezone, MAX_DAY, MIN_DAY,
};
use vstd::prelude::*;

verus! {

/// When a user of a server goes to bed.
#[derive(Debug)]
pub struct SleepSchedule {
    pub guild_id: GuildId,
    pub user_id: UserId,
    pub hour: u32,
    pub minute: u32,
    pub timezone: Timezone,
    pub reason: String,
}

impl Clone for SleepSchedule {
    fn clone(&self) -> (r: Self)
        ensures
            r == *self,
    {
        SleepSchedule {
            guild_id: self.guild_id,
            user_id: self.user_id,
            hour: self.hour,
            minute: self.minute,
            timezone: self.timezone.clone(),
            reason: self.reason.clone(),
        }
    }
}

impl SleepSchedule {
    /// A bedtime at the same hour and minute of every day. The hour must be at
    /// most 23, the minute at most 59.
    pub fn daily(
        guild_id: GuildId,
        user_id: UserId,
        hour: u32,
        minute: u32,
        timezone: Timezone,
    ) -> (r: Result<Self, String>)
        ensures
            r is Ok <==> hour <= 23 && minute <= 59,
            r matches Ok(s) ==> {
                &&& s.guild_id == guild_id
                &&& s.user_id == user_id
                &&& s.hour == hour
                &&& s.minute == minute
                &&& s.timezone == timezone
                &&& s.reason@ == "Scheduled bedtime"@
            },
            r matches Err(e) ==> e@ == if hour > 23 {
                "Sleep schedule hour must be between 0 and 23"@
            } else {
                "Sleep schedule minute must be between 0 and 59"@
            },
    {
        if hour > 23 {
            return Err("Sleep schedule hour must be between 0 and 23".to_owned());
        }
        if minute > 59 {
            return Err("Sleep schedule minute must be between 0 and 59".to_owned());
        }
        Ok(
            SleepSchedule {
                guild_id,
                user_id,
                hour,
                minute,
                timezone,
                reason: "Scheduled bedtime".to_owned(),
            },
        )
    }

    /// The same schedule with another reason.
    pub fn reason(self, reason: String) -> (r: Self)
        ensures
            r == (SleepSchedule { reason: reason, ..self }),
    {
        SleepSchedule { reason: reason, ..self }
    }
}

/// The instant that stands for a clock time: the first of the two where the
/// clocks show it twice, none where they skip it.
pub open spec fn candidate(found: LocalInstants) -> Option<Timestamp> {
    match found {
        LocalInstants::Gap => None,
        LocalInstants::Single(z) => Some(Timestamp { secs: z.secs, nanos: 0 }),
        LocalInstants::Ambiguous(a, b) => Some(
            Timestamp {
                secs: if a.secs <= b.secs {
                    a.secs
                } else {
                    b.secs
                },
                nanos: 0,
            },
        ),
    }
}

/// The instant that stands for a clock time, if it is still to come.
pub open spec fn upcoming(found: LocalInstants, now: Timestamp) -> Option<Timestamp> {
    match candidate(found) {
        Some(t) => if t.after(now) {
            Some(t)
        } else {
            None
        },
        None => None,
    }
}

/// Picks the instant that stands for a clock time, if it is still to come.
pub fn pick_upcoming(found: LocalInstants, now: Timestamp) -> (r: Option<Timestamp>)
    ensures
        r == upcoming(found, now),
{
    let secs: i64 = match found {
        LocalInstants::Gap => {
            return None;
        },
        LocalInstants::Single(z) => z.secs,
        LocalInstants::Ambiguous(a, b) => if a.secs <= b.secs {
            a.secs
        } else {
            b.secs
        },
    };
    let t = Timestamp { secs, nanos: 0 };
    if t.is_after(&now) {
        Some(t)
    } else {
        None
    }
}

/// The bedtime on the given day of the zone's calendar, if there is one and it
/// is still to come.
pub open spec fn bedtime_on(
    zone: Seq<char>,
    hour: int,
    minute: int,
    day: int,
    now: Timestamp,
) -> Option<Timestamp> {
    upcoming(local_instants(zone, clock_second(day, hour, minute)), now)
}

/// The first bedtime still to come within the given number of days, from `day`
/// on.
pub open spec fn bedtime_within(
    zone: Seq<char>,
    hour: int,
    minute: int,
    day: int,
    days: nat,
    now: Timestamp,
) -> Option<Timestamp>
    decreases days,
{
    if days == 0 {
        None
    } else if bedtime_on(zone, hour, minute, day, now) is Some {
        bedtime_on(zone, hour, minute, day, now)
    } else {
        bedtime_within(zone, hour, minute, day + 1, (days - 1) as nat, now)
    }
}

/// The day that the zone's calendar shows.
pub open spec fn today(zone: Seq<char>, now: Timestamp) -> int {
    day_of(now.secs + utc_offset(zone, now.secs as int))
}

/// The next bedtime: the first that is still to come today, tomorrow or on the
/// day after. There is none at an hour or minute that no clock shows.
pub open spec fn next_bedtime(schedule: SleepSchedule, now: Timestamp) -> Option<Timestamp> {
    if schedule.hour < 24 && schedule.minute < 60 {
        bedtime_within(
            schedule.timezone@,
            schedule.hour as int,
            schedule.minute as int,
            today(schedule.timezone@, now),
            3,
            now,
        )
    } else {
        None
    }
}

/// The clocks of the zone show the given hour and minute at `t`, and no seconds.
pub open spec fn clock_shows(zone: Seq<char>, hour: int, minute: int, t: Timestamp) -> bool {
    &&& (t.secs + utc_offset(zone, t.secs as int)) % 86_400 == hour * 3_600 + minute * 60
    &&& t.nanos == 0
}

/// The clocks of the zone show the hour and minute of the day at the second `s`,
/// for the first time if they show it twice.
pub open spec fn is_bedtime(zone: Seq<char>, hour: int, minute: int, day: int, s: int) -> bool {
    &&& in_calendar(s)
    &&& local_second(zone, s) == clock_second(day, hour, minute)
    &&& forall|e: int| #[trigger]
        local_second(zone, e) == local_second(zone, s) && in_calendar(e) ==> s <= e
}

/// No bedtime of the day is after `now`.
pub open spec fn no_bedtime_left(
    zone: Seq<char>,
    hour: int,
    minute: int,
    day: int,
    now: Timestamp,
) -> bool {
    forall|s: int| #[trigger] is_bedtime(zone, hour, minute, day, s) ==> s <= now.secs
}

/// None of the days from today on and before `end` has a bedtime left.
pub open spec fn none_left_before(schedule: SleepSchedule, end: int, now: Timestamp) -> bool {
    forall|day: int|
        today(schedule.timezone@, now) <= day < end ==> #[trigger] no_bedtime_left(
            schedule.timezone@,
            schedule.hour as int,
            schedule.minute as int,
            day,
            now,
        )
}

/// The instant that is picked for a clock time of a day is the day's bedtime; where
/// none is picked, the day has no bedtime left.
proof fn lemma_picked(
    zone: Seq<char>,
    hour: int,
    minute: int,
    day: int,
    found: LocalInstants,
    now: Timestamp,
)
    requires
        MIN_DAY < day < MAX_DAY,
        0 <= hour < 24,
        0 <= minute < 60,
        resolves(zone, clock_second(day, hour, minute), found),
    ensures
        match upcoming(found, now) {
            Some(t) => is_bedtime(zone, hour, minute, day, t.secs as int),
            None => no_bedtime_left(zone, hour, minute, day, now),
        },
{
    let local = clock_second(day, hour, minute);
    match found {
        LocalInstants::Gap => {},
        LocalInstants::Single(z) => {
            assert(local_second(zone, z.secs as int) == local);
        },
        LocalInstants::Ambiguous(a, b) => {
            assert(in_calendar(a.secs as int));
            assert(local_second(zone, a.secs as int) == local);
            assert(local_second(zone, b.secs as int) == local);
        },
    }
}

/// The first second after `secs` at which a clock that is never changed shows the
/// hour and minute.
pub open spec fn next_shown(secs: int, hour: int, minute: int) -> int {
    let shown = clock_second(day_of(secs), hour, minute);
    if shown > secs {
        shown
    } else {
        shown + 86_400
    }
}

/// The instant of the next bedtime. It is after `now`, less than five days away,
/// and at the hour and minute of the schedule by the clocks of its time zone, for
/// the first time that day; no day before it, from today on, has a bedtime left.
/// Without a next bedtime neither today nor the two days after it have one left.
/// In UTC it is at most a day away.
pub fn next_sleep_time(schedule: &SleepSchedule, now: Timestamp) -> (r: Option<Timestamp>)
    requires
        now.has_days_around(),
    ensures
        r == next_bedtime(*schedule, now),
        r matches Some(t) ==> {
            &&& t.valid()
            &&& t.after(now)
            &&& t.secs < now.secs + 5 * 86_400
            &&& clock_shows(schedule.timezone@, schedule.hour as int, schedule.minute as int, t)
        },
        schedule.hour < 24 && schedule.minute < 60 ==> match r {
            Some(t) => exists|day: int|
                #![trigger is_bedtime(
                    schedule.timezone@,
                    schedule.hour as int,
                    schedule.minute as int,
                    day,
                    t.secs as int,
                )]
                {
                    &&& today(schedule.timezone@, now) <= day <= today(schedule.timezone@, now) + 2
                    &&& is_bedtime(
                        schedule.timezone@,
                        schedule.hour as int,
                        schedule.minute as int,
                        day,
                        t.secs as int,
                    )
                    &&& none_left_before(*schedule, day, now)
                },
            None => none_left_before(*schedule, today(schedule.timezone@, now) + 3, now),
        },
        schedule.timezone@ == "UTC"@ && schedule.hour < 24 && schedule.minute < 60 ==> match r {
            Some(t) => t.nanos == 0 && t.secs == next_shown(
                now.secs as int,
                schedule.hour as int,
                schedule.minute as int,
            ),
            None => false,
        },
        r matches Some(t) ==> {
            let zone = schedule.timezone@;
            let shown = t.secs + utc_offset(zone, t.secs as int);
            let shown_now = now.secs + utc_offset(zone, now.secs as int);
            &&& t.nanos == 0
            &&& t.secs > now.secs
            &&& shown % 86_400 == schedule.hour * 3_600 + schedule.minute * 60
            &&& shown_now / 86_400 <= shown / 86_400 <= shown_now / 86_400 + 2
            &&& forall|e: int|
                in_calendar(e) && e + #[trigger] utc_offset(zone, e) == shown ==> t.secs <= e
            &&& forall|s: int|
                {
                    let local = s + #[trigger] utc_offset(zone, s);
                    &&& in_calendar(s)
                    &&& now.secs < s < t.secs
                    &&& local % 86_400 == schedule.hour * 3_600 + schedule.minute * 60
                    &&& shown_now / 86_400 <= local / 86_400 <= shown / 86_400
                } ==> exists|e: int|
                    in_calendar(e) && e < s && e + #[trigger] utc_offset(zone, e) == s + utc_offset(
                        zone,
                        s,
                    )
        },
        r is None && schedule.hour < 24 && schedule.minute < 60 ==> {
            let zone = schedule.timezone@;
            let shown_now = now.secs + utc_offset(zone, now.secs as int);
            forall|s: int|
                {
                    let local = s + #[trigger] utc_offset(zone, s);
                    &&& in_calendar(s)
                    &&& now.secs < s
                    &&& local % 86_400 == schedule.hour * 3_600 + schedule.minute * 60
                    &&& shown_now / 86_400 <= local / 86_400 <= shown_now / 86_400 + 2
                } ==> exists|e: int|
                    in_calendar(e) && e < s && e + #[trigger] utc_offset(zone, e) == s + utc_offset(
                        zone,
                        s,
                    )
        },
{
    let ghost zone = schedule.timezone@;
    let ghost hour = schedule.hour as int;
    let ghost minute = schedule.minute as int;
    let mut day: i32 = schedule.timezone.day_at(now.secs);
    let ghost first = day as int;
    let mut tried: u32 = 0;
    while tried < 3
        invariant
            tried <= 3,
            now.has_days_around(),
            zone == schedule.timezone@,
            hour == schedule.hour,
            minute == schedule.minute,
            -86_400 < utc_offset(zone, now.secs as int) < 86_400,
            first == today(zone, now),
            day == first + tried,
            tried > 0 ==> hour < 24 && minute < 60,
            none_left_before(*schedule, day as int, now),
            zone == "UTC"@ ==> first == day_of(now.secs as int),
            zone == "UTC"@ && tried > 0 ==> clock_second(first, hour, minute) <= now.secs,
            zone == "UTC"@ ==> tried <= 1,
            hour < 24 && minute < 60 ==> next_bedtime(*schedule, now) == bedtime_within(
                zone,
                hour,
                minute,
                day as int,
                (3 - tried) as nat,
                now,
            ),
        decreases 3 - tried,
    {
        let local: i64 = match clock_time(day, schedule.hour, schedule.minute) {
            Some(t) => t,
            None => {
                return None;
            },
        };
        assert(day_of(local as int) == day);
        let found = schedule.timezone.instants_at(local);
        let picked = pick_upcoming(found, now);
        proof {
            lemma_picked(zone, hour, minute, day as int, found, now);
        }
        if picked.is_some() {
            proof {
                let t = picked->0;
                assert(is_bedtime(zone, hour, minute, day as int, t.secs as int));
                lemma_no_earlier_bedtime(*schedule, now, day as int, t.secs as int);
            }
            return picked;
        }
        day += 1;
        tried += 1;
    }
    proof {
        lemma_passed_bedtimes(*schedule, now, day as int);
    }
    None
}

/// Whatever the clocks show at the hour and minute of a day that has no bedtime left
/// they have shown before.
proof fn lemma_passed_bedtimes(schedule: SleepSchedule, now: Timestamp, end: int)
    requires
        schedule.hour < 24,
        schedule.minute < 60,
        none_left_before(schedule, end, now),
    ensures
        ({
            let zone = schedule.timezone@;
            let shown_now = now.secs + utc_offset(zone, now.secs as int);
            forall|s: int|
                {
                    let local = s + #[trigger] utc_offset(zone, s);
                    &&& in_calendar(s)
                    &&& now.secs < s
                    &&& local % 86_400 == schedule.hour * 3_600 + schedule.minute * 60
                    &&& shown_now / 86_400 <= local / 86_400 < end
                } ==> exists|e: int|
                    in_calendar(e) && e < s && e + #[trigger] utc_offset(zone, e) == s + utc_offset(
                        zone,
                        s,
                    )
        }),
{
    let zone = schedule.timezone@;
    let hour = schedule.hour as int;
    let minute = schedule.minute as int;
    let shown_now = now.secs + utc_offset(zone, now.secs as int);
    assert forall|s: int|
        {
            let local = s + #[trigger] utc_offset(zone, s);
            &&& in_calendar(s)
            &&& now.secs < s
            &&& local % 86_400 == schedule.hour * 3_600 + schedule.minute * 60
            &&& shown_now / 86_400 <= local / 86_400 < end
        } implies exists|e: int|
        in_calendar(e) && e < s && e + #[trigger] utc_offset(zone, e) == s + utc_offset(zone, s) by {
        let day = local_second(zone, s) / 86_400;
        assert(local_second(zone, s) == clock_second(day, hour, minute));
        assert(no_bedtime_left(zone, hour, minute, day, now));
        assert(!is_bedtime(zone, hour, minute, day, s));
        let e = choose|e: int| #[trigger]
            local_second(zone, e) == local_second(zone, s) && in_calendar(e) && e < s;
        assert(e + utc_offset(zone, e) == s + utc_offset(zone, s));
    }
}

/// Where a day's bedtime is still to come and no day before it has one left, every
/// earlier instant at which the clocks show the hour and minute is a second showing.
proof fn lemma_no_earlier_bedtime(schedule: SleepSchedule, now: Timestamp, day: int, t: int)
    requires
        schedule.hour < 24,
        schedule.minute < 60,
        none_left_before(schedule, day, now),
        is_bedtime(schedule.timezone@, schedule.hour as int, schedule.minute as int, day, t),
    ensures
        ({
            let zone = schedule.timezone@;
            let shown = t + utc_offset(zone, t);
            let shown_now = now.secs + utc_offset(zone, now.secs as int);
            &&& shown / 86_400 == day
            &&& shown % 86_400 == schedule.hour * 3_600 + schedule.minute * 60
            &&& forall|e: int|
                in_calendar(e) && e + #[trigger] utc_offset(zone, e) == shown ==> t <= e
            &&& forall|s: int|
                {
                    let local = s + #[trigger] utc_offset(zone, s);
                    &&& in_calendar(s)
                    &&& now.secs < s < t
                    &&& local % 86_400 == schedule.hour * 3_600 + schedule.minute * 60
                    &&& shown_now / 86_400 <= local / 86_400 <= shown / 86_400
                } ==> exists|e: int|
                    in_calendar(e) && e < s && e + #[trigger] utc_offset(zone, e) == s + utc_offset(
                        zone,
                        s,
                    )
        }),
{
    let zone = schedule.timezone@;
    let shown = local_second(zone, t);
    assert forall|e: int| in_calendar(e) && e + #[trigger] utc_offset(zone, e) == shown implies t
        <= e by {
        assert(local_second(zone, e) == shown);
    }
    lemma_passed_bedtimes(schedule, now, day);
    let shown_now = now.secs + utc_offset(zone, now.secs as int);
    assert forall|s: int|
        {
            let local = s + #[trigger] utc_offset(zone, s);
            &&& in_calendar(s)
            &&& now.secs < s < t
            &&& local % 86_400 == schedule.hour * 3_600 + schedule.minute * 60
            &&& shown_now / 86_400 <= local / 86_400 <= shown / 86_400
        } implies exists|e: int|
        in_calendar(e) && e < s && e + #[trigger] utc_offset(zone, e) == s + utc_offset(zone, s) by {
        let local = s + utc_offset(zone, s);
        if local / 86_400 == day {
            assert(local == shown);
            assert(local_second(zone, s) == shown);
        }
    }
}

/// The next bedtime is that of one of three days, today being the first, and no
/// day before it has one to come; without a next bedtime none of the three has.
pub proof fn next_bedtime_is_first(schedule: SleepSchedule, now: Timestamp)
    requires
        schedule.hour < 24,
        schedule.minute < 60,
    ensures
        ({
            let on = |k: int|
                bedtime_on(
                    schedule.timezone@,
                    schedule.hour as int,
                    schedule.minute as int,
                    today(schedule.timezone@, now) + k,
                    now,
                );
            match next_bedtime(schedule, now) {
                Some(t) => {
                    ||| on(0) == Some(t)
                    ||| on(0) is None && on(1) == Some(t)
                    ||| on(0) is None && on(1) is None && on(2) == Some(t)
                },
                None => on(0) is None && on(1) is None && on(2) is None,
            }
        }),
{
    reveal_with_fuel(bedtime_within, 4);
}

/// Once a bedtime has come, the next one planned is a later one.
pub proof fn bedtimes_go_forward(schedule: SleepSchedule, bedtime: Timestamp, now: Timestamp)
    requires
        !bedtime.after(now),
    ensures
        next_bedtime(schedule, now) matches Some(next) ==> next.after(now) && next.after(bedtime),
{
    if schedule.hour < 24 && schedule.minute < 60 {
        next_bedtime_is_first(schedule, now);
    }
}

/// Where the clocks are never changed, the next bedtime is when they show the hour
/// and minute next.
pub proof fn fixed_offset_bedtime(schedule: SleepSchedule, now: Timestamp, offset: int)
    requires
        schedule.hour < 24,
        schedule.minute < 60,
        now.has_days_around(),
        has_fixed_offset(schedule.timezone@, offset),
    ensures
        next_bedtime(schedule, now) matches Some(t) && t.nanos == 0 && t.secs == next_shown(
            now.secs + offset,
            schedule.hour as int,
            schedule.minute as int,
        ) - offset,
{
    let zone = schedule.timezone@;
    let hour = schedule.hour as int;
    let minute = schedule.minute as int;
    let day = today(zone, now);
    assert(in_calendar(now.secs as int));
    assert(day == day_of(now.secs + offset));
    assert(day_of(clock_second(day, hour, minute)) == day);
    assert(day_of(clock_second(day + 1, hour, minute)) == day + 1);
    fixed_offset_shows_once(zone, clock_second(day, hour, minute), offset);
    fixed_offset_shows_once(zone, clock_second(day + 1, hour, minute), offset);
    reveal_with_fuel(bedtime_within, 3);
}

/// Where the clocks are never changed, the next bedtime stays the same until it
/// comes, and then moves on by exactly one day. The server, the user and the
/// reason make no difference.
pub proof fn bedtime_stays_until_it_comes(
    schedule: SleepSchedule,
    same: SleepSchedule,
    now: Timestamp,
    later: Timestamp,
    bedtime: Timestamp,
    offset: int,
)
    requires
        has_fixed_offset(schedule.timezone@, offset),
        same.timezone@ == schedule.timezone@,
        same.hour == schedule.hour,
        same.minute == schedule.minute,
        next_bedtime(schedule, now) == Some(bedtime),
        !now.after(later),
        bedtime.after(later),
        now.has_days_around(),
        bedtime.has_days_around(),
    ensures
        next_bedtime(same, later) == Some(bedtime),
        next_bedtime(same, bedtime) == Some(
            Timestamp { secs: (bedtime.secs + 86_400) as i64, nanos: 0 },
        ),
{
    fixed_offset_bedtime(schedule, now, offset);
    fixed_offset_bedtime(same, later, offset);
    fixed_offset_bedtime(same, bedtime, offset);
}

/// Of the instants that a clock time stands for, the earlier one counts, and only if
/// it is still to come.
pub proof fn earlier_instant_counts(found: LocalInstants, now: Timestamp)
    ensures
        found is Gap ==> upcoming(found, now) is None,
        found matches LocalInstants::Single(z) ==> (upcoming(found, now) == if z.secs > now.secs {
            Some(Timestamp { secs: z.secs, nanos: 0 })
        } else {
            None
        }),
        found matches LocalInstants::Ambiguous(a, b) ==> ({
            let first = if a.secs <= b.secs {
                a.secs
            } else {
                b.secs
            };
            upcoming(found, now) == if first > now.secs {
                Some(Timestamp { secs: first, nanos: 0 })
            } else {
                None
            }
        }),
{
}

/// The bedtime of a day is the instant at which the zone's clocks show the hour and
/// minute of that day; today is the day that they show now. At an hour or minute
/// that no clock shows there is no bedtime.
pub proof fn bedtimes_go_by_the_clock(schedule: SleepSchedule, day: int, now: Timestamp)
    ensures
        bedtime_on(
            schedule.timezone@,
            schedule.hour as int,
            schedule.minute as int,
            day,
            now,
        ) == upcoming(
            local_instants(
                schedule.timezone@,
                day * 86_400 + schedule.hour * 3_600 + schedule.minute * 60,
            ),
            now,
        ),
        today(schedule.timezone@, now) * 86_400 <= now.secs + utc_offset(
            schedule.timezone@,
            now.secs as int,
        ) < (today(schedule.timezone@, now) + 1) * 86_400,
        schedule.hour > 23 || schedule.minute > 59 ==> next_bedtime(schedule, now) is None,
        next_bedtime(schedule, now) matches Some(t) ==> t.nanos == 0 && t.secs > now.secs,
{
    if schedule.hour < 24 && schedule.minute < 60 {
        next_bedtime_is_first(schedule, now);
    }
}

/// A clock that is never changed shows the hour and minute within a day, and once.
pub proof fn clock_shows_within_a_day(secs: int, hour: int, minute: int, s: int)
    requires
        0 <= hour < 24,
        0 <= minute < 60,
        secs < s <= secs + 86_400,
        s % 86_400 == hour * 3_600 + minute * 60,
    ensures
        next_shown(secs, hour, minute) == s,
{
}

} // verus!
