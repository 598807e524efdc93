//! The steps by which a user is sent to bed, day after day.

use crate::ids::{GuildId, UserId};
use crate::schedule::{bedtimes_go_by_the_clock, next_bedtime, next_sleep_time, SleepSchedule};
use crate::zone::{utc_offset, wait_is_never_short, wait_until, Timestamp, Wait};
use vstd::prelude::*;

verus! {

/// Seconds to wait before planning again when there is no next bedtime.
pub const RETRY_SECS: u64 = 60;

/// Seconds to rest after a bedtime before planning the next.
pub const REST_SECS: u64 = 5;

/// The users who are in bed, each in the server where the bedtime holds.
#[derive(Debug)]
pub struct SleepingUsers {
    users: Vec<(GuildId, UserId)>,
}

impl View for SleepingUsers {
    type V = Set<(GuildId, UserId)>;

    closed spec fn view(&self) -> Set<(GuildId, UserId)> {
        self.users@.to_set()
    }
}

impl SleepingUsers {
    /// No user is listed twice.
    pub closed spec fn wf(self) -> bool {
        self.users@.no_duplicates()
    }

    /// Nobody is in bed.
    pub fn new() -> (r: Self)
        ensures
            r.wf(),
            r@ == Set::<(GuildId, UserId)>::empty(),
    {
        let r = SleepingUsers { users: Vec::new() };
        assert(r@ =~= Set::<(GuildId, UserId)>::empty());
        r
    }

    /// Tells whether a user is in bed.
    pub fn contains(&self, guild_id: GuildId, user_id: UserId) -> (r: bool)
        ensures
            r == self@.contains((guild_id, user_id)),
    {
        let mut i: usize = 0;
        while i < self.users.len()
            invariant
                i <= self.users.len(),
                forall|j: int| 0 <= j < i ==> self.users@[j] != (guild_id, user_id),
            decreases self.users.len() - i,
        {
            if self.users[i].0 == guild_id && self.users[i].1 == user_id {
                assert(self.users@[i as int] == (guild_id, user_id));
                return true;
            }
            i += 1;
        }
        false
    }

    /// Puts a user to bed.
    pub fn insert(&mut self, guild_id: GuildId, user_id: UserId)
        ensures
            final(self)@ == old(self)@.insert((guild_id, user_id)),
            old(self).wf() ==> final(self).wf(),
    {
        if !self.contains(guild_id, user_id) {
            let ghost before = self.users@;
            self.users.push((guild_id, user_id));
            proof {
                let key = (guild_id, user_id);
                assert forall|k: (GuildId, UserId)| #[trigger]
                    self.users@.to_set().contains(k) <==> before.to_set().insert(key).contains(
                        k,
                    ) by {
                    if before.contains(k) {
                        let j = choose|j: int| 0 <= j < before.len() && before[j] == k;
                        assert(self.users@[j] == k);
                    }
                    assert(self.users@[before.len() as int] == key);
                }
                assert(self.users@.to_set() =~= before.to_set().insert(key));
            }
        } else {
            assert(self@ =~= self@.insert((guild_id, user_id)));
        }
    }
}

/// Where the scheduler stands.
#[derive(Clone, Copy, Debug, PartialEq, Eq, Structural)]
pub enum SchedulerStep {
    /// It has asked for the time.
    Planning,
    /// It waits because there is no next bedtime.
    Retrying,
    /// It waits for the bedtime.
    Waiting,
    /// It disconnects the user from voice.
    Disconnecting,
    /// It rests after a bedtime.
    Resting,
}

/// What the scheduler asks for.
#[derive(Clone, Copy, Debug, PartialEq, Eq, Structural)]
pub enum SchedulerAction {
    /// Tell the time.
    ReadClock,
    /// Come back after a while: there is no next bedtime, or one has just passed.
    Sleep(Wait),
    /// Come back at the bedtime.
    SleepUntil(Timestamp, Wait),
    /// Disconnect the user from voice.
    Disconnect(GuildId, UserId),
}

/// What the scheduler is told.
#[derive(Clone, Copy, Debug, PartialEq, Eq, Structural)]
pub enum SchedulerEvent {
    /// The time.
    Clock(Timestamp),
    /// The wait is over.
    Woke,
    /// The user was disconnected, or could not be.
    Disconnected,
}

impl SchedulerStep {
    /// The event is an answer to what the scheduler asked for at this step.
    pub open spec fn awaits(self, event: SchedulerEvent) -> bool {
        match self {
            SchedulerStep::Planning => event matches SchedulerEvent::Clock(now) && now.valid()
                && now.has_days_around(),
            SchedulerStep::Disconnecting => event is Disconnected,
            _ => event is Woke,
        }
    }
}

/// Where the scheduler begins.
pub fn scheduler_start() -> (r: (SchedulerStep, SchedulerAction))
    ensures
        r == (SchedulerStep::Planning, SchedulerAction::ReadClock),
{
    (SchedulerStep::Planning, SchedulerAction::ReadClock)
}

/// A step of the scheduler.
pub open spec fn proceeds(
    schedule: SleepSchedule,
    step: SchedulerStep,
    event: SchedulerEvent,
    r: (SchedulerStep, SchedulerAction),
) -> bool {
    match step {
        SchedulerStep::Planning => match next_bedtime(schedule, event->Clock_0) {
            Some(bedtime) => {
                &&& r.0 == SchedulerStep::Waiting
                &&& r.1 matches SchedulerAction::SleepUntil(t, wait)
                &&& t == bedtime
                &&& wait.is_time_until(event->Clock_0, bedtime)
            },
            None => r == (
                SchedulerStep::Retrying,
                SchedulerAction::Sleep(Wait { secs: RETRY_SECS, nanos: 0 }),
            ),
        },
        SchedulerStep::Waiting => r == (
            SchedulerStep::Disconnecting,
            SchedulerAction::Disconnect(schedule.guild_id, schedule.user_id),
        ),
        SchedulerStep::Disconnecting => r == (
            SchedulerStep::Resting,
            SchedulerAction::Sleep(Wait { secs: REST_SECS, nanos: 0 }),
        ),
        _ => r == (SchedulerStep::Planning, SchedulerAction::ReadClock),
    }
}

/// The users who are in bed after a step of the scheduler.
pub open spec fn sleeping_after(
    schedule: SleepSchedule,
    step: SchedulerStep,
    users: Set<(GuildId, UserId)>,
) -> Set<(GuildId, UserId)> {
    if step is Waiting {
        users.insert((schedule.guild_id, schedule.user_id))
    } else {
        users
    }
}

/// One step of the scheduler. At the bedtime, and only then, the user is put to
/// bed and is to be disconnected from voice; nobody ever gets up.
pub fn scheduler_step(
    schedule: &SleepSchedule,
    users: &mut SleepingUsers,
    step: SchedulerStep,
    event: SchedulerEvent,
) -> (r: (SchedulerStep, SchedulerAction))
    requires
        step.awaits(event),
    ensures
        final(users)@ == sleeping_after(*schedule, step, old(users)@),
        old(users).wf() ==> final(users).wf(),
        proceeds(*schedule, step, event, r),
        forall|user: (GuildId, UserId)| #[trigger]
            final(users)@.contains(user) <==> old(users)@.contains(user) || (step is Waiting && user
                == (schedule.guild_id, schedule.user_id)),
        match step {
            SchedulerStep::Planning => match r.1 {
                SchedulerAction::SleepUntil(t, wait) => {
                    let now = event->Clock_0;
                    let until = now.secs * 1_000_000_000 + now.nanos + wait.secs * 1_000_000_000
                        + wait.nanos;
                    &&& r.0 is Waiting
                    &&& t.nanos == 0 && t.secs > now.secs && wait.nanos < 1_000_000_000
                    &&& (t.secs + utc_offset(schedule.timezone@, t.secs as int)) % 86_400
                        == schedule.hour * 3_600 + schedule.minute * 60
                    &&& now.nanos < 1_000_000_000 ==> until == t.secs * 1_000_000_000
                    &&& t.secs * 1_000_000_000 <= until <= (t.secs + 1) * 1_000_000_000
                },
                SchedulerAction::Sleep(wait) => r.0 is Retrying && wait.secs == 60 && wait.nanos
                    == 0,
                _ => false,
            },
            SchedulerStep::Waiting => r.0 is Disconnecting && (
            r.1 matches SchedulerAction::Disconnect(guild, user) && guild == schedule.guild_id
                && user == schedule.user_id),
            SchedulerStep::Disconnecting => r.0 is Resting && (
            r.1 matches SchedulerAction::Sleep(wait) && wait.secs == 5 && wait.nanos == 0),
            SchedulerStep::Retrying => r.0 is Planning && r.1 is ReadClock,
            SchedulerStep::Resting => r.0 is Planning && r.1 is ReadClock,
        },
{
    match step {
        SchedulerStep::Planning => {
            let now = match event {
                SchedulerEvent::Clock(now) => now,
                _ => {
                    proof {
                        assert(false);
                    }
                    Timestamp { secs: 0, nanos: 0 }
                },
            };
            match next_sleep_time(schedule, now) {
                Some(bedtime) => {
                    let wait = wait_until(now, bedtime);
                    proof {
                        wait_is_never_short(now, bedtime, wait);
                    }
                    (SchedulerStep::Waiting, SchedulerAction::SleepUntil(bedtime, wait))
                },
                None => (
                    SchedulerStep::Retrying,
                    SchedulerAction::Sleep(Wait { secs: RETRY_SECS, nanos: 0 }),
                ),
            }
        },
        SchedulerStep::Waiting => {
            users.insert(schedule.guild_id, schedule.user_id);
            (
                SchedulerStep::Disconnecting,
                SchedulerAction::Disconnect(schedule.guild_id, schedule.user_id),
            )
        },
        SchedulerStep::Disconnecting => (
            SchedulerStep::Resting,
            SchedulerAction::Sleep(Wait { secs: REST_SECS, nanos: 0 }),
        ),
        SchedulerStep::Retrying | SchedulerStep::Resting => scheduler_start(),
    }
}

/// Nobody gets up: whoever is in bed before a step of the scheduler is in bed
/// after it.
pub proof fn nobody_gets_up(
    schedule: SleepSchedule,
    step: SchedulerStep,
    users: Set<(GuildId, UserId)>,
)
    ensures
        users.subset_of(sleeping_after(schedule, step, users)),
{
}

/// A user is asked to be disconnected only at a bedtime, and is in bed then.
pub proof fn disconnects_only_sleepers(
    schedule: SleepSchedule,
    step: SchedulerStep,
    event: SchedulerEvent,
    users: Set<(GuildId, UserId)>,
    r: (SchedulerStep, SchedulerAction),
)
    requires
        step.awaits(event),
        proceeds(schedule, step, event, r),
    ensures
        r.1 matches SchedulerAction::Disconnect(guild, user) ==> step is Waiting && sleeping_after(
            schedule,
            step,
            users,
        ).contains((guild, user)),
{
}

/// The event is an answer to what the scheduler asked for.
pub open spec fn answers(action: SchedulerAction, event: SchedulerEvent) -> bool {
    match action {
        SchedulerAction::ReadClock => event matches SchedulerEvent::Clock(now) && now.valid()
            && now.has_days_around(),
        SchedulerAction::Sleep(_) => event is Woke,
        SchedulerAction::SleepUntil(_, _) => event is Woke,
        SchedulerAction::Disconnect(_, _) => event is Disconnected,
    }
}

/// Whoever answers what the scheduler asks for at a step may take the next.
pub proof fn step_awaits_its_answer(
    schedule: SleepSchedule,
    step: SchedulerStep,
    event: SchedulerEvent,
    r: (SchedulerStep, SchedulerAction),
    next: SchedulerEvent,
)
    requires
        step.awaits(event),
        proceeds(schedule, step, event, r),
    ensures
        answers(r.1, next) <==> r.0.awaits(next),
{
}

/// Once it knows the time, the scheduler sleeps until the next bedtime and no
/// shorter: the clock that it was told, and the wait, make the bedtime, but for a
/// leap second. Without a next bedtime it tries again after a minute.
pub proof fn nobody_is_sent_to_bed_early(
    schedule: SleepSchedule,
    now: Timestamp,
    r: (SchedulerStep, SchedulerAction),
)
    requires
        now.valid(),
        proceeds(schedule, SchedulerStep::Planning, SchedulerEvent::Clock(now), r),
    ensures
        match next_bedtime(schedule, now) {
            Some(bedtime) => r.0 is Waiting && (
            r.1 matches SchedulerAction::SleepUntil(t, wait) && {
                let until = now.secs * 1_000_000_000 + now.nanos + wait.secs * 1_000_000_000
                    + wait.nanos;
                &&& t == bedtime
                &&& t.after(now)
                &&& now.nanos < 1_000_000_000 ==> until == t.secs * 1_000_000_000
                &&& t.secs * 1_000_000_000 <= until <= (t.secs + 1) * 1_000_000_000
            }),
            None => r.0 is Retrying && (r.1 matches SchedulerAction::Sleep(wait) && wait.secs == 60
                && wait.nanos == 0),
        },
{
    if next_bedtime(schedule, now) is Some {
        let bedtime = next_bedtime(schedule, now)->0;
        bedtimes_go_by_the_clock(schedule, 0, now);
        if r.1 is SleepUntil {
            wait_is_never_short(now, bedtime, r.1->SleepUntil_1);
        }
    }
}

/// After the wait for a bedtime the user of the schedule is put to bed and is to be
/// disconnected; then the scheduler rests for five seconds and begins again.
pub proof fn bedtime_is_kept(
    schedule: SleepSchedule,
    event: SchedulerEvent,
    users: Set<(GuildId, UserId)>,
    woken: (SchedulerStep, SchedulerAction),
    rested: (SchedulerStep, SchedulerAction),
    again: (SchedulerStep, SchedulerAction),
    retried: (SchedulerStep, SchedulerAction),
)
    requires
        proceeds(schedule, SchedulerStep::Waiting, SchedulerEvent::Woke, woken),
        proceeds(schedule, SchedulerStep::Disconnecting, SchedulerEvent::Disconnected, rested),
        proceeds(schedule, SchedulerStep::Resting, SchedulerEvent::Woke, again),
        proceeds(schedule, SchedulerStep::Retrying, SchedulerEvent::Woke, retried),
    ensures
        woken.0 is Disconnecting,
        woken.1 matches SchedulerAction::Disconnect(guild, user) && guild == schedule.guild_id
            && user == schedule.user_id,
        rested.0 is Resting,
        rested.1 matches SchedulerAction::Sleep(wait) && wait.secs == 5 && wait.nanos == 0,
        again.0 is Planning && again.1 is ReadClock,
        retried == again,
        forall|user: (GuildId, UserId)| #[trigger]
            sleeping_after(schedule, SchedulerStep::Waiting, users).contains(user)
                <==> users.contains(user) || user == (schedule.guild_id, schedule.user_id),
        forall|step: SchedulerStep|
            !(step is Waiting) ==> #[trigger] sleeping_after(schedule, step, users) == users,
{
}

} // verus!
