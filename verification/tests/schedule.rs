use chrono::{TimeZone, Timelike, Utc};
use dbot::ids::{GuildId, UserId};
use dbot::schedule::{next_sleep_time, pick_upcoming};
use dbot::scheduler::{
    scheduler_start, scheduler_step, SchedulerAction, SchedulerEvent, SchedulerStep, SleepingUsers,
};
use dbot::zone::{
    wait_until, LocalInstants, Timestamp, Timezone, Wait, ZonedInstant, MAX_DAY, MIN_DAY,
};
use dbot::SleepSchedule;

fn zone(name: &str) -> Timezone {
    Timezone::named(name).unwrap()
}

fn at(y: i32, mo: u32, d: u32, h: u32, mi: u32, s: u32) -> Timestamp {
    let t = Utc.with_ymd_and_hms(y, mo, d, h, mi, s).unwrap();
    Timestamp { secs: t.timestamp(), nanos: 0 }
}

fn schedule(hour: u32, minute: u32, name: &str) -> SleepSchedule {
    SleepSchedule::daily(GuildId(1), UserId(2), hour, minute, zone(name)).unwrap()
}

#[test]
fn daily_accepts_the_hours_of_a_day() {
    let s = SleepSchedule::daily(GuildId(7), UserId(8), 23, 59, zone("Europe/Madrid")).unwrap();
    assert_eq!(s.guild_id, GuildId(7));
    assert_eq!(s.user_id, UserId(8));
    assert_eq!((s.hour, s.minute), (23, 59));
    assert_eq!(s.timezone.name(), "Europe/Madrid");
    assert_eq!(s.reason, "Scheduled bedtime");
    let s = s.reason("Dad says it is bedtime.".to_string());
    assert_eq!(s.reason, "Dad says it is bedtime.");
    assert_eq!((s.hour, s.minute), (23, 59));
}

#[test]
fn daily_refuses_other_hours_and_minutes() {
    let e = SleepSchedule::daily(GuildId(1), UserId(2), 24, 60, zone("UTC")).unwrap_err();
    assert_eq!(e, "Sleep schedule hour must be between 0 and 23");
    let e = SleepSchedule::daily(GuildId(1), UserId(2), 23, 60, zone("UTC")).unwrap_err();
    assert_eq!(e, "Sleep schedule minute must be between 0 and 59");
}

#[test]
fn zones_are_known_by_name() {
    assert!(Timezone::named("Europe/Madrid").is_some());
    assert!(Timezone::named("Europe/Atlantis").is_none());
    assert!(Timezone::named("europe/madrid").is_none());
    assert_eq!(zone("Asia/Tokyo").clone().name(), "Asia/Tokyo");
}

#[test]
fn day_is_that_of_the_zone() {
    let t = at(1970, 1, 2, 20, 0, 0);
    assert_eq!(zone("UTC").day_at(t.secs), 1);
    assert_eq!(zone("Asia/Tokyo").day_at(t.secs), 2);
    let t = at(1970, 1, 2, 2, 0, 0);
    assert_eq!(zone("America/New_York").day_at(t.secs), 0);
}

#[test]
fn the_calendar_ends_where_chrono_ends() {
    assert_eq!(chrono::NaiveDate::MIN.to_epoch_days(), MIN_DAY);
    assert_eq!(chrono::NaiveDate::MAX.to_epoch_days(), MAX_DAY);
    let first = Timestamp { secs: (MIN_DAY as i64 + 2) * 86_400, nanos: 0 };
    let last = Timestamp { secs: (MAX_DAY as i64 - 3) * 86_400 - 1, nanos: 0 };
    assert!(first.days_around());
    assert!(last.days_around());
    assert!(!Timestamp { secs: first.secs - 1, nanos: 0 }.days_around());
    assert!(!Timestamp { secs: last.secs + 1, nanos: 0 }.days_around());
    for name in ["UTC", "Pacific/Kiritimati", "Pacific/Pago_Pago"] {
        for now in [first, last] {
            let t = next_sleep_time(&schedule(12, 0, name), now).unwrap();
            assert!(t.is_after(&now));
        }
    }
}

#[test]
fn bedtime_is_today_if_still_to_come() {
    let s = schedule(23, 30, "Europe/Madrid");
    // winter: Madrid is one hour ahead
    let t = next_sleep_time(&s, at(2024, 1, 10, 12, 0, 0));
    assert_eq!(t, Some(at(2024, 1, 10, 22, 30, 0)));
    // summer: two hours ahead
    let t = next_sleep_time(&s, at(2024, 7, 10, 12, 0, 0));
    assert_eq!(t, Some(at(2024, 7, 10, 21, 30, 0)));
}

#[test]
fn bedtime_is_tomorrow_once_it_has_come() {
    let s = schedule(23, 30, "Europe/Madrid");
    let bedtime = at(2024, 1, 10, 22, 30, 0);
    assert_eq!(next_sleep_time(&s, bedtime), Some(at(2024, 1, 11, 22, 30, 0)));
    let before = Timestamp { secs: bedtime.secs - 1, nanos: 999_999_999 };
    assert_eq!(next_sleep_time(&s, before), Some(bedtime));
    let after = Timestamp { secs: bedtime.secs, nanos: 1 };
    assert_eq!(next_sleep_time(&s, after), Some(at(2024, 1, 11, 22, 30, 0)));
}

#[test]
fn skipped_bedtime_waits_for_the_next_day() {
    // on March 31, 2024 the clocks of Madrid go from 02:00 to 03:00
    let s = schedule(2, 30, "Europe/Madrid");
    let t = next_sleep_time(&s, at(2024, 3, 31, 0, 0, 0));
    assert_eq!(t, Some(at(2024, 4, 1, 0, 30, 0)));
    let found = zone("Europe/Madrid").instants_at(at(2024, 3, 31, 2, 30, 0).secs);
    assert_eq!(found, LocalInstants::Gap);
}

#[test]
fn repeated_bedtime_comes_at_the_first_chance() {
    // on October 27, 2024 the clocks of Madrid go from 03:00 back to 02:00
    let s = schedule(2, 30, "Europe/Madrid");
    let t = next_sleep_time(&s, at(2024, 10, 26, 23, 0, 0));
    assert_eq!(t, Some(at(2024, 10, 27, 0, 30, 0)));
    let t = next_sleep_time(&s, at(2024, 10, 27, 0, 45, 0));
    assert_eq!(t, Some(at(2024, 10, 28, 1, 30, 0)));
}

#[test]
fn no_bedtime_at_an_hour_that_does_not_exist() {
    let mut s = schedule(0, 0, "UTC");
    s.hour = 24;
    assert_eq!(next_sleep_time(&s, at(2024, 1, 1, 0, 0, 0)), None);
    s.hour = 0;
    s.minute = 60;
    assert_eq!(next_sleep_time(&s, at(2024, 1, 1, 0, 0, 0)), None);
}

#[test]
fn clocks_show_the_bedtime() {
    for name in ["Europe/Madrid", "America/Sao_Paulo", "Australia/Lord_Howe", "Asia/Kathmandu"] {
        let tz: chrono_tz::Tz = name.parse().unwrap();
        for k in 0..800i64 {
            let now = Timestamp { secs: 1_500_000_000 + k * 33_333, nanos: 5 };
            let t = next_sleep_time(&schedule(2, 15, name), now).unwrap();
            let local = Utc.timestamp_opt(t.secs, 0).unwrap().with_timezone(&tz);
            assert_eq!((local.hour(), local.minute(), local.second()), (2, 15, 0));
            assert!(t.is_after(&now));
            assert!(t.secs < now.secs + 5 * 86_400);
        }
    }
}

#[test]
fn upcoming_takes_the_earlier_instant() {
    let now = Timestamp { secs: 100, nanos: 0 };
    let z = |secs: i64| ZonedInstant { secs, offset: 0 };
    assert_eq!(pick_upcoming(LocalInstants::Gap, now), None);
    assert_eq!(
        pick_upcoming(LocalInstants::Single(z(101)), now),
        Some(Timestamp { secs: 101, nanos: 0 })
    );
    assert_eq!(pick_upcoming(LocalInstants::Single(z(100)), now), None);
    assert_eq!(
        pick_upcoming(LocalInstants::Ambiguous(z(300), z(200)), now),
        Some(Timestamp { secs: 200, nanos: 0 })
    );
    assert_eq!(pick_upcoming(LocalInstants::Ambiguous(z(90), z(200)), now), None);
}

#[test]
fn wait_ends_at_the_instant() {
    let now = Timestamp { secs: 1_000, nanos: 750_000_000 };
    let later = Timestamp { secs: 1_060, nanos: 0 };
    assert_eq!(wait_until(now, later), Wait { secs: 59, nanos: 250_000_000 });
    assert_eq!(wait_until(later, now), Wait { secs: 0, nanos: 0 });
    // a leap second that has begun counts
    let leap = Timestamp { secs: 59, nanos: 1_500_000_000 };
    let after = Timestamp { secs: 60, nanos: 0 };
    assert_eq!(wait_until(leap, after), Wait { secs: 0, nanos: 500_000_000 });
    // but not over midnight
    let leap = Timestamp { secs: 86_399, nanos: 1_500_000_000 };
    let after = Timestamp { secs: 86_400, nanos: 0 };
    assert_eq!(wait_until(leap, after), Wait { secs: 0, nanos: 0 });
}

#[test]
fn scheduler_goes_round() {
    let s = schedule(23, 30, "Europe/Madrid");
    let mut users = SleepingUsers::new();
    let (step, action) = scheduler_start();
    assert_eq!(action, SchedulerAction::ReadClock);
    let now = at(2024, 1, 10, 22, 29, 0);
    let (step, action) = scheduler_step(&s, &mut users, step, SchedulerEvent::Clock(now));
    assert_eq!(
        action,
        SchedulerAction::SleepUntil(at(2024, 1, 10, 22, 30, 0), Wait { secs: 60, nanos: 0 })
    );
    assert!(!users.contains(GuildId(1), UserId(2)));
    let (step, action) = scheduler_step(&s, &mut users, step, SchedulerEvent::Woke);
    assert_eq!(action, SchedulerAction::Disconnect(GuildId(1), UserId(2)));
    assert!(users.contains(GuildId(1), UserId(2)));
    assert!(!users.contains(GuildId(2), UserId(2)));
    let (step, action) = scheduler_step(&s, &mut users, step, SchedulerEvent::Disconnected);
    assert_eq!(action, SchedulerAction::Sleep(Wait { secs: 5, nanos: 0 }));
    let (step, action) = scheduler_step(&s, &mut users, step, SchedulerEvent::Woke);
    assert_eq!((step, action), (SchedulerStep::Planning, SchedulerAction::ReadClock));
    assert!(users.contains(GuildId(1), UserId(2)));
}

#[test]
fn scheduler_tries_again_without_a_bedtime() {
    let mut s = schedule(23, 30, "Europe/Madrid");
    s.hour = 24;
    let mut users = SleepingUsers::new();
    let now = at(2024, 1, 10, 22, 29, 0);
    let (step, action) =
        scheduler_step(&s, &mut users, SchedulerStep::Planning, SchedulerEvent::Clock(now));
    assert_eq!(step, SchedulerStep::Retrying);
    assert_eq!(action, SchedulerAction::Sleep(Wait { secs: 60, nanos: 0 }));
    let (step, action) = scheduler_step(&s, &mut users, step, SchedulerEvent::Woke);
    assert_eq!((step, action), (SchedulerStep::Planning, SchedulerAction::ReadClock));
    assert!(!users.contains(GuildId(1), UserId(2)));
}

#[test]
fn a_user_goes_to_bed_once() {
    let mut users = SleepingUsers::new();
    users.insert(GuildId(1), UserId(2));
    users.insert(GuildId(1), UserId(2));
    users.insert(GuildId(2), UserId(1));
    assert!(users.contains(GuildId(1), UserId(2)));
    assert!(users.contains(GuildId(2), UserId(1)));
    assert!(!users.contains(GuildId(1), UserId(1)));
}

#[test]
fn bedtimes_go_forward_a_day_at_a_time() {
    let s = schedule(22, 30, "Europe/Madrid");
    let first = next_sleep_time(&s, at(2024, 7, 1, 12, 0, 0)).unwrap();
    let second = next_sleep_time(&s, first).unwrap();
    assert_eq!(first, at(2024, 7, 1, 20, 30, 0));
    assert_eq!(second, at(2024, 7, 2, 20, 30, 0));
}

#[test]
fn local_times_are_found_at_all_their_instants() {
    let madrid = zone("Europe/Madrid");
    // On October 27, 2024 the clocks go back from 03:00 to 02:00, at 01:00 UTC.
    match madrid.instants_at(at(2024, 10, 27, 2, 30, 0).secs) {
        LocalInstants::Ambiguous(a, b) => {
            assert_eq!((a.secs, a.offset), (at(2024, 10, 27, 0, 30, 0).secs, 7200));
            assert_eq!((b.secs, b.offset), (at(2024, 10, 27, 1, 30, 0).secs, 3600));
        }
        other => panic!("{other:?}"),
    }
    // On March 31, 2024 they go forward from 02:00 to 03:00.
    assert_eq!(madrid.instants_at(at(2024, 3, 31, 2, 30, 0).secs), LocalInstants::Gap);
    match madrid.instants_at(at(2024, 3, 31, 3, 0, 0).secs) {
        LocalInstants::Single(z) => {
            assert_eq!((z.secs, z.offset), (at(2024, 3, 31, 1, 0, 0).secs, 7200));
        }
        other => panic!("{other:?}"),
    }
    // Between the two showings of the bedtime the next one is that of the day after.
    let s = schedule(2, 30, "Europe/Madrid");
    assert_eq!(
        next_sleep_time(&s, at(2024, 10, 27, 1, 0, 0)),
        Some(at(2024, 10, 28, 1, 30, 0))
    );
}

#[test]
fn bedtime_stays_until_it_comes_and_moves_by_a_day() {
    for (name, hour) in [("UTC", 22), ("Asia/Kolkata", 3)] {
        let s = schedule(hour, 30, name);
        let mut other = s.clone().reason("late".to_string());
        other.guild_id = GuildId(99);
        other.user_id = UserId(98);
        let now = at(2024, 7, 1, 12, 0, 0);
        let t = next_sleep_time(&s, now).unwrap();
        for secs in [now.secs, now.secs + 7200, t.secs - 1] {
            assert_eq!(next_sleep_time(&other, Timestamp { secs, nanos: 999 }), Some(t));
        }
        assert_eq!(
            next_sleep_time(&other, t),
            Some(Timestamp { secs: t.secs + 86_400, nanos: 0 })
        );
    }
    assert_eq!(
        next_sleep_time(&schedule(22, 30, "UTC"), at(2024, 7, 1, 12, 0, 0)),
        Some(at(2024, 7, 1, 22, 30, 0))
    );
    assert_eq!(
        zone("UTC").instants_at(12_345),
        LocalInstants::Single(ZonedInstant { secs: 12_345, offset: 0 })
    );
    assert_eq!(zone("UTC").day_at(-1), -1);
}
