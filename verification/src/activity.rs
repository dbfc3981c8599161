//! How long the user has been active, and when that or the hour of the day calls for
//! restrictions.
//!
//! Times are readings of a monotonic clock in nanoseconds.

use vstd::prelude::*;
use crate::config::AppConfig;
#[allow(unused_imports)]
use crate::config::ConfigView;

verus! {

pub const NANOS_PER_SEC: u128 = 1_000_000_000;

/// The longest time that is counted: the largest number of whole seconds in 64 bits, and all but
/// one of the nanoseconds of the next.
pub const MAX_NANOS: u128 = 18_446_744_073_709_551_615_999_999_999;

/// The user counts as idle after three minutes without input.
pub const IDLE_AFTER_MS: u32 = 180_000;

/// The milliseconds since the last input, from the tick count of now and that of the last input,
/// if they could be had. The tick count starts over after 32 bits.
pub fn get_user_idle_ms(ticks: Option<(u32, u32)>) -> (r: Option<u32>)
    ensures
        match ticks {
            Some((now, last_input)) => r == Some(((now - last_input) % 0x1_0000_0000) as u32),
            None => r is None,
        },
        ticks matches Some((now, last_input)) ==> (r matches Some(ms) && {
            ||| last_input <= now && last_input + ms == now
            ||| now < last_input && last_input + ms == now + 0x1_0000_0000
        }),
{
    match ticks {
        Some((now, last_input)) => Some(now.wrapping_sub(last_input)),
        None => None,
    }
}

/// One audio session, as far as it could be asked.
pub struct AudioSession {
    /// The process that it belongs to.
    pub process_id: Option<u32>,
    /// Whether its peak level is above zero.
    pub audible: Option<bool>,
}

/// Whether the session belongs to the process and can be heard.
pub open spec fn heard_from(session: AudioSession, pid: u32) -> bool {
    session.process_id == Some(pid) && session.audible == Some(true)
}

/// Whether one of the sessions belongs to the process and can be heard.
pub open spec fn any_heard_from(sessions: Seq<AudioSession>, pid: u32) -> bool {
    exists|i: int| 0 <= i < sessions.len() && heard_from(#[trigger] sessions[i], pid)
}

/// Whether the foreground process is streaming audio, given the audio sessions if they could be
/// listed. No process has the identifier zero.
pub fn is_foreground_process_streaming_audio(
    foreground_pid: u32,
    sessions: Option<&[AudioSession]>,
) -> (r: bool)
    ensures
        r == (foreground_pid != 0 && match sessions {
            Some(all) => any_heard_from(all@, foreground_pid),
            None => false,
        }),
{
    if foreground_pid == 0 {
        return false;
    }
    match sessions {
        None => false,
        Some(all) => {
            let mut i: usize = 0;
            while i < all.len()
                invariant
                    sessions == Some(all),
                    foreground_pid != 0,
                    i <= all.len(),
                    forall|j: int| 0 <= j < i ==> !heard_from(#[trigger] all@[j], foreground_pid),
                decreases all.len() - i,
            {
                if let Some(pid) = all[i].process_id {
                    if pid == foreground_pid {
                        if let Some(audible) = all[i].audible {
                            if audible {
                                assert(heard_from(all@[i as int], foreground_pid));
                                return true;
                            }
                        }
                    }
                }
                i += 1;
            }
            false
        },
    }
}

/// Whether the user counts as idle: three minutes have passed without input, and the foreground
/// process is not streaming audio. Where the last input is not known, it counts as just now.
pub open spec fn idle(idle_ms: Option<u32>, streaming: bool) -> bool {
    (idle_ms matches Some(ms) && ms >= IDLE_AFTER_MS) && !streaming
}

/// Whether the user counts as idle.
pub fn is_idle(idle_ms: Option<u32>, streaming: bool) -> (r: bool)
    ensures
        r == idle(idle_ms, streaming),
        r <==> !streaming && (idle_ms matches Some(ms) && ms >= 180_000),
{
    let ms: u32 = match idle_ms {
        Some(ms) => ms,
        None => 0,
    };
    ms >= IDLE_AFTER_MS && !streaming
}

/// Whether `hour` is in the part of the day from `start` up to, but not with, `end`, which may
/// go past midnight.
pub open spec fn restricted_hour(start: u32, end: u32, hour: u32) -> bool {
    if start <= end {
        start <= hour < end
    } else {
        start <= hour || hour < end
    }
}

/// Whether `hour` is in the restricted part of the day.
pub fn is_within_restricted_hours(start: u32, end: u32, hour: u32) -> (r: bool)
    ensures
        r == restricted_hour(start, end, hour),
        start <= end ==> (r <==> start <= hour < end),
        end < start ==> (r <==> !(end <= hour < start)),
{
    if start <= end {
        hour >= start && hour < end
    } else {
        hour >= start || hour < end
    }
}

/// The time from `earlier` to `now`; zero where `now` is not later.
pub open spec fn since(earlier: u128, now: u128) -> nat {
    if earlier <= now {
        (now - earlier) as nat
    } else {
        0
    }
}

/// Counts the time during which the user was active.
#[derive(Clone, Copy, Debug, PartialEq, Eq, Structural)]
pub struct ActiveTracker {
    /// When time was last counted.
    pub last_check: u128,
    /// The time counted so far.
    pub total_active_duration: u128,
}

impl ActiveTracker {
    /// A tracker that starts to count at `now`.
    pub fn new(now: u128) -> (tracker: Self)
        ensures
            tracker == (ActiveTracker { last_check: now, total_active_duration: 0 }),
    {
        ActiveTracker { last_check: now, total_active_duration: 0 }
    }

    /// The tracker after a tick at `now`.
    pub open spec fn after(self, now: u128, is_idle: bool) -> ActiveTracker {
        ActiveTracker {
            last_check: now,
            total_active_duration: if is_idle {
                self.total_active_duration
            } else {
                (self.total_active_duration + since(self.last_check, now)) as u128
            },
        }
    }

    /// Whether the time up to `now` can be counted.
    pub open spec fn can_count(self, now: u128) -> bool {
        self.total_active_duration + since(self.last_check, now) <= MAX_NANOS
    }

    /// Counts the time since the last tick, unless the user was idle. Says how long that was.
    pub fn tick(&mut self, now: u128, is_idle: bool) -> (elapsed: u128)
        requires
            is_idle || old(self).can_count(now),
        ensures
            elapsed == since(old(self).last_check, now),
            *final(self) == old(self).after(now, is_idle),
            old(self).last_check <= now ==> old(self).last_check + elapsed == now,
            now < old(self).last_check ==> elapsed == 0,
            final(self).last_check == now,
            final(self).total_active_duration == old(self).total_active_duration + (if is_idle {
                0
            } else {
                elapsed as int
            }),
    {
        let elapsed: u128 = if self.last_check <= now {
            now - self.last_check
        } else {
            0
        };
        self.last_check = now;
        if !is_idle {
            self.total_active_duration = self.total_active_duration + elapsed;
        }
        elapsed
    }

    /// Whether the active time has reached the limit.
    pub open spec fn limit_reached(self, limit_seconds: u64) -> bool {
        self.total_active_duration >= limit_seconds * NANOS_PER_SEC
    }

    /// Whether the active time has reached the limit.
    pub fn limit_exceeded(&self, limit_seconds: u64) -> (r: bool)
        ensures
            r == self.limit_reached(limit_seconds),
            r <==> limit_seconds * 1_000_000_000 <= self.total_active_duration,
    {
        self.total_active_duration >= limit_seconds as u128 * NANOS_PER_SEC
    }
}

/// Whether the configuration restricts the user: the active time has reached the limit, or both
/// hours are given and the hour lies in between.
pub open spec fn restricted(tracker: ActiveTracker, config: ConfigView, hour: u32) -> bool {
    ||| tracker.limit_reached(config.limit_seconds)
    ||| (config.start_hour matches Some(start) && config.end_hour matches Some(end)
        && restricted_hour(start, end, hour))
}

/// Whether the configuration restricts the user.
pub fn restriction_profile_active(tracker: &ActiveTracker, config: &AppConfig, hour: u32) -> (r:
    bool)
    ensures
        r == restricted(*tracker, config@, hour),
        r <==> {
            ||| config.limit_seconds * 1_000_000_000 <= tracker.total_active_duration
            ||| (config.start_hour matches Some(start) && config.end_hour matches Some(end) && (
            start <= hour < end || (end < start && !(end <= hour < start))))
        },
{
    let time_limit_exceeded = tracker.limit_exceeded(config.limit_seconds);
    let in_restricted_hours = match (config.start_hour, config.end_hour) {
        (Some(start), Some(end)) => is_within_restricted_hours(start, end, hour),
        _ => false,
    };
    time_limit_exceeded || in_restricted_hours
}

/// What came of counting the time up to now.
#[derive(Clone, Copy, Debug, PartialEq, Eq, Structural)]
pub struct Assessment {
    /// Whether the user was idle, so that the time does not count.
    pub idle: bool,
    /// The time since it was last counted.
    pub elapsed: u128,
    /// Whether the user is restricted from now on.
    pub restricted: bool,
}

/// Counts the time up to `now`, unless the user is idle, and says whether the configuration
/// restricts the user from then on.
pub fn assess(
    tracker: &mut ActiveTracker,
    now: u128,
    idle_ms: Option<u32>,
    streaming: bool,
    config: &AppConfig,
    hour: u32,
) -> (r: Assessment)
    requires
        idle(idle_ms, streaming) || old(tracker).can_count(now),
    ensures
        *final(tracker) == old(tracker).after(now, idle(idle_ms, streaming)),
        r == (Assessment {
            idle: idle(idle_ms, streaming),
            elapsed: since(old(tracker).last_check, now) as u128,
            restricted: restricted(*final(tracker), config@, hour),
        }),
        r.idle <==> !streaming && (idle_ms matches Some(ms) && ms >= 180_000),
        old(tracker).last_check <= now ==> old(tracker).last_check + r.elapsed == now,
        now < old(tracker).last_check ==> r.elapsed == 0,
        final(tracker).last_check == now,
        final(tracker).total_active_duration == old(tracker).total_active_duration + (if r.idle {
            0
        } else {
            r.elapsed as int
        }),
        config.limit_seconds * 1_000_000_000 <= final(tracker).total_active_duration
            ==> r.restricted,
{
    let idle = is_idle(idle_ms, streaming);
    let elapsed: u128 = tracker.tick(now, idle);
    let restricted = restriction_profile_active(tracker, config, hour);
    Assessment { idle, elapsed, restricted }
}

impl ActiveTracker {
    /// The tracker after the given ticks, each a time and whether the user was idle.
    pub open spec fn run(self, ticks: Seq<(u128, bool)>) -> ActiveTracker
        decreases ticks.len(),
    {
        if ticks.len() == 0 {
            self
        } else {
            self.run(ticks.drop_last()).after(ticks.last().0, ticks.last().1)
        }
    }
}

/// Whether the times of the ticks do not go back, from `start` on.
pub open spec fn in_order(start: u128, ticks: Seq<(u128, bool)>) -> bool {
    &&& forall|i: int| 0 <= i < ticks.len() ==> start <= (#[trigger] ticks[i]).0
    &&& forall|i: int, j: int|
        0 <= i <= j < ticks.len() ==> (#[trigger] ticks[i]).0 <= (#[trigger] ticks[j]).0
}

/// The active time never exceeds the time that has passed, and equals it where the user was
/// never idle. It stays zero where the user was idle at every tick.
pub proof fn active_time_is_bounded(start: u128, ticks: Seq<(u128, bool)>)
    requires
        in_order(start, ticks),
    ensures
        ({
            let first = ActiveTracker { last_check: start, total_active_duration: 0 };
            let end = first.run(ticks);
            &&& start <= end.last_check
            &&& end.last_check == (if ticks.len() > 0 {
                ticks.last().0
            } else {
                start
            })
            &&& end.total_active_duration <= end.last_check - start
            &&& (forall|i: int| 0 <= i < ticks.len() ==> !(#[trigger] ticks[i]).1)
                ==> end.total_active_duration == end.last_check - start
            &&& (forall|i: int| 0 <= i < ticks.len() ==> (#[trigger] ticks[i]).1)
                ==> end.total_active_duration == 0
        }),
    decreases ticks.len(),
{
    if ticks.len() > 0 {
        let before = ticks.drop_last();
        assert(forall|i: int| 0 <= i < before.len() ==> #[trigger] before[i] == ticks[i]);
        active_time_is_bounded(start, before);
        if before.len() > 0 {
            assert(before.last() == ticks[ticks.len() - 2]);
        }
        assert(ticks.last() == ticks[ticks.len() - 1]);
    }
}

/// The sum of the intervals between ticks, the first from `start`, at whose end the user was not
/// idle.
pub open spec fn active_time(start: u128, ticks: Seq<(u128, bool)>) -> nat
    decreases ticks.len(),
{
    if ticks.len() == 0 {
        0
    } else {
        let before = ticks.drop_last();
        let (now, is_idle) = ticks.last();
        let earlier = if before.len() > 0 {
            before.last().0
        } else {
            start
        };
        active_time(start, before) + if is_idle {
            0
        } else {
            since(earlier, now)
        }
    }
}

/// The time that a tracker has counted is the sum of the active intervals, as long as that can be
/// counted at all.
pub proof fn total_is_sum_of_active_intervals(start: u128, ticks: Seq<(u128, bool)>)
    requires
        active_time(start, ticks) <= MAX_NANOS,
    ensures
        ({
            let first = ActiveTracker { last_check: start, total_active_duration: 0 };
            let end = first.run(ticks);
            &&& end.total_active_duration == active_time(start, ticks)
            &&& end.last_check == (if ticks.len() > 0 {
                ticks.last().0
            } else {
                start
            })
        }),
    decreases ticks.len(),
{
    if ticks.len() > 0 {
        total_is_sum_of_active_intervals(start, ticks.drop_last());
    }
}

/// A tick never takes active time away, so a limit that was reached stays reached.
pub proof fn limit_stays_reached(
    tracker: ActiveTracker,
    now: u128,
    is_idle: bool,
    limit_seconds: u64,
)
    requires
        is_idle || tracker.can_count(now),
    ensures
        tracker.total_active_duration <= tracker.after(now, is_idle).total_active_duration,
        tracker.limit_reached(limit_seconds) ==> tracker.after(now, is_idle).limit_reached(
            limit_seconds,
        ),
{
}

/// A user whose active time has reached the limit is restricted at every hour.
pub proof fn spent_limit_restricts(tracker: ActiveTracker, config: ConfigView, hour: u32)
    requires
        tracker.limit_reached(config.limit_seconds),
    ensures
        restricted(tracker, config, hour),
{
}

/// Of two different hours, the part of the day from the one to the other and the part from the
/// other to the one make up the day and do not overlap. From an hour to itself there is nothing.
pub proof fn swapped_hours_complement(start: u32, end: u32, hour: u32)
    ensures
        start != end ==> restricted_hour(start, end, hour) == !restricted_hour(end, start, hour),
        !restricted_hour(start, start, hour),
{
}

/// A user who is listening to the foreground process is not idle, however long ago the last
/// input was.
pub proof fn listening_is_not_idle(idle_ms: Option<u32>)
    ensures
        !idle(idle_ms, true),
{
}

/// Without audio, the user is idle from three minutes without input on, and not a millisecond
/// earlier. Once idle, the user stays idle however much longer there is no input. Where the last
/// input is not known, the user is not idle.
pub proof fn idle_from_three_minutes_on(ms: u32, later: u32, streaming: bool)
    ensures
        idle(Some(ms), false) <==> 3 * 60 * 1000 <= ms,
        idle(Some(ms), streaming) && ms <= later ==> idle(Some(later), streaming),
        idle(Some(ms), streaming) <==> idle(Some(ms), false) && !streaming,
        !idle(None, streaming),
{
}

/// With both hours given, every hour from the first up to the second restricts, whatever the
/// active time, and where the second is the smaller one, so does every hour from the first on and
/// every hour before the second.
pub proof fn hours_restrict(
    tracker: ActiveTracker,
    config: ConfigView,
    start: u32,
    end: u32,
    hour: u32,
)
    requires
        config.start_hour == Some(start),
        config.end_hour == Some(end),
        start <= hour < end || (end < start && (start <= hour || hour < end)),
    ensures
        restricted(tracker, config, hour),
{
}

/// A user below the limit is free where an hour is not given, and outside the hours where both
/// are.
pub proof fn nothing_else_restricts(tracker: ActiveTracker, config: ConfigView, hour: u32)
    requires
        tracker.total_active_duration < config.limit_seconds * 1_000_000_000,
        config.start_hour matches Some(start) ==> (config.end_hour matches Some(end) ==> {
            ||| start <= end && (hour < start || end <= hour)
            ||| end <= hour < start
        }),
    ensures
        !restricted(tracker, config, hour),
{
}

/// A user whose active time is the limit or more is restricted, whatever the hours.
pub proof fn limit_restricts(tracker: ActiveTracker, config: ConfigView, hour: u32)
    requires
        config.limit_seconds * 1_000_000_000 <= tracker.total_active_duration,
    ensures
        restricted(tracker, config, hour),
{
}

/// On the face of a clock, an hour is restricted where it is reached from the first hour before
/// the second hour is: going forward, past midnight where need be.
pub proof fn restricted_hours_run_forward(start: u32, end: u32, hour: u32)
    requires
        start < 24,
        end < 24,
        hour < 24,
    ensures
        restricted_hour(start, end, hour) <==> (hour - start) % 24 < (end - start) % 24,
{
}

/// For hours that are no hours of a day, too: up to the second hour where the first is not
/// larger, and everywhere but from the second up to the first where it is.
pub proof fn restricted_hours_are_a_range_or_its_rest(start: u32, end: u32, hour: u32)
    ensures
        start <= end ==> (restricted_hour(start, end, hour) <==> start <= hour && hour < end),
        end < start ==> (restricted_hour(start, end, hour) <==> !(end <= hour && hour < start)),
{
}

/// A tick adds the time since the last one, unless the user was idle, and the next tick counts
/// from it in any case. A clock that goes back adds nothing.
pub proof fn tick_adds_active_time(tracker: ActiveTracker, now: u128, is_idle: bool)
    requires
        tracker.last_check <= now ==> tracker.total_active_duration + (now - tracker.last_check)
            <= MAX_NANOS,
    ensures
        tracker.after(now, is_idle).last_check == now,
        tracker.after(now, true).total_active_duration == tracker.total_active_duration,
        tracker.last_check <= now ==> tracker.after(now, false).total_active_duration
            == tracker.total_active_duration + (now - tracker.last_check),
        now < tracker.last_check ==> tracker.after(now, false).total_active_duration
            == tracker.total_active_duration,
{
}

/// It does not matter how often the time of an active user is counted: a tick in between changes
/// nothing.
pub proof fn ticks_in_between_change_nothing(tracker: ActiveTracker, between: u128, now: u128)
    requires
        tracker.last_check <= between <= now,
        tracker.total_active_duration + (now - tracker.last_check) <= MAX_NANOS,
    ensures
        tracker.after(between, false).after(now, false) == tracker.after(now, false),
{
}

/// The limit is reached with its last nanosecond, and not before. A larger limit is not reached
/// earlier.
pub proof fn limit_is_reached_to_the_nanosecond(tracker: ActiveTracker, limit: u64, larger: u64)
    ensures
        tracker.limit_reached(limit) <==> limit * 1_000_000_000 <= tracker.total_active_duration,
        limit <= larger && tracker.limit_reached(larger) ==> tracker.limit_reached(limit),
{
}

/// A user who was active from the start until the limit was used up is restricted then, at every
/// hour. One who was idle is as restricted as before.
pub proof fn active_time_uses_up_the_limit(
    start: u128,
    now: u128,
    idle_ms: Option<u32>,
    streaming: bool,
    config: ConfigView,
    hour: u32,
)
    requires
        start + config.limit_seconds * 1_000_000_000 <= now,
        now - start <= MAX_NANOS,
    ensures
        ({
            let first = ActiveTracker { last_check: start, total_active_duration: 0 };
            let away = idle(idle_ms, streaming);
            let next = first.after(now, away);
            &&& !(idle_ms matches Some(ms) && 180_000 <= ms) || streaming ==> restricted(
                next,
                config,
                hour,
            )
            &&& (idle_ms matches Some(ms) && 180_000 <= ms) && !streaming ==> restricted(
                next,
                config,
                hour,
            ) == restricted(first, config, hour)
        }),
{
}

/// One session of the foreground process that can be heard is enough, whatever the other sessions
/// are.
pub proof fn one_audible_session_is_enough(sessions: Seq<AudioSession>, pid: u32, i: int)
    requires
        0 <= i < sessions.len(),
        sessions[i].process_id == Some(pid),
        sessions[i].audible == Some(true),
    ensures
        any_heard_from(sessions, pid),
{
    assert(heard_from(sessions[i], pid));
}

/// Sessions of other processes do not count, nor do silent ones or those that could not be asked.
pub proof fn other_sessions_do_not_count(sessions: Seq<AudioSession>, pid: u32)
    requires
        forall|i: int|
            0 <= i < sessions.len() ==> (#[trigger] sessions[i]).process_id != Some(pid)
                || sessions[i].audible != Some(true),
    ensures
        !any_heard_from(sessions, pid),
{
}

/// The time between two readings of the clock leads from the one to the other, and is zero where
/// the clock went back. It can be counted as long as the total stays a number of seconds in 64
/// bits and a part of the next second.
pub proof fn time_between_readings(tracker: ActiveTracker, now: u128)
    ensures
        tracker.last_check <= now ==> tracker.last_check + since(tracker.last_check, now) == now,
        now <= tracker.last_check ==> since(tracker.last_check, now) == 0,
        tracker.can_count(now) <==> tracker.total_active_duration + since(tracker.last_check, now)
            < (0xffff_ffff_ffff_ffff + 1) * 1_000_000_000,
{
}

} // verus!
