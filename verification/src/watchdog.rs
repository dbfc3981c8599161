//! The watchdog that keeps a companion process alive.
//!
//! The watchdog decides; its caller waits for the child, looks at the running processes, starts
//! the companion and sleeps, and reports what came of it.

use vstd::prelude::*;
use vstd::string::*;
#[allow(unused_imports)]
use crate::text::{text_of, texts};

verus! {

/// What the watchdog reports.
#[derive(Debug)]
pub enum WatchdogEvent {
    Started(String),
    ProcessDetected(String),
    ProcessMissing(String),
    ProcessSpawned(String),
    ProcessSpawnFailed(String, String),
    ProcessExited(String, String),
}

/// An event as plain values.
pub enum EventView {
    Started(Seq<char>),
    ProcessDetected(Seq<char>),
    ProcessMissing(Seq<char>),
    ProcessSpawned(Seq<char>),
    ProcessSpawnFailed(Seq<char>, Seq<char>),
    ProcessExited(Seq<char>, Seq<char>),
}

impl View for WatchdogEvent {
    type V = EventView;

    open spec fn view(&self) -> EventView {
        match self {
            WatchdogEvent::Started(name) => EventView::Started(name@),
            WatchdogEvent::ProcessDetected(name) => EventView::ProcessDetected(name@),
            WatchdogEvent::ProcessMissing(name) => EventView::ProcessMissing(name@),
            WatchdogEvent::ProcessSpawned(name) => EventView::ProcessSpawned(name@),
            WatchdogEvent::ProcessSpawnFailed(name, why) => EventView::ProcessSpawnFailed(
                name@,
                why@,
            ),
            WatchdogEvent::ProcessExited(name, how) => EventView::ProcessExited(name@, how@),
        }
    }
}

/// What a look at the companion showed.
pub enum Observation {
    /// The child ended; its status as text, and whether it was a success.
    ChildExited(String, bool),
    /// The child is still running.
    ChildRunning,
    /// The child could not be waited for, and why.
    ChildLost(String),
    /// There is no child; whether a process of the companion's name is running.
    Scanned(bool),
}

/// What is to be done before the next look.
#[derive(PartialEq, Eq, Structural, Clone, Copy, Debug)]
pub enum Action {
    /// Sleep for the interval.
    Sleep,
    /// Start the companion, and report the outcome.
    Spawn,
    /// End this process with success: the companion was told to stop.
    Exit,
}

/// The watchdog over one companion.
pub struct Watchdog {
    /// The name of the companion's executable.
    pub target_name: String,
    /// Whether the pair may be stopped by a clean exit.
    pub enable_kill: bool,
    /// Whether the companion runs as this process's child.
    pub has_child: bool,
    /// Whether the companion was running when last seen.
    pub last_was_running: bool,
}

/// What the watchdog remembers.
pub struct WatchdogView {
    pub target: Seq<char>,
    pub enable_kill: bool,
    pub has_child: bool,
    pub last_was_running: bool,
}

impl View for Watchdog {
    type V = WatchdogView;

    open spec fn view(&self) -> WatchdogView {
        WatchdogView {
            target: self.target_name@,
            enable_kill: self.enable_kill,
            has_child: self.has_child,
            last_was_running: self.last_was_running,
        }
    }
}

impl WatchdogView {
    /// A companion that runs as a child was running when last seen.
    pub open spec fn valid(self) -> bool {
        self.has_child ==> self.last_was_running
    }

    /// Whether `seen` can be what a look showed: the child is looked at while there is one, and
    /// the running processes otherwise.
    pub open spec fn can_see(self, seen: Observation) -> bool {
        self.has_child == !(seen is Scanned)
    }

    /// The state after a look.
    pub open spec fn after(self, seen: Observation) -> WatchdogView {
        match seen {
            Observation::ChildExited(_, _) => WatchdogView { has_child: false, ..self },
            Observation::ChildRunning => WatchdogView { last_was_running: true, ..self },
            Observation::ChildLost(_) => WatchdogView { has_child: false, ..self },
            Observation::Scanned(found) => WatchdogView { last_was_running: found, ..self },
        }
    }

    /// What is reported of a look.
    pub open spec fn report(self, seen: Observation) -> Option<EventView> {
        match seen {
            Observation::ChildExited(status, _) => Some(
                EventView::ProcessExited(self.target, status@),
            ),
            Observation::ChildRunning => None,
            Observation::ChildLost(why) => Some(
                EventView::ProcessExited(self.target, "Error waiting: "@ + why@),
            ),
            Observation::Scanned(found) => if found {
                if self.last_was_running {
                    None
                } else {
                    Some(EventView::ProcessDetected(self.target))
                }
            } else {
                Some(EventView::ProcessMissing(self.target))
            },
        }
    }

    /// What a look calls for.
    pub open spec fn reaction(self, seen: Observation) -> Action {
        match seen {
            Observation::ChildExited(_, success) => if self.enable_kill && success {
                Action::Exit
            } else {
                Action::Spawn
            },
            Observation::ChildRunning => Action::Sleep,
            Observation::ChildLost(_) => Action::Spawn,
            Observation::Scanned(found) => if found {
                Action::Sleep
            } else {
                Action::Spawn
            },
        }
    }

    /// What is reported of an attempt to start the companion, which may have failed.
    pub open spec fn spawn_report(self, failure: Option<Seq<char>>) -> EventView {
        match failure {
            None => EventView::ProcessSpawned(self.target),
            Some(why) => EventView::ProcessSpawnFailed(self.target, why),
        }
    }

    /// The state after an attempt to start the companion.
    pub open spec fn after_spawn(self, started: bool) -> WatchdogView {
        WatchdogView { has_child: started, last_was_running: started, ..self }
    }
}

/// The view of an optional event.
pub open spec fn event_of(event: Option<WatchdogEvent>) -> Option<EventView> {
    match event {
        Some(e) => Some(e@),
        None => None,
    }
}

/// A watchdog named `my_name` over `target_name` that has seen nothing yet, and its first event.
pub fn start_watchdog(my_name: String, target_name: String, enable_kill: bool) -> (r: (
    Watchdog,
    WatchdogEvent,
))
    ensures
        r.0@ == fresh(target_name@, enable_kill),
        r.0@.valid(),
        r.0.target_name@ == target_name@,
        r.0.enable_kill == enable_kill,
        !r.0.has_child && !r.0.last_was_running,
        r.1@ == EventView::Started(my_name@),
{
    let watchdog = Watchdog { target_name, enable_kill, has_child: false, last_was_running: false };
    (watchdog, WatchdogEvent::Started(my_name))
}

/// The argument by which a process is told that a clean exit stops the pair.
pub const ENABLE_KILL_ARG: &'static str = "--enable-kill";

/// Whether one of the arguments lets a clean exit stop the pair.
pub open spec fn asks_for_kill(args: Seq<String>) -> bool {
    exists|i: int| 0 <= i < args.len() && #[trigger] args[i]@ == ENABLE_KILL_ARG@
}

/// Whether the arguments of a process let a clean exit stop the pair.
pub fn kill_enabled(args: &[String]) -> (r: bool)
    ensures
        r == asks_for_kill(args@),
{
    let flag = ENABLE_KILL_ARG.to_string();
    let mut i: usize = 0;
    while i < args.len()
        invariant
            i <= args.len(),
            flag@ == ENABLE_KILL_ARG@,
            forall|j: int| 0 <= j < i ==> #[trigger] args@[j]@ != ENABLE_KILL_ARG@,
        decreases args.len() - i,
    {
        if args[i] == flag {
            assert(args@[i as int]@ == ENABLE_KILL_ARG@);
            return true;
        }
        i += 1;
    }
    false
}

impl Watchdog {
    /// Takes in what a look at the companion showed: what is to be reported, if anything, and
    /// what is to be done.
    pub fn observe(&mut self, seen: Observation) -> (r: (Option<WatchdogEvent>, Action))
        requires
            old(self)@.can_see(seen),
        ensures
            final(self)@ == old(self)@.after(seen),
            old(self)@.valid() ==> final(self)@.valid(),
            event_of(r.0) == old(self)@.report(seen),
            r.1 == old(self)@.reaction(seen),
            r.1 is Sleep <==> seen is ChildRunning || seen == Observation::Scanned(true),
            seen == Observation::Scanned(false) ==> (r.0 matches Some(
                WatchdogEvent::ProcessMissing(name),
            ) && name@ == old(self).target_name@) && r.1 is Spawn,
            r.1 is Exit ==> old(self).enable_kill && (seen matches Observation::ChildExited(
                _,
                success,
            ) && success),
            final(self).target_name@ == old(self).target_name@,
            final(self).enable_kill == old(self).enable_kill,
    {
        match seen {
            Observation::ChildExited(status, success) => {
                self.has_child = false;
                let event = WatchdogEvent::ProcessExited(self.target_name.clone(), status);
                if self.enable_kill && success {
                    (Some(event), Action::Exit)
                } else {
                    (Some(event), Action::Spawn)
                }
            },
            Observation::ChildRunning => {
                self.last_was_running = true;
                (None, Action::Sleep)
            },
            Observation::ChildLost(why) => {
                self.has_child = false;
                let how = "Error waiting: ".to_string().concat(why.as_str());
                (
                    Some(WatchdogEvent::ProcessExited(self.target_name.clone(), how)),
                    Action::Spawn,
                )
            },
            Observation::Scanned(found) => {
                let was_running = self.last_was_running;
                self.last_was_running = found;
                if found {
                    if was_running {
                        (None, Action::Sleep)
                    } else {
                        (
                            Some(WatchdogEvent::ProcessDetected(self.target_name.clone())),
                            Action::Sleep,
                        )
                    }
                } else {
                    (Some(WatchdogEvent::ProcessMissing(self.target_name.clone())), Action::Spawn)
                }
            },
        }
    }

    /// The arguments with which the companion is started.
    pub fn spawn_args(&self) -> (args: Vec<String>)
        ensures
            texts(args@) == (if self@.enable_kill {
                seq![ENABLE_KILL_ARG@]
            } else {
                Seq::<Seq<char>>::empty()
            }),
            asks_for_kill(args@) == self.enable_kill,
    {
        let mut args: Vec<String> = Vec::new();
        if self.enable_kill {
            args.push(ENABLE_KILL_ARG.to_string());
        }
        assert(texts(args@) =~= (if self@.enable_kill {
            seq![ENABLE_KILL_ARG@]
        } else {
            Seq::<Seq<char>>::empty()
        }));
        assert(self.enable_kill ==> texts(args@)[0] == args@[0]@);
        args
    }

    /// Takes in whether the companion was started, or why not, and says what is to be reported.
    pub fn spawned(&mut self, failure: Option<String>) -> (event: WatchdogEvent)
        requires
            !old(self)@.has_child,
        ensures
            final(self)@ == old(self)@.after_spawn(failure is None),
            final(self)@.valid(),
            event@ == old(self)@.spawn_report(text_of(failure)),
            event is ProcessSpawned <==> failure is None,
            final(self).has_child <==> failure is None,
            final(self).last_was_running <==> failure is None,
            final(self).target_name@ == old(self).target_name@,
            final(self).enable_kill == old(self).enable_kill,
    {
        match failure {
            None => {
                self.has_child = true;
                self.last_was_running = true;
                WatchdogEvent::ProcessSpawned(self.target_name.clone())
            },
            Some(why) => {
                self.last_was_running = false;
                WatchdogEvent::ProcessSpawnFailed(self.target_name.clone(), why)
            },
        }
    }
}

impl WatchdogView {
    /// The state after a look and, where that calls for it, an attempt to start the companion.
    pub open spec fn cycle(self, seen: Observation, started: bool) -> WatchdogView {
        if self.reaction(seen) is Spawn {
            self.after(seen).after_spawn(started)
        } else {
            self.after(seen)
        }
    }

    /// What is reported in a cycle: of the look, and of the attempt to start the companion.
    pub open spec fn cycle_events(self, cycle: Cycle) -> Seq<EventView> {
        let seen = match self.report(cycle.seen) {
            Some(event) => seq![event],
            None => Seq::empty(),
        };
        if self.reaction(cycle.seen) is Spawn {
            seen.push(self.spawn_report(cycle.failure))
        } else {
            seen
        }
    }

    /// The state after the given cycles.
    pub open spec fn run(self, cycles: Seq<Cycle>) -> WatchdogView
        decreases cycles.len(),
    {
        if cycles.len() == 0 {
            self
        } else {
            self.run(cycles.drop_last()).cycle(cycles.last().seen, cycles.last().failure is None)
        }
    }

    /// Whether the last of the given cycles ends the watchdog.
    pub open spec fn ended(self, cycles: Seq<Cycle>) -> bool {
        cycles.len() > 0 && self.run(cycles.drop_last()).reaction(cycles.last().seen) is Exit
    }

    /// Whether the watchdog can live through the given cycles: each look is one that the state
    /// allows, and only the last can end it.
    pub open spec fn can_run(self, cycles: Seq<Cycle>) -> bool
        decreases cycles.len(),
    {
        cycles.len() > 0 ==> {
            &&& self.can_run(cycles.drop_last())
            &&& !self.ended(cycles.drop_last())
            &&& self.run(cycles.drop_last()).can_see(cycles.last().seen)
        }
    }

    /// What is reported in the given cycles.
    pub open spec fn trace(self, cycles: Seq<Cycle>) -> Seq<EventView>
        decreases cycles.len(),
    {
        if cycles.len() == 0 {
            Seq::empty()
        } else {
            self.trace(cycles.drop_last()) + self.run(cycles.drop_last()).cycle_events(
                cycles.last(),
            )
        }
    }
}

/// One cycle of the watchdog: what the look showed, and why an attempt to start the companion
/// failed, if one was made and did.
pub struct Cycle {
    pub seen: Observation,
    pub failure: Option<Seq<char>>,
}

/// The watchdog over `target` before its first look.
pub open spec fn fresh(target: Seq<char>, enable_kill: bool) -> WatchdogView {
    WatchdogView { target, enable_kill, has_child: false, last_was_running: false }
}

/// Everything that a watchdog named `name` reports, from its start on.
pub open spec fn history(
    name: Seq<char>,
    target: Seq<char>,
    enable_kill: bool,
    cycles: Seq<Cycle>,
) -> Seq<EventView> {
    seq![EventView::Started(name)] + fresh(target, enable_kill).trace(cycles)
}

/// Whether an event says something of the process `target`.
pub open spec fn about(event: EventView, target: Seq<char>) -> bool {
    match event {
        EventView::Started(_) => false,
        EventView::ProcessDetected(name) => name == target,
        EventView::ProcessMissing(name) => name == target,
        EventView::ProcessSpawned(name) => name == target,
        EventView::ProcessSpawnFailed(name, _) => name == target,
        EventView::ProcessExited(name, _) => name == target,
    }
}

/// Whether an event says that the companion is gone.
pub open spec fn is_loss(event: EventView) -> bool {
    event is ProcessMissing || event is ProcessExited
}

/// Whether an event says that the companion was to be started.
pub open spec fn is_attempt(event: EventView) -> bool {
    event is ProcessSpawned || event is ProcessSpawnFailed
}

/// Whether `next` can be reported right after `event`.
pub open spec fn may_follow(event: EventView, next: EventView) -> bool {
    match event {
        EventView::Started(_) => next is ProcessDetected || next is ProcessMissing,
        EventView::ProcessDetected(_) => next is ProcessMissing,
        EventView::ProcessMissing(_) => is_attempt(next),
        EventView::ProcessSpawned(_) => next is ProcessExited,
        EventView::ProcessSpawnFailed(_, _) => next is ProcessDetected || next is ProcessMissing,
        EventView::ProcessExited(_, _) => is_attempt(next),
    }
}

/// Whether the last event tells what the watchdog remembers.
spec fn tells_state(event: EventView, state: WatchdogView) -> bool {
    match event {
        EventView::Started(_) => !state.has_child && !state.last_was_running,
        EventView::ProcessDetected(_) => !state.has_child && state.last_was_running,
        EventView::ProcessSpawned(_) => state.has_child && state.last_was_running,
        EventView::ProcessSpawnFailed(_, _) => !state.has_child && !state.last_was_running,
        _ => false,
    }
}

/// The events of one cycle follow on the last event before it and on each other.
proof fn cycle_events_follow(state: WatchdogView, cycle: Cycle, last: EventView)
    requires
        state.can_see(cycle.seen),
        tells_state(last, state),
    ensures
        ({
            let events = seq![last] + state.cycle_events(cycle);
            let next = state.cycle(cycle.seen, cycle.failure is None);
            &&& next.target == state.target && next.enable_kill == state.enable_kill
            &&& forall|i: int|
                0 <= i < events.len() - 1 ==> may_follow(#[trigger] events[i], events[i + 1])
            &&& forall|i: int| 1 <= i < events.len() ==> about(#[trigger] events[i], state.target)
            &&& state.reaction(cycle.seen) is Exit ==> events.last() is ProcessExited
            &&& !(state.reaction(cycle.seen) is Exit) ==> tells_state(events.last(), next)
        }),
{
    let events = seq![last] + state.cycle_events(cycle);
    assert(events[0] == last);
    match state.report(cycle.seen) {
        Some(event) => {
            assert(events[1] == event);
            if state.reaction(cycle.seen) is Spawn {
                assert(events[2] == state.spawn_report(cycle.failure));
            }
        },
        None => {
            assert(events =~= seq![last]);
        },
    }
}

/// Of everything that a watchdog reports, the first is that it started, and all that comes later
/// is about its companion. Each event is followed only by what can follow it: a companion that
/// was started is next reported to have exited, one that was detected is next reported missing,
/// and a loss is followed at once by an attempt to start the companion. The one loss that no
/// attempt follows is the exit that ends the watchdog.
pub proof fn history_is_orderly(
    name: Seq<char>,
    target: Seq<char>,
    enable_kill: bool,
    cycles: Seq<Cycle>,
)
    requires
        fresh(target, enable_kill).can_run(cycles),
    ensures
        ({
            let events = history(name, target, enable_kill, cycles);
            &&& events[0] == EventView::Started(name)
            &&& forall|i: int| 1 <= i < events.len() ==> about(#[trigger] events[i], target)
            &&& forall|i: int|
                0 <= i < events.len() - 1 ==> may_follow(#[trigger] events[i], events[i + 1])
            &&& is_loss(events.last()) <==> fresh(target, enable_kill).ended(cycles)
        }),
{
    history_tells_state(name, target, enable_kill, cycles);
}

/// The history is orderly, and its last event tells what the watchdog remembers.
proof fn history_tells_state(
    name: Seq<char>,
    target: Seq<char>,
    enable_kill: bool,
    cycles: Seq<Cycle>,
)
    requires
        fresh(target, enable_kill).can_run(cycles),
    ensures
        ({
            let start = fresh(target, enable_kill);
            let events = history(name, target, enable_kill, cycles);
            &&& events[0] == EventView::Started(name)
            &&& forall|i: int| 1 <= i < events.len() ==> about(#[trigger] events[i], target)
            &&& forall|i: int|
                0 <= i < events.len() - 1 ==> may_follow(#[trigger] events[i], events[i + 1])
            &&& start.run(cycles).target == target
            &&& start.ended(cycles) ==> events.last() is ProcessExited
            &&& !start.ended(cycles) ==> tells_state(events.last(), start.run(cycles))
        }),
    decreases cycles.len(),
{
    let start = fresh(target, enable_kill);
    let events = history(name, target, enable_kill, cycles);
    if cycles.len() == 0 {
        assert(events =~= seq![EventView::Started(name)]);
    } else {
        let before = cycles.drop_last();
        history_tells_state(name, target, enable_kill, before);
        let earlier = history(name, target, enable_kill, before);
        let state = start.run(before);
        cycle_events_follow(state, cycles.last(), earlier.last());
        let later = state.cycle_events(cycles.last());
        let joined = seq![earlier.last()] + later;
        assert(events =~= earlier + later);
        let at = earlier.len() - 1;
        assert forall|i: int| 0 <= i < events.len() - 1 implies may_follow(
            #[trigger] events[i],
            events[i + 1],
        ) by {
            if i < at {
                assert(events[i] == earlier[i] && events[i + 1] == earlier[i + 1]);
            } else {
                assert(events[i] == joined[i - at] && events[i + 1] == joined[i - at + 1]);
            }
        }
        assert forall|i: int| 1 <= i < events.len() implies about(#[trigger] events[i], target) by {
            if i <= at {
                assert(events[i] == earlier[i]);
            } else {
                assert(events[i] == joined[i - at]);
            }
        }
        assert(events.last() == joined.last());
        assert(events[0] == earlier[0]);
    }
}

/// Attempts to start the companion answer losses one for one: right before each stands a loss,
/// and right after each loss stands an attempt, unless the loss is a clean exit that ends the
/// watchdog, which only leave to stop the pair allows.
pub proof fn attempts_answer_losses(
    name: Seq<char>,
    target: Seq<char>,
    enable_kill: bool,
    cycles: Seq<Cycle>,
    i: int,
)
    requires
        fresh(target, enable_kill).can_run(cycles),
        0 <= i < history(name, target, enable_kill, cycles).len(),
    ensures
        ({
            let events = history(name, target, enable_kill, cycles);
            &&& is_attempt(events[i]) ==> i > 0 && is_loss(events[i - 1])
            &&& is_loss(events[i]) ==> {
                ||| i + 1 < events.len() && is_attempt(events[i + 1])
                ||| i + 1 == events.len() && enable_kill && events[i] is ProcessExited && (
                cycles.last().seen matches Observation::ChildExited(_, success) && success)
            }
        }),
{
    let start = fresh(target, enable_kill);
    let events = history(name, target, enable_kill, cycles);
    history_tells_state(name, target, enable_kill, cycles);
    if i > 0 {
        assert(may_follow(events[i - 1], events[i]));
    }
    if i + 1 < events.len() {
        assert(may_follow(events[i], events[i + 1]));
    } else if is_loss(events[i]) {
        run_keeps_validity(start, cycles.drop_last());
    }
}

/// The companion is never started twice: a look calls for a start only where no child is left.
pub proof fn one_child_at_most(state: WatchdogView, seen: Observation)
    requires
        state.can_see(seen),
        state.reaction(seen) is Spawn,
    ensures
        !state.after(seen).has_child,
{
}

/// A companion that is gone is started again in the same cycle: after a cycle that does not end
/// the watchdog, the companion was running, or an attempt to start it failed.
pub proof fn companion_is_restored(state: WatchdogView, seen: Observation, started: bool)
    requires
        state.valid(),
        state.can_see(seen),
        !(state.reaction(seen) is Exit),
    ensures
        state.cycle(seen, started).last_was_running <==> !(state.reaction(seen) is Spawn)
            || started,
{
}

/// The watchdog ends only where a clean exit may stop the pair, and then on every clean exit of
/// its child.
pub proof fn exits_only_on_clean_exit(state: WatchdogView, seen: Observation)
    ensures
        state.reaction(seen) is Exit <==> state.enable_kill && (seen matches
            Observation::ChildExited(_, success) && success),
{
}

/// Whatever calls for more than sleep is reported, as an exit or as a missing process.
pub proof fn every_loss_is_reported(state: WatchdogView, seen: Observation)
    requires
        !(state.reaction(seen) is Sleep),
    ensures
        state.report(seen) matches Some(event) && (event is ProcessExited
            || event is ProcessMissing),
{
}

/// A companion that is found once is not reported again while it is found.
pub proof fn detection_is_reported_once(state: WatchdogView, seen: Observation, started: bool)
    requires
        state.can_see(seen),
        state.report(seen) == Some(EventView::ProcessDetected(state.target)),
    ensures
        state.cycle(seen, started).report(Observation::Scanned(true)) is None,
{
}

/// However long the watchdog runs, a companion that runs as its child was running when last seen,
/// and neither the companion's name nor the leave to stop the pair changes.
pub proof fn run_keeps_validity(state: WatchdogView, cycles: Seq<Cycle>)
    requires
        state.valid(),
        state.can_run(cycles),
    ensures
        state.run(cycles).valid(),
        state.run(cycles).target == state.target,
        state.run(cycles).enable_kill == state.enable_kill,
    decreases cycles.len(),
{
    if cycles.len() > 0 {
        run_keeps_validity(state, cycles.drop_last());
    }
}

/// A look at the running processes that does not find the companion is reported as a missing
/// process and calls for a start, whatever was seen before and whether or not the pair may be
/// stopped.
pub proof fn missing_companion_is_started(state: WatchdogView)
    ensures
        state.reaction(Observation::Scanned(false)) is Spawn,
        state.report(Observation::Scanned(false)) == Some(EventView::ProcessMissing(state.target)),
        !state.after(Observation::Scanned(false)).last_was_running,
{
}

/// The watchdog sleeps exactly where the look showed the companion running. Every other look but
/// the clean exit that stops the pair calls for a start.
pub proof fn sleeps_only_while_companion_runs(state: WatchdogView, seen: Observation)
    ensures
        state.reaction(seen) is Sleep <==> seen is ChildRunning || seen == Observation::Scanned(
            true,
        ),
        state.reaction(seen) is Spawn <==> {
            ||| seen is ChildLost
            ||| seen == Observation::Scanned(false)
            ||| (seen matches Observation::ChildExited(_, success) && !(success
                && state.enable_kill))
        },
{
}

/// What is done about a look depends on the look and on the leave to stop the pair, and on nothing
/// that was seen before.
pub proof fn reaction_needs_no_memory(state: WatchdogView, other: WatchdogView, seen: Observation)
    requires
        state.enable_kill == other.enable_kill,
    ensures
        state.reaction(seen) == other.reaction(seen),
{
}

/// What is reported of a look: an exit of the child with its status, a child that was lost with
/// the reason, a companion that is not found, and one that is found and was not running when last
/// seen. Nothing else is reported.
pub proof fn looks_are_reported(state: WatchdogView, seen: Observation)
    ensures
        seen matches Observation::ChildExited(status, _) ==> state.report(seen) == Some(
            EventView::ProcessExited(state.target, status@),
        ),
        seen matches Observation::ChildLost(why) ==> state.report(seen) == Some(
            EventView::ProcessExited(state.target, "Error waiting: "@ + why@),
        ),
        state.report(seen) == Some(EventView::ProcessMissing(state.target)) <==> seen
            == Observation::Scanned(false),
        state.report(seen) == Some(EventView::ProcessDetected(state.target)) <==> seen
            == Observation::Scanned(true) && !state.last_was_running,
        state.report(seen) is None <==> seen is ChildRunning || (seen == Observation::Scanned(true)
            && state.last_was_running),
{
}

/// What is remembered of a look: there is a child still only where it is running, and the
/// companion was running when last seen where the child is, or where it was found. An exit leaves
/// that to the attempt to start the companion, which follows it.
pub proof fn looks_are_remembered(state: WatchdogView, seen: Observation)
    requires
        state.can_see(seen),
    ensures
        state.after(seen).has_child <==> seen is ChildRunning,
        seen is ChildRunning ==> state.after(seen).last_was_running,
        seen matches Observation::Scanned(found) ==> state.after(seen).last_was_running == found,
        seen is ChildExited || seen is ChildLost ==> state.after(seen).last_was_running
            == state.last_was_running,
        state.after(seen).target == state.target,
        state.after(seen).enable_kill == state.enable_kill,
{
}

/// The child is looked at exactly where there is one.
pub proof fn child_is_looked_at_first(state: WatchdogView)
    ensures
        state.can_see(Observation::ChildRunning) <==> state.has_child,
        forall|status: String, success: bool|
            #[trigger] state.can_see(Observation::ChildExited(status, success)) <==> state.has_child,
        forall|why: String| #[trigger]
            state.can_see(Observation::ChildLost(why)) <==> state.has_child,
        forall|found: bool| #[trigger]
            state.can_see(Observation::Scanned(found)) <==> !state.has_child,
{
}

/// An attempt to start the companion is reported as what it was. There is a child, and the
/// companion runs, exactly where it did not fail.
pub proof fn attempts_are_reported_and_remembered(state: WatchdogView, why: Seq<char>)
    ensures
        state.spawn_report(None) == EventView::ProcessSpawned(state.target),
        state.spawn_report(Some(why)) == EventView::ProcessSpawnFailed(state.target, why),
        state.after_spawn(true) == (WatchdogView {
            has_child: true,
            last_was_running: true,
            ..state
        }),
        state.after_spawn(false) == (WatchdogView {
            has_child: false,
            last_was_running: false,
            ..state
        }),
{
}

/// A companion that keeps missing is reported and started at every look until a start succeeds.
/// After that the child is looked at.
pub proof fn starts_are_repeated(state: WatchdogView, started: bool)
    requires
        state.can_see(Observation::Scanned(false)),
    ensures
        ({
            let next = state.cycle(Observation::Scanned(false), started);
            &&& next.can_see(Observation::ChildRunning) <==> started
            &&& !started ==> next.can_see(Observation::Scanned(false)) && next.reaction(
                Observation::Scanned(false),
            ) is Spawn && next.report(Observation::Scanned(false)) == Some(
                EventView::ProcessMissing(state.target),
            )
        }),
{
}

/// A watchdog that has seen nothing reports a companion that is there as detected, and starts one
/// that is not there.
pub proof fn first_look_is_reported(target: Seq<char>, enable_kill: bool, found: bool)
    ensures
        ({
            let start = fresh(target, enable_kill);
            &&& start.target == target && start.enable_kill == enable_kill
            &&& !start.has_child && !start.last_was_running
            &&& start.can_see(Observation::Scanned(found))
            &&& start.report(Observation::Scanned(found)) == Some(
                if found {
                    EventView::ProcessDetected(target)
                } else {
                    EventView::ProcessMissing(target)
                },
            )
        }),
{
}

/// A companion that was found and is gone at the next look is reported missing and started, also
/// where the pair may be stopped.
pub proof fn killed_companion_is_started(state: WatchdogView)
    requires
        state.can_see(Observation::Scanned(true)),
    ensures
        ({
            let next = state.cycle(Observation::Scanned(true), false);
            &&& next.can_see(Observation::Scanned(false))
            &&& next.reaction(Observation::Scanned(false)) is Spawn
            &&& next.report(Observation::Scanned(false)) == Some(
                EventView::ProcessMissing(state.target),
            )
        }),
{
}

/// The pair may be stopped exactly where one of the arguments is the one that says so, letter for
/// letter.
pub proof fn leave_is_asked_for_by_one_argument(args: Seq<String>)
    ensures
        asks_for_kill(args) <==> exists|i: int|
            0 <= i < args.len() && (#[trigger] args[i])@ == "--enable-kill"@,
{
    if asks_for_kill(args) {
        let i = choose|i: int| 0 <= i < args.len() && #[trigger] args[i]@ == ENABLE_KILL_ARG@;
        assert(args[i]@ == "--enable-kill"@);
    }
    if exists|i: int| 0 <= i < args.len() && (#[trigger] args[i])@ == "--enable-kill"@ {
        let i = choose|i: int| 0 <= i < args.len() && (#[trigger] args[i])@ == "--enable-kill"@;
        assert(args[i]@ == ENABLE_KILL_ARG@);
    }
}

/// An event is shown as what it is, with the texts that it holds.
pub proof fn events_are_shown_as_they_are(name: String, other: String)
    ensures
        WatchdogEvent::Started(name)@ == EventView::Started(name@),
        WatchdogEvent::ProcessDetected(name)@ == EventView::ProcessDetected(name@),
        WatchdogEvent::ProcessMissing(name)@ == EventView::ProcessMissing(name@),
        WatchdogEvent::ProcessSpawned(name)@ == EventView::ProcessSpawned(name@),
        WatchdogEvent::ProcessSpawnFailed(name, other)@ == EventView::ProcessSpawnFailed(
            name@,
            other@,
        ),
        WatchdogEvent::ProcessExited(name, other)@ == EventView::ProcessExited(name@, other@),
        event_of(None) is None,
        forall|event: WatchdogEvent| #[trigger] event_of(Some(event)) == Some(event@),
{
}

} // verus!
