use sentinel::watchdog::{
    kill_enabled, start_watchdog, Action, Observation, Watchdog, WatchdogEvent,
};

fn watchdog(enable_kill: bool) -> Watchdog {
    let (dog, event) = start_watchdog("tracker".to_string(), "guardian.exe".to_string(), enable_kill);
    assert!(matches!(event, WatchdogEvent::Started(name) if name == "tracker"));
    assert!(!dog.has_child && !dog.last_was_running);
    dog
}

fn text(event: Option<WatchdogEvent>) -> String {
    match event {
        Some(e) => format!("{e:?}"),
        None => String::new(),
    }
}

#[test]
fn missing_companion_is_started() {
    let mut dog = watchdog(false);
    let (event, action) = dog.observe(Observation::Scanned(false));
    assert_eq!(text(event), "ProcessMissing(\"guardian.exe\")");
    assert_eq!(action, Action::Spawn);
    assert_eq!(text(Some(dog.spawned(None))), "ProcessSpawned(\"guardian.exe\")");
    assert!(dog.has_child && dog.last_was_running);
    let (event, action) = dog.observe(Observation::ChildRunning);
    assert_eq!(text(event), "");
    assert_eq!(action, Action::Sleep);
}

#[test]
fn failed_start_is_reported_and_tried_again() {
    let mut dog = watchdog(false);
    for _ in 0..3 {
        let (event, action) = dog.observe(Observation::Scanned(false));
        assert_eq!(text(event), "ProcessMissing(\"guardian.exe\")");
        assert_eq!(action, Action::Spawn);
        let event = dog.spawned(Some("not found".to_string()));
        assert_eq!(text(Some(event)), "ProcessSpawnFailed(\"guardian.exe\", \"not found\")");
        assert!(!dog.has_child && !dog.last_was_running);
    }
}

#[test]
fn running_companion_is_detected_once() {
    let mut dog = watchdog(false);
    let (event, action) = dog.observe(Observation::Scanned(true));
    assert_eq!(text(event), "ProcessDetected(\"guardian.exe\")");
    assert_eq!(action, Action::Sleep);
    let (event, action) = dog.observe(Observation::Scanned(true));
    assert_eq!(text(event), "");
    assert_eq!(action, Action::Sleep);
    let (event, action) = dog.observe(Observation::Scanned(false));
    assert_eq!(text(event), "ProcessMissing(\"guardian.exe\")");
    assert_eq!(action, Action::Spawn);
}

#[test]
fn ended_child_is_started_again_unless_the_pair_may_stop() {
    for (enable_kill, success, expected) in [
        (false, false, Action::Spawn),
        (false, true, Action::Spawn),
        (true, false, Action::Spawn),
        (true, true, Action::Exit),
    ] {
        let mut dog = watchdog(enable_kill);
        dog.observe(Observation::Scanned(false));
        dog.spawned(None);
        let seen = Observation::ChildExited("exit code: 0".to_string(), success);
        let (event, action) = dog.observe(seen);
        assert_eq!(text(event), "ProcessExited(\"guardian.exe\", \"exit code: 0\")");
        assert_eq!(action, expected);
        assert!(!dog.has_child);
    }
}

#[test]
fn lost_child_is_started_again() {
    let mut dog = watchdog(true);
    dog.observe(Observation::Scanned(false));
    dog.spawned(None);
    let (event, action) = dog.observe(Observation::ChildLost("denied".to_string()));
    assert_eq!(text(event), "ProcessExited(\"guardian.exe\", \"Error waiting: denied\")");
    assert_eq!(action, Action::Spawn);
    assert!(!dog.has_child);
}

#[test]
fn leave_to_stop_is_handed_on() {
    assert_eq!(watchdog(true).spawn_args(), vec!["--enable-kill"]);
    assert!(watchdog(false).spawn_args().is_empty());
    assert!(kill_enabled(&watchdog(true).spawn_args()));
    assert!(!kill_enabled(&watchdog(false).spawn_args()));
    assert!(kill_enabled(&["tracker.exe".to_string(), "--enable-kill".to_string()]));
    assert!(!kill_enabled(&["--enable-kill=1".to_string(), "--ENABLE-KILL".to_string()]));
}

/// The kinds of two events, one right after the other.
fn may_follow(event: &WatchdogEvent, next: &WatchdogEvent) -> bool {
    match event {
        WatchdogEvent::Started(_) | WatchdogEvent::ProcessSpawnFailed(_, _) => matches!(
            next,
            WatchdogEvent::ProcessDetected(_) | WatchdogEvent::ProcessMissing(_)
        ),
        WatchdogEvent::ProcessDetected(_) => matches!(next, WatchdogEvent::ProcessMissing(_)),
        WatchdogEvent::ProcessSpawned(_) => matches!(next, WatchdogEvent::ProcessExited(_, _)),
        WatchdogEvent::ProcessMissing(_) | WatchdogEvent::ProcessExited(_, _) => matches!(
            next,
            WatchdogEvent::ProcessSpawned(_) | WatchdogEvent::ProcessSpawnFailed(_, _)
        ),
    }
}

#[test]
fn every_history_is_orderly() {
    // Each digit picks what the next look shows and whether a start succeeds.
    for run in 0..4096u32 {
        for enable_kill in [false, true] {
            let (mut dog, first) =
                start_watchdog("tracker".to_string(), "guardian.exe".to_string(), enable_kill);
            let mut events = vec![first];
            let mut ended = false;
            let mut choices = run;
            for _ in 0..6 {
                let choice = choices % 4;
                choices /= 4;
                let seen = match (dog.has_child, choice) {
                    (true, 0) => Observation::ChildRunning,
                    (true, 1) => Observation::ChildLost("lost".to_string()),
                    (true, 2) => Observation::ChildExited("1".to_string(), false),
                    (true, _) => Observation::ChildExited("0".to_string(), true),
                    (false, _) => Observation::Scanned(choice < 2),
                };
                let (event, action) = dog.observe(seen);
                events.extend(event);
                match action {
                    Action::Sleep => {}
                    Action::Spawn => {
                        let failure =
                            if choice == 2 { Some("failed".to_string()) } else { None };
                        events.push(dog.spawned(failure));
                    }
                    Action::Exit => {
                        ended = true;
                        break;
                    }
                }
            }
            assert!(matches!(&events[0], WatchdogEvent::Started(name) if name == "tracker"));
            for pair in events.windows(2) {
                assert!(may_follow(&pair[0], &pair[1]));
            }
            let last = &events[events.len() - 1];
            assert_eq!(ended, matches!(last, WatchdogEvent::ProcessExited(_, _)));
            assert!(!ended || enable_kill);
        }
    }
}
