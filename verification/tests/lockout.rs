use sentinel::lockout::{
    exit_code, focus_to_take, is_whitelisted, place_overlay, Foreground, Lockout, Notice,
    Placement, Rect, OVERLAY_TITLE,
};

const OVERLAY: usize = 900;

fn units(s: &str) -> Vec<u16> {
    s.encode_utf16().collect()
}

fn whitelist() -> Vec<String> {
    vec!["cmd.exe".to_string(), "Explorer.exe".to_string()]
}

/// One step with a window of the given class and executable in the foreground.
fn step(
    lockout: &mut Lockout,
    restricted: bool,
    hwnd: usize,
    overlay: Option<usize>,
    class: &str,
    exe_name: &str,
) -> Notice {
    let class_name = units(class);
    let foreground = Foreground { hwnd, overlay, class_name: &class_name, exe_name };
    lockout.enforce(restricted, &foreground, &whitelist())
}

#[test]
fn whitelist_ignores_case() {
    assert!(is_whitelisted(&whitelist(), "CMD.EXE"));
    assert!(is_whitelisted(&whitelist(), "explorer.exe"));
    assert!(!is_whitelisted(&whitelist(), "game.exe"));
    assert!(!is_whitelisted(&whitelist(), ""));
    assert!(!is_whitelisted(&[], "cmd.exe"));
}

#[test]
fn other_windows_are_blocked_while_restricted() {
    let mut lockout = Lockout::new();
    assert_eq!(step(&mut lockout, true, 5, Some(OVERLAY), "Game", "game.exe"), Notice::Blocked);
    assert_eq!(lockout, Lockout { active: true, target: 5 });
    assert_eq!(step(&mut lockout, true, 6, Some(OVERLAY), "Game", "other.exe"), Notice::Silent);
    assert_eq!(lockout, Lockout { active: true, target: 5 });
}

#[test]
fn overlay_in_the_foreground_changes_nothing() {
    let mut lockout = Lockout { active: true, target: 5 };
    let notice = step(&mut lockout, true, OVERLAY, Some(OVERLAY), "Overlay", "tracker.exe");
    assert_eq!(notice, Notice::Silent);
    assert_eq!(lockout, Lockout { active: true, target: 5 });
}

#[test]
fn permitted_windows_lift_the_lockout() {
    for (hwnd, class, exe) in [(7, "Console", "CMD.exe"), (8, "Progman", "x.exe"), (0, "", "")] {
        let mut lockout = Lockout { active: true, target: 5 };
        assert_eq!(step(&mut lockout, true, hwnd, Some(OVERLAY), class, exe), Notice::Silent);
        assert_eq!(lockout, Lockout { active: false, target: 5 });
    }
}

#[test]
fn without_an_overlay_the_lockout_is_engaged_silently_and_not_lifted() {
    let mut lockout = Lockout::new();
    assert_eq!(step(&mut lockout, true, 5, None, "Game", "game.exe"), Notice::Silent);
    assert_eq!(lockout, Lockout { active: true, target: 5 });
    for (hwnd, class, exe) in [(7, "Console", "cmd.exe"), (8, "Progman", "x.exe"), (0, "", "")] {
        assert_eq!(step(&mut lockout, true, hwnd, None, class, exe), Notice::Silent);
        assert_eq!(lockout, Lockout { active: true, target: 5 });
    }
    let mut free = Lockout::new();
    assert_eq!(step(&mut free, true, 0, None, "", ""), Notice::Silent);
    assert_eq!(free, Lockout::new());
}

#[test]
fn end_of_the_restrictions_lifts_the_lockout() {
    let mut lockout = Lockout { active: true, target: 5 };
    assert_eq!(step(&mut lockout, false, 5, Some(OVERLAY), "Game", "game.exe"), Notice::Released);
    assert_eq!(lockout, Lockout { active: false, target: 5 });
    assert_eq!(step(&mut lockout, false, 5, Some(OVERLAY), "Game", "game.exe"), Notice::Silent);
    assert_eq!(lockout, Lockout { active: false, target: 5 });
}

#[test]
fn overlay_covers_the_blocked_window() {
    let bounds = Some(Rect { left: -10, top: 20, right: 110, bottom: 70 });
    let active = Lockout { active: true, target: 5 };
    let shown = Placement::Show { x: -10, y: 20, width: 120, height: 50 };
    assert_eq!(place_overlay(&active, bounds), shown);
    assert_eq!(place_overlay(&active, None), Placement::Keep);
    assert_eq!(place_overlay(&Lockout { active: true, target: 0 }, bounds), Placement::Keep);
    assert_eq!(place_overlay(&Lockout { active: false, target: 5 }, bounds), Placement::Hide);
    assert_eq!(OVERLAY_TITLE, "Sentinel Lockout Overlay");
}

#[test]
fn focus_goes_to_the_overlay_while_active() {
    assert_eq!(focus_to_take(true, Some(OVERLAY), 5), Some(OVERLAY));
    assert_eq!(focus_to_take(true, Some(OVERLAY), OVERLAY), None);
    assert_eq!(focus_to_take(true, None, 5), None);
    assert_eq!(focus_to_take(false, Some(OVERLAY), 5), None);
}

#[test]
fn exit_is_clean_only_on_request() {
    for closed in [false, true] {
        for enable_kill in [false, true] {
            for interrupted in [false, true] {
                let expected = if closed && enable_kill && interrupted { 0 } else { 1 };
                assert_eq!(exit_code(closed, enable_kill, interrupted), expected);
            }
        }
    }
}
