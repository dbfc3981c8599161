use sentinel::window::{is_system_window, wineventproc, ForegroundLog, ForegroundWindow};

fn units(s: &str) -> Vec<u16> {
    s.encode_utf16().collect()
}

#[test]
fn system_windows_are_known_by_their_class() {
    for class in ["Shell_TrayWnd", "Progman", "WorkerW", "Windows.UI.Core.CoreWindow"] {
        assert!(is_system_window(1, &units(class)));
    }
    assert!(!is_system_window(1, &units("Notepad")));
    assert!(!is_system_window(1, &units("progman")));
    assert!(!is_system_window(1, &[]));
    assert!(is_system_window(0, &[]));
    assert!(is_system_window(0, &units("Notepad")));
}

#[test]
fn executables_are_logged_in_order_without_repeats() {
    let mut log = ForegroundLog::new();
    let steps = [
        (Some("a.exe"), true),
        (Some("a.exe"), false),
        (Some("A.exe"), true),
        (None, false),
        (Some("Explorer.EXE"), false),
        (Some("A.exe"), false),
        (Some("a.exe"), true),
    ];
    for (name, grows) in steps {
        assert_eq!(log.record(name.map(|n| n.to_string())), grows);
    }
    assert_eq!(log.names, vec!["a.exe", "A.exe", "a.exe"]);
}

#[test]
fn windows_that_cannot_be_asked_are_not_logged() {
    let notepad = units("Notepad");
    let shell = units("Progman");
    let path = units("bin/notepad.exe");
    let shell_path = units("bin/explorer.exe");
    let good = || ForegroundWindow {
        hwnd: 1,
        class_name: &notepad,
        style: -1,
        pid: 4,
        image_path: Some(&path),
    };
    let mut log = ForegroundLog::new();
    assert!(!wineventproc(&mut log, &ForegroundWindow { hwnd: 0, ..good() }));
    assert!(!wineventproc(&mut log, &ForegroundWindow { class_name: &[], ..good() }));
    assert!(!wineventproc(&mut log, &ForegroundWindow { class_name: &shell, ..good() }));
    assert!(!wineventproc(&mut log, &ForegroundWindow { style: 0, ..good() }));
    assert!(!wineventproc(&mut log, &ForegroundWindow { pid: 0, ..good() }));
    assert!(!wineventproc(&mut log, &ForegroundWindow { image_path: None, ..good() }));
    assert!(!wineventproc(&mut log, &ForegroundWindow { image_path: Some(&shell_path), ..good() }));
    assert!(log.names.is_empty());
    assert!(wineventproc(&mut log, &good()));
    assert!(!wineventproc(&mut log, &good()));
    assert_eq!(log.names, vec!["notepad.exe"]);
}
