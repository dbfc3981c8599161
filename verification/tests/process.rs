use sentinel::process::{
    get_process_name_by_pid, image_file_name, is_process_running, name_or_empty, PROCESSENTRY32W,
};

fn units(s: &str) -> Vec<u16> {
    s.encode_utf16().collect()
}

fn entry_of(name: &[u16]) -> PROCESSENTRY32W {
    let mut field = [0u16; 260];
    field[..name.len()].copy_from_slice(name);
    PROCESSENTRY32W {
        dwSize: 0,
        cntUsage: 0,
        th32ProcessID: 0,
        th32DefaultHeapID: 0,
        th32ModuleID: 0,
        cntThreads: 0,
        th32ParentProcessID: 0,
        pcPriClassBase: 0,
        dwFlags: 0,
        szExeFile: field,
    }
}

#[test]
fn process_is_found_by_name_ignoring_case() {
    let entries = vec![entry_of(&units("System")), entry_of(&units("Guardian.EXE"))];
    assert!(is_process_running(Some(&entries), "guardian.exe"));
    assert!(is_process_running(Some(&entries), "GUARDIAN.exe"));
    assert!(!is_process_running(Some(&entries), "tracker.exe"));
    assert!(!is_process_running(Some(&entries), "guardian"));
}

#[test]
fn no_snapshot_and_empty_snapshot_hold_no_process() {
    assert!(!is_process_running(None, "guardian.exe"));
    assert!(!is_process_running(Some(&[]), "guardian.exe"));
}

#[test]
fn name_ends_at_the_first_zero_or_with_the_field() {
    let mut stale = units("guardian.exe");
    stale.push(0);
    stale.extend(units("old"));
    assert!(is_process_running(Some(&[entry_of(&stale)]), "guardian.exe"));
    let full = vec![0x61u16; 260];
    assert!(is_process_running(Some(&[entry_of(&full)]), &"A".repeat(260)));
    assert!(!is_process_running(Some(&[entry_of(&full)]), &"A".repeat(259)));
}

#[test]
fn name_that_is_not_valid_matches_none() {
    let broken = [0x61u16, 0xd800];
    assert!(!is_process_running(Some(&[entry_of(&broken)]), "a\u{fffd}"));
}

#[test]
fn file_name_is_the_last_component() {
    assert_eq!(image_file_name(&units("/opt/sentinel/tracker.exe")), Some("tracker.exe".to_string()));
    assert_eq!(image_file_name(&units("bin/notepad.exe")), Some("notepad.exe".to_string()));
    assert_eq!(image_file_name(&units("notepad.exe")), Some("notepad.exe".to_string()));
    assert_eq!(image_file_name(&units("bin/..")), None);
    assert_eq!(image_file_name(&units("")), None);
}

#[test]
fn separators_and_dots_at_the_end_do_not_count() {
    for path in ["a/b.exe/", "a/b.exe//", "a/b.exe/.", "a/b.exe/./", "./b.exe", "/b.exe/.//."] {
        assert_eq!(image_file_name(&units(path)), Some("b.exe".to_string()));
    }
    for path in ["/", ".", "./", "./.", "/.", "..", "../", "a/../.", "a/.."] {
        assert_eq!(image_file_name(&units(path)), None);
    }
    assert_eq!(image_file_name(&units("a/...")), Some("...".to_string()));
    assert_eq!(image_file_name(&units("a/.b")), Some(".b".to_string()));
}

#[test]
fn file_name_on_a_share_is_the_name_or_the_whole() {
    let path = "\\\\server\\share\\bin\\notepad.exe";
    let name = image_file_name(&units(path)).unwrap();
    assert!(name == "notepad.exe" || name == path);
}

#[test]
fn file_name_on_a_share_with_forward_slashes_is_what_follows_the_last() {
    let name = image_file_name(&units("//server/share/bin/notepad.exe")).unwrap();
    assert_eq!(name, "notepad.exe");
    let share = image_file_name(&units("//server/share"));
    assert!(share.is_none() || share == Some("share".to_string()));
}

#[test]
fn file_name_of_a_verbatim_path_is_the_name_or_the_whole() {
    let path = "\\\\?\\C:\\bin\\notepad.exe";
    let name = image_file_name(&units(path)).unwrap();
    assert!(name == "notepad.exe" || name == path);
}

#[test]
fn file_name_with_both_separators_is_what_follows_the_last() {
    let name = image_file_name(&units("C:\\bin/notepad.exe")).unwrap();
    assert_eq!(name, "notepad.exe");
}

#[test]
fn file_name_on_a_drive_is_the_name_or_the_whole() {
    let path = "C:\\Windows\\notepad.exe";
    let name = image_file_name(&units(path)).unwrap();
    assert!(name == "notepad.exe" || name == path);
}

#[test]
fn process_name_is_empty_where_nothing_is_known() {
    assert_eq!(get_process_name_by_pid(0, Some(&units("a/b.exe"))), "");
    assert_eq!(get_process_name_by_pid(4, None), "");
    assert_eq!(get_process_name_by_pid(4, Some(&units("a/.."))), "");
    assert_eq!(get_process_name_by_pid(4, Some(&units("a/b.exe"))), "b.exe");
    assert_eq!(name_or_empty(None), "");
    assert_eq!(name_or_empty(Some("x".to_string())), "x");
}
