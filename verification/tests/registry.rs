use sentinel::registry::{
    heal_registry, run_command_of, KeyState, RegistryValue, APPROVED_KEY, REG_BINARY, REG_SZ,
    RUN_KEY, VALUE_NAME,
};

const EXE: &str = "C:\\Program Files\\Sentinel\\tracker.exe";

fn bytes_of(s: &str) -> Vec<u8> {
    s.encode_utf16().flat_map(|u| u.to_le_bytes()).collect()
}

fn found(kind: u32, data: Vec<u8>) -> KeyState {
    KeyState::Found(RegistryValue { kind, data })
}

fn run_write(run: &KeyState) -> Option<RegistryValue> {
    heal_registry(EXE, run, &KeyState::Closed).run
}

fn approved_write(approved: &KeyState) -> Option<RegistryValue> {
    heal_registry(EXE, &KeyState::Closed, approved).approved
}

#[test]
fn command_is_quoted() {
    assert_eq!(run_command_of(EXE), "\"C:\\Program Files\\Sentinel\\tracker.exe\"");
    assert_eq!(run_command_of(""), "\"\"");
}

#[test]
fn wrong_or_missing_entries_are_written() {
    let expected = bytes_of(&format!("\"{EXE}\"\0"));
    let states = [
        KeyState::NoValue,
        found(REG_BINARY, expected.clone()),
        found(REG_SZ, vec![]),
        found(REG_SZ, bytes_of(EXE)),
        found(REG_SZ, bytes_of(&format!("\"{EXE}\" /quiet\0"))),
        found(REG_SZ, bytes_of(&format!("\0\"{EXE}\"\0"))),
    ];
    for state in &states {
        let write = run_write(state).unwrap();
        assert_eq!(write.kind, REG_SZ);
        assert_eq!(write.data, expected);
    }
}

#[test]
fn right_entries_are_left_alone() {
    let command = format!("\"{EXE}\"");
    assert!(run_write(&found(REG_SZ, bytes_of(&command))).is_none());
    assert!(run_write(&found(REG_SZ, bytes_of(&format!("{command}\0")))).is_none());
    assert!(run_write(&found(REG_SZ, bytes_of(&format!("{command}\0junk")))).is_none());
    let mut odd = bytes_of(&command);
    odd.push(7);
    assert!(run_write(&found(REG_SZ, odd)).is_none());
    assert!(run_write(&KeyState::Closed).is_none());
}

#[test]
fn switched_off_entry_is_switched_on() {
    let write = approved_write(&found(REG_BINARY, vec![3, 0, 9])).unwrap();
    assert_eq!(write.kind, REG_BINARY);
    assert_eq!(write.data, vec![2, 0, 0, 0, 0, 0, 0, 0, 0, 0, 0, 0]);
    assert!(approved_write(&found(REG_SZ, vec![0])).is_some());
    assert!(approved_write(&found(REG_BINARY, vec![2, 5])).is_none());
    assert!(approved_write(&found(REG_BINARY, vec![])).is_none());
    assert!(approved_write(&KeyState::NoValue).is_none());
    assert!(approved_write(&KeyState::Closed).is_none());
}

#[test]
fn repairs_settle() {
    for exe in ["", EXE, "D:\\\u{e9}\\\u{1f600}.exe"] {
        let first = heal_registry(exe, &KeyState::NoValue, &found(REG_BINARY, vec![1]));
        let run = KeyState::Found(first.run.unwrap());
        let approved = KeyState::Found(first.approved.unwrap());
        let second = heal_registry(exe, &run, &approved);
        assert!(second.run.is_none() && second.approved.is_none());
    }
}

#[test]
fn a_path_with_a_zero_character_never_settles() {
    let exe = "a\0b";
    let first = heal_registry(exe, &KeyState::NoValue, &KeyState::Closed);
    let run = KeyState::Found(first.run.unwrap());
    assert!(heal_registry(exe, &run, &KeyState::Closed).run.is_some());
}

#[test]
fn entries_have_their_names() {
    assert_eq!(RUN_KEY, "Software\\Microsoft\\Windows\\CurrentVersion\\Run");
    assert_eq!(
        APPROVED_KEY,
        "Software\\Microsoft\\Windows\\CurrentVersion\\Explorer\\StartupApproved\\Run"
    );
    assert_eq!(VALUE_NAME, "SentinelTracker");
}
