//! The registry entries that start the tracker with the user's session, and their repair.

use vstd::prelude::*;
use vstd::string::*;
use crate::text;
use crate::utf16;

verus! {

/// The key of the programs that start with the session.
pub const RUN_KEY: &'static str = "Software\\Microsoft\\Windows\\CurrentVersion\\Run";

/// The key that says which of those programs are switched off.
pub const APPROVED_KEY: &'static str = "Software\\Microsoft\\Windows\\CurrentVersion\\Explorer\\StartupApproved\\Run";

/// The name of the tracker's value under both keys.
pub const VALUE_NAME: &'static str = "SentinelTracker";

/// The kind of a value that is a text.
pub const REG_SZ: u32 = 1;

/// The kind of a value that is bytes.
pub const REG_BINARY: u32 = 3;

/// The first byte of the value of a program that is not switched off.
pub const ENABLED: u8 = 2;

/// A value in the registry.
pub struct RegistryValue {
    pub kind: u32,
    pub data: Vec<u8>,
}

/// A value in the registry, as plain values.
#[verifier::ext_equal]
pub struct ValueView {
    pub kind: u32,
    pub data: Seq<u8>,
}

impl View for RegistryValue {
    type V = ValueView;

    open spec fn view(&self) -> ValueView {
        ValueView { kind: self.kind, data: self.data@ }
    }
}

/// What was found under a key.
pub enum KeyState {
    /// The key could not be opened.
    Closed,
    /// The value could not be read.
    NoValue,
    /// The value.
    Found(RegistryValue),
}

/// The code units in a row of bytes, low byte first. An odd byte at the end does not count.
pub open spec fn units_of(bytes: Seq<u8>) -> Seq<u16> {
    Seq::new(bytes.len() / 2, |i: int| (bytes[2 * i] + 256 * bytes[2 * i + 1]) as u16)
}

/// The bytes of a row of code units, low byte first.
pub open spec fn bytes_of(units: Seq<u16>) -> Seq<u8> {
    Seq::new(
        units.len() * 2,
        |k: int|
            if k % 2 == 0 {
                (units[k / 2] % 256) as u8
            } else {
                (units[k / 2] / 256) as u8
            },
    )
}

/// The characters before the first zero character.
pub open spec fn before_nul(s: Seq<char>) -> Seq<char> {
    match text::find_from(s, seq!['\0'], 0) {
        Some(i) => s.take(i),
        None => s,
    }
}

/// The text that a value holds.
pub open spec fn value_text(data: Seq<u8>) -> Seq<char> {
    before_nul(utf16::decode_lossy(units_of(data)))
}

/// The command that starts the executable: its path in quotation marks.
pub open spec fn run_command(exe: Seq<char>) -> Seq<char> {
    seq!['"'] + exe + seq!['"']
}

/// The value that starts the executable.
pub open spec fn run_value(exe: Seq<char>) -> ValueView {
    ValueView { kind: REG_SZ, data: bytes_of(utf16::wide(run_command(exe))) }
}

/// The value that says that a program is not switched off.
pub open spec fn enabled_value() -> ValueView {
    ValueView { kind: REG_BINARY, data: seq![ENABLED, 0, 0, 0, 0, 0, 0, 0, 0, 0, 0, 0] }
}

/// What the entry that starts the tracker is to be set to, if anything: a value that cannot be
/// read, is no text, or holds another text is replaced.
pub open spec fn run_repair(exe: Seq<char>, state: KeyState) -> Option<ValueView> {
    match state {
        KeyState::Closed => None,
        KeyState::NoValue => Some(run_value(exe)),
        KeyState::Found(value) => if value.kind != REG_SZ || value_text(value.data@) != run_command(
            exe,
        ) {
            Some(run_value(exe))
        } else {
            None
        },
    }
}

/// What the entry that can switch the tracker off is to be set to, if anything: it is replaced
/// where it does not say that the tracker is on.
pub open spec fn approved_repair(state: KeyState) -> Option<ValueView> {
    match state {
        KeyState::Found(value) => if value.data@.len() > 0 && value.data@[0] != ENABLED {
            Some(enabled_value())
        } else {
            None
        },
        _ => None,
    }
}

/// The view of an optional value.
pub open spec fn value_of(value: Option<RegistryValue>) -> Option<ValueView> {
    match value {
        Some(v) => Some(v@),
        None => None,
    }
}

/// The code units in a row of bytes.
fn to_units(bytes: &[u8]) -> (units: Vec<u16>)
    ensures
        units@ == units_of(bytes@),
{
    let mut units: Vec<u16> = Vec::new();
    let mut i: usize = 0;
    let n: usize = bytes.len() / 2;
    while i < n
        invariant
            i <= n == bytes.len() / 2,
            units@ == units_of(bytes@).take(i as int),
        decreases n - i,
    {
        units.push(bytes[2 * i] as u16 + 256 * bytes[2 * i + 1] as u16);
        i += 1;
    }
    units
}

/// The bytes of a row of code units.
fn to_bytes(units: &[u16]) -> (bytes: Vec<u8>)
    ensures
        bytes@ == bytes_of(units@),
{
    let mut bytes: Vec<u8> = Vec::new();
    let mut i: usize = 0;
    while i < units.len()
        invariant
            i <= units.len(),
            bytes@ == bytes_of(units@).take(2 * i),
        decreases units.len() - i,
    {
        bytes.push((units[i] % 256) as u8);
        bytes.push((units[i] / 256) as u8);
        i += 1;
        assert(bytes@ =~= bytes_of(units@).take(2 * i));
    }
    bytes
}

/// The command that starts the executable.
pub fn run_command_of(exe: &str) -> (command: String)
    ensures
        command@ == run_command(exe@),
{
    let mut command = String::new();
    command.push('"');
    command.append(exe);
    command.push('"');
    assert(command@ =~= run_command(exe@));
    command
}

/// The text that a value holds.
fn read_text(data: &[u8]) -> (s: String)
    ensures
        s@ == value_text(data@),
{
    let units = to_units(data);
    let decoded = utf16::decode_utf16_lossy(units.as_slice());
    let chars = text::to_chars(decoded.as_str());
    let nul: [char; 1] = ['\0'];
    assert(nul@ == seq!['\0']);
    match text::find(chars.as_slice(), &nul, 0) {
        Some(i) => {
            proof {
                text::find_from_is_first(chars@, seq!['\0'], 0);
                assert(text::occurs_at(chars@, seq!['\0'], i as int));
                assert(i < chars.len());
            }
            text::from_chars(vstd::slice::slice_subrange(chars.as_slice(), 0, i))
        },
        None => decoded,
    }
}

/// What the two entries of the tracker are to be set to.
pub struct Repairs {
    pub run: Option<RegistryValue>,
    pub approved: Option<RegistryValue>,
}

/// Takes in the path of the tracker's executable and what was found under the two keys, and says
/// what each entry is to be set to, if anything.
pub fn heal_registry(exe: &str, run: &KeyState, approved: &KeyState) -> (repairs: Repairs)
    ensures
        value_of(repairs.run) == run_repair(exe@, *run),
        value_of(repairs.approved) == approved_repair(*approved),
        repairs.run is None <==> *run is Closed || (*run matches KeyState::Found(value)
            && value.kind == 1 && value_text(value.data@) == seq!['"'] + exe@ + seq!['"']),
        repairs.run matches Some(value) ==> value.kind == 1,
        repairs.approved is None <==> !(*approved matches KeyState::Found(value)
            && value.data@.len() > 0 && value.data@[0] != 2),
        repairs.approved matches Some(value) ==> value.kind == 3,
{
    let command = run_command_of(exe);
    let run_needs_write = match run {
        KeyState::Closed => false,
        KeyState::NoValue => true,
        KeyState::Found(value) => if value.kind != REG_SZ {
            true
        } else {
            let actual = read_text(value.data.as_slice());
            !text::same_text(actual.as_str(), command.as_str())
        },
    };
    let run_write = if run_needs_write {
        let units = utf16::to_wide(command.as_str());
        Some(RegistryValue { kind: REG_SZ, data: to_bytes(units.as_slice()) })
    } else {
        None
    };
    let approved_write = match approved {
        KeyState::Found(value) => if value.data.len() > 0 && value.data[0] != ENABLED {
            let data: Vec<u8> = vec![ENABLED, 0, 0, 0, 0, 0, 0, 0, 0, 0, 0, 0];
            assert(data@ =~= enabled_value().data);
            Some(RegistryValue { kind: REG_BINARY, data })
        } else {
            None
        },
        _ => None,
    };
    Repairs { run: run_write, approved: approved_write }
}

/// Bytes that were written of code units read as those code units.
pub proof fn units_of_bytes_of(units: Seq<u16>)
    ensures
        units_of(bytes_of(units)) == units,
{
    let bytes = bytes_of(units);
    assert(bytes.len() == 2 * units.len());
    assert forall|i: int| 0 <= i < units.len() implies units_of(bytes)[i] == units[i] by {
        assert((2 * i) / 2 == i && (2 * i) % 2 == 0);
        assert((2 * i + 1) / 2 == i && (2 * i + 1) % 2 == 1);
        assert(bytes[2 * i] == units[i] % 256);
        assert(bytes[2 * i + 1] == units[i] / 256);
    }
    assert(units_of(bytes) =~= units);
}

/// A text that was written as a value reads as that text, unless it holds a zero character.
pub proof fn written_text_reads_back(s: Seq<char>)
    requires
        !s.contains('\0'),
    ensures
        value_text(bytes_of(utf16::wide(s))) == s,
{
    let stored = s.push('\0');
    units_of_bytes_of(utf16::wide(s));
    utf16::encode_push(s, '\0');
    utf16::decode_of_encode(stored);
    assert(utf16::encode_char('\0') =~= seq![0u16]);
    assert(utf16::encode(stored) =~= utf16::wide(s));
    assert(utf16::decode_lossy(utf16::wide(s)) == stored);
    text::find_from_is_first(stored, seq!['\0'], 0);
    assert(stored.subrange(s.len() as int, s.len() as int + 1) =~= seq!['\0']);
    assert(text::occurs_at(stored, seq!['\0'], s.len() as int));
    assert forall|j: int| 0 <= j < s.len() implies !text::occurs_at(stored, seq!['\0'], j) by {
        assert(stored.subrange(j, j + 1)[0] == s[j]);
        assert(s.contains(s[j]));
    }
    assert(before_nul(stored) =~= s);
}

/// A repair settles: once the entries hold what they were to be set to, nothing more is to be
/// set. The path of an executable holds no zero character.
pub proof fn repair_settles(exe: Seq<char>, run: KeyState, approved: KeyState, again: RegistryValue)
    requires
        !exe.contains('\0'),
    ensures
        run_repair(exe, run) == Some(again@) ==> run_repair(exe, KeyState::Found(again)) is None,
        approved_repair(approved) == Some(again@) ==> approved_repair(
            KeyState::Found(again),
        ) is None,
{
    let command = run_command(exe);
    assert(!command.contains('\0')) by {
        if command.contains('\0') {
            let i = choose|i: int| 0 <= i < command.len() && command[i] == '\0';
            assert(exe[i - 1] == '\0');
        }
    }
    written_text_reads_back(command);
}

/// The command holds the path as it is, between two quotation marks. Different executables have
/// different commands.
pub proof fn command_is_the_quoted_path(exe: Seq<char>, other: Seq<char>)
    ensures
        run_command(exe).len() == exe.len() + 2,
        run_command(exe)[0] == '"',
        run_command(exe).last() == '"',
        run_command(exe).skip(1).drop_last() == exe,
        run_command(exe) == run_command(other) ==> exe == other,
{
    assert(run_command(exe).skip(1).drop_last() =~= exe);
    assert(run_command(other).skip(1).drop_last() =~= other);
}

/// The entry that starts the tracker is left alone only where its key is closed, or where it holds
/// a text, and that text is the path of the executable in quotation marks.
pub proof fn only_the_right_entry_is_left_alone(exe: Seq<char>, run: KeyState)
    ensures
        run_repair(exe, run) is None <==> {
            ||| run is Closed
            ||| (run matches KeyState::Found(value) && value.kind == 1 && value_text(value.data@)
                == seq!['"'] + exe + seq!['"'])
        },
{
}

/// An entry that starts one executable is replaced where another is to be started, and an entry
/// that holds a text in another form than the one that is written, such as the path without
/// quotation marks, is replaced too.
pub proof fn entry_of_another_executable_is_replaced(
    exe: Seq<char>,
    held: Seq<char>,
    value: RegistryValue,
)
    requires
        !held.contains('\0'),
        held != seq!['"'] + exe + seq!['"'],
        value.data@ == bytes_of(utf16::wide(held)),
    ensures
        run_repair(exe, KeyState::Found(value)) == Some(run_value(exe)),
{
    written_text_reads_back(held);
}

/// What was written for one executable is replaced where the path of another is given.
pub proof fn written_entry_is_replaced_for_another(
    exe: Seq<char>,
    other: Seq<char>,
    run: KeyState,
    value: RegistryValue,
)
    requires
        !other.contains('\0'),
        other != exe,
        run_repair(other, run) == Some(value@),
    ensures
        run_repair(exe, KeyState::Found(value)) is Some,
{
    let command = run_command(other);
    assert(!command.contains('\0')) by {
        if command.contains('\0') {
            let i = choose|i: int| 0 <= i < command.len() && command[i] == '\0';
            assert(other[i - 1] == '\0');
        }
    }
    command_is_the_quoted_path(other, exe);
    written_text_reads_back(command);
}

/// Whatever is to be written as the entry that starts the tracker is a text, which reads as the
/// path of the executable in quotation marks and ends in a zero.
pub proof fn repaired_entry_starts_the_executable(exe: Seq<char>, run: KeyState)
    requires
        !exe.contains('\0'),
    ensures
        run_repair(exe, run) matches Some(value) ==> {
            &&& value.kind == 1
            &&& value_text(value.data) == seq!['"'] + exe + seq!['"']
            &&& units_of(value.data) == utf16::encode(seq!['"'] + exe + seq!['"']).push(0)
            &&& value.data.len() == 2 * units_of(value.data).len()
        },
        run is NoValue ==> run_repair(exe, run) is Some,
{
    let command = run_command(exe);
    assert(!command.contains('\0')) by {
        if command.contains('\0') {
            let i = choose|i: int| 0 <= i < command.len() && command[i] == '\0';
            assert(exe[i - 1] == '\0');
        }
    }
    written_text_reads_back(command);
    units_of_bytes_of(utf16::wide(command));
    utf16::wide_ends_in_zero(command);
    assert(utf16::wide(command) =~= utf16::encode(command).push(0));
}

/// The text of a value ends before its first zero character, and leaves out nothing before that.
pub proof fn value_text_ends_at_zero(data: Seq<u8>)
    ensures
        ({
            let all = utf16::decode_lossy(units_of(data));
            let held = value_text(data);
            &&& !held.contains('\0')
            &&& held.is_prefix_of(all)
            &&& held.len() < all.len() ==> all[held.len() as int] == '\0'
        }),
{
    let all = utf16::decode_lossy(units_of(data));
    let held = value_text(data);
    let nul = seq!['\0'];
    text::find_from_is_first(all, nul, 0);
    assert forall|k: int| 0 <= k < held.len() implies held[k] != '\0' by {
        assert(all.subrange(k, k + 1) =~= seq![all[k]]);
        assert(!text::occurs_at(all, nul, k));
        assert(held[k] == all[k]);
    }
    if let Some(i) = text::find_from(all, nul, 0) {
        assert(text::occurs_at(all, nul, i));
        assert(all.subrange(i, i + 1)[0] == '\0');
    }
}

/// Two bytes make a code unit, the low one first. A single byte at the end makes none.
pub proof fn units_are_pairs_of_bytes(data: Seq<u8>, i: int)
    requires
        0 <= 2 * i,
        2 * i + 1 < data.len(),
    ensures
        units_of(data).len() * 2 <= data.len() <= units_of(data).len() * 2 + 1,
        units_of(data)[i] == data[2 * i] + 256 * data[2 * i + 1],
{
}

/// The entry that can switch the tracker off is set only where it holds a value that starts with
/// another byte than two. It is then set to twelve bytes, a two and zeros, which leave the tracker
/// switched on.
pub proof fn tracker_is_switched_on_again(approved: KeyState)
    ensures
        approved_repair(approved) is Some <==> (approved matches KeyState::Found(value)
            && value.data@.len() > 0 && value.data@[0] != 2),
        approved_repair(approved) matches Some(value) ==> {
            &&& value.kind == 3
            &&& value.data.len() == 12
            &&& value.data[0] == 2
            &&& forall|i: int| 1 <= i < 12 ==> #[trigger] value.data[i] == 0
        },
{
}

/// A value is shown with its kind and its bytes.
pub proof fn values_are_shown_as_they_are(value: RegistryValue)
    ensures
        value@.kind == value.kind,
        value@.data == value.data@,
        value_of(Some(value)) == Some(value@),
        value_of(None) is None,
{
}

} // verus!
