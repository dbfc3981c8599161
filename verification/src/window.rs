//! Windows: which of them belong to the system, and which executables came to the foreground.
//!
//! A window handle is a number; zero stands for no window.

use vstd::prelude::*;
use crate::process;
use crate::text;
#[allow(unused_imports)]
use crate::text::texts;
use crate::utf16;

verus! {

/// Whether a window class is one of the system's own.
pub open spec fn system_class(class: Seq<char>) -> bool {
    ||| class == "Shell_TrayWnd"@
    ||| class == "Progman"@
    ||| class == "WorkerW"@
    ||| class == "Windows.UI.Core.CoreWindow"@
}

/// Whether a window class is one of the system's own.
fn is_system_class(class: &str) -> (r: bool)
    ensures
        r == system_class(class@),
{
    text::same_text(class, "Shell_TrayWnd") || text::same_text(class, "Progman")
        || text::same_text(class, "WorkerW") || text::same_text(
        class,
        "Windows.UI.Core.CoreWindow",
    )
}

/// Whether a window belongs to the system. No window does, and one whose class is not known
/// does not.
pub open spec fn system_window(hwnd: usize, class_name: Seq<u16>) -> bool {
    hwnd == 0 || (class_name.len() > 0 && system_class(utf16::decode_lossy(class_name)))
}

/// Whether a window belongs to the system, given the name of its class, which is empty where it
/// could not be had.
pub fn is_system_window(hwnd: usize, class_name: &[u16]) -> (r: bool)
    ensures
        r == system_window(hwnd, class_name@),
{
    if hwnd == 0 {
        return true;
    }
    if class_name.len() == 0 {
        return false;
    }
    let class = utf16::decode_utf16_lossy(class_name);
    is_system_class(class.as_str())
}

/// The window that came to the foreground, as far as it could be asked.
pub struct ForegroundWindow<'a> {
    pub hwnd: usize,
    /// The name of its class; empty where it could not be had.
    pub class_name: &'a [u16],
    /// Its style; zero where it could not be had.
    pub style: isize,
    /// Its process; zero where it could not be had.
    pub pid: u32,
    /// The path of the executable of its process.
    pub image_path: Option<&'a [u16]>,
}

impl<'a> ForegroundWindow<'a> {
    /// Whether the window is one to keep track of.
    pub open spec fn relevant(self) -> bool {
        &&& self.hwnd != 0
        &&& self.class_name@.len() > 0
        &&& !system_class(utf16::decode_lossy(self.class_name@))
        &&& self.style != 0
        &&& self.pid != 0
        &&& self.image_path is Some
    }

    /// Whether the window is one to keep track of.
    fn is_relevant(&self) -> (r: bool)
        ensures
            r == self.relevant(),
    {
        if self.hwnd == 0 || self.class_name.len() == 0 {
            return false;
        }
        let class = utf16::decode_utf16_lossy(self.class_name);
        !is_system_class(class.as_str()) && self.style != 0 && self.pid != 0
            && self.image_path.is_some()
    }
}

/// The log after an executable came to the foreground: the system's shell is not logged, nor is
/// the executable that was logged last.
pub open spec fn log_after(log: Seq<Seq<char>>, name: Option<Seq<char>>) -> Seq<Seq<char>> {
    match name {
        Some(n) => if text::same_ignoring_case(n, "explorer.exe"@) || (log.len() > 0 && log.last()
            == n) {
            log
        } else {
            log.push(n)
        },
        None => log,
    }
}

/// The executables that came to the foreground, in order.
pub struct ForegroundLog {
    pub names: Vec<String>,
}

impl View for ForegroundLog {
    type V = Seq<Seq<char>>;

    open spec fn view(&self) -> Seq<Seq<char>> {
        texts(self.names@)
    }
}

impl ForegroundLog {
    /// A log with nothing in it.
    pub fn new() -> (log: Self)
        ensures
            log@ == Seq::<Seq<char>>::empty(),
    {
        let log = ForegroundLog { names: Vec::new() };
        assert(log@ =~= Seq::<Seq<char>>::empty());
        log
    }

    /// Logs the executable that came to the foreground, if its name is known. Says whether the
    /// log grew.
    pub fn record(&mut self, exe_name: Option<String>) -> (logged: bool)
        ensures
            final(self)@ == log_after(old(self)@, text::text_of(exe_name)),
            logged == (final(self)@.len() > old(self)@.len()),
            logged ==> (exe_name matches Some(name) && final(self)@ == old(self)@.push(name@)),
            !logged ==> final(self)@ == old(self)@,
    {
        match exe_name {
            None => false,
            Some(name) => {
                if text::eq_ignore_ascii_case(name.as_str(), "explorer.exe") {
                    return false;
                }
                let n: usize = self.names.len();
                if n > 0 {
                    assert(self@.last() == self.names@[n - 1]@);
                    if self.names[n - 1] == name {
                        return false;
                    }
                }
                self.names.push(name);
                assert(self@ =~= old(self)@.push(name@));
                true
            },
        }
    }
}

/// Takes in that a window came to the foreground, and logs its executable. Says whether the log
/// grew.
pub fn wineventproc(log: &mut ForegroundLog, window: &ForegroundWindow<'_>) -> (logged: bool)
    ensures
        !window.relevant() ==> !logged && final(log)@ == old(log)@,
        window.relevant() ==> exists|name: Option<Seq<char>>|
            {
                &&& #[trigger] process::file_name_fits(
                    utf16::decode_lossy(window.image_path.unwrap()@),
                    name,
                )
                &&& final(log)@ == log_after(old(log)@, name)
            },
        window.relevant() && process::portable_path(
            utf16::decode_lossy(window.image_path.unwrap()@),
        ) ==> final(log)@ == log_after(
            old(log)@,
            process::last_name(
                utf16::decode_lossy(window.image_path.unwrap()@),
                process::slash(),
            ),
        ),
        kept_log(old(log)@) ==> kept_log(final(log)@),
        filled_log(old(log)@) ==> filled_log(final(log)@),
        logged == (final(log)@.len() > old(log)@.len()),
{
    if !window.is_relevant() {
        return false;
    }
    match window.image_path {
        Some(path) => {
            let name = process::image_file_name(path);
            let ghost found = text::text_of(name);
            assert(process::file_name_fits(
                utf16::decode_lossy(window.image_path.unwrap()@),
                found,
            ));
            log.record(name)
        },
        None => false,
    }
}

/// Whether no name in the log is empty.
pub open spec fn filled_log(log: Seq<Seq<char>>) -> bool {
    forall|i: int| 0 <= i < log.len() ==> (#[trigger] log[i]).len() > 0
}

/// A log as it is kept: no executable stands twice in a row, and the system's shell does not
/// stand in it.
pub open spec fn kept_log(log: Seq<Seq<char>>) -> bool {
    &&& forall|i: int| 0 <= i < log.len() - 1 ==> (#[trigger] log[i]) != log[i + 1]
    &&& forall|i: int|
        0 <= i < log.len() ==> !text::same_ignoring_case(#[trigger] log[i], "explorer.exe"@)
}

/// The log after executables came to the foreground one after the other.
pub open spec fn log_run(names: Seq<Option<Seq<char>>>) -> Seq<Seq<char>>
    decreases names.len(),
{
    if names.len() == 0 {
        Seq::empty()
    } else {
        log_after(log_run(names.drop_last()), names.last())
    }
}

/// Whether a name, if there is one, is filled.
pub open spec fn filled_or_none(name: Option<Seq<char>>) -> bool {
    name matches Some(n) ==> n.len() > 0
}

/// Whatever comes to the foreground, no executable stands twice in a row in the log, and the
/// system's shell does not stand in it. Where every name that comes is filled, so is every name
/// in the log.
pub proof fn log_is_kept(names: Seq<Option<Seq<char>>>)
    ensures
        kept_log(log_run(names)),
        (forall|i: int| 0 <= i < names.len() ==> filled_or_none(#[trigger] names[i]))
            ==> filled_log(log_run(names)),
    decreases names.len(),
{
    if names.len() > 0 {
        let before = names.drop_last();
        log_is_kept(before);
        if forall|i: int| 0 <= i < names.len() ==> filled_or_none(#[trigger] names[i]) {
            assert(forall|i: int| 0 <= i < before.len() ==> #[trigger] before[i] == names[i]);
            assert(filled_or_none(names[names.len() - 1]));
        }
    }
}

/// The file names that the paths of executables have are filled.
pub proof fn file_names_are_filled(path: Seq<char>, name: Option<Seq<char>>)
    requires
        process::file_name_fits(path, name),
    ensures
        filled_or_none(name),
{
}

/// Nothing that is in the log is ever lost or changed.
pub proof fn log_only_grows(log: Seq<Seq<char>>, name: Option<Seq<char>>)
    ensures
        log.is_prefix_of(log_after(log, name)),
{
}

/// Four window classes are the system's own, letter for letter.
pub proof fn system_classes_are_four(class: Seq<char>)
    ensures
        system_class(class) <==> seq![
            "Shell_TrayWnd"@,
            "Progman"@,
            "WorkerW"@,
            "Windows.UI.Core.CoreWindow"@,
        ].contains(class),
{
    let classes = seq![
        "Shell_TrayWnd"@,
        "Progman"@,
        "WorkerW"@,
        "Windows.UI.Core.CoreWindow"@,
    ];
    assert(classes[0] == "Shell_TrayWnd"@ && classes[1] == "Progman"@);
    assert(classes[2] == "WorkerW"@ && classes[3] == "Windows.UI.Core.CoreWindow"@);
}

/// No window counts as the system's. A window is the system's where its class is, and not where
/// its class is not known.
pub proof fn system_windows_are_known_by_class(hwnd: usize, class: Seq<char>, units: Seq<u16>)
    requires
        hwnd != 0,
    ensures
        system_window(0, units),
        !system_window(hwnd, Seq::empty()),
        system_window(hwnd, utf16::encode(class)) <==> class == "Shell_TrayWnd"@ || class
            == "Progman"@ || class == "WorkerW"@ || class == "Windows.UI.Core.CoreWindow"@,
        units.len() > 0 ==> system_window(hwnd, units) == system_class(utf16::decode_lossy(units)),
{
    utf16::decode_of_encode(class);
    reveal_strlit("Shell_TrayWnd");
    reveal_strlit("Progman");
    reveal_strlit("WorkerW");
    reveal_strlit("Windows.UI.Core.CoreWindow");
    if class.len() > 0 {
        assert(utf16::encode(class).len() > 0);
    }
}

/// A window is kept track of where it is not the system's and everything about it could be had:
/// its class, its style, its process and the path of its executable.
pub proof fn known_windows_are_relevant(window: ForegroundWindow<'_>)
    ensures
        window.relevant() <==> {
            &&& !system_window(window.hwnd, window.class_name@)
            &&& window.class_name@.len() != 0
            &&& window.style != 0
            &&& window.pid != 0
            &&& window.image_path is Some
        },
{
}

/// An executable that comes to the foreground is the last in the log then, added where it was not
/// already. Nothing is added otherwise: not for the system's shell, however its name is written,
/// and not where the name is not known.
pub proof fn log_ends_with_latest(log: Seq<Seq<char>>, name: Seq<char>)
    ensures
        log_after(log, None) == log,
        text::same_ignoring_case(name, "explorer.exe"@) ==> log_after(log, Some(name)) == log,
        !text::same_ignoring_case(name, "explorer.exe"@) ==> {
            let next = log_after(log, Some(name));
            &&& next.len() > 0 && next.last() == name
            &&& next == log || next == log.push(name)
            &&& log.len() == 0 || log.last() != name ==> next == log.push(name)
            &&& log.len() > 0 && log.last() == name ==> next == log
        },
{
}

/// An executable that comes to the foreground again at once is not logged again.
pub proof fn repeated_executable_is_logged_once(log: Seq<Seq<char>>, name: Option<Seq<char>>)
    ensures
        log_after(log_after(log, name), name) == log_after(log, name),
{
}

} // verus!
