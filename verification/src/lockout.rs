//! The lockout: which windows are covered by the overlay while the user is restricted.
//!
//! A window handle is a number; zero stands for no window.

use vstd::prelude::*;
use crate::text;
#[allow(unused_imports)]
use crate::text::texts;
use crate::window;

verus! {

/// The title of the overlay's window, by which it is found.
pub const OVERLAY_TITLE: &'static str = "Sentinel Lockout Overlay";

/// Whether `exe_name` is one of `names`, up to ASCII case.
pub open spec fn named_in(names: Seq<Seq<char>>, exe_name: Seq<char>) -> bool {
    exists|i: int| 0 <= i < names.len() && text::same_ignoring_case(#[trigger] names[i], exe_name)
}

/// Whether `exe_name` is on the whitelist, up to ASCII case.
pub fn is_whitelisted(whitelist: &[String], exe_name: &str) -> (r: bool)
    ensures
        r == named_in(texts(whitelist@), exe_name@),
{
    let ghost names = texts(whitelist@);
    let mut i: usize = 0;
    while i < whitelist.len()
        invariant
            i <= whitelist.len(),
            names == texts(whitelist@),
            forall|j: int|
                0 <= j < i ==> !text::same_ignoring_case(#[trigger] names[j], exe_name@),
        decreases whitelist.len() - i,
    {
        assert(names[i as int] == whitelist@[i as int]@);
        if text::eq_ignore_ascii_case(whitelist[i].as_str(), exe_name) {
            assert(text::same_ignoring_case(names[i as int], exe_name@));
            return true;
        }
        i += 1;
    }
    false
}

/// The foreground window, and the overlay's window where there is one.
pub struct Foreground<'a> {
    pub hwnd: usize,
    pub overlay: Option<usize>,
    /// The name of the window's class; empty where it could not be had.
    pub class_name: &'a [u16],
    /// The executable of the window's process; empty where it could not be had.
    pub exe_name: &'a str,
}

impl<'a> Foreground<'a> {
    /// Whether the overlay itself is in the foreground.
    pub open spec fn on_overlay(self) -> bool {
        self.overlay == Some(self.hwnd)
    }

    /// Whether the foreground window belongs to the system.
    pub open spec fn on_system(self) -> bool {
        window::system_window(self.hwnd, self.class_name@)
    }

    /// Whether the foreground window is one that a restricted user may not use.
    pub open spec fn forbidden(self, whitelist: Seq<Seq<char>>) -> bool {
        !self.on_overlay() && !self.on_system() && !named_in(whitelist, self.exe_name@)
    }

    /// Whether the foreground window is one that a restricted user may use.
    pub open spec fn permitted(self, whitelist: Seq<Seq<char>>) -> bool {
        !self.on_overlay() && (self.on_system() || named_in(whitelist, self.exe_name@))
    }
}

/// What a step of the lockout is announced as.
#[derive(PartialEq, Eq, Structural, Clone, Copy, Debug)]
pub enum Notice {
    /// Nothing is announced.
    Silent,
    /// A window that is not on the whitelist was blocked.
    Blocked,
    /// The restrictions ended, and the overlay is hidden.
    Released,
}

/// Whether the lockout is active, and the window that it covers.
#[derive(PartialEq, Eq, Structural, Clone, Copy, Debug)]
pub struct Lockout {
    pub active: bool,
    pub target: usize,
}

impl Lockout {
    /// No lockout.
    pub fn new() -> (lockout: Self)
        ensures
            lockout == (Lockout { active: false, target: 0 }),
    {
        Lockout { active: false, target: 0 }
    }

    /// The lockout with `hwnd` covered, unless a window is covered already.
    pub open spec fn engaged(self, hwnd: usize) -> Lockout {
        if self.active {
            self
        } else {
            Lockout { active: true, target: hwnd }
        }
    }

    /// The lockout lifted.
    pub open spec fn lifted(self) -> Lockout {
        Lockout { active: false, target: self.target }
    }

    /// The lockout after a look at the foreground window. A forbidden window engages it. A
    /// permitted one lifts it, but only where there is an overlay to hide.
    pub open spec fn after(
        self,
        restricted: bool,
        foreground: Foreground<'_>,
        whitelist: Seq<Seq<char>>,
    ) -> Lockout {
        if !restricted {
            self.lifted()
        } else if foreground.forbidden(whitelist) {
            self.engaged(foreground.hwnd)
        } else if foreground.permitted(whitelist) && foreground.overlay is Some {
            self.lifted()
        } else {
            self
        }
    }

    /// What that step is announced as: a window that gets blocked, where there is an overlay to
    /// cover it, and an end of the restrictions that lifts the lockout.
    pub open spec fn notice(
        self,
        restricted: bool,
        foreground: Foreground<'_>,
        whitelist: Seq<Seq<char>>,
    ) -> Notice {
        if !restricted && self.active {
            Notice::Released
        } else if restricted && !self.active && foreground.forbidden(whitelist)
            && foreground.overlay is Some {
            Notice::Blocked
        } else {
            Notice::Silent
        }
    }

    /// Takes in whether the user is restricted and what is in the foreground.
    pub fn enforce(
        &mut self,
        restricted: bool,
        foreground: &Foreground<'_>,
        whitelist: &[String],
    ) -> (notice: Notice)
        ensures
            *final(self) == old(self).after(restricted, *foreground, texts(whitelist@)),
            notice == old(self).notice(restricted, *foreground, texts(whitelist@)),
            !restricted ==> !final(self).active,
            final(self).active && !old(self).active ==> final(self).target == foreground.hwnd
                && foreground.hwnd != 0 && foreground.overlay != Some(foreground.hwnd),
            final(self).active == old(self).active ==> final(self).target == old(self).target,
            notice is Blocked <==> !old(self).active && final(self).active
                && foreground.overlay is Some,
            notice is Released <==> old(self).active && !restricted,
    {
        if !restricted {
            if self.active {
                self.active = false;
                return Notice::Released;
            }
            return Notice::Silent;
        }
        match foreground.overlay {
            Some(overlay) => {
                if foreground.hwnd == overlay {
                    Notice::Silent
                } else if window::is_system_window(foreground.hwnd, foreground.class_name) {
                    self.active = false;
                    Notice::Silent
                } else if is_whitelisted(whitelist, foreground.exe_name) {
                    self.active = false;
                    Notice::Silent
                } else if !self.active {
                    self.active = true;
                    self.target = foreground.hwnd;
                    Notice::Blocked
                } else {
                    Notice::Silent
                }
            },
            None => {
                if foreground.hwnd != 0 && !window::is_system_window(
                    foreground.hwnd,
                    foreground.class_name,
                ) && !is_whitelisted(whitelist, foreground.exe_name) && !self.active {
                    self.active = true;
                    self.target = foreground.hwnd;
                }
                Notice::Silent
            },
        }
    }
}

/// The bounds of a window.
#[derive(PartialEq, Eq, Structural, Clone, Copy, Debug)]
pub struct Rect {
    pub left: i32,
    pub top: i32,
    pub right: i32,
    pub bottom: i32,
}

impl Rect {
    /// Whether the width and the height are numbers of 32 bits.
    pub open spec fn measurable(self) -> bool {
        &&& i32::MIN <= self.right - self.left <= i32::MAX
        &&& i32::MIN <= self.bottom - self.top <= i32::MAX
    }
}

/// What becomes of the overlay's window.
#[derive(PartialEq, Eq, Structural, Clone, Copy, Debug)]
pub enum Placement {
    /// It is hidden.
    Hide,
    /// It is shown, above all others, at the given position and size.
    Show { x: i32, y: i32, width: i32, height: i32 },
    /// It stays where it is.
    Keep,
}

/// Where the overlay belongs, given the bounds of the covered window if they could be had: over
/// that window while the lockout is active, and nowhere otherwise.
pub fn place_overlay(lockout: &Lockout, bounds: Option<Rect>) -> (placement: Placement)
    requires
        lockout.active && lockout.target != 0 ==> (bounds matches Some(r) ==> r.measurable()),
    ensures
        placement == (if !lockout.active {
            Placement::Hide
        } else if lockout.target == 0 {
            Placement::Keep
        } else {
            match bounds {
                Some(r) => Placement::Show {
                    x: r.left,
                    y: r.top,
                    width: (r.right - r.left) as i32,
                    height: (r.bottom - r.top) as i32,
                },
                None => Placement::Keep,
            }
        }),
        placement is Hide <==> !lockout.active,
        placement is Show <==> lockout.active && lockout.target != 0 && bounds is Some,
        placement matches Placement::Show { x, y, width, height } ==> (bounds matches Some(r) && {
            &&& x == r.left && x + width == r.right
            &&& y == r.top && y + height == r.bottom
        }),
{
    if !lockout.active {
        return Placement::Hide;
    }
    if lockout.target == 0 {
        return Placement::Keep;
    }
    match bounds {
        Some(r) => Placement::Show {
            x: r.left,
            y: r.top,
            width: r.right - r.left,
            height: r.bottom - r.top,
        },
        None => Placement::Keep,
    }
}

/// The window that is to be brought to the foreground: the overlay, while the lockout is active
/// and another window is there.
pub fn focus_to_take(active: bool, overlay: Option<usize>, foreground: usize) -> (r: Option<usize>)
    ensures
        r == (if active && overlay is Some && overlay != Some(foreground) {
            overlay
        } else {
            None
        }),
        r matches Some(hwnd) ==> hwnd != foreground && overlay == Some(hwnd),
        active && overlay is Some ==> r == overlay || overlay == Some(foreground),
        !active ==> r is None,
{
    if !active {
        return None;
    }
    match overlay {
        Some(hwnd) => if hwnd != foreground {
            Some(hwnd)
        } else {
            None
        },
        None => None,
    }
}

/// The exit code of the tracker: success only where its window closed without an error, a clean
/// exit is allowed to stop the pair, and the user asked for it.
pub fn exit_code(closed_cleanly: bool, enable_kill: bool, interrupted: bool) -> (code: i32)
    ensures
        code == (if closed_cleanly && enable_kill && interrupted {
            0i32
        } else {
            1i32
        }),
        code == 0 <==> closed_cleanly && enable_kill && interrupted,
        code == 0 || code == 1,
{
    if closed_cleanly && enable_kill && interrupted {
        0
    } else {
        1
    }
}

/// Default deny: while the user is restricted, a window that is not permitted is covered, or
/// another one was covered before and still is.
pub proof fn forbidden_window_is_blocked(
    lockout: Lockout,
    foreground: Foreground<'_>,
    whitelist: Seq<Seq<char>>,
)
    requires
        foreground.forbidden(whitelist),
    ensures
        ({
            let next = lockout.after(true, foreground, whitelist);
            &&& next.active
            &&& next.target == (if lockout.active {
                lockout.target
            } else {
                foreground.hwnd
            })
        }),
{
}

/// No lockout outlasts the restrictions.
pub proof fn unrestricted_user_is_free(
    lockout: Lockout,
    foreground: Foreground<'_>,
    whitelist: Seq<Seq<char>>,
)
    ensures
        !lockout.after(false, foreground, whitelist).active,
{
}

/// A permitted window is not covered: it engages no lockout, and lifts one where there is an
/// overlay.
pub proof fn permitted_window_is_left_alone(
    lockout: Lockout,
    restricted: bool,
    foreground: Foreground<'_>,
    whitelist: Seq<Seq<char>>,
)
    requires
        foreground.permitted(whitelist),
    ensures
        lockout.after(restricted, foreground, whitelist).active ==> lockout.active
            && foreground.overlay is None,
{
}

/// The overlay in the foreground changes nothing while the user is restricted.
pub proof fn overlay_in_foreground_changes_nothing(
    lockout: Lockout,
    foreground: Foreground<'_>,
    whitelist: Seq<Seq<char>>,
)
    requires
        foreground.on_overlay(),
    ensures
        lockout.after(true, foreground, whitelist) == lockout,
        lockout.notice(true, foreground, whitelist) is Silent,
{
}

/// The case of ASCII letters in the executable's name does not matter.
pub proof fn whitelist_ignores_case(
    whitelist: Seq<Seq<char>>,
    exe_name: Seq<char>,
    other: Seq<char>,
)
    requires
        text::same_ignoring_case(exe_name, other),
    ensures
        named_in(whitelist, exe_name) == named_in(whitelist, other),
{
    if named_in(whitelist, exe_name) {
        let i = choose|i: int|
            0 <= i < whitelist.len() && text::same_ignoring_case(#[trigger] whitelist[i], exe_name);
        assert(text::same_ignoring_case(whitelist[i], other));
    }
    if named_in(whitelist, other) {
        let i = choose|i: int|
            0 <= i < whitelist.len() && text::same_ignoring_case(#[trigger] whitelist[i], other);
        assert(text::same_ignoring_case(whitelist[i], exe_name));
    }
}

/// What one look finds: whether the user is restricted, the foreground, and the whitelist.
pub struct Look<'a> {
    pub restricted: bool,
    pub foreground: Foreground<'a>,
    pub whitelist: Seq<Seq<char>>,
}

impl Lockout {
    /// The lockout after the given looks.
    pub open spec fn run(self, looks: Seq<Look<'_>>) -> Lockout
        decreases looks.len(),
    {
        if looks.len() == 0 {
            self
        } else {
            let last = looks.last();
            self.run(looks.drop_last()).after(last.restricted, last.foreground, last.whitelist)
        }
    }
}

/// Whether the look found a restricted user at the window `hwnd`, which is forbidden.
pub open spec fn caught_at(look: Look<'_>, hwnd: usize) -> bool {
    look.restricted && look.foreground.hwnd == hwnd && look.foreground.forbidden(look.whitelist)
}

/// However the looks go, the covered window exists, and was forbidden to a restricted user when
/// it was in the foreground.
pub proof fn covered_window_was_forbidden(looks: Seq<Look<'_>>)
    ensures
        ({
            let lockout = (Lockout { active: false, target: 0 }).run(looks);
            lockout.active ==> lockout.target != 0 && exists|i: int|
                0 <= i < looks.len() && caught_at(#[trigger] looks[i], lockout.target)
        }),
    decreases looks.len(),
{
    if looks.len() > 0 {
        let before = looks.drop_last();
        covered_window_was_forbidden(before);
        let lockout = (Lockout { active: false, target: 0 }).run(before);
        let last = looks.last();
        let next = lockout.after(last.restricted, last.foreground, last.whitelist);
        if next.active {
            if lockout.active {
                let i = choose|i: int|
                    0 <= i < before.len() && caught_at(#[trigger] before[i], lockout.target);
                assert(caught_at(looks[i], next.target));
            } else {
                assert(caught_at(looks[looks.len() - 1], next.target));
            }
        }
    }
}

/// A name is on the whitelist where one of its names is the same up to the case of ASCII letters.
pub proof fn whitelist_is_searched_for_the_name(whitelist: Seq<Seq<char>>, exe_name: Seq<char>)
    ensures
        named_in(whitelist, exe_name) <==> exists|i: int|
            0 <= i < whitelist.len() && text::same_ignoring_case(#[trigger] whitelist[i], exe_name),
        named_in(whitelist.push(exe_name), exe_name),
        named_in(Seq::empty(), exe_name) == false,
{
    let longer = whitelist.push(exe_name);
    assert(text::same_ignoring_case(longer[whitelist.len() as int], exe_name));
}

/// While the user is restricted, a window that is neither the overlay nor the system's and whose
/// executable is not on the whitelist is covered, unless another one is covered already. That is
/// announced where there is an overlay.
pub proof fn unlisted_window_is_covered(
    lockout: Lockout,
    foreground: Foreground<'_>,
    whitelist: Seq<Seq<char>>,
)
    requires
        foreground.hwnd != 0,
        foreground.overlay != Some(foreground.hwnd),
        !window::system_window(foreground.hwnd, foreground.class_name@),
        forall|i: int|
            0 <= i < whitelist.len() ==> !text::same_ignoring_case(
                #[trigger] whitelist[i],
                foreground.exe_name@,
            ),
    ensures
        lockout.active ==> lockout.after(true, foreground, whitelist) == lockout,
        !lockout.active ==> lockout.after(true, foreground, whitelist) == (Lockout {
            active: true,
            target: foreground.hwnd,
        }),
        lockout.notice(true, foreground, whitelist) == (if !lockout.active
            && foreground.overlay is Some {
            Notice::Blocked
        } else {
            Notice::Silent
        }),
{
}

/// While the user is restricted, a window of the system, or one whose executable is on the
/// whitelist, ends the lockout where there is an overlay to hide, and changes nothing where there
/// is none. Neither is announced.
pub proof fn listed_window_is_uncovered(
    lockout: Lockout,
    foreground: Foreground<'_>,
    whitelist: Seq<Seq<char>>,
    i: int,
)
    requires
        foreground.overlay != Some(foreground.hwnd),
        window::system_window(foreground.hwnd, foreground.class_name@) || (0 <= i < whitelist.len()
            && text::same_ignoring_case(whitelist[i], foreground.exe_name@)),
    ensures
        foreground.overlay is Some ==> lockout.after(true, foreground, whitelist) == (Lockout {
            active: false,
            target: lockout.target,
        }),
        foreground.overlay is None ==> lockout.after(true, foreground, whitelist) == lockout,
        lockout.notice(true, foreground, whitelist) is Silent,
{
    if !window::system_window(foreground.hwnd, foreground.class_name@) {
        assert(named_in(whitelist, foreground.exe_name@));
    }
}

/// The overlay's own window in the foreground leaves the lockout as it is, so that it does not
/// flicker.
pub proof fn overlay_does_not_flicker(
    lockout: Lockout,
    foreground: Foreground<'_>,
    whitelist: Seq<Seq<char>>,
)
    requires
        foreground.overlay == Some(foreground.hwnd),
    ensures
        lockout.after(true, foreground, whitelist) == lockout,
        lockout.notice(true, foreground, whitelist) is Silent,
{
}

/// The end of the restrictions ends the lockout, whatever is in the foreground, and is announced
/// where there was one.
pub proof fn end_of_restrictions_ends_lockout(
    lockout: Lockout,
    foreground: Foreground<'_>,
    whitelist: Seq<Seq<char>>,
)
    ensures
        lockout.after(false, foreground, whitelist) == (Lockout {
            active: false,
            target: lockout.target,
        }),
        lockout.active ==> lockout.notice(false, foreground, whitelist) is Released,
        !lockout.active ==> lockout.notice(false, foreground, whitelist) is Silent,
{
}

/// What is announced is what has changed: that a window was blocked where the lockout became
/// active and there is an overlay, and that the restrictions ended where that ended the lockout.
pub proof fn notices_tell_what_changed(
    lockout: Lockout,
    restricted: bool,
    foreground: Foreground<'_>,
    whitelist: Seq<Seq<char>>,
)
    ensures
        ({
            let next = lockout.after(restricted, foreground, whitelist);
            let notice = lockout.notice(restricted, foreground, whitelist);
            &&& notice is Blocked <==> !lockout.active && next.active && foreground.overlay is Some
            &&& notice is Released <==> lockout.active && !next.active && !restricted
            &&& next.target != lockout.target ==> !lockout.active && next.active && next.target
                == foreground.hwnd
            &&& next.active ==> restricted
        }),
{
}

/// Bounds can be measured where the way from each side to the other is a number of 32 bits.
pub proof fn measurable_bounds_have_a_size(r: Rect)
    ensures
        r.measurable() <==> {
            &&& -0x8000_0000 <= r.right - r.left < 0x8000_0000
            &&& -0x8000_0000 <= r.bottom - r.top < 0x8000_0000
        },
{
}

} // verus!
