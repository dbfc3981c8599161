//! Processes and the names of their executables.

use vstd::prelude::*;
use crate::text;
use crate::utf16;

verus! {

pub type DWORD = u32;

pub type WCHAR = u16;

/// One entry of a snapshot of the running processes.
#[allow(non_snake_case)]
pub struct PROCESSENTRY32W {
    pub dwSize: DWORD,
    pub cntUsage: DWORD,
    pub th32ProcessID: DWORD,
    pub th32DefaultHeapID: usize,
    pub th32ModuleID: DWORD,
    pub cntThreads: DWORD,
    pub th32ParentProcessID: DWORD,
    pub pcPriClassBase: i32,
    pub dwFlags: DWORD,
    pub szExeFile: [WCHAR; 260],
}

/// The position of the first zero at `from` or later, or the length where there is none.
pub open spec fn zero_at(units: Seq<u16>, from: int) -> int
    decreases units.len() - from,
{
    if from < units.len() && units[from] != 0 {
        zero_at(units, from + 1)
    } else {
        from
    }
}

/// The code units before the first zero.
pub open spec fn before_zero(units: Seq<u16>) -> Seq<u16> {
    units.take(zero_at(units, 0))
}

/// Whether the entry's executable has the given name, up to ASCII case. A name that is not valid
/// UTF-16 matches none.
pub open spec fn entry_is(entry: PROCESSENTRY32W, name: Seq<char>) -> bool {
    let units = before_zero(entry.szExeFile@);
    utf16::well_formed(units) && text::same_ignoring_case(utf16::decode_lossy(units), name)
}

/// Whether the entry's executable has the given name.
fn is_entry_of(entry: &PROCESSENTRY32W, name: &str) -> (r: bool)
    ensures
        r == entry_is(*entry, name@),
{
    let field: &[u16] = &entry.szExeFile;
    let mut len: usize = 0;
    while len < field.len() && field[len] != 0
        invariant
            len <= field.len(),
            zero_at(field@, 0) == zero_at(field@, len as int),
        ensures
            len <= field.len(),
            zero_at(field@, 0) == len,
        decreases field.len() - len,
    {
        len += 1;
    }
    let units = vstd::slice::slice_subrange(field, 0, len);
    assert(units@ == before_zero(field@));
    match utf16::decode_utf16(units) {
        Some(found) => text::eq_ignore_ascii_case(found.as_str(), name),
        None => false,
    }
}

/// Whether one of the entries has the given name.
pub open spec fn any_entry_is(entries: Seq<PROCESSENTRY32W>, name: Seq<char>) -> bool {
    exists|i: int| 0 <= i < entries.len() && entry_is(#[trigger] entries[i], name)
}

/// Whether a process of the given name, up to ASCII case, is in the snapshot of the running
/// processes. Where no snapshot could be taken, none is.
pub fn is_process_running(snapshot: Option<&[PROCESSENTRY32W]>, name: &str) -> (r: bool)
    ensures
        r == (match snapshot {
            Some(entries) => any_entry_is(entries@, name@),
            None => false,
        }),
{
    match snapshot {
        None => false,
        Some(entries) => {
            let mut i: usize = 0;
            while i < entries.len()
                invariant
                    snapshot == Some(entries),
                    i <= entries.len(),
                    forall|j: int| 0 <= j < i ==> !entry_is(#[trigger] entries@[j], name@),
                decreases entries.len() - i,
            {
                if is_entry_of(&entries[i], name) {
                    assert(entry_is(entries@[i as int], name@));
                    return true;
                }
                i += 1;
            }
            false
        },
    }
}

/// Whether `part` stands somewhere in `whole`.
pub open spec fn stands_in(part: Seq<char>, whole: Seq<char>) -> bool {
    exists|i: int| text::occurs_at(whole, part, i)
}

/// What separates the components of a path on Unix.
pub open spec fn slash() -> spec_fn(char) -> bool {
    |c: char| c == '/'
}

/// What separates the components of a path on Windows.
pub open spec fn either_slash() -> spec_fn(char) -> bool {
    |c: char| c == '/' || c == '\\'
}

/// What follows the last separator in `path`.
pub open spec fn after_last(path: Seq<char>, sep: spec_fn(char) -> bool) -> Seq<char>
    decreases path.len(),
{
    if path.len() == 0 || sep(path.last()) {
        Seq::empty()
    } else {
        after_last(path.drop_last(), sep).push(path.last())
    }
}

/// `path` without the separators at its end, and without the components `.` at its end that
/// follow a separator.
pub open spec fn without_tail(path: Seq<char>, sep: spec_fn(char) -> bool) -> Seq<char>
    decreases path.len(),
{
    if path.len() > 0 && sep(path.last()) {
        without_tail(path.drop_last(), sep)
    } else if path.len() > 1 && path.last() == '.' && sep(path[path.len() - 2]) {
        without_tail(path.drop_last(), sep)
    } else {
        path
    }
}

/// Whether the last component of a path is an ordinary name.
pub open spec fn ordinary(last: Seq<char>) -> bool {
    last.len() > 0 && last != "."@ && last != ".."@
}

/// The last component of a path, if it is an ordinary name.
pub open spec fn last_name(path: Seq<char>, sep: spec_fn(char) -> bool) -> Option<Seq<char>> {
    let last = after_last(without_tail(path, sep), sep);
    if ordinary(last) {
        Some(last)
    } else {
        None
    }
}

/// Whether `path` starts with the letter of a drive and a colon.
pub open spec fn on_drive(path: Seq<char>) -> bool {
    &&& path.len() > 1
    &&& 'A' <= path[0] <= 'Z' || 'a' <= path[0] <= 'z'
    &&& path[1] == ':'
}

/// The position of the first separator of Windows at `from` or later, or the length where there is
/// none.
pub open spec fn slash_at(path: Seq<char>, from: int) -> int
    decreases path.len() - from,
{
    if from < path.len() && !either_slash()(path[from]) {
        slash_at(path, from + 1)
    } else {
        from
    }
}

/// What follows the server and the share in the path of a network share: two separators, the
/// server, a separator, and the share. The servers `?` and `.` are none: there a verbatim path or
/// a device starts.
pub open spec fn below_share(path: Seq<char>) -> Option<Seq<char>> {
    let end = slash_at(path, 2);
    let below = slash_at(path, end + 1);
    if 2 < end && end + 1 < below && !(end == 3 && (path[2] == '?' || path[2] == '.')) {
        Some(path.skip(below))
    } else {
        None
    }
}

/// Whether `path` is a verbatim one from the root of a drive, without forward slashes: Windows
/// splits it at its backslashes.
pub open spec fn verbatim_drive(path: Seq<char>) -> bool {
    &&& path.len() > 6
    &&& path.take(4) == "\\\\?\\"@
    &&& on_drive(path.skip(4))
    &&& path[6] == '\\'
    &&& !path.contains('/')
}

/// What Windows splits into components: all of a path, what follows the drive, or what follows
/// the share. `None` where a path starts with two separators and is not the path of a share.
pub open spec fn windows_body(path: Seq<char>) -> Option<Seq<char>> {
    if path.len() > 1 && either_slash()(path[0]) && either_slash()(path[1]) {
        below_share(path)
    } else if on_drive(path) {
        Some(path.skip(2))
    } else {
        Some(path)
    }
}

/// What a path's file name can be. How a path is split depends on the system; this is what holds
/// on Windows and on Unix.
pub open spec fn file_name_fits(path: Seq<char>, name: Option<Seq<char>>) -> bool {
    &&& name matches Some(n) ==> n.len() > 0 && stands_in(n, path)
    &&& windows_body(path) matches Some(body) ==> name == last_name(path, slash()) || name
        == last_name(body, either_slash())
    &&& verbatim_drive(path) && ordinary(after_last(path, either_slash())) ==> name == last_name(
        path,
        slash(),
    ) || name == Some(after_last(path, either_slash()))
}

/// `std::path::Path::file_name`: the last component of a path, if that is an ordinary name. It is
/// a part of the path and not empty. Unix splits every path at its forward slashes. Windows splits
/// at both kinds of slashes what follows the drive, if there is one, or the share. Neither counts
/// a separator at the end, nor a component `.` there; a path that ends in `..` has no name. Of a
/// verbatim path from the root of a drive, Windows gives what follows the last backslash, if that
/// is an ordinary name. So the name is one of the two that these rules give. Of the other paths
/// that start with two separators, such as devices, only the first sentences are claimed.
#[verifier::external_body]
fn path_file_name(path: &str) -> (name: Option<String>)
    ensures
        file_name_fits(path@, text::text_of(name)),
{
    std::path::Path::new(path).file_name().and_then(|n| n.to_str()).map(|n| n.to_string())
}

/// Whether `path` holds neither backslashes nor colons and does not start with two slashes, so
/// that it is split at its forward slashes on Windows and on Unix alike.
pub open spec fn portable_path(path: Seq<char>) -> bool {
    &&& !path.contains('\\')
    &&& !path.contains(':')
    &&& !(path.len() > 1 && path[0] == '/' && path[1] == '/')
}

/// Without backslashes, the two ways of splitting a path are one.
proof fn separators_agree(path: Seq<char>)
    requires
        !path.contains('\\'),
    ensures
        after_last(path, either_slash()) == after_last(path, slash()),
        without_tail(path, either_slash()) == without_tail(path, slash()),
        !without_tail(path, slash()).contains('\\'),
    decreases path.len(),
{
    if path.len() > 0 {
        let shorter = path.drop_last();
        assert forall|k: int| 0 <= k < shorter.len() implies shorter[k] != '\\' by {
            assert(path[k] == shorter[k]);
        }
        assert(path[path.len() - 1] != '\\');
        if path.len() > 1 {
            assert(path[path.len() - 2] != '\\');
        }
        separators_agree(shorter);
    }
}

/// The file name of a path that both systems split alike is the same on both.
pub proof fn portable_name_is_one(path: Seq<char>, name: Option<Seq<char>>)
    requires
        portable_path(path),
        file_name_fits(path, name),
    ensures
        name == last_name(path, slash()),
{
    separators_agree(path);
    separators_agree(without_tail(path, slash()));
    if path.len() > 1 {
        assert(path.contains(path[0]) && path.contains(path[1]));
    }
}

/// The file name in the path of an executable, given as the system hands it out.
pub fn image_file_name(image_path: &[u16]) -> (name: Option<String>)
    ensures
        file_name_fits(utf16::decode_lossy(image_path@), text::text_of(name)),
        portable_path(utf16::decode_lossy(image_path@)) ==> text::text_of(name) == last_name(
            utf16::decode_lossy(image_path@),
            slash(),
        ),
{
    let path = utf16::decode_utf16_lossy(image_path);
    let name = path_file_name(path.as_str());
    proof {
        if portable_path(path@) {
            portable_name_is_one(path@, text::text_of(name));
        }
    }
    name
}

/// The name that stands for a process whose file name was found, or was not.
pub fn name_or_empty(name: Option<String>) -> (r: String)
    ensures
        match name {
            Some(n) => r@ == n@,
            None => r@ == Seq::<char>::empty(),
        },
{
    match name {
        Some(n) => n,
        None => String::new(),
    }
}

/// The executable name of the process `pid`, given the path of its image if that could be had;
/// empty where there is no such process, path or name.
pub fn get_process_name_by_pid(pid: u32, image_path: Option<&[u16]>) -> (r: String)
    ensures
        pid == 0 || image_path is None ==> r@ == Seq::<char>::empty(),
        pid != 0 ==> (image_path matches Some(units) ==> {
            ||| r@.len() > 0 && file_name_fits(utf16::decode_lossy(units@), Some(r@))
            ||| r@.len() == 0 && file_name_fits(utf16::decode_lossy(units@), None)
        }),
        pid != 0 ==> (image_path matches Some(units) ==> portable_path(
            utf16::decode_lossy(units@),
        ) ==> r@ == (match last_name(utf16::decode_lossy(units@), slash()) {
            Some(n) => n,
            None => Seq::<char>::empty(),
        })),
{
    if pid == 0 {
        return String::new();
    }
    match image_path {
        Some(units) => name_or_empty(image_file_name(units)),
        None => String::new(),
    }
}

/// The case of ASCII letters in the name that is looked for does not matter.
pub proof fn lookup_ignores_case(entries: Seq<PROCESSENTRY32W>, name: Seq<char>, other: Seq<char>)
    requires
        text::same_ignoring_case(name, other),
    ensures
        any_entry_is(entries, name) == any_entry_is(entries, other),
{
    if any_entry_is(entries, name) {
        let i = choose|i: int| 0 <= i < entries.len() && entry_is(#[trigger] entries[i], name);
        assert(entry_is(entries[i], other));
    }
    if any_entry_is(entries, other) {
        let i = choose|i: int| 0 <= i < entries.len() && entry_is(#[trigger] entries[i], other);
        assert(entry_is(entries[i], name));
    }
}

/// The first zero is where it stands, if none stands before that.
proof fn zero_is_found(units: Seq<u16>, from: int, len: int)
    requires
        0 <= from <= len <= units.len(),
        forall|j: int| from <= j < len ==> #[trigger] units[j] != 0,
        len < units.len() ==> units[len] == 0,
    ensures
        zero_at(units, from) == len,
    decreases len - from,
{
    if from < len {
        zero_is_found(units, from + 1, len);
    }
}

/// An entry is known by the text that stands in its field before the first zero, or in all of the
/// field where there is none: it has that name up to ASCII case, and no other. Where no text
/// stands there, it has no name at all.
pub proof fn entry_is_known_by_its_field(
    entry: PROCESSENTRY32W,
    name: Seq<char>,
    len: int,
    found: Seq<char>,
)
    requires
        0 <= len <= 260,
        forall|j: int| 0 <= j < len ==> #[trigger] entry.szExeFile@[j] != 0,
        len < 260 ==> entry.szExeFile@[len] == 0,
    ensures
        entry.szExeFile@.take(len) == utf16::encode(found) ==> (entry_is(entry, name)
            <==> text::same_ignoring_case(found, name)),
        (forall|s: Seq<char>| #[trigger] utf16::encode(s) != entry.szExeFile@.take(len))
            ==> !entry_is(entry, name),
{
    let units = entry.szExeFile@.take(len);
    zero_is_found(entry.szExeFile@, 0, len);
    assert(before_zero(entry.szExeFile@) == units);
    utf16::decode_of_encode(found);
    if utf16::well_formed(units) {
        utf16::encode_of_decode(units);
    }
}

/// A process is running where one of the entries has its name, wherever in the snapshot that entry
/// is, and whatever the others are.
pub proof fn every_entry_is_looked_at(
    before: Seq<PROCESSENTRY32W>,
    entry: PROCESSENTRY32W,
    after: Seq<PROCESSENTRY32W>,
    name: Seq<char>,
)
    ensures
        any_entry_is(before.push(entry) + after, name) <==> any_entry_is(before, name) || entry_is(
            entry,
            name,
        ) || any_entry_is(after, name),
        !any_entry_is(Seq::empty(), name),
{
    let all = before.push(entry) + after;
    if any_entry_is(before, name) {
        let i = choose|i: int| 0 <= i < before.len() && entry_is(#[trigger] before[i], name);
        assert(all[i] == before[i]);
    }
    if entry_is(entry, name) {
        assert(all[before.len() as int] == entry);
    }
    if any_entry_is(after, name) {
        let i = choose|i: int| 0 <= i < after.len() && entry_is(#[trigger] after[i], name);
        assert(all[i + before.len() + 1] == after[i]);
    }
    if any_entry_is(all, name) {
        let i = choose|i: int| 0 <= i < all.len() && entry_is(#[trigger] all[i], name);
        if i < before.len() {
            assert(entry_is(before[i], name));
        } else if i > before.len() {
            assert(entry_is(after[i - before.len() - 1], name));
        }
    }
}

/// What follows the last separator is what stands behind it.
proof fn tail_follows_separator(dir: Seq<char>, c: char, file: Seq<char>, sep: spec_fn(char) -> bool)
    requires
        sep(c),
        forall|i: int| 0 <= i < file.len() ==> !sep(#[trigger] file[i]),
    ensures
        after_last(dir.push(c) + file, sep) == file,
    decreases file.len(),
{
    let path = dir.push(c) + file;
    if file.len() > 0 {
        let shorter = file.drop_last();
        assert(path.last() == file[file.len() - 1]);
        assert(path.drop_last() =~= dir.push(c) + shorter);
        tail_follows_separator(dir, c, shorter, sep);
        assert(shorter.push(file.last()) =~= file);
    } else {
        assert(path =~= dir.push(c));
        assert(after_last(path, sep) =~= file);
    }
}

/// The last component of a path is what stands behind its last separator, if that is a name.
pub proof fn last_name_follows_separator(
    dir: Seq<char>,
    c: char,
    file: Seq<char>,
    sep: spec_fn(char) -> bool,
)
    requires
        sep(c),
        !sep('.'),
        file.len() > 0,
        forall|i: int| 0 <= i < file.len() ==> !sep(#[trigger] file[i]),
    ensures
        file != seq!['.'] && file != seq!['.', '.'] ==> last_name(dir.push(c) + file, sep) == Some(
            file,
        ),
        file == seq!['.', '.'] ==> last_name(dir.push(c) + file, sep) is None,
{
    let path = dir.push(c) + file;
    reveal_strlit(".");
    reveal_strlit("..");
    assert("."@ =~= seq!['.']);
    assert(".."@ =~= seq!['.', '.']);
    tail_follows_separator(dir, c, file, sep);
    assert(path.last() == file[file.len() - 1]);
    if file != seq!['.'] {
        if file.len() == 1 {
            assert(file =~= seq![file[0]]);
        } else {
            assert(path[path.len() - 2] == file[file.len() - 2]);
        }
        assert(without_tail(path, sep) == path);
    }
}

/// A separator at the end of a path changes nothing, and neither does a component `.` behind it.
pub proof fn separator_at_end_does_not_count(path: Seq<char>, c: char, sep: spec_fn(char) -> bool)
    requires
        sep(c),
        !sep('.'),
    ensures
        last_name(path.push(c), sep) == last_name(path, sep),
        last_name(path.push(c).push('.'), sep) == last_name(path, sep),
        last_name(Seq::empty(), sep) is None,
{
    assert(path.push(c).drop_last() =~= path);
    assert(path.push(c).push('.').drop_last() =~= path.push(c));
}

/// Behind the last slash of a path stands its file name, on Windows and on Unix alike, and behind
/// the last backslash of a path it stands on Windows. Paths that start with two separators are
/// left out.
pub proof fn file_name_stands_behind_separator(
    dir: Seq<char>,
    c: char,
    file: Seq<char>,
    name: Option<Seq<char>>,
)
    requires
        c == '/' || c == '\\',
        file.len() > 0,
        file != seq!['.'],
        file != seq!['.', '.'],
        !file.contains('/'),
        !file.contains('\\'),
        ({
            let path = dir.push(c) + file;
            !((path[0] == '/' || path[0] == '\\') && (path[1] == '/' || path[1] == '\\'))
        }),
        file_name_fits(dir.push(c) + file, name),
    ensures
        c == '/' ==> name == Some(file),
        c == '\\' ==> name == Some(file) || name == last_name(dir.push(c) + file, slash()),
{
    let path = dir.push(c) + file;
    assert forall|i: int| 0 <= i < file.len() implies !either_slash()(#[trigger] file[i])
        && !slash()(file[i]) by {
        assert(file.contains(file[i]));
    }
    last_name_follows_separator(dir, c, file, either_slash());
    if c == '/' {
        last_name_follows_separator(dir, c, file, slash());
    }
    if on_drive(path) {
        assert(dir.len() >= 2) by {
            if dir.len() == 0 {
                assert(path[0] == c);
            } else if dir.len() == 1 {
                assert(path[1] == c);
            }
        }
        assert(path.skip(2) =~= dir.skip(2).push(c) + file);
        last_name_follows_separator(dir.skip(2), c, file, either_slash());
    }
}

/// What follows the last separator of a text without separators is the text.
proof fn tail_without_separator(file: Seq<char>, sep: spec_fn(char) -> bool)
    requires
        forall|i: int| 0 <= i < file.len() ==> !sep(#[trigger] file[i]),
    ensures
        after_last(file, sep) == file,
    decreases file.len(),
{
    if file.len() > 0 {
        let shorter = file.drop_last();
        assert(file[file.len() - 1] == file.last());
        tail_without_separator(shorter, sep);
        assert(shorter.push(file.last()) =~= file);
    } else {
        assert(after_last(file, sep) =~= file);
    }
}

/// A path without separators is one name.
pub proof fn path_without_separators_is_one_name(path: Seq<char>, sep: spec_fn(char) -> bool)
    requires
        path.len() > 0,
        path != seq!['.'],
        path != seq!['.', '.'],
        forall|i: int| 0 <= i < path.len() ==> !sep(#[trigger] path[i]),
    ensures
        last_name(path, sep) == Some(path),
{
    reveal_strlit(".");
    reveal_strlit("..");
    assert("."@ =~= seq!['.']);
    assert(".."@ =~= seq!['.', '.']);
    assert(!sep(path[path.len() - 1]));
    if path.len() > 1 {
        assert(!sep(path[path.len() - 2]));
    }
    assert(without_tail(path, sep) == path);
    tail_without_separator(path, sep);
}

/// The file name of a path without separators that does not start with a drive is the path.
pub proof fn bare_file_name_is_the_path(path: Seq<char>, name: Option<Seq<char>>)
    requires
        path.len() > 0,
        path != seq!['.'],
        path != seq!['.', '.'],
        !path.contains('/'),
        !path.contains('\\'),
        path.len() > 1 ==> path[1] != ':',
        file_name_fits(path, name),
    ensures
        name == Some(path),
{
    assert forall|i: int| 0 <= i < path.len() implies !either_slash()(#[trigger] path[i])
        && !slash()(path[i]) by {
        assert(path.contains(path[i]));
    }
    path_without_separators_is_one_name(path, slash());
    path_without_separators_is_one_name(path, either_slash());
}

/// The first separator is where it stands, if none stands before that.
proof fn separator_is_found(path: Seq<char>, from: int, at: int)
    requires
        0 <= from <= at <= path.len(),
        forall|j: int| from <= j < at ==> #[trigger] path[j] != '/' && path[j] != '\\',
        at < path.len() ==> path[at] == '/' || path[at] == '\\',
    ensures
        slash_at(path, from) == at,
    decreases at - from,
{
    if from < at {
        separator_is_found(path, from + 1, at);
    }
}

/// On a network share, too, the file name on Windows is what stands behind the last separator,
/// below the server and the share, whichever kinds of separators the path is written with.
pub proof fn file_name_on_a_share(
    server: Seq<char>,
    share: Seq<char>,
    dir: Seq<char>,
    file: Seq<char>,
    seps: (char, char, char, char),
    name: Option<Seq<char>>,
)
    requires
        seps.0 == '/' || seps.0 == '\\',
        seps.1 == '/' || seps.1 == '\\',
        seps.2 == '/' || seps.2 == '\\',
        seps.3 == '/' || seps.3 == '\\',
        server.len() > 0,
        server != seq!['?'],
        server != seq!['.'],
        !server.contains('/'),
        !server.contains('\\'),
        share.len() > 0,
        !share.contains('/'),
        !share.contains('\\'),
        dir.len() > 0 ==> dir[0] == '/' || dir[0] == '\\',
        file.len() > 0,
        file != seq!['.'],
        file != seq!['.', '.'],
        !file.contains('/'),
        !file.contains('\\'),
        file_name_fits(
            seq![seps.0, seps.1] + server + seq![seps.2] + share + (dir.push(seps.3) + file),
            name,
        ),
    ensures
        name == Some(file) || name == last_name(
            seq![seps.0, seps.1] + server + seq![seps.2] + share + (dir.push(seps.3) + file),
            slash(),
        ),
{
    let below = dir.push(seps.3) + file;
    let path = seq![seps.0, seps.1] + server + seq![seps.2] + share + below;
    let end = 2 + server.len() as int;
    let at = end + 1 + share.len();
    assert(path[0] == seps.0 && path[1] == seps.1);
    assert(path[end] == seps.2);
    assert(path[at] == below[0]);
    assert forall|j: int| 2 <= j < end implies #[trigger] path[j] != '/' && path[j] != '\\' by {
        assert(path[j] == server[j - 2]);
        assert(server.contains(server[j - 2]));
    }
    assert forall|j: int| end + 1 <= j < at implies #[trigger] path[j] != '/' && path[j]
        != '\\' by {
        assert(path[j] == share[j - end - 1]);
        assert(share.contains(share[j - end - 1]));
    }
    separator_is_found(path, 2, end);
    separator_is_found(path, end + 1, at);
    if server.len() == 1 {
        assert(path[2] == server[0]);
        assert(server =~= seq![server[0]]);
    }
    assert(path.skip(at) =~= below);
    assert forall|i: int| 0 <= i < file.len() implies !either_slash()(#[trigger] file[i]) by {
        assert(file.contains(file[i]));
    }
    last_name_follows_separator(dir, seps.3, file, either_slash());
}

/// Of a verbatim path from the root of a drive, the file name on Windows is what stands behind the
/// last backslash. On Unix the whole path is one name.
pub proof fn file_name_of_a_verbatim_path(
    letter: char,
    dir: Seq<char>,
    file: Seq<char>,
    name: Option<Seq<char>>,
)
    requires
        'A' <= letter <= 'Z' || 'a' <= letter <= 'z',
        dir.len() > 0 ==> dir[0] == '\\',
        !dir.contains('/'),
        file.len() > 0,
        file != seq!['.'],
        file != seq!['.', '.'],
        !file.contains('/'),
        !file.contains('\\'),
        file_name_fits("\\\\?\\"@ + seq![letter, ':'] + (dir.push('\\') + file), name),
    ensures
        name == Some(file) || name == Some(
            "\\\\?\\"@ + seq![letter, ':'] + (dir.push('\\') + file),
        ),
{
    let below = dir.push('\\') + file;
    let head = "\\\\?\\"@ + seq![letter, ':'];
    let path = head + below;
    reveal_strlit("\\\\?\\");
    reveal_strlit(".");
    reveal_strlit("..");
    assert("."@ =~= seq!['.']);
    assert(".."@ =~= seq!['.', '.']);
    assert(path.take(4) =~= "\\\\?\\"@);
    assert(path.skip(4)[0] == letter && path.skip(4)[1] == ':');
    assert(path[6] == below[0]);
    assert forall|i: int| 0 <= i < path.len() implies #[trigger] path[i] != '/' by {
        if i >= 6 + dir.len() + 1 {
            assert(path[i] == file[i - 7 - dir.len()]);
            assert(file.contains(path[i]));
        } else if 6 <= i < 6 + dir.len() {
            assert(path[i] == dir[i - 6]);
            assert(dir.contains(path[i]));
        }
    }
    assert forall|i: int| 0 <= i < file.len() implies !either_slash()(#[trigger] file[i]) by {
        assert(file.contains(file[i]));
    }
    assert(path =~= (head + dir).push('\\') + file);
    tail_follows_separator(head + dir, '\\', file, either_slash());
    path_without_separators_is_one_name(path, slash());
}

/// A file name is not empty and stands in the path.
pub proof fn file_name_stands_in_path(path: Seq<char>, name: Seq<char>)
    requires
        file_name_fits(path, Some(name)),
    ensures
        name.len() > 0,
        exists|i: int| #[trigger] text::occurs_at(path, name, i),
{
}

} // verus!
