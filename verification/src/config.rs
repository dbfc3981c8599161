//! The tracker's configuration and the reader for its file.

use vstd::prelude::*;
use crate::text;
#[allow(unused_imports)]
use crate::text::{text_of, texts};

verus! {

/// What the tracker enforces.
pub struct AppConfig {
    /// Executables that are never blocked.
    pub whitelist: Vec<String>,
    /// Active time after which everything else is blocked.
    pub limit_seconds: u64,
    /// First hour of the restricted part of the day.
    pub start_hour: Option<u32>,
    /// Hour at which the restricted part of the day ends.
    pub end_hour: Option<u32>,
}

/// A configuration as plain values.
#[verifier::ext_equal]
pub struct ConfigView {
    pub whitelist: Seq<Seq<char>>,
    pub limit_seconds: u64,
    pub start_hour: Option<u32>,
    pub end_hour: Option<u32>,
}

impl View for AppConfig {
    type V = ConfigView;

    open spec fn view(&self) -> ConfigView {
        ConfigView {
            whitelist: texts(self.whitelist@),
            limit_seconds: self.limit_seconds,
            start_hour: self.start_hour,
            end_hour: self.end_hour,
        }
    }
}

/// The executables that are allowed where the configuration names none.
pub open spec fn default_names() -> Seq<Seq<char>> {
    seq![
        "explorer.exe"@,
        "tracker.exe"@,
        "guardian.exe"@,
        "cmd.exe"@,
        "powershell.exe"@,
        "conhost.exe"@,
    ]
}

/// The white space characters.
pub open spec fn blanks() -> spec_fn(char) -> bool {
    |c: char| text::whitespace(c)
}

/// The quotation mark.
pub open spec fn quotes() -> spec_fn(char) -> bool {
    |c: char| c == '"'
}

/// One entry of a list: without the white space around it, and then without the quotation
/// marks around that.
pub open spec fn clean(piece: Seq<char>) -> Seq<char> {
    text::trim(text::trim(piece, blanks()), quotes())
}

/// The texts that are not empty.
pub open spec fn filled() -> spec_fn(Seq<char>) -> bool {
    |s: Seq<char>| s.len() > 0
}

/// The names in a comma-separated list; entries that are empty once cleaned do not count.
pub open spec fn listed_names(list: Seq<char>) -> Seq<Seq<char>> {
    text::split(list, ',').map_values(|piece: Seq<char>| clean(piece)).filter(filled())
}

/// What stands between the first `[` after the key `"whitelist"` and the next `]`.
pub open spec fn whitelist_block(content: Seq<char>) -> Option<Seq<char>> {
    match text::find_from(content, "\"whitelist\""@, 0) {
        None => None,
        Some(key) => match text::find_from(content, seq!['['], key) {
            None => None,
            Some(open) => match text::find_from(content, seq![']'], open) {
                None => None,
                Some(close) => Some(content.subrange(open + 1, close)),
            },
        },
    }
}

/// The whitelist that `content` gives.
pub open spec fn whitelist_of(content: Seq<char>) -> Seq<Seq<char>> {
    match whitelist_block(content) {
        Some(list) => if listed_names(list).len() > 0 {
            listed_names(list)
        } else {
            default_names()
        },
        None => default_names(),
    }
}

/// Whether `c` is one of the ten ASCII digits.
pub open spec fn digit(c: char) -> bool {
    '0' <= c <= '9'
}

/// The ASCII digits.
pub open spec fn digits() -> spec_fn(char) -> bool {
    |c: char| digit(c)
}

/// The position, `from` or later, at which the run of digits and white space that starts at
/// `from` ends.
pub open spec fn run_end(s: Seq<char>, from: int) -> int
    decreases s.len() - from,
{
    if from < s.len() && (digit(s[from]) || text::whitespace(s[from])) {
        run_end(s, from + 1)
    } else {
        from
    }
}

/// The value of a row of decimal digits.
pub open spec fn decimal(s: Seq<char>) -> nat
    decreases s.len(),
{
    if s.len() == 0 {
        0
    } else {
        decimal(s.drop_last()) * 10 + (s.last() as u32 - '0' as u32) as nat
    }
}

/// The digits of the number that follows the first `:` after `key`; white space before, between
/// and after the digits is skipped.
pub open spec fn number_text(content: Seq<char>, key: Seq<char>) -> Option<Seq<char>> {
    match text::find_from(content, key, 0) {
        None => None,
        Some(at) => match text::find_from(content, seq![':'], at + key.len()) {
            None => None,
            Some(colon) => Some(
                content.subrange(colon + 1, run_end(content, colon + 1)).filter(digits()),
            ),
        },
    }
}

/// The number that `content` gives for `key`, where it gives one that is no larger than `max`.
pub open spec fn number_of(content: Seq<char>, key: Seq<char>, max: nat) -> Option<nat> {
    match number_text(content, key) {
        Some(row) => if row.len() > 0 && decimal(row) <= max {
            Some(decimal(row))
        } else {
            None
        },
        None => None,
    }
}

/// The number that `content` gives for an hour.
pub open spec fn hour_of(content: Seq<char>, key: Seq<char>) -> Option<u32> {
    match number_of(content, key, u32::MAX as nat) {
        Some(n) => Some(n as u32),
        None => None,
    }
}

/// The limit in seconds where the configuration gives none: 30 minutes.
pub const DEFAULT_LIMIT_SECONDS: u64 = 1800;

/// The limit in seconds while there is no configuration file, and in the file that is written
/// then.
pub const FALLBACK_LIMIT_SECONDS: u64 = 10;

/// The configuration that the text of a configuration file gives.
pub open spec fn config_of(content: Seq<char>) -> ConfigView {
    ConfigView {
        whitelist: whitelist_of(content),
        limit_seconds: match number_of(content, "\"limit_seconds\""@, u64::MAX as nat) {
            Some(n) => n as u64,
            None => DEFAULT_LIMIT_SECONDS,
        },
        start_hour: hour_of(content, "\"start_hour\""@),
        end_hour: hour_of(content, "\"end_hour\""@),
    }
}

/// The executables that are allowed where the configuration names none.
pub fn default_whitelist() -> (names: Vec<String>)
    ensures
        texts(names@) == default_names(),
{
    let mut names: Vec<String> = Vec::new();
    names.push("explorer.exe".to_string());
    names.push("tracker.exe".to_string());
    names.push("guardian.exe".to_string());
    names.push("cmd.exe".to_string());
    names.push("powershell.exe".to_string());
    names.push("conhost.exe".to_string());
    assert(texts(names@) =~= default_names());
    names
}

/// Whether `c` is the quotation mark.
fn is_quote(c: char) -> (b: bool)
    ensures
        b == (c == '"'),
{
    c == '"'
}

/// Reads the names of a comma-separated list.
fn read_names(list: &[char]) -> (names: Vec<String>)
    ensures
        texts(names@) == listed_names(list@),
{
    let pieces = text::split_at_each(list, ',');
    let ghost all = text::split(list@, ',').map_values(|piece: Seq<char>| clean(piece));
    let mut names: Vec<String> = Vec::new();
    let mut i: usize = 0;
    proof {
        reveal(Seq::filter);
        assert(texts(names@) =~= all.take(0).filter(filled()));
    }
    while i < pieces.len()
        invariant
            i <= pieces.len() == all.len(),
            text::contents(pieces@) == text::split(list@, ','),
            all == text::split(list@, ',').map_values(|piece: Seq<char>| clean(piece)),
            texts(names@) == all.take(i as int).filter(filled()),
        decreases pieces.len() - i,
    {
        let bare = text::trim_by(pieces[i].as_slice(), text::is_whitespace, Ghost(blanks()));
        let name = text::trim_by(bare, is_quote, Ghost(quotes()));
        assert(text::contents(pieces@)[i as int] == pieces@[i as int]@);
        assert(all[i as int] == name@);
        assert(all.take(i + 1).drop_last() == all.take(i as int));
        proof {
            reveal(Seq::filter);
        }
        if name.len() > 0 {
            let ghost before = names@;
            names.push(text::from_chars(name));
            assert(texts(names@) =~= texts(before).push(name@));
        }
        i += 1;
    }
    assert(all.take(i as int) == all);
    names
}

/// Reads the digits that start at `from`, skipping white space, as a number of at most `max`.
fn read_number(content: &[char], from: usize, max: u64) -> (r: Option<u64>)
    requires
        from <= content.len(),
    ensures
        ({
            let row = content@.subrange(from as int, run_end(content@, from as int)).filter(
                digits(),
            );
            match r {
                Some(n) => row.len() > 0 && decimal(row) == n && n <= max,
                None => row.len() == 0 || decimal(row) > max,
            }
        }),
{
    let mut i: usize = from;
    let mut value: u64 = 0;
    let mut any = false;
    let mut over = false;
    let ghost mut row = Seq::<char>::empty();
    proof {
        reveal(Seq::filter);
    }
    assert(content@.subrange(from as int, from as int).filter(digits()) =~= row);
    loop
        invariant
            from <= i <= content.len(),
            run_end(content@, from as int) == run_end(content@, i as int),
            row == content@.subrange(from as int, i as int).filter(digits()),
            any == (row.len() > 0),
            over ==> decimal(row) > max,
            !over ==> value == decimal(row) && value <= max,
        ensures
            run_end(content@, from as int) == i,
        decreases content.len() - i,
    {
        if i == content.len() {
            break;
        }
        let c = content[i];
        if c < '0' || '9' < c {
            if !text::is_whitespace(c) {
                break;
            }
        }
        assert(content@.subrange(from as int, i + 1).drop_last() == content@.subrange(
            from as int,
            i as int,
        ));
        proof {
            reveal(Seq::filter);
        }
        if '0' <= c && c <= '9' {
            proof {
                row = row.push(c);
                assert(row.drop_last() == content@.subrange(from as int, i as int).filter(
                    digits(),
                ));
            }
            any = true;
            if !over {
                let next: u128 = value as u128 * 10 + (c as u32 - '0' as u32) as u128;
                if next > max as u128 {
                    over = true;
                } else {
                    value = next as u64;
                }
            }
        }
        i += 1;
    }
    if any && !over {
        Some(value)
    } else {
        None
    }
}

/// Reads the number that `content` gives for `key`.
fn number_field(content: &[char], key: &str, max: u64) -> (r: Option<u64>)
    ensures
        match r {
            Some(n) => number_of(content@, key@, max as nat) == Some(n as nat),
            None => number_of(content@, key@, max as nat) is None,
        },
{
    let key_chars = text::to_chars(key);
    match text::find(content, key_chars.as_slice(), 0) {
        Some(at) => {
            proof {
                text::find_from_is_first(content@, key@, 0);
                assert(text::occurs_at(content@, key@, at as int));
                assert(at + key_chars.len() <= content.len());
            }
            let colon_char: [char; 1] = [':'];
            assert(colon_char@ == seq![':']);
            match text::find(content, &colon_char, at + key_chars.len()) {
                Some(colon) => {
                    proof {
                        text::find_from_is_first(content@, seq![':'], at + key@.len());
                        assert(text::occurs_at(content@, seq![':'], colon as int));
                        assert(colon + 1 <= content.len());
                    }
                    read_number(content, colon + 1, max)
                },
                None => None,
            }
        },
        None => None,
    }
}

/// Reads the list that `content` gives for `"whitelist"`, if it gives one.
fn whitelist_field(content: &[char]) -> (r: Option<Vec<String>>)
    ensures
        match r {
            Some(names) => whitelist_block(content@) matches Some(list) && texts(names@)
                == listed_names(list),
            None => whitelist_block(content@) is None,
        },
{
    let key = text::to_chars("\"whitelist\"");
    let open_char: [char; 1] = ['['];
    let close_char: [char; 1] = [']'];
    assert(open_char@ == seq!['[']);
    assert(close_char@ == seq![']']);
    match text::find(content, key.as_slice(), 0) {
        Some(at) => {
            proof {
                text::find_from_is_first(content@, key@, 0);
            }
            match text::find(content, &open_char, at) {
                Some(open) => {
                    proof {
                        text::find_from_is_first(content@, seq!['['], at as int);
                    }
                    match text::find(content, &close_char, open) {
                        Some(close) => {
                            proof {
                                text::find_from_is_first(content@, seq![']'], open as int);
                                assert(content@.subrange(open as int, open + 1)[0] == '[');
                                assert(content@.subrange(close as int, close + 1)[0] == ']');
                            }
                            let list = vstd::slice::slice_subrange(content, open + 1, close);
                            Some(read_names(list))
                        },
                        None => None,
                    }
                },
                None => None,
            }
        },
        None => None,
    }
}

/// Reads the text of a configuration file. What the text does not give, or gives in a form that
/// cannot be read, keeps its default.
pub fn parse_config(content: &str) -> (config: AppConfig)
    ensures
        config@ == config_of(content@),
{
    let chars = text::to_chars(content);
    let content_chars = chars.as_slice();
    let whitelist = match whitelist_field(content_chars) {
        Some(names) => {
            assert(texts(names@).len() == names.len());
            if names.len() > 0 {
                names
            } else {
                default_whitelist()
            }
        },
        None => default_whitelist(),
    };
    let limit_seconds: u64 = match number_field(content_chars, "\"limit_seconds\"", u64::MAX) {
        Some(n) => n,
        None => DEFAULT_LIMIT_SECONDS,
    };
    let start_hour: Option<u32> = match number_field(
        content_chars,
        "\"start_hour\"",
        u32::MAX as u64,
    ) {
        Some(n) => Some(n as u32),
        None => None,
    };
    let end_hour: Option<u32> = match number_field(content_chars, "\"end_hour\"", u32::MAX as u64) {
        Some(n) => Some(n as u32),
        None => None,
    };
    AppConfig { whitelist, limit_seconds, start_hour, end_hour }
}

/// The configuration file that is written where there is none, or where it is blank.
pub const DEFAULT_CONFIG: &'static str = r#"{
  "whitelist": [
    "explorer.exe",
    "tracker.exe",
    "guardian.exe",
    "cmd.exe",
    "powershell.exe",
    "conhost.exe"
  ],
  "limit_seconds": 10,
  "start_hour": 22,
  "end_hour": 6
}"#;

/// The configuration while there is no configuration file to read.
pub open spec fn fallback() -> ConfigView {
    ConfigView {
        whitelist: default_names(),
        limit_seconds: FALLBACK_LIMIT_SECONDS,
        start_hour: None,
        end_hour: None,
    }
}

/// The configuration while there is no configuration file to read.
pub fn fallback_config() -> (config: AppConfig)
    ensures
        config@ == fallback(),
{
    AppConfig {
        whitelist: default_whitelist(),
        limit_seconds: FALLBACK_LIMIT_SECONDS,
        start_hour: None,
        end_hour: None,
    }
}

/// Whether a text is nothing but white space.
pub open spec fn blank(content: Seq<char>) -> bool {
    text::trim(content, blanks()).len() == 0
}

/// A configuration, and the text that the configuration file is to be given, if any.
pub struct LoadedConfig {
    pub config: AppConfig,
    pub rewrite: Option<String>,
}

/// What is loaded from what the configuration file holds, or from nothing where there is no file:
/// the configuration, and the text that the file is to be given.
pub open spec fn load_of(content: Option<Seq<char>>) -> (ConfigView, Option<Seq<char>>) {
    match content {
        None => (fallback(), None),
        Some(found) => if blank(found) {
            (config_of(DEFAULT_CONFIG@), Some(DEFAULT_CONFIG@))
        } else {
            (config_of(found), None)
        },
    }
}

/// Takes what the configuration file holds, or `None` where it could not be opened. A blank file
/// is to be filled with the default configuration, which then holds at once.
pub fn load_config(content: Option<&str>) -> (loaded: LoadedConfig)
    ensures
        (loaded.config@, text_of(loaded.rewrite)) == load_of(
            match content {
                Some(found) => Some(found@),
                None => None,
            },
        ),
        content is None ==> loaded.rewrite is None && loaded.config@ == fallback(),
        content matches Some(found) ==> {
            &&& loaded.rewrite is None <==> exists|i: int|
                0 <= i < found@.len() && !text::whitespace(#[trigger] found@[i])
            &&& loaded.rewrite is None ==> loaded.config@ == config_of(found@)
            &&& loaded.rewrite matches Some(written) ==> written@ == DEFAULT_CONFIG@
                && loaded.config@ == config_of(DEFAULT_CONFIG@)
        },
{
    proof {
        if let Some(found) = content {
            blank_is_all_white_space(found@);
        }
    }
    match content {
        None => LoadedConfig { config: fallback_config(), rewrite: None },
        Some(found) => {
            let chars = text::to_chars(found);
            let bare = text::trim_by(chars.as_slice(), text::is_whitespace, Ghost(blanks()));
            if bare.len() == 0 {
                LoadedConfig {
                    config: parse_config(DEFAULT_CONFIG),
                    rewrite: Some(DEFAULT_CONFIG.to_string()),
                }
            } else {
                LoadedConfig { config: parse_config(found), rewrite: None }
            }
        },
    }
}

/// A name as a whitelist holds it: not empty, without a comma in it and without a quotation mark
/// at either end.
pub open spec fn proper_name(name: Seq<char>) -> bool {
    &&& name.len() > 0
    &&& !name.contains(',')
    &&& name[0] != '"'
    &&& name.last() != '"'
}

/// Whatever the file holds, the whitelist is not empty, and its names are proper ones without a
/// closing bracket in them.
pub proof fn whitelist_is_never_empty(content: Seq<char>)
    ensures
        config_of(content).whitelist.len() > 0,
        forall|i: int|
            0 <= i < config_of(content).whitelist.len() ==> proper_name(
                #[trigger] config_of(content).whitelist[i],
            ) && !config_of(content).whitelist[i].contains(']'),
{
    reveal_strlit("explorer.exe");
    reveal_strlit("tracker.exe");
    reveal_strlit("guardian.exe");
    reveal_strlit("cmd.exe");
    reveal_strlit("powershell.exe");
    reveal_strlit("conhost.exe");
    assert(forall|i: int|
        0 <= i < default_names().len() ==> proper_name(#[trigger] default_names()[i])
            && !default_names()[i].contains(']'));
    if let Some(list) = whitelist_block(content) {
        let names = listed_names(list);
        let pieces = text::split(list, ',');
        let cleaned = pieces.map_values(|piece: Seq<char>| clean(piece));
        whitelist_block_is_unclosed(content);
        text::split_pieces_join_again(list, ',');
        text::split_pieces_are_parts(list, ',');
        assert forall|i: int| 0 <= i < names.len() implies proper_name(#[trigger] names[i])
            && !names[i].contains(']') by {
            cleaned.lemma_filter_pred(filled(), i);
            assert(names.contains(names[i]));
            cleaned.lemma_filter_contains_rev(filled(), names[i]);
            let k = choose|k: int| 0 <= k < cleaned.len() && cleaned[k] == names[i];
            let bare = text::trim(pieces[k], blanks());
            text::trim_leaves_inner_part(pieces[k], blanks());
            text::trim_leaves_inner_part(bare, quotes());
        }
    }
}

/// What is read between the brackets holds no closing bracket.
proof fn whitelist_block_is_unclosed(content: Seq<char>)
    ensures
        whitelist_block(content) matches Some(list) ==> !list.contains(']'),
{
    if let Some(list) = whitelist_block(content) {
        let key = text::find_from(content, "\"whitelist\""@, 0)->0;
        text::find_from_is_first(content, "\"whitelist\""@, 0);
        let open = text::find_from(content, seq!['['], key)->0;
        text::find_from_is_first(content, seq!['['], key);
        let close = text::find_from(content, seq![']'], open)->0;
        text::find_from_is_first(content, seq![']'], open);
        assert(content.subrange(open, open + 1)[0] == '[');
        assert(content.subrange(close, close + 1)[0] == ']');
        assert forall|k: int| 0 <= k < list.len() implies list[k] != ']' by {
            let j = open + 1 + k;
            assert(list[k] == content[j]);
            assert(content.subrange(j, j + 1) =~= seq![content[j]]);
            assert(!text::occurs_at(content, seq![']'], j));
        }
    }
}

/// A file without the keys gives the defaults: what stands elsewhere in it does not matter.
pub proof fn missing_keys_keep_defaults(content: Seq<char>)
    ensures
        (forall|i: int| !text::occurs_at(content, "\"whitelist\""@, i)) ==> config_of(
            content,
        ).whitelist == default_names(),
        (forall|i: int| !text::occurs_at(content, "\"limit_seconds\""@, i)) ==> config_of(
            content,
        ).limit_seconds == DEFAULT_LIMIT_SECONDS,
        (forall|i: int| !text::occurs_at(content, "\"start_hour\""@, i)) ==> config_of(
            content,
        ).start_hour is None,
        (forall|i: int| !text::occurs_at(content, "\"end_hour\""@, i)) ==> config_of(
            content,
        ).end_hour is None,
{
    text::find_from_is_first(content, "\"whitelist\""@, 0);
    text::find_from_is_first(content, "\"limit_seconds\""@, 0);
    text::find_from_is_first(content, "\"start_hour\""@, 0);
    text::find_from_is_first(content, "\"end_hour\""@, 0);
}

/// Loading settles: from the text that the file was given, or holds already, the same
/// configuration is loaded again, and nothing more is to be written.
pub proof fn loading_settles(found: Seq<char>)
    ensures
        ({
            let (config, rewrite) = load_of(Some(found));
            let kept = match rewrite {
                Some(written) => written,
                None => found,
            };
            load_of(Some(kept)) == (config, None::<Seq<char>>)
        }),
{
    reveal_strlit(
r#"{
  "whitelist": [
    "explorer.exe",
    "tracker.exe",
    "guardian.exe",
    "cmd.exe",
    "powershell.exe",
    "conhost.exe"
  ],
  "limit_seconds": 10,
  "start_hour": 22,
  "end_hour": 6
}"#,
    );
    assert(DEFAULT_CONFIG@[0] == '{' && DEFAULT_CONFIG@.last() == '}');
    assert(!blank(DEFAULT_CONFIG@));
}

/// A name in quotation marks.
pub open spec fn quoted(name: Seq<char>) -> Seq<char> {
    seq!['"'] + name + seq!['"']
}

/// Whether every character satisfies `p`.
pub open spec fn all_of(s: Seq<char>, p: spec_fn(char) -> bool) -> bool {
    forall|i: int| 0 <= i < s.len() ==> p(#[trigger] s[i])
}

/// A quoted name, cleaned of the white space around it and of its quotation marks, is the name.
pub proof fn quoted_name_reads_back(before: Seq<char>, name: Seq<char>, after: Seq<char>)
    requires
        proper_name(name),
        all_of(before, blanks()),
        all_of(after, blanks()),
    ensures
        clean(before + quoted(name) + after) == name,
        !(before + quoted(name) + after).contains(','),
{
    let entry = before + quoted(name) + after;
    text::trim_of_padded(before, quoted(name), after, blanks());
    text::trim_of_padded(seq!['"'], name, seq!['"'], quotes());
    assert forall|k: int| 0 <= k < entry.len() implies entry[k] != ',' by {
        if k < before.len() {
            assert(blanks()(before[k]));
        } else if k < before.len() + quoted(name).len() {
            let j = k - before.len() - 1;
            if 0 <= j < name.len() {
                assert(entry[k] == name[j]);
                assert(name.contains(name[j]));
            }
        } else {
            assert(blanks()(after[k - before.len() - quoted(name).len()]));
        }
    }
}

/// Nothing is left out of a list in which nothing is empty.
proof fn filled_names_are_kept(names: Seq<Seq<char>>)
    requires
        forall|i: int| 0 <= i < names.len() ==> (#[trigger] names[i]).len() > 0,
    ensures
        names.filter(filled()) == names,
    decreases names.len(),
{
    reveal(Seq::filter);
    if names.len() > 0 {
        filled_names_are_kept(names.drop_last());
        assert(names[names.len() - 1].len() > 0);
        assert(names.drop_last().push(names.last()) =~= names);
    }
}

/// A list of quoted names with white space around them reads as those names, in their order.
pub proof fn listed_names_read_back(
    before: Seq<Seq<char>>,
    names: Seq<Seq<char>>,
    after: Seq<Seq<char>>,
)
    requires
        names.len() > 0,
        before.len() == names.len(),
        after.len() == names.len(),
        forall|i: int| 0 <= i < names.len() ==> proper_name(#[trigger] names[i]),
        forall|i: int| 0 <= i < names.len() ==> all_of(#[trigger] before[i], blanks()),
        forall|i: int| 0 <= i < names.len() ==> all_of(#[trigger] after[i], blanks()),
    ensures
        listed_names(
            text::join(
                Seq::new(names.len(), |i: int| before[i] + quoted(names[i]) + after[i]),
                ',',
            ),
        ) == names,
{
    let entries = Seq::new(names.len(), |i: int| before[i] + quoted(names[i]) + after[i]);
    assert forall|i: int| 0 <= i < entries.len() implies !(#[trigger] entries[i]).contains(',')
        && clean(entries[i]) == names[i] by {
        quoted_name_reads_back(before[i], names[i], after[i]);
    }
    text::joined_pieces_split_again(entries, ',');
    assert(entries.map_values(|piece: Seq<char>| clean(piece)) =~= names);
    assert forall|i: int| 0 <= i < names.len() implies (#[trigger] names[i]).len() > 0 by {
        assert(proper_name(names[i]));
    }
    filled_names_are_kept(names);
}

/// The list behind the key `"whitelist"` is read as it stands between its brackets.
pub proof fn whitelist_block_reads_back(
    before: Seq<char>,
    gap: Seq<char>,
    list: Seq<char>,
    after: Seq<char>,
)
    requires
        ({
            let key = "\"whitelist\""@;
            let content = before + key + gap + seq!['['] + list + seq![']'] + after;
            forall|j: int| 0 <= j < before.len() ==> !text::occurs_at(content, key, j)
        }),
        !gap.contains('['),
        !list.contains(']'),
    ensures
        whitelist_block(
            before + "\"whitelist\""@ + gap + seq!['['] + list + seq![']'] + after,
        ) == Some(list),
{
    let key = "\"whitelist\""@;
    let content = before + key + gap + seq!['['] + list + seq![']'] + after;
    let at = before.len() as int;
    let open = at + key.len() + gap.len();
    let close = open + 1 + list.len();
    assert(content.subrange(at, at + key.len()) =~= key);
    text::find_from_at(content, key, 0, at);
    assert(content.subrange(open, open + 1) =~= seq!['[']);
    assert forall|j: int| at <= j < open implies !text::occurs_at(content, seq!['['], j) by {
        reveal_strlit("\"whitelist\"");
        assert(content.subrange(j, j + 1)[0] == content[j]);
        if j < at + key.len() {
            assert(content[j] == key[j - at]);
        } else {
            assert(content[j] == gap[j - at - key.len()]);
        }
    }
    text::find_from_at(content, seq!['['], at, open);
    assert(content.subrange(close, close + 1) =~= seq![']']);
    assert forall|j: int| open <= j < close implies !text::occurs_at(content, seq![']'], j) by {
        assert(content.subrange(j, j + 1)[0] == content[j]);
        if j > open {
            assert(content[j] == list[j - open - 1]);
        }
    }
    text::find_from_at(content, seq![']'], open, close);
    assert(content.subrange(open + 1, close) =~= list);
}

/// A run of digits and white space ends where it ends.
proof fn run_ends_at(s: Seq<char>, from: int, end: int)
    requires
        0 <= from <= end <= s.len(),
        forall|i: int| from <= i < end ==> digit(#[trigger] s[i]) || text::whitespace(s[i]),
        end < s.len() ==> !digit(s[end]) && !text::whitespace(s[end]),
    ensures
        run_end(s, from) == end,
    decreases end - from,
{
    if from < end {
        run_ends_at(s, from + 1, end);
    }
}

/// A number behind its key and a colon is read digit by digit, whatever follows it that is
/// neither a digit nor white space.
pub proof fn number_reads_back(
    before: Seq<char>,
    key: Seq<char>,
    gap: Seq<char>,
    row: Seq<char>,
    after: Seq<char>,
)
    requires
        ({
            let content = before + key + gap + seq![':'] + row + after;
            forall|j: int| 0 <= j < before.len() ==> !text::occurs_at(content, key, j)
        }),
        !gap.contains(':'),
        forall|i: int| 0 <= i < row.len() ==> digit(#[trigger] row[i]) || text::whitespace(row[i]),
        after.len() > 0 ==> !digit(after[0]) && !text::whitespace(after[0]),
    ensures
        number_text(before + key + gap + seq![':'] + row + after, key) == Some(
            row.filter(digits()),
        ),
{
    let content = before + key + gap + seq![':'] + row + after;
    let at = before.len() as int;
    let colon = at + key.len() + gap.len();
    let end = colon + 1 + row.len();
    assert(content.subrange(at, at + key.len()) =~= key);
    text::find_from_at(content, key, 0, at);
    assert(content.subrange(colon, colon + 1) =~= seq![':']);
    assert forall|j: int| at + key.len() <= j < colon implies !text::occurs_at(
        content,
        seq![':'],
        j,
    ) by {
        assert(content.subrange(j, j + 1)[0] == content[j]);
        assert(content[j] == gap[j - at - key.len()]);
    }
    text::find_from_at(content, seq![':'], at + key.len(), colon);
    assert forall|i: int| colon + 1 <= i < end implies digit(#[trigger] content[i])
        || text::whitespace(content[i]) by {
        assert(content[i] == row[i - colon - 1]);
    }
    if end < content.len() {
        assert(content[end] == after[0]);
    }
    run_ends_at(content, colon + 1, end);
    assert(content.subrange(colon + 1, end) =~= row);
}

/// A text is blank where every character of it is white space.
pub proof fn blank_is_all_white_space(content: Seq<char>)
    ensures
        blank(content) <==> forall|i: int|
            0 <= i < content.len() ==> text::whitespace(#[trigger] content[i]),
{
    text::trim_leaves_nothing_of_padding(content, blanks());
    if blank(content) {
        assert forall|i: int| 0 <= i < content.len() implies text::whitespace(
            #[trigger] content[i],
        ) by {
            assert(blanks()(content[i]));
        }
    }
}

/// A file that holds a character which is not white space is read and left as it is.
pub proof fn filled_file_is_read_and_kept(found: Seq<char>, i: int)
    requires
        0 <= i < found.len(),
        !text::whitespace(found[i]),
    ensures
        load_of(Some(found)) == (config_of(found), None::<Seq<char>>),
{
    blank_is_all_white_space(found);
}

/// A file that holds only white space, or nothing, is given the default configuration, which then
/// holds at once: what is loaded is what would be read of the new file.
pub proof fn blank_file_is_filled(found: Seq<char>)
    requires
        forall|i: int| 0 <= i < found.len() ==> text::whitespace(#[trigger] found[i]),
    ensures
        load_of(Some(found)) == (config_of(DEFAULT_CONFIG@), Some(DEFAULT_CONFIG@)),
        load_of(Some(found)).0 == load_of(Some(DEFAULT_CONFIG@)).0,
{
    blank_is_all_white_space(found);
    loading_settles(found);
}

/// Without a file nothing is written, the six names are allowed, the limit is ten seconds, and no
/// hours are restricted.
pub proof fn missing_file_is_not_written()
    ensures
        load_of(None).1 is None,
        load_of(None).0 == (ConfigView {
            whitelist: seq![
                "explorer.exe"@,
                "tracker.exe"@,
                "guardian.exe"@,
                "cmd.exe"@,
                "powershell.exe"@,
                "conhost.exe"@,
            ],
            limit_seconds: 10,
            start_hour: None,
            end_hour: None,
        }),
{
}

/// A configuration is shown with everything that it holds.
pub proof fn config_is_shown_as_it_is(config: AppConfig)
    ensures
        config@.whitelist.len() == config.whitelist@.len(),
        forall|i: int|
            0 <= i < config.whitelist@.len() ==> #[trigger] config@.whitelist[i]
                == config.whitelist@[i]@,
        config@.limit_seconds == config.limit_seconds,
        config@.start_hour == config.start_hour,
        config@.end_hour == config.end_hour,
{
}

/// Whether `key` stands in `content` at `at`, and nowhere before that.
pub open spec fn first_at(content: Seq<char>, key: Seq<char>, at: int) -> bool {
    &&& text::occurs_at(content, key, at)
    &&& forall|j: int| 0 <= j < at ==> !#[trigger] text::occurs_at(content, key, j)
}

/// Whether `mark` stands in `content` at `at`, and nowhere from `from` up to there.
pub open spec fn next_at(content: Seq<char>, mark: char, from: int, at: int) -> bool {
    &&& from <= at < content.len()
    &&& content[at] == mark
    &&& forall|j: int| from <= j < at ==> #[trigger] content[j] != mark
}

/// Whether a number stands in `content` behind `key`, from `colon` up to `end`: the first key is
/// at `at`, the next colon at `colon`, and up to `end` there is nothing but digits and white space.
pub open spec fn number_stands(
    content: Seq<char>,
    key: Seq<char>,
    at: int,
    colon: int,
    end: int,
) -> bool {
    &&& first_at(content, key, at)
    &&& next_at(content, ':', at + key.len(), colon)
    &&& colon < end <= content.len()
    &&& forall|j: int|
        colon < j < end ==> '0' <= #[trigger] content[j] <= '9' || text::whitespace(content[j])
    &&& end < content.len() ==> !('0' <= content[end] <= '9') && !text::whitespace(content[end])
}

/// The next occurrence of a character is where it stands, if it stands nowhere before that.
proof fn mark_is_found(content: Seq<char>, mark: char, from: int, at: int)
    requires
        0 <= from,
        next_at(content, mark, from, at),
    ensures
        text::find_from(content, seq![mark], from) == Some(at),
{
    assert(content.subrange(at, at + 1) =~= seq![mark]);
    assert forall|j: int| from <= j < at implies !text::occurs_at(content, seq![mark], j) by {
        assert(content.subrange(j, j + 1)[0] == content[j]);
    }
    text::find_from_at(content, seq![mark], from, at);
}

/// A character that stands nowhere is not found.
proof fn mark_is_not_found(content: Seq<char>, mark: char, from: int)
    requires
        0 <= from,
        forall|j: int| from <= j < content.len() ==> #[trigger] content[j] != mark,
    ensures
        text::find_from(content, seq![mark], from) is None,
{
    text::find_from_is_first(content, seq![mark], from);
    if let Some(i) = text::find_from(content, seq![mark], from) {
        assert(content.subrange(i, i + 1)[0] == content[i]);
    }
}

/// The digits of a number are those that stand behind its key.
proof fn number_text_is_found(
    content: Seq<char>,
    key: Seq<char>,
    at: int,
    colon: int,
    end: int,
    is_digit: spec_fn(char) -> bool,
)
    requires
        number_stands(content, key, at, colon, end),
        forall|c: char| #[trigger] is_digit(c) <==> '0' <= c <= '9',
    ensures
        number_text(content, key) == Some(content.subrange(colon + 1, end).filter(is_digit)),
{
    text::find_from_at(content, key, 0, at);
    mark_is_found(content, ':', at + key.len(), colon);
    run_ends_at(content, colon + 1, end);
    assert(is_digit =~= digits());
}

/// The numbers are read where they stand, in whatever order the keys stand and whatever else the
/// file holds: behind the first occurrence of the key and the next colon, the digits make up the
/// number, and white space among them does not count. Without digits, or with a number that is too
/// large, the default holds: half an hour for the limit, and no hour.
pub proof fn numbers_are_read_where_they_stand(
    content: Seq<char>,
    at: int,
    colon: int,
    end: int,
    is_digit: spec_fn(char) -> bool,
)
    requires
        forall|c: char| #[trigger] is_digit(c) <==> '0' <= c <= '9',
    ensures
        ({
            let row = content.subrange(colon + 1, end).filter(is_digit);
            let value = decimal(row);
            let config = config_of(content);
            &&& number_stands(content, "\"limit_seconds\""@, at, colon, end)
                ==> config.limit_seconds == (if row.len() > 0 && value <= 0xffff_ffff_ffff_ffff {
                value as int
            } else {
                1800
            })
            &&& number_stands(content, "\"start_hour\""@, at, colon, end) ==> (
            if row.len() > 0 && value <= 0xffff_ffff {
                config.start_hour matches Some(hour) && hour == value
            } else {
                config.start_hour is None
            })
            &&& number_stands(content, "\"end_hour\""@, at, colon, end) ==> (
            if row.len() > 0 && value <= 0xffff_ffff {
                config.end_hour matches Some(hour) && hour == value
            } else {
                config.end_hour is None
            })
        }),
{
    if number_stands(content, "\"limit_seconds\""@, at, colon, end) {
        number_text_is_found(content, "\"limit_seconds\""@, at, colon, end, is_digit);
    }
    if number_stands(content, "\"start_hour\""@, at, colon, end) {
        number_text_is_found(content, "\"start_hour\""@, at, colon, end, is_digit);
    }
    if number_stands(content, "\"end_hour\""@, at, colon, end) {
        number_text_is_found(content, "\"end_hour\""@, at, colon, end, is_digit);
    }
}

/// A key with no colon anywhere behind its first occurrence gives no number.
pub proof fn keys_without_colon_keep_defaults(content: Seq<char>, at: int)
    ensures
        first_at(content, "\"limit_seconds\""@, at) && (forall|j: int|
            at + "\"limit_seconds\""@.len() <= j < content.len() ==> #[trigger] content[j] != ':')
            ==> config_of(content).limit_seconds == 1800,
        first_at(content, "\"start_hour\""@, at) && (forall|j: int|
            at + "\"start_hour\""@.len() <= j < content.len() ==> #[trigger] content[j] != ':')
            ==> config_of(content).start_hour is None,
        first_at(content, "\"end_hour\""@, at) && (forall|j: int|
            at + "\"end_hour\""@.len() <= j < content.len() ==> #[trigger] content[j] != ':')
            ==> config_of(content).end_hour is None,
{
    key_without_colon(content, "\"limit_seconds\""@, at);
    key_without_colon(content, "\"start_hour\""@, at);
    key_without_colon(content, "\"end_hour\""@, at);
}

/// A key with no colon anywhere behind its first occurrence has no digits.
proof fn key_without_colon(content: Seq<char>, key: Seq<char>, at: int)
    ensures
        first_at(content, key, at) && (forall|j: int|
            at + key.len() <= j < content.len() ==> #[trigger] content[j] != ':') ==> number_text(
            content,
            key,
        ) is None,
{
    if first_at(content, key, at) && (forall|j: int|
        at + key.len() <= j < content.len() ==> #[trigger] content[j] != ':') {
        text::find_from_at(content, key, 0, at);
        mark_is_not_found(content, ':', at + key.len());
    }
}

/// A row of digits is read in base ten: nothing is zero, a digit at the end makes the number ten
/// times as large and adds itself, and a zero at the start changes nothing.
pub proof fn digits_are_read_in_base_ten(row: Seq<char>, c: char)
    requires
        '0' <= c <= '9',
    ensures
        decimal(Seq::empty()) == 0,
        decimal(row.push(c)) == 10 * decimal(row) + (c as u32 - 0x30),
        decimal(seq!['0'] + row) == decimal(row),
    decreases row.len(),
{
    assert(row.push(c).drop_last() =~= row);
    let padded = seq!['0'] + row;
    if row.len() == 0 {
        assert(padded.drop_last() =~= row);
        assert(decimal(padded.drop_last()) == 0);
    } else {
        digits_are_read_in_base_ten(row.drop_last(), c);
        assert(padded.drop_last() =~= seq!['0'] + row.drop_last());
    }
}

/// An entry of the list is read as what is left of it without the white space around it, and then
/// without the quotation marks around that. Nothing else is taken away.
pub proof fn entry_is_cleaned(
    before: Seq<char>,
    open: Seq<char>,
    name: Seq<char>,
    close: Seq<char>,
    after: Seq<char>,
)
    requires
        forall|i: int| 0 <= i < before.len() ==> text::whitespace(#[trigger] before[i]),
        forall|i: int| 0 <= i < after.len() ==> text::whitespace(#[trigger] after[i]),
        forall|i: int| 0 <= i < open.len() ==> #[trigger] open[i] == '"',
        forall|i: int| 0 <= i < close.len() ==> #[trigger] close[i] == '"',
        name.len() > 0 ==> name[0] != '"' && name.last() != '"',
        (open + name + close).len() > 0 ==> !text::whitespace((open + name + close)[0])
            && !text::whitespace((open + name + close).last()),
    ensures
        clean(before + (open + name + close) + after) == name,
{
    let core = open + name + close;
    let entry = before + core + after;
    if core.len() > 0 {
        text::trim_of_padded(before, core, after, blanks());
    } else {
        assert forall|i: int| 0 <= i < entry.len() implies blanks()(#[trigger] entry[i]) by {
            if i < before.len() {
                assert(entry[i] == before[i]);
            } else {
                assert(entry[i] == after[i - before.len()]);
            }
        }
        text::trim_leaves_nothing_of_padding(entry, blanks());
        assert(text::trim(entry, blanks()) =~= core);
    }
    if name.len() > 0 {
        text::trim_of_padded(open, name, close, quotes());
    } else {
        assert forall|i: int| 0 <= i < core.len() implies quotes()(#[trigger] core[i]) by {
            if i < open.len() {
                assert(core[i] == open[i]);
            } else {
                assert(core[i] == close[i - open.len()]);
            }
        }
        text::trim_leaves_nothing_of_padding(core, quotes());
        assert(clean(entry) =~= name);
    }
}

/// The names are read where they stand, whatever else the file holds: behind the first occurrence
/// of the key, between the next opening bracket and the next closing one, and entry by entry
/// between the commas. Entries that are empty once cleaned do not count. Where none is left, the
/// six names are allowed.
pub proof fn names_are_read_where_they_stand(
    content: Seq<char>,
    at: int,
    open: int,
    close: int,
    entries: Seq<Seq<char>>,
    names: Seq<Seq<char>>,
    is_filled: spec_fn(Seq<char>) -> bool,
)
    requires
        first_at(content, "\"whitelist\""@, at),
        next_at(content, '[', at, open),
        next_at(content, ']', open, close),
        entries.len() > 0,
        forall|i: int| 0 <= i < entries.len() ==> !(#[trigger] entries[i]).contains(','),
        text::join(entries, ',') == content.subrange(open + 1, close),
        names.len() == entries.len(),
        forall|i: int| 0 <= i < entries.len() ==> #[trigger] names[i] == clean(entries[i]),
        forall|name: Seq<char>| #[trigger] is_filled(name) <==> name.len() > 0,
    ensures
        config_of(content).whitelist == (if names.filter(is_filled).len() > 0 {
            names.filter(is_filled)
        } else {
            seq![
                "explorer.exe"@,
                "tracker.exe"@,
                "guardian.exe"@,
                "cmd.exe"@,
                "powershell.exe"@,
                "conhost.exe"@,
            ]
        }),
{
    text::find_from_at(content, "\"whitelist\""@, 0, at);
    mark_is_found(content, '[', at, open);
    mark_is_found(content, ']', open, close);
    text::joined_pieces_split_again(entries, ',');
    assert(entries.map_values(|piece: Seq<char>| clean(piece)) =~= names);
    assert(is_filled =~= filled());
}

/// A list that is not opened behind its key, or not closed again, gives no names: the six are
/// allowed.
pub proof fn broken_list_keeps_default(content: Seq<char>, at: int, open: int)
    requires
        first_at(content, "\"whitelist\""@, at),
        (forall|j: int| at <= j < content.len() ==> #[trigger] content[j] != '[') || (next_at(
            content,
            '[',
            at,
            open,
        ) && forall|j: int| open <= j < content.len() ==> #[trigger] content[j] != ']'),
    ensures
        config_of(content).whitelist == seq![
            "explorer.exe"@,
            "tracker.exe"@,
            "guardian.exe"@,
            "cmd.exe"@,
            "powershell.exe"@,
            "conhost.exe"@,
        ],
{
    text::find_from_at(content, "\"whitelist\""@, 0, at);
    if forall|j: int| at <= j < content.len() ==> #[trigger] content[j] != '[' {
        mark_is_not_found(content, '[', at);
    } else {
        mark_is_found(content, '[', at, open);
        mark_is_not_found(content, ']', open);
    }
}

} // verus!
