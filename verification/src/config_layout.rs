//! How a configuration file is laid out, and that what it says is what is read of it.

use vstd::prelude::*;
#[allow(unused_imports)]
use crate::config;
#[allow(unused_imports)]
use crate::config::{
    all_of, blanks, config_of, decimal, default_names, digit, digits, listed_names_read_back,
    number_reads_back, proper_name, quoted, whitelist_block_reads_back, ConfigView, DEFAULT_CONFIG,
};
#[allow(unused_imports)]
use crate::text;

verus! {

/// What stands behind the key of a number: up to the colon, the digits with the white space
/// around them, and up to the next key.
pub struct NumberField {
    pub gap: Seq<char>,
    pub row: Seq<char>,
    pub next: Seq<char>,
}

impl NumberField {
    /// Whether the field can be told from what surrounds it.
    pub open spec fn clear(self) -> bool {
        &&& !self.gap.contains('"')
        &&& !self.gap.contains(':')
        &&& forall|i: int|
            0 <= i < self.row.len() ==> digit(#[trigger] self.row[i]) || text::whitespace(
                self.row[i],
            )
        &&& self.row.filter(digits()).len() > 0
        &&& self.next.len() > 0 ==> !digit(self.next[0]) && !text::whitespace(self.next[0])
    }

    /// The number.
    pub open spec fn value(self) -> nat {
        decimal(self.row.filter(digits()))
    }

    /// What stands before the next key.
    pub open spec fn body(self) -> Seq<char> {
        self.gap + seq![':'] + self.row + self.next
    }
}

/// A configuration file: a head, the names in their list, and the three numbers.
pub struct Layout {
    pub head: Seq<char>,
    /// What stands between the key of the list and its opening bracket.
    pub gap: Seq<char>,
    /// The white space before each name.
    pub before: Seq<Seq<char>>,
    pub names: Seq<Seq<char>>,
    /// The white space after each name.
    pub after: Seq<Seq<char>>,
    /// What stands between the closing bracket and the next key.
    pub next: Seq<char>,
    pub limit: NumberField,
    pub start: NumberField,
    pub end: NumberField,
}

/// Whether a name is a proper one that can be told from its surroundings and from the keys.
pub open spec fn clear_name(name: Seq<char>) -> bool {
    &&& proper_name(name)
    &&& !name.contains('"')
    &&& !name.contains(']')
    &&& name != "limit_seconds"@
    &&& name != "start_hour"@
    &&& name != "end_hour"@
}

impl Layout {
    /// The entries of the list.
    pub open spec fn entries(self) -> Seq<Seq<char>> {
        Seq::new(
            self.names.len(),
            |i: int| self.before[i] + quoted(self.names[i]) + self.after[i],
        )
    }

    /// The list, from its opening bracket to the next key.
    pub open spec fn list_body(self) -> Seq<char> {
        self.gap + seq!['['] + text::join(self.entries(), ',') + seq![']'] + self.next
    }

    /// The whole text.
    pub open spec fn text(self) -> Seq<char> {
        self.head + "\"whitelist\""@ + self.list_body() + "\"limit_seconds\""@ + self.limit.body()
            + "\"start_hour\""@ + self.start.body() + "\"end_hour\""@ + self.end.body()
    }

    /// Whether the file is laid out clearly: quotation marks stand only around the keys and the
    /// names and, if at all, behind the last number; the parts can be told from each other, and
    /// the numbers are not too large.
    pub open spec fn clear(self) -> bool {
        &&& !self.head.contains('"')
        &&& !self.gap.contains('"')
        &&& !self.gap.contains('[')
        &&& self.names.len() > 0
        &&& self.before.len() == self.names.len()
        &&& self.after.len() == self.names.len()
        &&& forall|i: int| 0 <= i < self.names.len() ==> clear_name(#[trigger] self.names[i])
        &&& forall|i: int|
            0 <= i < self.names.len() ==> all_of(#[trigger] self.before[i], blanks())
        &&& forall|i: int| 0 <= i < self.names.len() ==> all_of(#[trigger] self.after[i], blanks())
        &&& !self.next.contains('"')
        &&& self.limit.clear() && !self.limit.next.contains('"')
        &&& self.start.clear() && !self.start.next.contains('"')
        &&& self.end.clear()
        &&& self.limit.value() <= u64::MAX
        &&& self.start.value() <= u32::MAX
        &&& self.end.value() <= u32::MAX
    }

    /// What the file says.
    pub open spec fn says(self) -> ConfigView {
        ConfigView {
            whitelist: self.names,
            limit_seconds: self.limit.value() as u64,
            start_hour: Some(self.start.value() as u32),
            end_hour: Some(self.end.value() as u32),
        }
    }
}

/// Whether `word`, in quotation marks, stands nowhere in `s`.
spec fn absent(word: Seq<char>, s: Seq<char>) -> bool {
    forall|j: int| !#[trigger] text::occurs_at(s, quoted(word), j)
}

/// Where a quoted word stands, there is a quotation mark at either end of it.
proof fn quoted_at(s: Seq<char>, word: Seq<char>, j: int)
    requires
        text::occurs_at(s, quoted(word), j),
    ensures
        0 <= j,
        j + word.len() + 2 <= s.len(),
        s[j] == '"',
        s[j + word.len() + 1] == '"',
{
    let found = s.subrange(j, j + quoted(word).len());
    assert(found[0] == '"');
    assert(found[word.len() as int + 1] == '"');
}

/// Between the quotation marks stands the word.
proof fn word_at(s: Seq<char>, word: Seq<char>, j: int, k: int)
    requires
        text::occurs_at(s, quoted(word), j),
        0 <= k < word.len(),
    ensures
        s[j + 1 + k] == word[k],
{
    let found = s.subrange(j, j + quoted(word).len());
    assert(found[k + 1] == quoted(word)[k + 1]);
}

/// A word that is absent from `s` does not start in `s` or `t`, if `t` holds no quotation mark and
/// a character of `t` keeps the word from reaching out of `s`.
proof fn word_does_not_start(
    s: Seq<char>,
    t: Seq<char>,
    rest: Seq<char>,
    word: Seq<char>,
    guard: char,
    j: int,
)
    requires
        absent(word, s),
        !t.contains('"'),
        t.contains(guard) || !s.contains('"'),
        !word.contains(guard),
        0 <= j < s.len() + t.len(),
    ensures
        !text::occurs_at(s + t + rest, quoted(word), j),
{
    let whole = s + t + rest;
    if text::occurs_at(whole, quoted(word), j) {
        quoted_at(whole, word, j);
        let e = j + word.len() + 1;
        if j >= s.len() {
            assert(t[j - s.len()] == '"');
        } else if e < s.len() {
            assert(s.subrange(j, e + 1) =~= whole.subrange(j, e + 1));
            assert(text::occurs_at(s, quoted(word), j));
        } else {
            assert(s[j] == '"');
            if e < s.len() + t.len() {
                assert(t[e - s.len()] == '"');
            }
            let p = choose|p: int| 0 <= p < t.len() && t[p] == guard;
            let k = s.len() + p - j - 1;
            word_at(whole, word, j, k);
            assert(whole[s.len() + p] == t[p]);
        }
    }
}

/// A word that is absent from a text stays absent from it with another quoted word behind it.
proof fn word_stays_absent(
    s: Seq<char>,
    t: Seq<char>,
    other: Seq<char>,
    word: Seq<char>,
    guard: char,
)
    requires
        absent(word, s),
        !t.contains('"'),
        t.contains(guard) || !s.contains('"'),
        !word.contains(guard),
        !word.contains('"'),
        !other.contains('"'),
        other != word,
    ensures
        absent(word, s + t + quoted(other)),
{
    let whole = s + t + quoted(other);
    let at = (s.len() + t.len()) as int;
    assert forall|j: int| !#[trigger] text::occurs_at(whole, quoted(word), j) by {
        if text::occurs_at(whole, quoted(word), j) {
            if 0 <= j < at {
                word_does_not_start(s, t, quoted(other), word, guard, j);
            } else {
                quoted_at(whole, word, j);
                let e = j + word.len() + 1;
                if at < j {
                    assert(whole[j] == other[j - at - 1]);
                }
                if e < whole.len() - 1 {
                    assert(whole[e] == other[e - at - 1]);
                }
                assert forall|k: int| 0 <= k < word.len() implies word[k] == other[k] by {
                    word_at(whole, word, j, k);
                }
                assert(word =~= other);
            }
        }
    }
}

/// A word that is absent from a text stays absent from it with anything behind it that holds no
/// quotation mark.
proof fn word_stays_absent_before_plain_text(s: Seq<char>, t: Seq<char>, word: Seq<char>)
    requires
        absent(word, s),
        !t.contains('"'),
    ensures
        absent(word, s + t),
{
    let whole = s + t;
    assert forall|j: int| !#[trigger] text::occurs_at(whole, quoted(word), j) by {
        if text::occurs_at(whole, quoted(word), j) {
            quoted_at(whole, word, j);
            let e = j + word.len() + 1;
            if e >= s.len() {
                assert(t[e - s.len()] == '"');
            }
            assert(s.subrange(j, e + 1) =~= whole.subrange(j, e + 1));
            assert(text::occurs_at(s, quoted(word), j));
        }
    }
}

/// White space holds none of the characters that lay a file out.
proof fn blanks_hold_no_marks(s: Seq<char>)
    requires
        all_of(s, blanks()),
    ensures
        !s.contains('"'),
        !s.contains(']'),
{
    assert forall|k: int| 0 <= k < s.len() implies s[k] != '"' && s[k] != ']' by {
        assert(blanks()(s[k]));
    }
}

/// The keys are words in quotation marks. The words hold none of the characters that lay a file
/// out, and differ from each other.
proof fn keys_are_quoted_words()
    ensures
        "\"whitelist\""@ == quoted("whitelist"@),
        "\"limit_seconds\""@ == quoted("limit_seconds"@),
        "\"start_hour\""@ == quoted("start_hour"@),
        "\"end_hour\""@ == quoted("end_hour"@),
        plain_word("whitelist"@),
        plain_word("limit_seconds"@),
        plain_word("start_hour"@),
        plain_word("end_hour"@),
        "whitelist"@.len() == 9,
        "limit_seconds"@.len() == 13,
        "start_hour"@.len() == 10,
        "end_hour"@.len() == 8,
{
    reveal_strlit("\"whitelist\"");
    reveal_strlit("\"limit_seconds\"");
    reveal_strlit("\"start_hour\"");
    reveal_strlit("\"end_hour\"");
    reveal_strlit("whitelist");
    reveal_strlit("limit_seconds");
    reveal_strlit("start_hour");
    reveal_strlit("end_hour");
    assert("\"whitelist\""@ =~= quoted("whitelist"@));
    assert("\"limit_seconds\""@ =~= quoted("limit_seconds"@));
    assert("\"start_hour\""@ =~= quoted("start_hour"@));
    assert("\"end_hour\""@ =~= quoted("end_hour"@));
}

/// Whether a word holds none of the characters that lay a file out.
spec fn plain_word(word: Seq<char>) -> bool {
    &&& !word.contains('"')
    &&& !word.contains('[')
    &&& !word.contains(']')
    &&& !word.contains(',')
    &&& !word.contains(':')
}

/// A character that is in neither of two texts is not in them together.
proof fn not_in_both(a: Seq<char>, b: Seq<char>, c: char)
    requires
        !a.contains(c),
        !b.contains(c),
    ensures
        !(a + b).contains(c),
{
    assert forall|k: int| 0 <= k < (a + b).len() implies (a + b)[k] != c by {
        if k < a.len() {
            assert((a + b)[k] == a[k]);
        } else {
            assert((a + b)[k] == b[k - a.len()]);
        }
    }
}

impl Layout {
    /// The text up to the name at `k`, without it.
    spec fn up_to(self, k: int) -> Seq<char> {
        self.head + quoted("whitelist"@) + self.gap + seq!['['] + text::join(
            self.entries().take(k),
            ',',
        )
    }
}

/// A word that is no name in a list stands nowhere up to the end of the list.
proof fn list_holds_no(layout: Layout, word: Seq<char>, k: int)
    requires
        layout.clear(),
        1 <= k <= layout.names.len(),
        plain_word(word),
        word != "whitelist"@,
        forall|i: int| 0 <= i < layout.names.len() ==> #[trigger] layout.names[i] != word,
    ensures
        absent(word, layout.up_to(k)),
    decreases k,
{
    keys_are_quoted_words();
    let i = k - 1;
    let entries = layout.entries();
    let before = layout.before[i];
    let name = layout.names[i];
    let after = layout.after[i];
    assert(clear_name(name));
    assert(entries[i] == before + quoted(name) + after);
    blanks_hold_no_marks(before);
    blanks_hold_no_marks(after);
    if k == 1 {
        let nothing = Seq::<char>::empty();
        word_stays_absent(nothing, layout.head, "whitelist"@, word, '[');
        let s = nothing + layout.head + quoted("whitelist"@);
        let t = layout.gap + seq!['['] + before;
        not_in_both(layout.gap, seq!['['], '"');
        not_in_both(layout.gap + seq!['['], before, '"');
        assert(t[layout.gap.len() as int] == '[');
        word_stays_absent(s, t, name, word, '[');
        word_stays_absent_before_plain_text(s + t + quoted(name), after, word);
        assert(entries.take(1).len() == 1 && entries.take(1)[0] == entries[0]);
        assert(layout.up_to(1) =~= s + t + quoted(name) + after);
    } else {
        list_holds_no(layout, word, i);
        let s = layout.up_to(i);
        let t = seq![','] + before;
        not_in_both(seq![','], before, '"');
        assert(t[0] == ',');
        word_stays_absent(s, t, name, word, ',');
        word_stays_absent_before_plain_text(s + t + quoted(name), after, word);
        assert(entries.take(k).drop_last() =~= entries.take(i));
        assert(entries.take(k).last() == entries[i]);
        assert(layout.up_to(k) =~= s + t + quoted(name) + after);
    }
}

/// A list of clear names holds no closing bracket.
proof fn list_is_unclosed(layout: Layout, k: int)
    requires
        layout.clear(),
        0 <= k <= layout.names.len(),
    ensures
        !text::join(layout.entries().take(k), ',').contains(']'),
    decreases k,
{
    if k > 0 {
        let i = k - 1;
        let entries = layout.entries();
        list_is_unclosed(layout, i);
        assert(clear_name(layout.names[i]));
        blanks_hold_no_marks(layout.before[i]);
        blanks_hold_no_marks(layout.after[i]);
        not_in_both(seq!['"'], layout.names[i], ']');
        not_in_both(seq!['"'] + layout.names[i], seq!['"'], ']');
        not_in_both(layout.before[i], quoted(layout.names[i]), ']');
        not_in_both(layout.before[i] + quoted(layout.names[i]), layout.after[i], ']');
        assert(entries.take(k).drop_last() =~= entries.take(i));
        assert(entries.take(k).last() == entries[i]);
        let shorter = text::join(entries.take(i), ',');
        not_in_both(shorter, seq![','], ']');
        assert(shorter.push(',') =~= shorter + seq![',']);
        not_in_both(shorter.push(','), entries[i], ']');
    }
}

/// The number of a field that stands behind `s` and `t` is read, if its key is not in `s` and a
/// character of `t` keeps it from reaching out of `s`.
proof fn field_reads_back(
    s: Seq<char>,
    t: Seq<char>,
    word: Seq<char>,
    field: NumberField,
    tail: Seq<char>,
    guard: char,
)
    requires
        absent(word, s),
        !t.contains('"'),
        t.contains(guard),
        !word.contains(guard),
        field.clear(),
        field.next.len() == 0 && tail.len() > 0 ==> tail[0] == '"',
    ensures
        config::number_text(s + t + quoted(word) + field.body() + tail, quoted(word)) == Some(
            field.row.filter(digits()),
        ),
{
    let content = s + t + quoted(word) + field.body() + tail;
    let after = field.next + tail;
    let rest = quoted(word) + field.body() + tail;
    assert(content =~= s + t + rest);
    assert(content =~= (s + t) + quoted(word) + field.gap + seq![':'] + field.row + after);
    assert forall|j: int| 0 <= j < (s + t).len() implies !text::occurs_at(
        content,
        quoted(word),
        j,
    ) by {
        word_does_not_start(s, t, rest, word, guard, j);
    }
    if after.len() > 0 {
        if field.next.len() > 0 {
            assert(after[0] == field.next[0]);
        } else {
            assert(after[0] == tail[0]);
        }
    }
    number_reads_back(s + t, quoted(word), field.gap, field.row, after);
}

/// A file that is laid out clearly reads as what it says, whatever follows the last number.
pub proof fn whole_file_reads_back(layout: Layout)
    requires
        layout.clear(),
    ensures
        config_of(layout.text()) == layout.says(),
{
    keys_are_quoted_words();
    let whitelist = quoted("whitelist"@);
    let limit = quoted("limit_seconds"@);
    let start = quoted("start_hour"@);
    let end = quoted("end_hour"@);
    let content = layout.text();
    let n = layout.names.len() as int;
    let list = text::join(layout.entries(), ',');
    assert(layout.entries().take(n) =~= layout.entries());

    // The list.
    listed_names_read_back(layout.before, layout.names, layout.after);
    list_is_unclosed(layout, n);
    let behind = layout.next + limit + layout.limit.body() + start + layout.start.body() + end
        + layout.end.body();
    assert(content =~= layout.head + whitelist + layout.gap + seq!['['] + list + seq![']']
        + behind);
    assert forall|j: int| 0 <= j < layout.head.len() implies !text::occurs_at(
        content,
        whitelist,
        j,
    ) by {
        if text::occurs_at(content, whitelist, j) {
            quoted_at(content, "whitelist"@, j);
            assert(layout.head[j] == '"');
        }
    }
    whitelist_block_reads_back(layout.head, layout.gap, list, behind);

    // The limit.
    assert forall|i: int| 0 <= i < n implies #[trigger] layout.names[i] != "limit_seconds"@
        && layout.names[i] != "start_hour"@ && layout.names[i] != "end_hour"@ by {
        assert(clear_name(layout.names[i]));
    }
    list_holds_no(layout, "limit_seconds"@, n);
    list_holds_no(layout, "start_hour"@, n);
    list_holds_no(layout, "end_hour"@, n);
    let s1 = layout.up_to(n);
    let t1 = seq![']'] + layout.next;
    not_in_both(seq![']'], layout.next, '"');
    assert(t1[0] == ']');
    let tail1 = start + layout.start.body() + end + layout.end.body();
    field_reads_back(s1, t1, "limit_seconds"@, layout.limit, tail1, ']');
    assert(content =~= s1 + t1 + limit + layout.limit.body() + tail1);

    // The hour at which the restrictions start.
    word_stays_absent(s1, t1, "limit_seconds"@, "start_hour"@, ']');
    word_stays_absent(s1, t1, "limit_seconds"@, "end_hour"@, ']');
    let s2 = s1 + t1 + limit;
    let t2 = layout.limit.body();
    body_is_plain(layout.limit);
    let tail2 = end + layout.end.body();
    field_reads_back(s2, t2, "start_hour"@, layout.start, tail2, ':');
    assert(content =~= s2 + t2 + start + layout.start.body() + tail2);

    // The hour at which they end.
    word_stays_absent(s2, t2, "start_hour"@, "end_hour"@, ':');
    let s3 = s2 + t2 + start;
    let t3 = layout.start.body();
    body_is_plain(layout.start);
    let tail3 = Seq::<char>::empty();
    field_reads_back(s3, t3, "end_hour"@, layout.end, tail3, ':');
    assert(content =~= s3 + t3 + end + layout.end.body() + tail3);

    assert(config_of(content) =~= layout.says());
}

/// What stands behind a key holds a colon and no quotation mark.
proof fn body_is_plain(field: NumberField)
    requires
        field.clear(),
        !field.next.contains('"'),
    ensures
        !field.body().contains('"'),
        field.body().contains(':'),
{
    assert(!field.row.contains('"')) by {
        assert forall|k: int| 0 <= k < field.row.len() implies field.row[k] != '"' by {
            assert(digit(field.row[k]) || text::whitespace(field.row[k]));
        }
    }
    not_in_both(field.gap, seq![':'], '"');
    not_in_both(field.gap + seq![':'], field.row, '"');
    not_in_both(field.gap + seq![':'] + field.row, field.next, '"');
    assert(field.body()[field.gap.len() as int] == ':');
}

/// The layout of the configuration file that is written where there is none.
pub open spec fn default_layout() -> Layout {
    let none = Seq::<char>::empty();
    Layout {
        head: "{\n  "@,
        gap: ": "@,
        before: Seq::new(6, |i: int| "\n    "@),
        names: default_names(),
        after: seq![none, none, none, none, none, "\n  "@],
        next: ",\n  "@,
        limit: NumberField { gap: none, row: " 10"@, next: ",\n  "@ },
        start: NumberField { gap: none, row: " 22"@, next: ",\n  "@ },
        end: NumberField { gap: none, row: " 6\n"@, next: "}"@ },
    }
}

/// Where the parts of the default configuration stand in its text.
proof fn default_parts()
    ensures
        ({
            let d = DEFAULT_CONFIG@;
            let entries = default_layout().entries();
            &&& d.len() == 198
            &&& d.subrange(0, 4) == "{\n  "@
            &&& d.subrange(4, 15) == "\"whitelist\""@
            &&& d.subrange(15, 17) == ": "@
            &&& d[17] == '['
            &&& d.subrange(18, 37) == entries[0]
            &&& d[37] == ','
            &&& d.subrange(38, 56) == entries[1]
            &&& d[56] == ','
            &&& d.subrange(57, 76) == entries[2]
            &&& d[76] == ','
            &&& d.subrange(77, 91) == entries[3]
            &&& d[91] == ','
            &&& d.subrange(92, 113) == entries[4]
            &&& d[113] == ','
            &&& d.subrange(114, 135) == entries[5]
            &&& d[135] == ']'
            &&& d.subrange(136, 140) == ",\n  "@
            &&& d.subrange(140, 155) == "\"limit_seconds\""@
            &&& d[155] == ':'
            &&& d.subrange(156, 159) == " 10"@
            &&& d.subrange(159, 163) == ",\n  "@
            &&& d.subrange(163, 175) == "\"start_hour\""@
            &&& d[175] == ':'
            &&& d.subrange(176, 179) == " 22"@
            &&& d.subrange(179, 183) == ",\n  "@
            &&& d.subrange(183, 193) == "\"end_hour\""@
            &&& d[193] == ':'
            &&& d.subrange(194, 197) == " 6\n"@
            &&& d.subrange(197, 198) == "}"@
        }),
{
    reveal_strlit(
        r#"{
  "whitelist": [
    "explorer.exe",
    "tracker.exe",
    "guardian.exe",
    "cmd.exe",
    "powershell.exe",
    "conhost.exe"
  ],
  "limit_seconds": 10,
  "start_hour": 22,
  "end_hour": 6
}"#,
    );
    reveal_strlit("{\n  ");
    reveal_strlit("\"whitelist\"");
    reveal_strlit(": ");
    reveal_strlit("\n    ");
    reveal_strlit("\n  ");
    reveal_strlit("explorer.exe");
    reveal_strlit("tracker.exe");
    reveal_strlit("guardian.exe");
    reveal_strlit("cmd.exe");
    reveal_strlit("powershell.exe");
    reveal_strlit("conhost.exe");
    reveal_strlit(",\n  ");
    reveal_strlit("\"limit_seconds\"");
    reveal_strlit(" 10");
    reveal_strlit("\"start_hour\"");
    reveal_strlit(" 22");
    reveal_strlit("\"end_hour\"");
    reveal_strlit(" 6\n");
    reveal_strlit("}");
    let d = DEFAULT_CONFIG@;
    let entries = default_layout().entries();
    assert(d.subrange(0, 4) =~= "{\n  "@);
    assert(d.subrange(4, 15) =~= "\"whitelist\""@);
    assert(d.subrange(15, 17) =~= ": "@);
    assert(d.subrange(18, 37) =~= entries[0]);
    assert(d.subrange(38, 56) =~= entries[1]);
    assert(d.subrange(57, 76) =~= entries[2]);
    assert(d.subrange(77, 91) =~= entries[3]);
    assert(d.subrange(92, 113) =~= entries[4]);
    assert(d.subrange(114, 135) =~= entries[5]);
    assert(d.subrange(136, 140) =~= ",\n  "@);
    assert(d.subrange(140, 155) =~= "\"limit_seconds\""@);
    assert(d.subrange(156, 159) =~= " 10"@);
    assert(d.subrange(159, 163) =~= ",\n  "@);
    assert(d.subrange(163, 175) =~= "\"start_hour\""@);
    assert(d.subrange(176, 179) =~= " 22"@);
    assert(d.subrange(179, 183) =~= ",\n  "@);
    assert(d.subrange(183, 193) =~= "\"end_hour\""@);
    assert(d.subrange(194, 197) =~= " 6\n"@);
    assert(d.subrange(197, 198) =~= "}"@);
}

/// The list of the default configuration, name by name.
proof fn default_list()
    ensures
        text::join(default_layout().entries(), ',') == DEFAULT_CONFIG@.subrange(18, 135),
{
    default_parts();
    let d = DEFAULT_CONFIG@;
    let entries = default_layout().entries();
    assert(text::join(entries.take(1), ',') =~= d.subrange(18, 37));
    assert(entries.take(2).drop_last() =~= entries.take(1));
    assert(text::join(entries.take(2), ',') =~= d.subrange(18, 56));
    assert(entries.take(3).drop_last() =~= entries.take(2));
    assert(text::join(entries.take(3), ',') =~= d.subrange(18, 76));
    assert(entries.take(4).drop_last() =~= entries.take(3));
    assert(text::join(entries.take(4), ',') =~= d.subrange(18, 91));
    assert(entries.take(5).drop_last() =~= entries.take(4));
    assert(text::join(entries.take(5), ',') =~= d.subrange(18, 113));
    assert(entries.take(6).drop_last() =~= entries.take(5));
    assert(text::join(entries.take(6), ',') =~= d.subrange(18, 135));
    assert(entries.take(6) =~= entries);
}

/// The default configuration has its layout.
proof fn default_text()
    ensures
        default_layout().text() == DEFAULT_CONFIG@,
{
    default_parts();
    default_list();
    let d = DEFAULT_CONFIG@;
    let layout = default_layout();
    assert(layout.list_body() =~= d.subrange(15, 140));
    assert(layout.limit.body() =~= d.subrange(155, 163));
    assert(layout.start.body() =~= d.subrange(175, 183));
    assert(layout.end.body() =~= d.subrange(193, 198));
    assert(layout.text() =~= d);
}

/// The digits of the default configuration's numbers.
proof fn default_numbers()
    ensures
        ({
            let layout = default_layout();
            &&& layout.limit.clear() && layout.limit.value() == 10
            &&& layout.start.clear() && layout.start.value() == 22
            &&& layout.end.clear() && layout.end.value() == 6
        }),
{
    reveal_strlit(" 10");
    reveal_strlit(" 22");
    reveal_strlit(" 6\n");
    reveal_strlit(",\n  ");
    reveal_strlit("}");
    reveal_with_fuel(Seq::filter, 4);
    reveal_with_fuel(decimal, 3);
    assert(" 10"@ =~= seq![' ', '1', '0']);
    assert(" 22"@ =~= seq![' ', '2', '2']);
    assert(" 6\n"@ =~= seq![' ', '6', '\n']);
    assert(" 10"@.filter(digits()) =~= seq!['1', '0']);
    assert(" 22"@.filter(digits()) =~= seq!['2', '2']);
    assert(" 6\n"@.filter(digits()) =~= seq!['6']);
    assert(seq!['1', '0'].drop_last() =~= seq!['1']);
    assert(seq!['2', '2'].drop_last() =~= seq!['2']);
}

/// The default configuration reads as its six names, a limit of ten seconds, and the hours from
/// 22 to 6.
pub proof fn default_config_reads_back()
    ensures
        config_of(DEFAULT_CONFIG@) == (ConfigView {
            whitelist: default_names(),
            limit_seconds: 10,
            start_hour: Some(22),
            end_hour: Some(6),
        }),
{
    let layout = default_layout();
    default_text();
    default_numbers();
    reveal_strlit("explorer.exe");
    reveal_strlit("tracker.exe");
    reveal_strlit("guardian.exe");
    reveal_strlit("cmd.exe");
    reveal_strlit("powershell.exe");
    reveal_strlit("conhost.exe");
    reveal_strlit("{\n  ");
    reveal_strlit(": ");
    reveal_strlit("\n    ");
    reveal_strlit("\n  ");
    reveal_strlit(",\n  ");
    reveal_strlit("limit_seconds");
    reveal_strlit("start_hour");
    reveal_strlit("end_hour");
    assert forall|i: int| 0 <= i < 6 implies clear_name(#[trigger] layout.names[i]) by {
        let name = layout.names[i];
        assert(name[0] != 'l' && name[0] != 's');
        assert(name.last() == 'e');
    }
    whole_file_reads_back(layout);
}

} // verus!
