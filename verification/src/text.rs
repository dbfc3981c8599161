//! Text as sequences of characters: searching, splitting, trimming and comparing.

use vstd::prelude::*;

verus! {

/// `String::push` of the standard library: the character is appended to the string.
pub assume_specification[ String::push ](s: &mut String, c: char)
    ensures
        final(s)@ == old(s)@.push(c),
;

/// What the strings in `v` hold.
pub open spec fn texts(v: Seq<String>) -> Seq<Seq<char>> {
    v.map_values(|s: String| s@)
}

/// The view of an optional string.
pub open spec fn text_of(s: Option<String>) -> Option<Seq<char>> {
    match s {
        Some(t) => Some(t@),
        None => None,
    }
}

/// The characters of `s`.
pub fn to_chars(s: &str) -> (chars: Vec<char>)
    ensures
        chars@ == s@,
{
    let mut chars: Vec<char> = Vec::new();
    for c in it: s.chars()
        invariant
            it.seq() == s@,
            chars@ == s@.take(it.index() as int),
    {
        chars.push(c);
    }
    chars
}

/// The string of the given characters.
pub fn from_chars(chars: &[char]) -> (s: String)
    ensures
        s@ == chars@,
{
    let mut s = String::new();
    let mut i: usize = 0;
    while i < chars.len()
        invariant
            i <= chars.len(),
            s@ == chars@.take(i as int),
        decreases chars.len() - i,
    {
        s.push(chars[i]);
        i += 1;
    }
    s
}

/// Whether `c` has the Unicode property `White_Space`.
pub open spec fn whitespace(c: char) -> bool {
    let u = c as u32;
    ||| 0x9 <= u <= 0xd
    ||| u == 0x20
    ||| u == 0x85
    ||| u == 0xa0
    ||| u == 0x1680
    ||| 0x2000 <= u <= 0x200a
    ||| u == 0x2028
    ||| u == 0x2029
    ||| u == 0x202f
    ||| u == 0x205f
    ||| u == 0x3000
}

/// Whether `c` is white space.
pub fn is_whitespace(c: char) -> (b: bool)
    ensures
        b == whitespace(c),
{
    let u: u32 = c as u32;
    (0x9 <= u && u <= 0xd) || u == 0x20 || u == 0x85 || u == 0xa0 || u == 0x1680 || (0x2000 <= u
        && u <= 0x200a) || u == 0x2028 || u == 0x2029 || u == 0x202f || u == 0x205f || u == 0x3000
}

/// The ASCII letter `c` in lower case; any other character as it is.
pub open spec fn ascii_lower(c: char) -> char {
    if 'A' <= c <= 'Z' {
        ((c as u32 + 32) as u32) as char
    } else {
        c
    }
}

/// Whether `a` and `b` differ at most in the case of their ASCII letters.
pub open spec fn same_ignoring_case(a: Seq<char>, b: Seq<char>) -> bool {
    a.map_values(|c: char| ascii_lower(c)) == b.map_values(|c: char| ascii_lower(c))
}

/// Whether two characters are the same letter up to ASCII case.
fn chars_match(a: char, b: char) -> (r: bool)
    ensures
        r == (ascii_lower(a) == ascii_lower(b)),
{
    let x: u32 = a as u32;
    let y: u32 = b as u32;
    let lx: u32 = if 0x41 <= x && x <= 0x5a { x + 32 } else { x };
    let ly: u32 = if 0x41 <= y && y <= 0x5a { y + 32 } else { y };
    lx == ly
}

/// Compares two texts, taking upper and lower case ASCII letters as equal.
pub fn eq_ignore_ascii_case(a: &str, b: &str) -> (r: bool)
    ensures
        r == same_ignoring_case(a@, b@),
{
    let xs = to_chars(a);
    let ys = to_chars(b);
    let ghost lower = |c: char| ascii_lower(c);
    if xs.len() != ys.len() {
        assert(xs@.map_values(lower).len() != ys@.map_values(lower).len());
        return false;
    }
    let mut i: usize = 0;
    while i < xs.len()
        invariant
            i <= xs.len() == ys.len(),
            forall|j: int| 0 <= j < i ==> ascii_lower(#[trigger] xs@[j]) == ascii_lower(ys@[j]),
            lower == (|c: char| ascii_lower(c)),
            xs@ == a@,
            ys@ == b@,
        decreases xs.len() - i,
    {
        if !chars_match(xs[i], ys[i]) {
            assert(xs@.map_values(lower)[i as int] != ys@.map_values(lower)[i as int]);
            return false;
        }
        i += 1;
    }
    assert(xs@.map_values(lower) =~= ys@.map_values(lower));
    true
}

/// Whether two texts hold the same characters.
pub fn same_text(a: &str, b: &str) -> (r: bool)
    ensures
        r == (a@ == b@),
{
    let xs = to_chars(a);
    let ys = to_chars(b);
    if xs.len() != ys.len() {
        return false;
    }
    let mut i: usize = 0;
    while i < xs.len()
        invariant
            i <= xs.len() == ys.len(),
            forall|j: int| 0 <= j < i ==> #[trigger] xs@[j] == ys@[j],
            xs@ == a@,
            ys@ == b@,
        decreases xs.len() - i,
    {
        if xs[i] != ys[i] {
            return false;
        }
        i += 1;
    }
    assert(xs@ =~= ys@);
    true
}

/// Whether `pat` stands in `s` at position `i`.
pub open spec fn occurs_at(s: Seq<char>, pat: Seq<char>, i: int) -> bool {
    0 <= i && i + pat.len() <= s.len() && s.subrange(i, i + pat.len()) == pat
}

/// The first position, `from` or later, at which `pat` stands in `s`.
pub open spec fn find_from(s: Seq<char>, pat: Seq<char>, from: int) -> Option<int>
    decreases s.len() - from + 1,
{
    if from > s.len() {
        None
    } else if occurs_at(s, pat, from) {
        Some(from)
    } else {
        find_from(s, pat, from + 1)
    }
}

/// `find_from` gives an occurrence with none between `from` and it, and gives none only where
/// there is none.
pub proof fn find_from_is_first(s: Seq<char>, pat: Seq<char>, from: int)
    requires
        0 <= from,
    ensures
        match find_from(s, pat, from) {
            Some(i) => from <= i && occurs_at(s, pat, i) && forall|j: int|
                from <= j < i ==> !occurs_at(s, pat, j),
            None => forall|j: int| from <= j ==> !occurs_at(s, pat, j),
        },
    decreases s.len() - from + 1,
{
    if from <= s.len() && !occurs_at(s, pat, from) {
        find_from_is_first(s, pat, from + 1);
    }
}

/// Whether `pat` stands in `s` at position `i`.
fn occurs(s: &[char], pat: &[char], i: usize) -> (r: bool)
    requires
        i <= s.len(),
    ensures
        r == occurs_at(s@, pat@, i as int),
{
    if pat.len() > s.len() - i {
        return false;
    }
    let mut k: usize = 0;
    while k < pat.len()
        invariant
            k <= pat.len(),
            i + pat.len() <= s.len(),
            forall|j: int| 0 <= j < k ==> s@[i + j] == #[trigger] pat@[j],
        decreases pat.len() - k,
    {
        if s[i + k] != pat[k] {
            assert(s@.subrange(i as int, i + pat@.len())[k as int] != pat@[k as int]);
            return false;
        }
        k += 1;
    }
    assert(s@.subrange(i as int, i + pat@.len()) =~= pat@);
    true
}

/// Finds `pat` in `s` at or after position `from`.
pub fn find(s: &[char], pat: &[char], from: usize) -> (r: Option<usize>)
    requires
        from <= s.len(),
    ensures
        match r {
            Some(i) => find_from(s@, pat@, from as int) == Some(i as int),
            None => find_from(s@, pat@, from as int) is None,
        },
{
    let mut i: usize = from;
    loop
        invariant
            i <= s.len(),
            find_from(s@, pat@, from as int) == find_from(s@, pat@, i as int),
        decreases s.len() - i,
    {
        if occurs(s, pat, i) {
            return Some(i);
        }
        if i == s.len() {
            assert(find_from(s@, pat@, i + 1) is None);
            return None;
        }
        i += 1;
    }
}

/// `s` without the characters at its start that satisfy `p`.
pub open spec fn trim_start(s: Seq<char>, p: spec_fn(char) -> bool) -> Seq<char>
    decreases s.len(),
{
    if s.len() > 0 && p(s[0]) {
        trim_start(s.skip(1), p)
    } else {
        s
    }
}

/// `s` without the characters at its end that satisfy `p`.
pub open spec fn trim_end(s: Seq<char>, p: spec_fn(char) -> bool) -> Seq<char>
    decreases s.len(),
{
    if s.len() > 0 && p(s.last()) {
        trim_end(s.drop_last(), p)
    } else {
        s
    }
}

/// `s` without the characters at either end that satisfy `p`.
pub open spec fn trim(s: Seq<char>, p: spec_fn(char) -> bool) -> Seq<char> {
    trim_end(trim_start(s, p), p)
}

/// Strips the characters at either end of `s` for which `strips` holds.
pub(crate) fn trim_by<F: Fn(char) -> bool>(
    s: &[char],
    strips: F,
    Ghost(p): Ghost<spec_fn(char) -> bool>,
) -> (r: &[char])
    requires
        forall|c: char| call_requires(strips, (c,)),
        forall|c: char, b: bool| call_ensures(strips, (c,), b) ==> b == p(c),
    ensures
        r@ == trim(s@, p),
{
    let mut i: usize = 0;
    assert(s@.skip(0) == s@);
    while i < s.len() && strips(s[i])
        invariant
            i <= s.len(),
            forall|c: char| call_requires(strips, (c,)),
            forall|c: char, b: bool| call_ensures(strips, (c,), b) ==> b == p(c),
            trim_start(s@, p) == trim_start(s@.skip(i as int), p),
        ensures
            i <= s.len(),
            trim_start(s@, p) == s@.skip(i as int),
        decreases s.len() - i,
    {
        assert(s@.skip(i as int).skip(1) == s@.skip(i + 1));
        i += 1;
    }
    let mut j: usize = s.len();
    assert(s@.subrange(i as int, j as int) == s@.skip(i as int));
    while i < j && strips(s[j - 1])
        invariant
            i <= j <= s.len(),
            forall|c: char| call_requires(strips, (c,)),
            forall|c: char, b: bool| call_ensures(strips, (c,), b) ==> b == p(c),
            trim_start(s@, p) == s@.skip(i as int),
            trim(s@, p) == trim_end(s@.subrange(i as int, j as int), p),
        ensures
            i <= j <= s.len(),
            trim(s@, p) == s@.subrange(i as int, j as int),
        decreases j,
    {
        assert(s@.subrange(i as int, j as int).drop_last() == s@.subrange(i as int, j - 1));
        j -= 1;
    }
    vstd::slice::slice_subrange(s, i, j)
}

/// The pieces of `s` between the occurrences of `sep`: always one more than there are
/// occurrences.
pub open spec fn split(s: Seq<char>, sep: char) -> Seq<Seq<char>>
    decreases s.len(),
{
    if s.len() == 0 {
        seq![Seq::<char>::empty()]
    } else {
        let pieces = split(s.drop_last(), sep);
        if s.last() == sep {
            pieces.push(Seq::<char>::empty())
        } else {
            pieces.drop_last().push(pieces.last().push(s.last()))
        }
    }
}

/// What the vectors in `v` hold.
pub open spec fn contents(v: Seq<Vec<char>>) -> Seq<Seq<char>> {
    v.map_values(|piece: Vec<char>| piece@)
}

/// Splits `s` at each `sep`.
pub fn split_at_each(s: &[char], sep: char) -> (pieces: Vec<Vec<char>>)
    ensures
        contents(pieces@) == split(s@, sep),
{
    let mut pieces: Vec<Vec<char>> = Vec::new();
    let mut piece: Vec<char> = Vec::new();
    let mut i: usize = 0;
    assert(split(s@.take(0), sep) == contents(pieces@).push(piece@));
    while i < s.len()
        invariant
            i <= s.len(),
            split(s@.take(i as int), sep) == contents(pieces@).push(piece@),
        decreases s.len() - i,
    {
        let ghost before = contents(pieces@);
        let ghost last = piece@;
        assert(s@.take(i + 1).drop_last() == s@.take(i as int));
        assert(before.push(last).drop_last() == before);
        let c = s[i];
        if c == sep {
            pieces.push(piece);
            piece = Vec::new();
            assert(contents(pieces@) == before.push(last));
        } else {
            piece.push(c);
        }
        i += 1;
    }
    assert(s@.take(i as int) == s@);
    pieces.push(piece);
    assert(contents(pieces@) == split(s@, sep));
    pieces
}

/// What is left at the end of a text once its start is trimmed.
proof fn trim_start_is_rest(s: Seq<char>, p: spec_fn(char) -> bool)
    ensures
        trim_start(s, p).len() <= s.len(),
        trim_start(s, p) == s.skip(s.len() - trim_start(s, p).len()),
        trim_start(s, p).len() > 0 ==> !p(trim_start(s, p)[0]),
    decreases s.len(),
{
    if s.len() > 0 && p(s[0]) {
        trim_start_is_rest(s.skip(1), p);
        let kept = trim_start(s, p).len();
        assert(s.skip(1).skip(s.len() - 1 - kept) =~= s.skip(s.len() - kept));
    } else {
        assert(s.skip(0) =~= s);
    }
}

/// What is left at the start of a text once its end is trimmed.
proof fn trim_end_is_start(s: Seq<char>, p: spec_fn(char) -> bool)
    ensures
        trim_end(s, p).len() <= s.len(),
        trim_end(s, p) == s.take(trim_end(s, p).len() as int),
        trim_end(s, p).len() > 0 ==> !p(trim_end(s, p).last()),
    decreases s.len(),
{
    if s.len() > 0 && p(s.last()) {
        trim_end_is_start(s.drop_last(), p);
        let kept = trim_end(s, p).len() as int;
        assert(s.drop_last().take(kept) =~= s.take(kept));
    } else {
        assert(s.take(s.len() as int) =~= s);
    }
}

/// What is left of a trimmed text is a part of it, with nothing to strip at either end.
pub proof fn trim_leaves_inner_part(s: Seq<char>, p: spec_fn(char) -> bool)
    ensures
        forall|c: char| trim(s, p).contains(c) ==> s.contains(c),
        trim(s, p).len() > 0 ==> !p(trim(s, p)[0]) && !p(trim(s, p).last()),
{
    let rest = trim_start(s, p);
    trim_start_is_rest(s, p);
    trim_end_is_start(rest, p);
    let kept = trim(s, p);
    assert forall|c: char| kept.contains(c) implies s.contains(c) by {
        let i = choose|i: int| 0 <= i < kept.len() && kept[i] == c;
        assert(rest[i] == c);
        assert(s[i + (s.len() - rest.len())] == c);
    }
}

/// The given pieces, one after the other, with `sep` in between.
pub open spec fn join(pieces: Seq<Seq<char>>, sep: char) -> Seq<char>
    decreases pieces.len(),
{
    if pieces.len() == 0 {
        Seq::empty()
    } else if pieces.len() == 1 {
        pieces[0]
    } else {
        join(pieces.drop_last(), sep).push(sep) + pieces.last()
    }
}

/// Splitting loses nothing but the separators, and leaves none of them in the pieces.
pub proof fn split_pieces_join_again(s: Seq<char>, sep: char)
    ensures
        split(s, sep).len() > 0,
        join(split(s, sep), sep) == s,
        forall|i: int| 0 <= i < split(s, sep).len() ==> !(#[trigger] split(s, sep)[i]).contains(
            sep,
        ),
    decreases s.len(),
{
    let pieces = split(s, sep);
    if s.len() > 0 {
        split_pieces_join_again(s.drop_last(), sep);
        let before = split(s.drop_last(), sep);
        assert(s.drop_last().push(s.last()) =~= s);
        if s.last() == sep {
            assert(pieces.drop_last() =~= before);
            assert(join(pieces, sep) =~= s);
        } else {
            let grown = before.last().push(s.last());
            assert(pieces.drop_last() =~= before.drop_last());
            assert(join(pieces, sep) =~= s);
            assert forall|c: char| grown.contains(c) implies before.last().contains(c) || c
                == s.last() by {
                let k = choose|k: int| 0 <= k < grown.len() && grown[k] == c;
                if k < before.last().len() {
                    assert(before.last()[k] == c);
                }
            }
            assert(before.last() == before[before.len() - 1]);
        }
    }
}

/// A text that is added behind a separator is a piece of its own.
proof fn split_of_longer(s: Seq<char>, piece: Seq<char>, sep: char)
    requires
        !piece.contains(sep),
    ensures
        split(s.push(sep) + piece, sep) == split(s, sep).push(piece),
    decreases piece.len(),
{
    let whole = s.push(sep) + piece;
    if piece.len() == 0 {
        assert(piece =~= Seq::<char>::empty());
        assert(whole.drop_last() =~= s);
        assert(split(whole, sep) =~= split(s, sep).push(piece));
    } else {
        let shorter = piece.drop_last();
        assert forall|k: int| 0 <= k < shorter.len() implies shorter[k] != sep by {
            assert(piece[k] == shorter[k]);
        }
        assert(piece[piece.len() - 1] != sep);
        split_of_longer(s, shorter, sep);
        assert(whole.drop_last() =~= s.push(sep) + shorter);
        assert(whole.last() == piece.last());
        assert(shorter.push(piece.last()) =~= piece);
        assert(split(s, sep).push(shorter).drop_last() =~= split(s, sep));
        assert(split(whole, sep) =~= split(s, sep).push(piece));
    }
}

/// A text without a separator is a single piece.
proof fn split_of_piece(piece: Seq<char>, sep: char)
    requires
        !piece.contains(sep),
    ensures
        split(piece, sep) == seq![piece],
    decreases piece.len(),
{
    if piece.len() == 0 {
        assert(piece =~= Seq::<char>::empty());
        assert(split(piece, sep) =~= seq![piece]);
    } else {
        let shorter = piece.drop_last();
        assert forall|k: int| 0 <= k < shorter.len() implies shorter[k] != sep by {
            assert(piece[k] == shorter[k]);
        }
        assert(piece[piece.len() - 1] != sep);
        split_of_piece(shorter, sep);
        assert(shorter.push(piece.last()) =~= piece);
        assert(split(piece, sep) =~= seq![piece]);
    }
}

/// Pieces that were joined come apart again, if there are any and none holds the separator.
pub proof fn joined_pieces_split_again(pieces: Seq<Seq<char>>, sep: char)
    requires
        pieces.len() > 0,
        forall|i: int| 0 <= i < pieces.len() ==> !(#[trigger] pieces[i]).contains(sep),
    ensures
        split(join(pieces, sep), sep) == pieces,
    decreases pieces.len(),
{
    if pieces.len() == 1 {
        split_of_piece(pieces[0], sep);
        assert(seq![pieces[0]] =~= pieces);
    } else {
        let before = pieces.drop_last();
        assert(forall|i: int| 0 <= i < before.len() ==> #[trigger] before[i] == pieces[i]);
        joined_pieces_split_again(before, sep);
        assert(!pieces[pieces.len() - 1].contains(sep));
        split_of_longer(join(before, sep), pieces.last(), sep);
        assert(before.push(pieces.last()) =~= pieces);
    }
}

/// Padding at both ends is trimmed away, and nothing else.
pub proof fn trim_of_padded(
    before: Seq<char>,
    s: Seq<char>,
    after: Seq<char>,
    p: spec_fn(char) -> bool,
)
    requires
        s.len() > 0,
        !p(s[0]),
        !p(s.last()),
        forall|i: int| 0 <= i < before.len() ==> p(#[trigger] before[i]),
        forall|i: int| 0 <= i < after.len() ==> p(#[trigger] after[i]),
    ensures
        trim(before + s + after, p) == s,
    decreases before.len() + after.len(),
{
    let whole = before + s + after;
    if before.len() > 0 {
        assert(whole[0] == before[0]);
        assert(whole.skip(1) =~= before.skip(1) + s + after);
        trim_of_padded(before.skip(1), s, after, p);
    } else if after.len() > 0 {
        let shorter = before + s + after.drop_last();
        trim_of_padded(before, s, after.drop_last(), p);
        assert(whole[0] == s[0] && shorter[0] == s[0]);
        assert(whole.last() == after[after.len() - 1]);
        assert(whole.drop_last() =~= shorter);
    } else {
        assert(whole =~= s);
    }
}

/// The first occurrence of a text is where it stands, if it stands nowhere before that.
pub proof fn find_from_at(s: Seq<char>, pat: Seq<char>, from: int, at: int)
    requires
        0 <= from <= at,
        occurs_at(s, pat, at),
        forall|j: int| from <= j < at ==> !occurs_at(s, pat, j),
    ensures
        find_from(s, pat, from) == Some(at),
{
    find_from_is_first(s, pat, from);
}

/// What stands in a piece of a text stands in the text.
pub proof fn split_pieces_are_parts(s: Seq<char>, sep: char)
    ensures
        forall|i: int, c: char|
            0 <= i < split(s, sep).len() && (#[trigger] split(s, sep)[i]).contains(c)
                ==> #[trigger] s.contains(c),
    decreases s.len(),
{
    if s.len() > 0 {
        let shorter = s.drop_last();
        let before = split(shorter, sep);
        split_pieces_are_parts(shorter, sep);
        split_pieces_join_again(shorter, sep);
        assert forall|i: int, c: char|
            0 <= i < split(s, sep).len() && (#[trigger] split(s, sep)[i]).contains(
                c,
            ) implies #[trigger] s.contains(c) by {
            let piece = split(s, sep)[i];
            let k = choose|k: int| 0 <= k < piece.len() && piece[k] == c;
            if c == s.last() {
                assert(s[s.len() - 1] == c);
            } else {
                assert(i < before.len());
                assert(before[i][k] == c);
                assert(before[i].contains(c));
                assert(shorter.contains(c));
                let m = choose|m: int| 0 <= m < shorter.len() && shorter[m] == c;
                assert(s[m] == c);
            }
        }
    }
}

/// White space is tab, line feed, vertical tab, form feed, carriage return, space, next line, the
/// no-break space, and the spaces and separators of the other scripts, and nothing else.
pub proof fn whitespace_is_listed(c: char)
    ensures
        whitespace(c) <==> seq![
            0x09u32, 0x0a, 0x0b, 0x0c, 0x0d, 0x20, 0x85, 0xa0, 0x1680, 0x2000, 0x2001, 0x2002,
            0x2003, 0x2004, 0x2005, 0x2006, 0x2007, 0x2008, 0x2009, 0x200a, 0x2028, 0x2029, 0x202f,
            0x205f, 0x3000,
        ].contains(c as u32),
{
    let listed = seq![
        0x09u32, 0x0a, 0x0b, 0x0c, 0x0d, 0x20, 0x85, 0xa0, 0x1680, 0x2000, 0x2001, 0x2002,
        0x2003, 0x2004, 0x2005, 0x2006, 0x2007, 0x2008, 0x2009, 0x200a, 0x2028, 0x2029, 0x202f,
        0x205f, 0x3000,
    ];
    let u = c as u32;
    if 0x9 <= u <= 0xd {
        assert(listed[u - 0x9] == u);
    } else if 0x2000 <= u <= 0x200a {
        assert(listed[9 + (u - 0x2000)] == u);
    } else {
        assert(listed[5] == 0x20 && listed[6] == 0x85 && listed[7] == 0xa0 && listed[8] == 0x1680);
        assert(listed[20] == 0x2028 && listed[21] == 0x2029 && listed[22] == 0x202f);
        assert(listed[23] == 0x205f && listed[24] == 0x3000);
    }
}

/// Two texts are the same up to case where they are equally long and differ, if at all, only
/// where one has an ASCII letter in upper case and the other has it in lower case.
pub proof fn case_is_all_that_may_differ(a: Seq<char>, b: Seq<char>)
    ensures
        same_ignoring_case(a, b) <==> a.len() == b.len() && forall|i: int|
            0 <= i < a.len() ==> {
                ||| #[trigger] a[i] == b[i]
                ||| ('A' <= a[i] <= 'Z' && b[i] as u32 == a[i] as u32 + 32)
                ||| ('A' <= b[i] <= 'Z' && a[i] as u32 == b[i] as u32 + 32)
            },
{
    let x = a.map_values(|c: char| ascii_lower(c));
    let y = b.map_values(|c: char| ascii_lower(c));
    if same_ignoring_case(a, b) {
        assert(x.len() == y.len());
        assert forall|i: int| 0 <= i < a.len() implies {
            ||| #[trigger] a[i] == b[i]
            ||| ('A' <= a[i] <= 'Z' && b[i] as u32 == a[i] as u32 + 32)
            ||| ('A' <= b[i] <= 'Z' && a[i] as u32 == b[i] as u32 + 32)
        } by {
            assert(x[i] == y[i]);
            letters_of_one_case(a[i], b[i]);
        }
    }
    if a.len() == b.len() && forall|i: int|
        0 <= i < a.len() ==> {
            ||| #[trigger] a[i] == b[i]
            ||| ('A' <= a[i] <= 'Z' && b[i] as u32 == a[i] as u32 + 32)
            ||| ('A' <= b[i] <= 'Z' && a[i] as u32 == b[i] as u32 + 32)
        } {
        assert forall|i: int| 0 <= i < x.len() implies x[i] == y[i] by {
            assert(x[i] == ascii_lower(a[i]) && y[i] == ascii_lower(b[i]));
            letters_of_one_case(a[i], b[i]);
        }
        assert(x =~= y);
    }
}

/// Two characters have the same lower case where they are equal or one letter in two cases.
proof fn letters_of_one_case(a: char, b: char)
    ensures
        ascii_lower(a) == ascii_lower(b) <==> {
            ||| a == b
            ||| ('A' <= a <= 'Z' && b as u32 == a as u32 + 32)
            ||| ('A' <= b <= 'Z' && a as u32 == b as u32 + 32)
        },
{
}

/// A text stands at a position where its characters stand there one by one.
pub proof fn occurrence_is_character_by_character(s: Seq<char>, pat: Seq<char>, i: int)
    ensures
        occurs_at(s, pat, i) <==> 0 <= i && i + pat.len() <= s.len() && forall|k: int|
            0 <= k < pat.len() ==> s[i + k] == #[trigger] pat[k],
{
    if occurs_at(s, pat, i) {
        assert forall|k: int| 0 <= k < pat.len() implies s[i + k] == #[trigger] pat[k] by {
            assert(s.subrange(i, i + pat.len())[k] == s[i + k]);
        }
    } else if 0 <= i && i + pat.len() <= s.len() && forall|k: int|
        0 <= k < pat.len() ==> s[i + k] == #[trigger] pat[k] {
        assert(s.subrange(i, i + pat.len()) =~= pat);
    }
}

/// Nothing is left of a text that can be stripped as a whole, and something of every other.
pub proof fn trim_leaves_nothing_of_padding(s: Seq<char>, p: spec_fn(char) -> bool)
    ensures
        trim(s, p).len() == 0 <==> forall|i: int| 0 <= i < s.len() ==> p(#[trigger] s[i]),
    decreases s.len(),
{
    trim_start_is_rest(s, p);
    trim_end_is_start(trim_start(s, p), p);
    if s.len() > 0 && p(s[0]) {
        let rest = s.skip(1);
        trim_leaves_nothing_of_padding(rest, p);
        if forall|i: int| 0 <= i < s.len() ==> p(#[trigger] s[i]) {
            assert forall|i: int| 0 <= i < rest.len() implies p(#[trigger] rest[i]) by {
                assert(rest[i] == s[i + 1]);
            }
        }
        if forall|i: int| 0 <= i < rest.len() ==> p(#[trigger] rest[i]) {
            assert forall|i: int| 0 <= i < s.len() implies p(#[trigger] s[i]) by {
                if i > 0 {
                    assert(s[i] == rest[i - 1]);
                }
            }
        }
    } else if s.len() > 0 {
        trim_end_keeps_what_starts(s, p);
    }
}

/// What starts with a character that is not stripped does not vanish when its end is trimmed.
proof fn trim_end_keeps_what_starts(s: Seq<char>, p: spec_fn(char) -> bool)
    requires
        s.len() > 0,
        !p(s[0]),
    ensures
        trim_end(s, p).len() > 0,
    decreases s.len(),
{
    if p(s.last()) {
        assert(s.drop_last()[0] == s[0]);
        trim_end_keeps_what_starts(s.drop_last(), p);
    }
}

/// The strings of a vector are shown one by one, in their order.
pub proof fn strings_are_shown_in_order(v: Seq<String>, s: String)
    ensures
        texts(v).len() == v.len(),
        forall|i: int| 0 <= i < v.len() ==> #[trigger] texts(v)[i] == v[i]@,
        text_of(None) is None,
        text_of(Some(s)) == Some(s@),
{
}

} // verus!
