//! Text in UTF-16, the form in which the system hands out names and takes them.

use vstd::prelude::*;
use crate::text;

verus! {

/// `char::from_u32` of the standard library: the character with the given code point, if the
/// number is a Unicode scalar value, that is, at most 0x10FFFF and no surrogate.
pub assume_specification[ char::from_u32 ](i: u32) -> (r: Option<char>)
    ensures
        r == (if i < 0xd800 || 0xe000 <= i <= 0x10ffff {
            Some(i as char)
        } else {
            None
        }),
;

/// Whether `u` opens a surrogate pair.
pub open spec fn high_surrogate(u: u16) -> bool {
    0xd800 <= u <= 0xdbff
}

/// Whether `u` closes a surrogate pair.
pub open spec fn low_surrogate(u: u16) -> bool {
    0xdc00 <= u <= 0xdfff
}

/// The code units of one character.
pub open spec fn encode_char(c: char) -> Seq<u16> {
    let u = c as u32;
    if u < 0x10000 {
        seq![u as u16]
    } else {
        seq![
            (0xd800 + (u - 0x10000) / 0x400) as u16,
            (0xdc00 + (u - 0x10000) % 0x400) as u16,
        ]
    }
}

/// The code units of a text.
pub open spec fn encode(s: Seq<char>) -> Seq<u16>
    decreases s.len(),
{
    if s.len() == 0 {
        Seq::empty()
    } else {
        encode_char(s[0]) + encode(s.skip(1))
    }
}

/// The character that a surrogate pair stands for.
pub open spec fn pair_char(high: u16, low: u16) -> char {
    ((0x10000 + (high - 0xd800) * 0x400 + (low - 0xdc00)) as u32) as char
}

/// Whether every surrogate in `units` is part of a pair.
pub open spec fn well_formed(units: Seq<u16>) -> bool
    decreases units.len(),
{
    if units.len() == 0 {
        true
    } else if high_surrogate(units[0]) {
        units.len() > 1 && low_surrogate(units[1]) && well_formed(units.skip(2))
    } else {
        !low_surrogate(units[0]) && well_formed(units.skip(1))
    }
}

/// The text that `units` stand for, with U+FFFD in place of each surrogate without a partner.
pub open spec fn decode_lossy(units: Seq<u16>) -> Seq<char>
    decreases units.len(),
{
    if units.len() == 0 {
        Seq::empty()
    } else if !high_surrogate(units[0]) && !low_surrogate(units[0]) {
        seq![(units[0] as u32) as char] + decode_lossy(units.skip(1))
    } else if high_surrogate(units[0]) && units.len() > 1 && low_surrogate(units[1]) {
        seq![pair_char(units[0], units[1])] + decode_lossy(units.skip(2))
    } else {
        seq!['\u{fffd}'] + decode_lossy(units.skip(1))
    }
}

/// Decodes `units`; the second result says whether every surrogate was part of a pair.
fn decode_checked(units: &[u16]) -> (r: (String, bool))
    ensures
        r.0@ == decode_lossy(units@),
        r.1 == well_formed(units@),
{
    let mut s = String::new();
    let mut clean = true;
    let mut i: usize = 0;
    assert(units@.skip(0) == units@);
    while i < units.len()
        invariant
            i <= units.len(),
            s@ + decode_lossy(units@.skip(i as int)) == decode_lossy(units@),
            well_formed(units@) == (clean && well_formed(units@.skip(i as int))),
        decreases units.len() - i,
    {
        let ghost rest = units@.skip(i as int);
        let ghost before = s@;
        let u: u16 = units[i];
        assert(rest[0] == u);
        assert(rest.skip(1) == units@.skip(i + 1));
        if u < 0xd800 || 0xdfff < u {
            if let Some(c) = char::from_u32(u as u32) {
                s.push(c);
            }
            i += 1;
            assert(s@ + decode_lossy(units@.skip(i as int)) =~= before + decode_lossy(rest));
        } else if u < 0xdc00 && units.len() - i > 1 && 0xdc00 <= units[i + 1] && units[i + 1]
            <= 0xdfff {
            let low: u16 = units[i + 1];
            assert(rest[1] == low);
            assert(rest.skip(2) == units@.skip(i + 2));
            let code: u32 = 0x10000 + (u as u32 - 0xd800) * 0x400 + (low as u32 - 0xdc00);
            if let Some(c) = char::from_u32(code) {
                s.push(c);
            }
            i += 2;
            assert(s@ + decode_lossy(units@.skip(i as int)) =~= before + decode_lossy(rest));
        } else {
            s.push('\u{fffd}');
            clean = false;
            i += 1;
            assert(s@ + decode_lossy(units@.skip(i as int)) =~= before + decode_lossy(rest));
        }
    }
    assert(units@.skip(i as int).len() == 0);
    assert(s@ + decode_lossy(units@.skip(i as int)) =~= s@);
    (s, clean)
}

/// Decodes `units`, with U+FFFD in place of each surrogate without a partner.
pub fn decode_utf16_lossy(units: &[u16]) -> (s: String)
    ensures
        s@ == decode_lossy(units@),
{
    decode_checked(units).0
}

/// Decodes `units`, unless a surrogate among them has no partner.
pub fn decode_utf16(units: &[u16]) -> (r: Option<String>)
    ensures
        match r {
            Some(s) => well_formed(units@) && s@ == decode_lossy(units@),
            None => !well_formed(units@),
        },
{
    let (s, clean) = decode_checked(units);
    if clean {
        Some(s)
    } else {
        None
    }
}

/// The code units of `s`.
pub fn encode_utf16(s: &str) -> (units: Vec<u16>)
    ensures
        units@ == encode(s@),
{
    let chars = text::to_chars(s);
    let mut units: Vec<u16> = Vec::new();
    let mut i: usize = 0;
    assert(chars@.skip(0) == chars@);
    while i < chars.len()
        invariant
            i <= chars.len(),
            units@ + encode(chars@.skip(i as int)) == encode(chars@),
        decreases chars.len() - i,
    {
        let ghost rest = chars@.skip(i as int);
        let ghost before = units@;
        let u: u32 = chars[i] as u32;
        assert(rest[0] == chars@[i as int]);
        assert(rest.skip(1) == chars@.skip(i + 1));
        if u < 0x10000 {
            units.push(u as u16);
        } else {
            units.push((0xd800 + (u - 0x10000) / 0x400) as u16);
            units.push((0xdc00 + (u - 0x10000) % 0x400) as u16);
        }
        i += 1;
        assert(units@ =~= before + encode_char(rest[0]));
        assert(units@ + encode(chars@.skip(i as int)) =~= before + encode(rest));
    }
    assert(units@ + encode(chars@.skip(i as int)) =~= units@);
    units
}

/// A text with a zero unit behind it, as the system's calls expect it.
pub open spec fn wide(s: Seq<char>) -> Seq<u16> {
    encode(s).push(0)
}

/// The code units of `s` and a zero unit.
pub fn to_wide(s: &str) -> (units: Vec<u16>)
    ensures
        units@ == wide(s@),
{
    let mut units = encode_utf16(s);
    units.push(0);
    units
}

/// What the code units of one character are: one that is no surrogate, or a pair.
proof fn encode_char_shape(c: char)
    ensures
        ({
            let units = encode_char(c);
            if (c as u32) < 0x10000 {
                &&& units.len() == 1
                &&& !high_surrogate(units[0]) && !low_surrogate(units[0])
                &&& (units[0] as u32) as char == c
            } else {
                &&& units.len() == 2
                &&& high_surrogate(units[0]) && low_surrogate(units[1])
                &&& pair_char(units[0], units[1]) == c
            }
        }),
{
}

/// Decoding what was encoded gives the text back, and what was encoded has no stray surrogate.
pub proof fn decode_of_encode(s: Seq<char>)
    ensures
        decode_lossy(encode(s)) == s,
        well_formed(encode(s)),
    decreases s.len(),
{
    if s.len() > 0 {
        decode_of_encode(s.skip(1));
        let units = encode(s);
        let rest = encode(s.skip(1));
        encode_char_shape(s[0]);
        if encode_char(s[0]).len() == 1 {
            assert(units.skip(1) =~= rest);
        } else {
            assert(units.skip(2) =~= rest);
        }
        assert(decode_lossy(units) =~= s);
    }
}

/// Encoding what was decoded gives the code units back, where they held no stray surrogate.
pub proof fn encode_of_decode(units: Seq<u16>)
    requires
        well_formed(units),
    ensures
        encode(decode_lossy(units)) == units,
    decreases units.len(),
{
    if units.len() > 0 {
        let s = decode_lossy(units);
        if high_surrogate(units[0]) {
            encode_of_decode(units.skip(2));
            assert(s.skip(1) =~= decode_lossy(units.skip(2)));
            assert(encode(s) =~= units);
        } else {
            encode_of_decode(units.skip(1));
            assert(s.skip(1) =~= decode_lossy(units.skip(1)));
            assert(encode(s) =~= units);
        }
    }
}

/// The code units of a longer text are those of the shorter one and of the character added.
pub proof fn encode_push(s: Seq<char>, c: char)
    ensures
        encode(s.push(c)) == encode(s) + encode_char(c),
    decreases s.len(),
{
    let longer = s.push(c);
    if s.len() == 0 {
        assert(encode(longer.skip(1)) =~= Seq::<u16>::empty());
        assert(encode(longer) =~= encode(s) + encode_char(c));
    } else {
        encode_push(s.skip(1), c);
        assert(longer.skip(1) =~= s.skip(1).push(c));
        assert(encode(longer) =~= encode(s) + encode_char(c));
    }
}

/// The code units of two texts one after the other are those of the first and then those of the
/// second.
pub proof fn encode_of_joined(a: Seq<char>, b: Seq<char>)
    ensures
        encode(a + b) == encode(a) + encode(b),
    decreases a.len(),
{
    if a.len() == 0 {
        assert(a + b =~= b);
        assert(encode(a) + encode(b) =~= encode(b));
    } else {
        encode_of_joined(a.skip(1), b);
        assert((a + b).skip(1) =~= a.skip(1) + b);
        assert(encode(a + b) =~= encode(a) + encode(b));
    }
}

/// A character of the basic plane is one code unit, its code point. Any other is two, which hold
/// the upper and the lower ten bits of its distance from there.
pub proof fn characters_are_coded_by_plane(c: char)
    ensures
        (c as u32) < 0x10000 ==> encode(seq![c]) == seq![c as u16],
        (c as u32) >= 0x10000 ==> {
            let units = encode(seq![c]);
            &&& units.len() == 2
            &&& 0xd800 <= units[0] < 0xdc00
            &&& 0xdc00 <= units[1] < 0xe000
            &&& c as u32 == 0x10000 + (units[0] - 0xd800) * 0x400 + (units[1] - 0xdc00)
        },
{
    let s = seq![c];
    assert(s.skip(1) =~= Seq::<char>::empty());
    assert(encode(s.skip(1)) =~= Seq::<u16>::empty());
    assert(encode(s) =~= encode_char(c));
    encode_char_shape(c);
}

/// Code units are well formed where they are the code units of some text.
pub proof fn well_formed_is_the_code_of_a_text(units: Seq<u16>)
    ensures
        well_formed(units) <==> exists|s: Seq<char>| #[trigger] encode(s) == units,
{
    if well_formed(units) {
        encode_of_decode(units);
    }
    if exists|s: Seq<char>| #[trigger] encode(s) == units {
        let s = choose|s: Seq<char>| #[trigger] encode(s) == units;
        decode_of_encode(s);
    }
}

/// The code units of a text that start a row of code units are read as that text, and the rest is
/// read as if it stood alone.
pub proof fn decode_reads_on_behind_a_text(s: Seq<char>, rest: Seq<u16>)
    ensures
        decode_lossy(encode(s) + rest) == s + decode_lossy(rest),
    decreases s.len(),
{
    if s.len() == 0 {
        assert(encode(s) + rest =~= rest);
        assert(s + decode_lossy(rest) =~= decode_lossy(rest));
    } else {
        let units = encode(s) + rest;
        let tail = encode(s.skip(1)) + rest;
        decode_reads_on_behind_a_text(s.skip(1), rest);
        encode_char_shape(s[0]);
        if encode_char(s[0]).len() == 1 {
            assert(units.skip(1) =~= tail);
        } else {
            assert(units.skip(2) =~= tail);
        }
        assert(decode_lossy(units) =~= s + decode_lossy(rest));
    }
}

/// A surrogate without a partner is read as one replacement character, and what follows it is read
/// as if it stood alone.
pub proof fn stray_surrogate_is_replaced(units: Seq<u16>)
    requires
        units.len() > 0,
        0xdc00 <= units[0] < 0xe000 || (0xd800 <= units[0] < 0xdc00 && !(units.len() > 1 && 0xdc00
            <= units[1] < 0xe000)),
    ensures
        decode_lossy(units) == seq!['\u{fffd}'] + decode_lossy(units.skip(1)),
        !well_formed(units),
{
}

/// Nothing is read of nothing, and of code units without surrogates, one character of each.
pub proof fn plain_units_are_characters(units: Seq<u16>)
    requires
        forall|i: int| 0 <= i < units.len() ==> (#[trigger] units[i]) < 0xd800 || 0xe000 <= units[i],
    ensures
        decode_lossy(units).len() == units.len(),
        forall|i: int|
            0 <= i < units.len() ==> #[trigger] decode_lossy(units)[i] == units[i] as char,
    decreases units.len(),
{
    if units.len() > 0 {
        let rest = units.skip(1);
        assert forall|i: int| 0 <= i < rest.len() implies (#[trigger] rest[i]) < 0xd800 || 0xe000
            <= rest[i] by {
            assert(rest[i] == units[i + 1]);
        }
        plain_units_are_characters(rest);
        assert forall|i: int| 0 <= i < units.len() implies #[trigger] decode_lossy(units)[i]
            == units[i] as char by {
            if i > 0 {
                assert(decode_lossy(units)[i] == decode_lossy(rest)[i - 1]);
                assert(rest[i - 1] == units[i]);
            }
        }
    }
}

/// A text that is handed to the system is its code units and a zero behind them.
pub proof fn wide_ends_in_zero(s: Seq<char>)
    ensures
        wide(s).len() == encode(s).len() + 1,
        wide(s).last() == 0,
        wide(s).drop_last() == encode(s),
        decode_lossy(wide(s)) == s.push('\0'),
{
    let nul = seq![0u16];
    decode_reads_on_behind_a_text(s, nul);
    plain_units_are_characters(nul);
    assert(decode_lossy(nul) =~= seq!['\0']);
    assert(wide(s) =~= encode(s) + nul);
    assert(s + seq!['\0'] =~= s.push('\0'));
    assert(wide(s).drop_last() =~= encode(s));
}

} // verus!
