use sentinel::utf16::{decode_utf16, decode_utf16_lossy, encode_utf16, to_wide};

fn samples() -> Vec<Vec<u16>> {
    let alphabet: [u16; 8] = [0, 0x41, 0xd7ff, 0xd800, 0xdbff, 0xdc00, 0xdfff, 0xe000];
    let mut all: Vec<Vec<u16>> = vec![vec![]];
    let mut longest: Vec<Vec<u16>> = vec![vec![]];
    for _ in 0..4 {
        let mut longer: Vec<Vec<u16>> = vec![];
        for s in &longest {
            for u in alphabet {
                let mut t = s.clone();
                t.push(u);
                longer.push(t);
            }
        }
        all.extend(longer.iter().cloned());
        longest = longer;
    }
    all
}

#[test]
fn decoding_is_that_of_the_standard_library() {
    for units in samples() {
        assert_eq!(decode_utf16_lossy(&units), String::from_utf16_lossy(&units));
        assert_eq!(decode_utf16(&units), String::from_utf16(&units).ok());
    }
}

#[test]
fn stray_surrogates_are_replaced() {
    assert_eq!(decode_utf16_lossy(&[0x41, 0xd800, 0x42]), "A\u{fffd}B");
    assert_eq!(decode_utf16(&[0x41, 0xd800, 0x42]), None);
    assert_eq!(decode_utf16_lossy(&[0xdc00]), "\u{fffd}");
    assert_eq!(decode_utf16_lossy(&[0xd83d, 0xde00]), "\u{1f600}");
}

#[test]
fn texts_come_back_from_their_code_units() {
    for s in ["", "Progman", "\u{e9}t\u{e9}", "\u{1f600}x\u{10ffff}", "\u{d7ff}\u{e000}\u{ffff}\u{10000}"] {
        let units = encode_utf16(s);
        assert_eq!(units, s.encode_utf16().collect::<Vec<u16>>());
        assert_eq!(decode_utf16(&units), Some(s.to_string()));
        assert_eq!(decode_utf16_lossy(&units), s);
    }
}

#[test]
fn valid_code_units_come_back_from_their_text() {
    for units in samples() {
        if let Some(s) = decode_utf16(&units) {
            assert_eq!(encode_utf16(&s), units);
        }
    }
}

#[test]
fn wide_texts_end_in_zero() {
    assert_eq!(to_wide("Run"), vec![0x52, 0x75, 0x6e, 0]);
    assert_eq!(to_wide(""), vec![0]);
}
