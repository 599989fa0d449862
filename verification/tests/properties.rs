use lossydec::align::decode_ascii_aligned;
use lossydec::align::decode_utf8_aligned;
use lossydec::align::ByteAlignedDecoder;
use lossydec::ascii::LossyASCIIDecoder;
use lossydec::unicode::LossyUTF8Decoder;
use lossydec::unit::CharType;
use lossydec::unit::RawDecoder;
use lossydec::unit::FILLER_CHAR;
use lossydec::unit::REPLACEMENT_CHAR;

fn utf8_units_of(bytes: &[u8]) -> Vec<(char, CharType)> {
    let mut decoder = LossyUTF8Decoder::from(bytes);
    let mut units = Vec::new();
    while let Some(unit) = decoder.next() {
        units.push(unit);
    }
    units
}

fn ascii_units_of(bytes: &[u8]) -> Vec<(char, CharType)> {
    let mut decoder = LossyASCIIDecoder::from(bytes);
    let mut units = Vec::new();
    while let Some(unit) = decoder.next() {
        units.push(unit);
    }
    units
}

#[test]
fn length_preservation_both_decoders() {
    let buffers: [&[u8]; 6] = [
        b"",
        b"plain ascii",
        b"\xC3\xA4\xF0\x9F\x92\xA9",
        b"\x80\xBF\xFE\xFF",
        b"mix \xC3 cut",
        b"\xE0\xA0\x80\xED\xA0\x80",
    ];
    for bytes in buffers {
        assert_eq!(decode_ascii_aligned(bytes).len(), bytes.len());
        assert_eq!(decode_utf8_aligned(bytes).len(), bytes.len());
    }
}

#[test]
fn ascii_fidelity_both_decoders() {
    for b in 0x00..=0x7Fu8 {
        let buf = [b];
        let ascii = ascii_units_of(&buf);
        let utf8 = utf8_units_of(&buf);
        let expected = (b as char, CharType::Ascii);
        assert_eq!(ascii, vec![expected.clone()]);
        assert_eq!(utf8, vec![expected]);
    }
}

#[test]
fn invalid_byte_substitution_ascii() {
    for b in 0x80..=0xFFu8 {
        let buf = [b];
        let units = ascii_units_of(&buf);
        assert_eq!(units.len(), 1);
        assert_eq!(units[0].0, REPLACEMENT_CHAR);
        assert_eq!(units[0].1, CharType::Unknown);
        assert_eq!(units[0].1.size(), 1);
    }
}

#[test]
fn unicode_round_trip() {
    let chars = [
        '\u{80}', '\u{7FF}', '\u{800}', '\u{D7FF}', '\u{E000}', '\u{FFFF}', '\u{10000}',
        '\u{10FFFF}', 'ä', 'à', '💩', '中',
    ];
    for c in chars {
        let mut buf = b"pre:".to_vec();
        let mut enc = [0u8; 4];
        let width = c.encode_utf8(&mut enc).len();
        buf.extend_from_slice(&enc[..width]);
        buf.extend_from_slice(b":post");
        let units = utf8_units_of(&buf);
        assert_eq!(units.len(), 4 + 1 + 5);
        assert_eq!(units[4], (c, CharType::Unicode(width)));
        assert_eq!(units[4].1.size(), width);
        assert_eq!(units[5], (':', CharType::Ascii));
    }
}

#[test]
fn truncation_yields_one_unknown_per_byte() {
    // A 3-byte lead with only one continuation byte available.
    let units = utf8_units_of(b"\xE4\xBD");
    assert_eq!(
        units,
        vec![(REPLACEMENT_CHAR, CharType::Unknown), (REPLACEMENT_CHAR, CharType::Unknown)]
    );
    // A 4-byte lead cut after two continuation bytes.
    let units = utf8_units_of(b"\xF0\x9F\x92");
    assert_eq!(units.len(), 3);
    for unit in units {
        assert_eq!(unit, (REPLACEMENT_CHAR, CharType::Unknown));
    }
    // A 2-byte lead at the very end of the buffer.
    let units = utf8_units_of(b"ok\xC3");
    assert_eq!(units[2], (REPLACEMENT_CHAR, CharType::Unknown));
}

#[test]
fn malformed_sequences_resynchronize() {
    // Overlong encoding of NUL: both bytes are rejected one by one.
    let units = utf8_units_of(b"\xC0\x80");
    assert_eq!(units.len(), 2);
    assert_eq!(units[0], (REPLACEMENT_CHAR, CharType::Unknown));
    assert_eq!(units[1], (REPLACEMENT_CHAR, CharType::Unknown));
    // An encoded surrogate is rejected byte by byte.
    let units = utf8_units_of(b"\xED\xA0\x80");
    assert_eq!(units.len(), 3);
    for unit in units {
        assert_eq!(unit, (REPLACEMENT_CHAR, CharType::Unknown));
    }
    // A value above the Unicode range.
    let units = utf8_units_of(b"\xF4\x90\x80\x80");
    assert_eq!(units.len(), 4);
    // An invalid lead byte, a stray continuation byte, and recovery after
    // each error.
    let units = utf8_units_of(b"\xF8a\x80b");
    assert_eq!(
        units,
        vec![
            (REPLACEMENT_CHAR, CharType::Unknown),
            ('a', CharType::Ascii),
            (REPLACEMENT_CHAR, CharType::Unknown),
            ('b', CharType::Ascii),
        ]
    );
}

#[test]
fn alignment_filler_shape() {
    assert_ne!(FILLER_CHAR, REPLACEMENT_CHAR);
    // Width 1: one real character, no filler.
    assert_eq!(decode_utf8_aligned(b"a"), vec!['a']);
    // Width 2, 3, 4: the character, then width - 1 fillers.
    assert_eq!(decode_utf8_aligned(b"\xC3\xA4"), vec!['ä', FILLER_CHAR]);
    assert_eq!(
        decode_utf8_aligned(b"\xE4\xB8\xAD"),
        vec!['中', FILLER_CHAR, FILLER_CHAR]
    );
    assert_eq!(
        decode_utf8_aligned(b"\xF0\x9F\x92\xA9"),
        vec!['💩', FILLER_CHAR, FILLER_CHAR, FILLER_CHAR]
    );
    // An undecodable byte yields a bare replacement character, no filler.
    assert_eq!(decode_utf8_aligned(b"\xEE"), vec![REPLACEMENT_CHAR]);
}

#[test]
fn adapter_is_pull_based_and_terminal() {
    let bytes = b"\xC3\xA4!";
    let mut adapter = ByteAlignedDecoder::from(LossyUTF8Decoder::from(&bytes[..]));
    assert_eq!(adapter.next(), Some('ä'));
    assert_eq!(adapter.next(), Some(FILLER_CHAR));
    assert_eq!(adapter.next(), Some('!'));
    assert_eq!(adapter.next(), None);
    assert_eq!(adapter.next(), None);
}

#[test]
fn chartype_size_reports_unit_width() {
    assert_eq!(CharType::Ascii.size(), 1);
    assert_eq!(CharType::Unknown.size(), 1);
    assert_eq!(CharType::Unicode(2).size(), 2);
    assert_eq!(CharType::Unicode(4).size(), 4);
}

#[test]
fn ascii_decoder_never_merges_bytes() {
    let bytes = b"\xC3\xA4";
    let units = ascii_units_of(bytes);
    assert_eq!(
        units,
        vec![(REPLACEMENT_CHAR, CharType::Unknown), (REPLACEMENT_CHAR, CharType::Unknown)]
    );
    assert_eq!(
        decode_ascii_aligned(bytes),
        vec![REPLACEMENT_CHAR, REPLACEMENT_CHAR]
    );
}
