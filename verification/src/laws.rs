//! The laws of the decoding pipeline: length preservation of the aligned
//! stream, ASCII fidelity, substitution of undecodable bytes, the UTF-8
//! round trip, single-byte resynchronization on truncated input, and the
//! shape of each unit's aligned run.

use vstd::prelude::*;
use vstd::utf8::char_is_scalar;
use vstd::utf8::char_u32_cast;
use vstd::utf8::encode_scalar;
use vstd::utf8::encode_utf8;
use vstd::utf8::encode_utf8_first_scalar;
use vstd::utf8::is_continuation_byte;

use crate::ascii::ascii_unit;
use crate::ascii::ascii_units;
use crate::unicode::declared_width;
use crate::unicode::multibyte_ok;
use crate::unicode::utf8_step_unit;
use crate::unicode::utf8_step_width;
use crate::unicode::utf8_units;
use crate::unicode::utf8_units_from;
use crate::unit::aligned_chars;
use crate::unit::unit_chars;
use crate::unit::CharType;
use crate::unit::FILLER_CHAR;
use crate::unit::REPLACEMENT_CHAR;

verus! {

/// The aligned run of a decoded unit of width W is exactly one real (or
/// replacement) character followed by exactly W - 1 filler glyphs, and the
/// filler glyph is never the replacement character.
pub proof fn lemma_unit_run_shape(u: (char, CharType))
    requires
        u.1.size_spec() >= 1,
    ensures
        unit_chars(u).len() == u.1.size_spec(),
        unit_chars(u)[0] == u.0,
        forall|k: int| 1 <= k < unit_chars(u).len() ==> unit_chars(u)[k] == FILLER_CHAR,
        FILLER_CHAR != REPLACEMENT_CHAR,
{
}

/// The ASCII decoder emits exactly one unit per input byte, so its aligned
/// character stream is exactly as long as the byte buffer.
pub proof fn lemma_ascii_length_preservation(bytes: Seq<u8>)
    ensures
        ascii_units(bytes).len() == bytes.len(),
        aligned_chars(ascii_units(bytes)).len() == bytes.len(),
    decreases bytes.len(),
{
    if bytes.len() > 0 {
        lemma_ascii_length_preservation(bytes.drop_first());
        assert(ascii_units(bytes).drop_first() =~= ascii_units(bytes.drop_first()));
    }
}

/// Every step of the UTF-8 decoder consumes between one byte and the rest of
/// the buffer, and emits a unit whose aligned run is as long as the step.
proof fn lemma_utf8_step(bytes: Seq<u8>, i: int)
    requires
        0 <= i < bytes.len(),
    ensures
        1 <= utf8_step_width(bytes, i),
        i + utf8_step_width(bytes, i) <= bytes.len(),
        unit_chars(utf8_step_unit(bytes, i)).len() == utf8_step_width(bytes, i),
        utf8_step_unit(bytes, i).1.size_spec() == utf8_step_width(bytes, i),
{
}

/// The UTF-8 decoder's aligned character stream from any position is exactly
/// as long as the bytes not yet consumed.
proof fn lemma_utf8_length_preservation_from(bytes: Seq<u8>, i: int)
    requires
        0 <= i <= bytes.len(),
    ensures
        aligned_chars(utf8_units_from(bytes, i)).len() == bytes.len() - i,
    decreases bytes.len() - i,
{
    if i < bytes.len() {
        let u = utf8_step_unit(bytes, i);
        let w = utf8_step_width(bytes, i);
        lemma_utf8_step(bytes, i);
        lemma_utf8_length_preservation_from(bytes, i + w);
        assert(utf8_units_from(bytes, i).drop_first() =~= utf8_units_from(bytes, i + w));
    }
}

/// The UTF-8 decoder's aligned character stream is exactly as long as the
/// byte buffer.
pub proof fn lemma_utf8_length_preservation(bytes: Seq<u8>)
    ensures
        aligned_chars(utf8_units(bytes)).len() == bytes.len(),
{
    lemma_utf8_length_preservation_from(bytes, 0);
}

/// The ASCII decoder maps every 7-bit byte to the character with that exact
/// code point, classified `Ascii`, consuming exactly one byte.
pub proof fn lemma_ascii_fidelity(b: u8)
    requires
        b <= 0x7F,
    ensures
        ascii_unit(b) == ((b as char), CharType::Ascii),
        ascii_unit(b).1.size_spec() == 1,
{
}

/// The UTF-8 decoder maps every 7-bit byte, wherever it stands, to the
/// character with that exact code point, classified `Ascii`, consuming
/// exactly one byte.
pub proof fn lemma_utf8_ascii_fidelity(bytes: Seq<u8>, i: int)
    requires
        0 <= i < bytes.len(),
        bytes[i] <= 0x7F,
    ensures
        utf8_step_unit(bytes, i) == ((bytes[i] as char), CharType::Ascii),
        utf8_step_width(bytes, i) == 1,
{
}

/// The ASCII decoder maps every byte outside the 7-bit range to the
/// replacement character, classified `Unknown`, consuming exactly one byte.
pub proof fn lemma_ascii_substitution(b: u8)
    requires
        0x80 <= b,
    ensures
        ascii_unit(b) == (REPLACEMENT_CHAR, CharType::Unknown),
        ascii_unit(b).1.size_spec() == 1,
{
}

/// Wherever the well-formed encoding of a multi-byte character stands in a
/// buffer, the UTF-8 decoder reproduces that exact character, classified
/// `Unicode` with the encoding's true byte length, and consumes exactly that
/// many bytes.
pub proof fn lemma_utf8_round_trip(bytes: Seq<u8>, i: int, c: char)
    requires
        c as u32 > 0x7F,
        0 <= i,
        i + encode_scalar(c as u32).len() <= bytes.len(),
        bytes.subrange(i, i + encode_scalar(c as u32).len()) == encode_scalar(c as u32),
    ensures
        utf8_step_unit(bytes, i) == (c, CharType::Unicode(encode_scalar(c as u32).len() as usize)),
        utf8_step_width(bytes, i) == encode_scalar(c as u32).len(),
{
    let s = c as u32;
    let enc = encode_scalar(s);
    let w = enc.len() as int;
    char_is_scalar(c);
    encode_utf8_first_scalar(seq![c]);
    assert(encode_utf8(seq![c]) =~= enc) by {
        assert(Seq::<char>::empty() =~= seq![c].drop_first());
        assert(encode_utf8(seq![c].drop_first()) =~= Seq::<u8>::empty());
    }
    assert(bytes[i] == enc[0]);
    assert(declared_width(bytes[i]) == w);
    assert(multibyte_ok(bytes, i));
    char_u32_cast(c, s);
}

/// A buffer that ends in the middle of a declared multi-byte unit (the lead
/// byte announces more bytes than remain, and only continuation bytes follow
/// it) decodes to exactly one `Unknown` unit per remaining byte: the decoder
/// resynchronizes byte by byte and never reads past the end.
pub proof fn lemma_truncation(bytes: Seq<u8>, i: int)
    requires
        0 <= i < bytes.len(),
        2 <= declared_width(bytes[i]),
        i + declared_width(bytes[i]) > bytes.len(),
        forall|j: int| i < j < bytes.len() ==> is_continuation_byte(#[trigger] bytes[j]),
    ensures
        utf8_units_from(bytes, i) == Seq::new(
            (bytes.len() - i) as nat,
            |k: int| (REPLACEMENT_CHAR, CharType::Unknown),
        ),
{
    assert(!multibyte_ok(bytes, i));
    lemma_continuation_run(bytes, i + 1);
    assert(utf8_units_from(bytes, i) =~= Seq::new(
        (bytes.len() - i) as nat,
        |k: int| (REPLACEMENT_CHAR, CharType::Unknown),
    ));
}

/// A run of nothing but continuation bytes decodes to one `Unknown` unit per
/// byte.
proof fn lemma_continuation_run(bytes: Seq<u8>, i: int)
    requires
        0 <= i <= bytes.len(),
        forall|j: int| i <= j < bytes.len() ==> is_continuation_byte(#[trigger] bytes[j]),
    ensures
        utf8_units_from(bytes, i) == Seq::new(
            (bytes.len() - i) as nat,
            |k: int| (REPLACEMENT_CHAR, CharType::Unknown),
        ),
    decreases bytes.len() - i,
{
    if i < bytes.len() {
        lemma_continuation_run(bytes, i + 1);
    }
    assert(utf8_units_from(bytes, i) =~= Seq::new(
        (bytes.len() - i) as nat,
        |k: int| (REPLACEMENT_CHAR, CharType::Unknown),
    ));
}

} // verus!
