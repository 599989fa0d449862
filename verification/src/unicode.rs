//! Lossy UTF-8 raw decoder: decodes well-formed 1-4 byte sequences to their
//! character, and turns every malformed or truncated byte into a single
//! replacement unit so that decoding never fails and never skips input.

use vstd::prelude::*;
use vstd::utf8::decode_first_codepoint;
use vstd::utf8::decode_first_scalar;
use vstd::utf8::is_leading_byte_width_1;
use vstd::utf8::is_leading_byte_width_2;
use vstd::utf8::is_leading_byte_width_3;
use vstd::utf8::is_leading_byte_width_4;
use vstd::utf8::is_scalar;
use vstd::utf8::valid_first_scalar;

use crate::unit::CharType;
use crate::unit::RawDecoder;
use crate::unit::REPLACEMENT_CHAR;

verus! {

/// Relies on `char::from_u32`: it returns the character with the given code
/// point, or `None` when the value is a surrogate or above the Unicode range.
pub assume_specification[ char::from_u32 ](v: u32) -> (r: Option<char>)
    ensures
        r is Some <==> is_scalar(v),
        r matches Some(c) ==> c as u32 == v,
;

/// The unit width announced by a lead byte: 1 for a 7-bit byte, 2 to 4 for a
/// multi-byte lead, and 1 for a byte that can never start a unit (a stray
/// continuation byte or an invalid lead), which is consumed on its own.
pub open spec fn declared_width(lead: u8) -> int {
    if is_leading_byte_width_2(lead) {
        2
    } else if is_leading_byte_width_3(lead) {
        3
    } else if is_leading_byte_width_4(lead) {
        4
    } else {
        1
    }
}

/// True when a multi-byte unit declared at position `i` fits in the buffer
/// and those bytes form exactly one well-formed encoded character.
pub open spec fn multibyte_ok(bytes: Seq<u8>, i: int) -> bool
    recommends
        0 <= i < bytes.len(),
{
    let w = declared_width(bytes[i]);
    &&& i + w <= bytes.len()
    &&& valid_first_scalar(bytes.subrange(i, i + w))
}

/// The unit the UTF-8 decoder produces at position `i`: the byte's own
/// character for a 7-bit byte, the decoded character for a well-formed
/// multi-byte unit, and the replacement character for anything else.
pub open spec fn utf8_step_unit(bytes: Seq<u8>, i: int) -> (char, CharType)
    recommends
        0 <= i < bytes.len(),
{
    let b = bytes[i];
    if is_leading_byte_width_1(b) {
        (b as char, CharType::Ascii)
    } else if declared_width(b) >= 2 && multibyte_ok(bytes, i) {
        let w = declared_width(b);
        (decode_first_scalar(bytes.subrange(i, i + w)) as char, CharType::Unicode(w as usize))
    } else {
        (REPLACEMENT_CHAR, CharType::Unknown)
    }
}

/// How many bytes the step at position `i` consumes: the declared width for a
/// well-formed multi-byte unit, otherwise exactly one byte, so that decoding
/// resynchronizes at the very next byte after an error.
pub open spec fn utf8_step_width(bytes: Seq<u8>, i: int) -> int
    recommends
        0 <= i < bytes.len(),
{
    let b = bytes[i];
    if declared_width(b) >= 2 && multibyte_ok(bytes, i) {
        declared_width(b)
    } else {
        1
    }
}

/// The unit stream the UTF-8 decoder produces from position `i` to the end of
/// the buffer.
pub open spec fn utf8_units_from(bytes: Seq<u8>, i: int) -> Seq<(char, CharType)>
    decreases bytes.len() - i,
    when 0 <= i <= bytes.len()
{
    if i >= bytes.len() {
        Seq::empty()
    } else {
        seq![utf8_step_unit(bytes, i)] + utf8_units_from(bytes, i + utf8_step_width(bytes, i))
    }
}

/// The full unit stream of the UTF-8 decoder on a byte buffer.
pub open spec fn utf8_units(bytes: Seq<u8>) -> Seq<(char, CharType)> {
    utf8_units_from(bytes, 0)
}

/// Lossy UTF-8 decoder over a borrowed byte buffer. Pull-based and
/// single-pass: the cursor advances only when the next unit is requested.
pub struct LossyUTF8Decoder<'a> {
    bytes: &'a [u8],
    cursor: usize,
}

impl<'a> LossyUTF8Decoder<'a> {
    /// Construct a decoder positioned at the start of the buffer.
    pub fn from(bytes: &'a [u8]) -> (r: Self)
        ensures
            r.wf(),
            r.units() == utf8_units(bytes@),
    {
        LossyUTF8Decoder { bytes, cursor: 0 }
    }

    /// Attempt to decode the multi-byte unit of declared width `w` at the
    /// cursor, returning its character exactly when those `w` bytes form one
    /// well-formed encoded character.
    fn try_decode_multibyte(&self, w: usize) -> (r: Option<char>)
        requires
            self.wf(),
            self.cursor < self.bytes@.len(),
            2 <= w <= 4,
            w as int == declared_width(self.bytes@[self.cursor as int]),
            self.bytes@.len() - self.cursor as int >= w,
        ensures
            ({
                let s = self.bytes@.subrange(self.cursor as int, self.cursor + w);
                &&& (r is Some <==> valid_first_scalar(s))
                &&& (r matches Some(c) ==> c == decode_first_scalar(s) as char)
            }),
    {
        let ghost s = self.bytes@.subrange(self.cursor as int, self.cursor + w);
        let b0 = self.bytes[self.cursor];
        let b1 = self.bytes[self.cursor + 1];
        proof {
            assert(s.len() == w && s[0] == b0 && s[1] == b1);
        }
        if !(0x80 <= b1 && b1 <= 0xBF) {
            return None;
        }
        if w == 2 {
            let cp: u32 = (((b0 & 0x1F) as u32) << 6u32) | ((b1 & 0x3F) as u32);
            proof {
                assert((((b0 & 0x1F) as u32) << 6u32 | ((b1 & 0x3F) as u32)) <= 0x7FF)
                    by (bit_vector);
                assert(cp == decode_first_codepoint(s));
            }
            if cp >= 0x80 {
                Some(scalar_to_char(cp))
            } else {
                None
            }
        } else {
            let b2 = self.bytes[self.cursor + 2];
            proof {
                assert(s[2] == b2);
            }
            if !(0x80 <= b2 && b2 <= 0xBF) {
                return None;
            }
            if w == 3 {
                let cp: u32 = (((b0 & 0x0F) as u32) << 12u32) | (((b1 & 0x3F) as u32) << 6u32)
                    | ((b2 & 0x3F) as u32);
                proof {
                    assert(((((b0 & 0x0F) as u32) << 12u32) | (((b1 & 0x3F) as u32) << 6u32) | ((b2
                        & 0x3F) as u32)) <= 0xFFFF) by (bit_vector);
                    assert(cp == decode_first_codepoint(s));
                }
                if cp >= 0x800 && !(0xD800 <= cp && cp <= 0xDFFF) {
                    Some(scalar_to_char(cp))
                } else {
                    None
                }
            } else {
                let b3 = self.bytes[self.cursor + 3];
                proof {
                    assert(s[3] == b3);
                }
                if !(0x80 <= b3 && b3 <= 0xBF) {
                    return None;
                }
                let cp: u32 = (((b0 & 0x07) as u32) << 18u32) | (((b1 & 0x3F) as u32) << 12u32) | ((
                (b2 & 0x3F) as u32) << 6u32) | ((b3 & 0x3F) as u32);
                proof {
                    assert(cp == decode_first_codepoint(s));
                }
                if 0x10000 <= cp && cp <= 0x10FFFF {
                    Some(scalar_to_char(cp))
                } else {
                    None
                }
            }
        }
    }
}

/// Turn a Unicode scalar value into the character with that code point.
fn scalar_to_char(cp: u32) -> (r: char)
    requires
        is_scalar(cp),
    ensures
        r == cp as char,
        r as u32 == cp,
{
    match char::from_u32(cp) {
        Some(c) => {
            proof {
                vstd::utf8::char_u32_cast(c, cp);
            }
            c
        },
        None => {
            // Unreachable: a scalar value always has a character.
            proof {
                assert(false);
            }
            REPLACEMENT_CHAR
        },
    }
}

impl<'a> RawDecoder for LossyUTF8Decoder<'a> {
    /// The units of every byte not yet consumed.
    closed spec fn units(&self) -> Seq<(char, CharType)> {
        utf8_units_from(self.bytes@, self.cursor as int)
    }

    closed spec fn wf(&self) -> bool {
        self.cursor <= self.bytes@.len()
    }

    fn next(&mut self) -> (r: Option<(char, CharType)>) {
        if self.cursor >= self.bytes.len() {
            return None;
        }
        let ghost i = self.cursor as int;
        let b = self.bytes[self.cursor];
        if b <= 0x7F {
            self.cursor = self.cursor + 1;
            proof {
                assert(self.units() =~= old(self).units().drop_first());
            }
            return Some((b as char, CharType::Ascii));
        }
        let w: usize = if 0xC0 <= b && b <= 0xDF {
            2
        } else if 0xE0 <= b && b <= 0xEF {
            3
        } else if 0xF0 <= b && b <= 0xF7 {
            4
        } else {
            1
        };
        proof {
            assert(w as int == declared_width(b));
        }
        if w == 1 || self.bytes.len() - self.cursor < w {
            // A stray continuation byte, an invalid lead byte, or a unit
            // truncated by the end of the buffer: one replacement unit.
            proof {
                assert(!multibyte_ok(self.bytes@, i));
            }
            self.cursor = self.cursor + 1;
            proof {
                assert(self.units() =~= old(self).units().drop_first());
            }
            return Some((REPLACEMENT_CHAR, CharType::Unknown));
        }
        match self.try_decode_multibyte(w) {
            Some(c) => {
                proof {
                    assert(multibyte_ok(self.bytes@, i));
                }
                self.cursor = self.cursor + w;
                proof {
                    assert(self.units() =~= old(self).units().drop_first());
                }
                Some((c, CharType::Unicode(w)))
            },
            None => {
                proof {
                    assert(!multibyte_ok(self.bytes@, i));
                }
                self.cursor = self.cursor + 1;
                proof {
                    assert(self.units() =~= old(self).units().drop_first());
                }
                Some((REPLACEMENT_CHAR, CharType::Unknown))
            },
        }
    }
}

} // verus!
