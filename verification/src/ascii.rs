//! ASCII-only raw decoder: one unit per input byte, with every byte outside
//! the 7-bit range replaced by the replacement character.

use vstd::prelude::*;

use crate::unit::CharType;
use crate::unit::RawDecoder;
use crate::unit::REPLACEMENT_CHAR;

verus! {

/// The unit the ASCII decoder produces for one byte: the byte's own character
/// if it is 7-bit, otherwise the replacement character marked `Unknown`.
/// Either way the unit consumes exactly one byte.
pub open spec fn ascii_unit(b: u8) -> (char, CharType) {
    if b <= 0x7F {
        (b as char, CharType::Ascii)
    } else {
        (REPLACEMENT_CHAR, CharType::Unknown)
    }
}

/// The full unit stream of the ASCII decoder on a byte buffer: one unit per
/// byte, never skipping or merging bytes.
pub open spec fn ascii_units(bytes: Seq<u8>) -> Seq<(char, CharType)> {
    Seq::new(bytes.len(), |i: int| ascii_unit(bytes[i]))
}

/// Lossy ASCII decoder over a borrowed byte buffer. Pull-based and
/// single-pass: the cursor advances only when the next unit is requested.
pub struct LossyASCIIDecoder<'a> {
    bytes: &'a [u8],
    cursor: usize,
}

impl<'a> LossyASCIIDecoder<'a> {
    /// Construct a decoder positioned at the start of the buffer.
    pub fn from(bytes: &'a [u8]) -> (r: Self)
        ensures
            r.wf(),
            r.units() == ascii_units(bytes@),
    {
        let r = LossyASCIIDecoder { bytes, cursor: 0 };
        proof {
            assert(r.units() =~= ascii_units(bytes@));
        }
        r
    }
}

impl<'a> RawDecoder for LossyASCIIDecoder<'a> {
    /// One unit for each byte not yet consumed.
    closed spec fn units(&self) -> Seq<(char, CharType)> {
        ascii_units(self.bytes@.subrange(self.cursor as int, self.bytes@.len() as int))
    }

    closed spec fn wf(&self) -> bool {
        self.cursor <= self.bytes@.len()
    }

    fn next(&mut self) -> (r: Option<(char, CharType)>) {
        if self.cursor < self.bytes.len() {
            let byte = self.bytes[self.cursor];
            self.cursor = self.cursor + 1;
            proof {
                assert(self.units() =~= old(self).units().drop_first());
            }
            if byte <= 0x7F {
                Some((byte as char, CharType::Ascii))
            } else {
                Some((REPLACEMENT_CHAR, CharType::Unknown))
            }
        } else {
            proof {
                assert(self.units() =~= old(self).units());
            }
            None
        }
    }
}

} // verus!
