//! Decoded units: a character together with a classification that records how
//! many input bytes the unit consumed, and the glyphs used for substitution
//! and alignment padding.

use vstd::prelude::*;

verus! {

/// The glyph substituted for any byte or byte sequence that fails decoding.
pub const REPLACEMENT_CHAR: char = '\u{FFFD}';

/// The glyph used to pad a multi-byte unit to byte-aligned length.
/// It is deliberately distinct from [`REPLACEMENT_CHAR`].
pub const FILLER_CHAR: char = '\u{2022}';

/// Classification of one decoded unit.
#[derive(Clone, Debug, PartialEq, Eq, Structural)]
pub enum CharType {
    /// The unit is a single byte in the 7-bit range.
    Ascii,
    /// The unit is a well-formed multi-byte encoded character occupying the
    /// given number of input bytes.
    Unicode(usize),
    /// The unit is a single byte that could not be decoded.
    Unknown,
}

impl CharType {
    /// Number of input bytes the unit consumed.
    pub open spec fn size_spec(&self) -> usize {
        match self {
            CharType::Ascii => 1,
            CharType::Unicode(size) => *size,
            CharType::Unknown => 1,
        }
    }

    /// Number of input bytes the unit consumed.
    pub fn size(&self) -> (r: usize)
        ensures
            r == self.size_spec(),
    {
        match self {
            CharType::Ascii => 1,
            CharType::Unicode(size) => *size,
            CharType::Unknown => 1,
        }
    }
}

/// A run of `n` filler glyphs.
pub open spec fn filler_seq(n: nat) -> Seq<char> {
    Seq::new(n, |i: int| FILLER_CHAR)
}

/// The byte-aligned character run of one decoded unit: the decoded character
/// followed by (unit width - 1) filler glyphs.
pub open spec fn unit_chars(u: (char, CharType)) -> Seq<char> {
    seq![u.0] + filler_seq((u.1.size_spec() - 1) as nat)
}

/// The byte-aligned character stream of a whole unit stream.
pub open spec fn aligned_chars(units: Seq<(char, CharType)>) -> Seq<char>
    decreases units.len(),
{
    if units.len() == 0 {
        Seq::empty()
    } else {
        unit_chars(units[0]) + aligned_chars(units.drop_first())
    }
}

/// A raw decoder: a pull-based, single-pass producer of decoded units.
///
/// `units()` is the stream of units the decoder has yet to produce; `next`
/// pops the head of that stream. Every unit a decoder produces consumes at
/// least one input byte.
pub trait RawDecoder {
    /// The units this decoder has yet to produce.
    spec fn units(&self) -> Seq<(char, CharType)>;

    /// Internal consistency of the decoder state.
    spec fn wf(&self) -> bool;

    /// Produce the next decoded unit, or `None` at the end of the input.
    fn next(&mut self) -> (r: Option<(char, CharType)>)
        requires
            old(self).wf(),
        ensures
            final(self).wf(),
            old(self).units().len() == 0 ==> r is None && final(self).units() == old(self).units(),
            old(self).units().len() > 0 ==> {
                &&& r == Some(old(self).units()[0])
                &&& final(self).units() == old(self).units().drop_first()
                &&& old(self).units()[0].1.size_spec() >= 1
            },
    ;
}

} // verus!
