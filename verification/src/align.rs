//! Byte-alignment adapter: wraps any raw decoder and pads every decoded unit
//! with filler glyphs so that the character stream is exactly one character
//! per input byte.

use vstd::prelude::*;

use crate::ascii::ascii_units;
use crate::ascii::LossyASCIIDecoder;
use crate::laws::lemma_ascii_length_preservation;
use crate::laws::lemma_utf8_length_preservation;
use crate::unicode::utf8_units;
use crate::unicode::LossyUTF8Decoder;
use crate::unit::aligned_chars;
use crate::unit::filler_seq;
use crate::unit::RawDecoder;
use crate::unit::FILLER_CHAR;

verus! {

/// Byte-aligned character stream over any raw decoder. For each unit of
/// width W pulled from the wrapped decoder it emits the unit's character and
/// then W - 1 filler glyphs, pulling the next unit only once they are spent.
pub struct ByteAlignedDecoder<D: RawDecoder> {
    decoder: D,
    to_fill: usize,
}

impl<D: RawDecoder> ByteAlignedDecoder<D> {
    /// The characters this adapter has yet to produce: the fillers still owed
    /// for the current unit, then the aligned runs of all remaining units.
    pub closed spec fn chars(&self) -> Seq<char> {
        filler_seq(self.to_fill as nat) + aligned_chars(self.decoder.units())
    }

    /// Internal consistency of the adapter state.
    pub closed spec fn wf(&self) -> bool {
        self.decoder.wf()
    }

    /// Wrap a raw decoder, with no fillers pending.
    pub fn from(decoder: D) -> (r: Self)
        requires
            decoder.wf(),
        ensures
            r.wf(),
            r.chars() == aligned_chars(decoder.units()),
    {
        let r = ByteAlignedDecoder { decoder, to_fill: 0 };
        proof {
            assert(r.chars() =~= aligned_chars(r.decoder.units()));
        }
        r
    }

    /// Produce the next aligned character, or `None` once the wrapped
    /// decoder's input is exhausted.
    pub fn next(&mut self) -> (r: Option<char>)
        requires
            old(self).wf(),
        ensures
            final(self).wf(),
            old(self).chars().len() == 0 ==> r is None
                && final(self).chars() == old(self).chars(),
            old(self).chars().len() > 0 ==> r == Some(old(self).chars()[0])
                && final(self).chars() == old(self).chars().drop_first(),
    {
        if self.to_fill == 0 {
            match self.decoder.next() {
                None => {
                    proof {
                        assert(self.chars() =~= old(self).chars());
                    }
                    None
                },
                Some((c, info)) => {
                    let width = info.size();
                    self.to_fill = width - 1;
                    proof {
                        assert(old(self).chars()[0] == c);
                        assert(self.chars() =~= old(self).chars().drop_first());
                    }
                    Some(c)
                },
            }
        } else {
            self.to_fill = self.to_fill - 1;
            proof {
                assert(old(self).chars()[0] == FILLER_CHAR);
                assert(self.chars() =~= old(self).chars().drop_first());
            }
            Some(FILLER_CHAR)
        }
    }

    /// Drain the adapter, collecting every remaining aligned character in
    /// order.
    pub fn collect_chars(&mut self) -> (r: Vec<char>)
        requires
            old(self).wf(),
        ensures
            final(self).wf(),
            r@ == old(self).chars(),
            final(self).chars().len() == 0,
    {
        let mut out: Vec<char> = Vec::new();
        loop
            invariant
                self.wf(),
                out@ + self.chars() == old(self).chars(),
            ensures
                self.wf(),
                out@ == old(self).chars(),
                self.chars().len() == 0,
            decreases self.chars().len(),
        {
            match self.next() {
                None => {
                    break ;
                },
                Some(c) => {
                    out.push(c);
                },
            }
        }
        out
    }
}

/// Decode a whole buffer with the ASCII decoder and collect the byte-aligned
/// character stream, which has exactly one character per input byte.
pub fn decode_ascii_aligned(bytes: &[u8]) -> (r: Vec<char>)
    ensures
        r@ == aligned_chars(ascii_units(bytes@)),
        r@.len() == bytes@.len(),
{
    proof {
        lemma_ascii_length_preservation(bytes@);
    }
    let mut adapter = ByteAlignedDecoder::from(LossyASCIIDecoder::from(bytes));
    adapter.collect_chars()
}

/// Decode a whole buffer with the UTF-8 decoder and collect the byte-aligned
/// character stream, which has exactly one character per input byte.
pub fn decode_utf8_aligned(bytes: &[u8]) -> (r: Vec<char>)
    ensures
        r@ == aligned_chars(utf8_units(bytes@)),
        r@.len() == bytes@.len(),
{
    proof {
        lemma_utf8_length_preservation(bytes@);
    }
    let mut adapter = ByteAlignedDecoder::from(LossyUTF8Decoder::from(bytes));
    adapter.collect_chars()
}

} // verus!
