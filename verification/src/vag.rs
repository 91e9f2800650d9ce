//! The chunk, its flag and its layout in the stream.

use vstd::prelude::*;

verus! {

/// Payload bytes in one chunk.
pub const VAG_SAMPLE_BYTES: usize = 14;

/// Samples in one block: two 4-bit codes per payload byte.
pub const VAG_SAMPLE_NIBBLE: usize = 28;

/// Bytes in one chunk: header, flag and payload.
pub const VAG_CHUNK_BYTES: usize = 16;

/// The marker carried in the second byte of every chunk.
#[derive(Clone, Copy, Debug, PartialEq, Eq, Structural)]
pub enum VAGFlag {
    Nothing,
    LoopLastBlock,
    LoopRegion,
    LoopEnd,
    LoopFirstBlock,
    Unk,
    LoopStart,
    PlaybackEnd,
}

impl VAGFlag {
    /// The number that stands for this flag in the stream.
    pub open spec fn code(self) -> u8 {
        match self {
            VAGFlag::Nothing => 0,
            VAGFlag::LoopLastBlock => 1,
            VAGFlag::LoopRegion => 2,
            VAGFlag::LoopEnd => 3,
            VAGFlag::LoopFirstBlock => 4,
            VAGFlag::Unk => 5,
            VAGFlag::LoopStart => 6,
            VAGFlag::PlaybackEnd => 7,
        }
    }

    /// The byte written for this flag.
    pub fn value(self) -> (r: u8)
        ensures
            r == self.code(),
    {
        match self {
            VAGFlag::Nothing => 0,
            VAGFlag::LoopLastBlock => 1,
            VAGFlag::LoopRegion => 2,
            VAGFlag::LoopEnd => 3,
            VAGFlag::LoopFirstBlock => 4,
            VAGFlag::Unk => 5,
            VAGFlag::LoopStart => 6,
            VAGFlag::PlaybackEnd => 7,
        }
    }
}

/// The flag of the block at `index` of a packet, of which `remaining` samples
/// are left to encode when the block starts.
pub open spec fn flag_at(
    remaining: int,
    index: int,
    loop_flag: bool,
    loop_start: int,
    loop_end: int,
) -> VAGFlag {
    if remaining > 28 {
        if !loop_flag {
            VAGFlag::Nothing
        } else if index == loop_start {
            VAGFlag::LoopStart
        } else if index == loop_end {
            VAGFlag::LoopEnd
        } else {
            VAGFlag::LoopRegion
        }
    } else if loop_flag {
        VAGFlag::LoopEnd
    } else {
        VAGFlag::LoopLastBlock
    }
}

/// Whether the packet ends early with the block at `index`: the block closes
/// the loop before the packet's last block.
pub open spec fn stops_at(
    remaining: int,
    index: int,
    loop_flag: bool,
    loop_start: int,
    loop_end: int,
) -> bool {
    remaining > 28 && loop_flag && index != loop_start && index == loop_end
}

/// Picks the flag of one block from its place in the packet and the loop.
pub fn block_flag(
    remaining: usize,
    index: usize,
    loop_flag: bool,
    loop_start: u32,
    loop_end: u32,
) -> (r: (VAGFlag, bool))
    ensures
        r.0 == flag_at(remaining as int, index as int, loop_flag, loop_start as int, loop_end as int),
        r.1 == stops_at(remaining as int, index as int, loop_flag, loop_start as int, loop_end as int),
{
    if remaining > 28 {
        if !loop_flag {
            (VAGFlag::Nothing, false)
        } else if index == loop_start as usize {
            (VAGFlag::LoopStart, false)
        } else if index == loop_end as usize {
            (VAGFlag::LoopEnd, true)
        } else {
            (VAGFlag::LoopRegion, false)
        }
    } else if loop_flag {
        (VAGFlag::LoopEnd, false)
    } else {
        (VAGFlag::LoopLastBlock, false)
    }
}

/// The header byte: predictor index in the high nibble, shift in the low.
pub open spec fn header_bits(predict: u8, shift: u8) -> u8 {
    ((predict << 4) & 0xF0) | (shift & 0x0F)
}

/// For nibbles the header byte is sixteen times the predictor plus the shift.
pub proof fn lemma_header_of_nibbles(predict: u8, shift: u8)
    requires
        predict < 16,
        shift < 16,
    ensures
        header_bits(predict, shift) == predict * 16 + shift,
        header_bits(predict, shift) / 16 == predict,
        header_bits(predict, shift) % 16 == shift,
{
    assert(((predict << 4) & 0xF0) | (shift & 0x0F) == predict * 16 + shift) by (bit_vector)
        requires
            predict < 16,
            shift < 16,
    ;
}

/// One encoded block before it is laid out as bytes.
#[derive(Clone, Copy, Debug)]
pub struct VAGChunk {
    pub shift: i8,
    pub predict: i8,
    pub flags: u8,
    pub sample: [u8; 14],
}

impl Default for VAGChunk {
    fn default() -> (r: VAGChunk)
        ensures
            r.shift == 0,
            r.predict == 0,
            r.flags == 0,
            r.sample@ == Seq::new(14, |i: int| 0u8),
    {
        let r = VAGChunk { shift: 0, predict: 0, flags: 0, sample: [0u8; 14] };
        assert(r.sample@ =~= Seq::new(14, |i: int| 0u8));
        r
    }
}

impl VAGChunk {
    /// The header byte of this chunk.
    pub open spec fn header(&self) -> u8 {
        header_bits(self.predict as u8, self.shift as u8)
    }

    /// The sixteen bytes of this chunk, in stream order.
    pub open spec fn bytes(&self) -> Seq<u8> {
        seq![self.header(), self.flags] + self.sample@
    }

    /// Computes the header byte.
    pub fn header_byte(&self) -> (r: u8)
        ensures
            r == self.header(),
    {
        let p: u8 = self.predict as u8;
        let s: u8 = self.shift as u8;
        ((p << 4) & 0xF0) | (s & 0x0F)
    }

    /// Appends the chunk's sixteen bytes to `out`.
    pub fn write_to(&self, out: &mut Vec<u8>)
        ensures
            final(out)@ == old(out)@ + self.bytes(),
            self.bytes().len() == 16,
    {
        let ghost before = out@;
        out.push(self.header_byte());
        out.push(self.flags);
        let mut k: usize = 0;
        while k < 14
            invariant
                k <= 14,
                out@ == before + seq![self.header(), self.flags] + self.sample@.subrange(0, k as int),
            decreases 14 - k,
        {
            out.push(self.sample[k]);
            assert(self.sample@.subrange(0, k as int).push(self.sample@[k as int])
                =~= self.sample@.subrange(0, k as int + 1));
            k += 1;
        }
        assert(self.sample@.subrange(0, 14) =~= self.sample@);
        assert(out@ =~= before + self.bytes());
    }
}

} // verus!
