//! Encoding of blocks, packets and the end of a stream.

use vstd::prelude::*;
use crate::predictor::{clamp, clamp_sample, in_range, select_predictor, selection};
use crate::quantize::{
    derive_shift, history, pack, packed, quantize_block, reconstructed, shift_for,
};
use crate::vag::{block_flag, flag_at, header_bits, VAGChunk, VAGFlag};

verus! {

/// What one block hands to the next within a packet: the last two samples
/// that entered the prediction, and the reconstruction history in units of
/// 2^-32.
#[derive(Clone, Copy, Debug, PartialEq, Eq, Structural)]
pub struct BlockState {
    pub prev1: i32,
    pub prev2: i32,
    pub hist1: i64,
    pub hist2: i64,
}

impl BlockState {
    /// The samples lie in the range of the prediction and the history in
    /// the range in which it is kept.
    pub open spec fn wf(&self) -> bool {
        &&& -30720 <= self.prev1 <= 30719
        &&& -30720 <= self.prev2 <= 30719
        &&& -0x4000_0000_0000_0000 <= self.hist1 <= 0x4000_0000_0000_0000
        &&& -0x4000_0000_0000_0000 <= self.hist2 <= 0x4000_0000_0000_0000
    }

    /// The state at the start of every packet: all zero.
    pub open spec fn start() -> BlockState {
        BlockState { prev1: 0, prev2: 0, hist1: 0, hist2: 0 }
    }

    /// The state at the start of a packet.
    pub fn new() -> (r: BlockState)
        ensures
            r == BlockState::start(),
            r.wf(),
    {
        BlockState { prev1: 0, prev2: 0, hist1: 0, hist2: 0 }
    }
}

/// One block after encoding.
pub struct EncodedBlock {
    pub predict: u8,
    pub shift: u8,
    pub quantized: Vec<i16>,
    pub payload: [u8; 14],
    pub state: BlockState,
}

/// The 28 samples of a block as they enter the prediction.
pub open spec fn clamped(block: Seq<i16>) -> Seq<i32> {
    Seq::new(28, |k: int| clamp_sample(block[k] as int) as i32)
}

/// The predictor chosen for a block.
pub open spec fn block_predict(block: Seq<i16>, st: BlockState) -> int {
    selection(clamped(block), st.prev1 as int, st.prev2 as int).0
}

/// The shift of a block: derived from the lowest peak, cut to an integer.
pub open spec fn block_shift(block: Seq<i16>, st: BlockState) -> int {
    shift_for((selection(clamped(block), st.prev1 as int, st.prev2 as int).1 / 64) as u32) as int
}

/// The reconstructed sample `k` of a block.
pub open spec fn block_sample(block: Seq<i16>, st: BlockState, k: int) -> int {
    reconstructed(
        clamped(block),
        st.prev1 as int,
        st.prev2 as int,
        block_predict(block, st),
        block_shift(block, st),
        st.hist1 as int,
        st.hist2 as int,
        k,
    )
}

/// The 14 payload bytes of a block.
pub open spec fn block_payload(block: Seq<i16>, st: BlockState) -> Seq<u8> {
    Seq::new(
        14,
        |k: int| packed(block_sample(block, st, 2 * k), block_sample(block, st, 2 * k + 1)) as u8,
    )
}

/// The state that a block leaves for the next one.
pub open spec fn block_next(block: Seq<i16>, st: BlockState) -> BlockState {
    let h = history(
        clamped(block),
        st.prev1 as int,
        st.prev2 as int,
        block_predict(block, st),
        block_shift(block, st),
        st.hist1 as int,
        st.hist2 as int,
        28,
    );
    BlockState {
        prev1: clamped(block)[27],
        prev2: clamped(block)[26],
        hist1: h.0 as i64,
        hist2: h.1 as i64,
    }
}

/// Encodes one block of 28 samples, starting from the state that the block
/// before left.
pub fn encode_block(block: &Vec<i16>, st: BlockState) -> (r: EncodedBlock)
    requires
        block@.len() == 28,
        st.wf(),
    ensures
        r.predict == block_predict(block@, st),
        r.predict < 5,
        r.shift == block_shift(block@, st),
        r.shift <= 12,
        r.quantized@.len() == 28,
        forall|k: int| 0 <= k < 28 ==> #[trigger] r.quantized@[k] as int == block_sample(block@, st, k),
        r.payload@ == block_payload(block@, st),
        r.state == block_next(block@, st),
        r.state.wf(),
{
    let mut c: Vec<i32> = Vec::new();
    let mut k: usize = 0;
    while k < 28
        invariant
            k <= 28,
            block@.len() == 28,
            c@.len() == k,
            forall|j: int| 0 <= j < k ==> #[trigger] c@[j] == clamped(block@)[j],
            forall|j: int| 0 <= j < k ==> -30720 <= #[trigger] c@[j] <= 30719,
        decreases 28 - k,
    {
        c.push(clamp(block[k]));
        k += 1;
    }
    assert(c@ =~= clamped(block@));
    let chosen: (usize, i64) = select_predictor(&c, st.prev1, st.prev2);
    let shift: u32 = derive_shift((chosen.1 / 64) as u32);
    let q: (Vec<i16>, i64, i64) = quantize_block(
        &c,
        st.prev1,
        st.prev2,
        chosen.0,
        shift,
        st.hist1,
        st.hist2,
    );
    let payload: [u8; 14] = pack(&q.0);
    assert(payload@ =~= block_payload(block@, st));
    let state = BlockState { prev1: c[27], prev2: c[26], hist1: q.1, hist2: q.2 };
    EncodedBlock { predict: chosen.0 as u8, shift: shift as u8, quantized: q.0, payload, state }
}

/// The block at `index` of a packet: its 28 samples, with zeros where the
/// packet has ended.
pub open spec fn block_at(samples: Seq<i16>, index: int) -> Seq<i16> {
    Seq::new(
        28,
        |k: int|
            if 28 * index + k < samples.len() {
                samples[28 * index + k]
            } else {
                0i16
            },
    )
}

/// The state in which the block at `index` of a packet starts.
pub open spec fn state_before(samples: Seq<i16>, index: nat) -> BlockState
    decreases index,
{
    if index == 0 {
        BlockState::start()
    } else {
        block_next(block_at(samples, index - 1), state_before(samples, (index - 1) as nat))
    }
}

/// The header byte of the chunk at `index` of a packet.
pub open spec fn chunk_header(samples: Seq<i16>, index: nat) -> u8 {
    let block = block_at(samples, index as int);
    let st = state_before(samples, index);
    header_bits(block_predict(block, st) as u8, block_shift(block, st) as u8)
}

/// The 16 bytes of the chunk at `index` of a packet.
pub open spec fn chunk_at(
    samples: Seq<i16>,
    index: nat,
    loop_flag: bool,
    loop_start: int,
    loop_end: int,
) -> Seq<u8> {
    seq![
        chunk_header(samples, index),
        flag_at(samples.len() - 28 * index, index as int, loop_flag, loop_start, loop_end).code(),
    ] + block_payload(block_at(samples, index as int), state_before(samples, index))
}

/// The number of chunks that a packet of `len` samples gives: one for every
/// 28 samples begun, or fewer where a block before the last closes the loop.
pub open spec fn chunk_count(len: int, loop_flag: bool, loop_start: int, loop_end: int) -> int {
    let blocks = (len + 27) / 28;
    if loop_flag && loop_end != loop_start && loop_end < blocks - 1 {
        loop_end + 1
    } else {
        blocks
    }
}

/// The bytes of the first `n` chunks of a packet.
pub open spec fn packet_bytes(
    samples: Seq<i16>,
    n: nat,
    loop_flag: bool,
    loop_start: int,
    loop_end: int,
) -> Seq<u8>
    decreases n,
{
    if n == 0 {
        Seq::empty()
    } else {
        packet_bytes(samples, (n - 1) as nat, loop_flag, loop_start, loop_end) + chunk_at(
            samples,
            (n - 1) as nat,
            loop_flag,
            loop_start,
            loop_end,
        )
    }
}

/// The bytes that close a stream after the header byte `header`: one chunk
/// that marks the end of playback, or nothing where the stream loops.
pub open spec fn ending_bytes(header: u8, loop_flag: bool) -> Seq<u8> {
    if loop_flag {
        Seq::empty()
    } else {
        seq![header, 7u8] + Seq::new(14, |i: int| 0u8)
    }
}

/// The chunks of the first `n` packets of a stream that does not loop.
pub open spec fn stream_body(packets: Seq<Vec<i16>>, n: nat) -> Seq<u8>
    decreases n,
{
    if n == 0 {
        Seq::empty()
    } else {
        stream_body(packets, (n - 1) as nat) + packet_bytes(
            packets[n - 1]@,
            chunk_count(packets[n - 1]@.len() as int, false, 0, 0) as nat,
            false,
            0,
            0,
        )
    }
}

/// The header byte of the last chunk among the first `n` packets of a
/// stream; zero where they gave no chunk.
pub open spec fn header_after(packets: Seq<Vec<i16>>, n: nat) -> u8
    decreases n,
{
    if n == 0 {
        0
    } else if packets[n - 1]@.len() == 0 {
        header_after(packets, (n - 1) as nat)
    } else {
        chunk_header(
            packets[n - 1]@,
            (chunk_count(packets[n - 1]@.len() as int, false, 0, 0) - 1) as nat,
        )
    }
}

/// A whole stream that does not loop: the chunks of all its packets, then
/// the chunk that ends it.
pub open spec fn stream_bytes(packets: Seq<Vec<i16>>) -> Seq<u8> {
    stream_body(packets, packets.len()) + ending_bytes(header_after(packets, packets.len()), false)
}

/// Encodes a whole stream that does not loop: every packet in turn with a
/// new encoder, then the ending. The bytes are appended to `out`.
pub fn encode_stream(packets: &Vec<Vec<i16>>, out: &mut Vec<u8>)
    ensures
        final(out)@ == old(out)@ + stream_bytes(packets@),
{
    let ghost before = out@;
    let mut encoder = VAGEncoder::new();
    let mut i: usize = 0;
    while i < packets.len()
        invariant
            i <= packets@.len(),
            out@ == before + stream_body(packets@, i as nat),
            encoder.last_header() == header_after(packets@, i as nat),
        decreases packets@.len() - i,
    {
        encoder.encode_chunk(&packets[i], false, 0, 0, out);
        assert(out@ =~= before + stream_body(packets@, (i + 1) as nat));
        i += 1;
    }
    encoder.encode_ending(false, out);
    assert(out@ =~= before + stream_bytes(packets@));
}

/// The encoder of one output stream. It remembers the header byte of the
/// chunk it emitted last.
pub struct VAGEncoder {
    last_predict_and_shift: u8,
}

impl Default for VAGEncoder {
    fn default() -> (r: VAGEncoder)
        ensures
            r.last_header() == 0,
    {
        VAGEncoder { last_predict_and_shift: 0 }
    }
}

impl VAGEncoder {
    /// The header byte of the chunk emitted last; zero before the first.
    pub closed spec fn last_header(&self) -> u8 {
        self.last_predict_and_shift
    }

    /// An encoder for a new stream.
    pub fn new() -> (r: VAGEncoder)
        ensures
            r.last_header() == 0,
    {
        VAGEncoder { last_predict_and_shift: 0 }
    }

    /// Reads the header byte of the chunk emitted last.
    pub fn last_predict_and_shift(&self) -> (r: u8)
        ensures
            r == self.last_header(),
    {
        self.last_predict_and_shift
    }

    /// Encodes one packet and appends its chunks to `out`. The packet's
    /// samples are grouped into blocks of 28, the last one filled with
    /// zeros, and every block starts from the state that the block before
    /// left; the first starts from zero. It returns the number of bytes
    /// appended.
    pub fn encode_chunk(
        &mut self,
        samples: &Vec<i16>,
        loop_flag: bool,
        loop_start: u32,
        loop_end: u32,
        out: &mut Vec<u8>,
    ) -> (written: usize)
        ensures
            final(out)@ == old(out)@ + packet_bytes(
                samples@,
                chunk_count(samples@.len() as int, loop_flag, loop_start as int, loop_end as int) as nat,
                loop_flag,
                loop_start as int,
                loop_end as int,
            ),
            written == 16 * chunk_count(
                samples@.len() as int,
                loop_flag,
                loop_start as int,
                loop_end as int,
            ),
            chunk_count(samples@.len() as int, loop_flag, loop_start as int, loop_end as int) == 0
                ==> final(self).last_header() == old(self).last_header(),
            chunk_count(samples@.len() as int, loop_flag, loop_start as int, loop_end as int) > 0
                ==> final(self).last_header() == chunk_header(
                samples@,
                (chunk_count(samples@.len() as int, loop_flag, loop_start as int, loop_end as int)
                    - 1) as nat,
            ),
    {
        let n: usize = samples.len();
        let ghost before = out@;
        let ghost count = chunk_count(n as int, loop_flag, loop_start as int, loop_end as int);
        let ghost early = loop_flag && loop_end != loop_start && (loop_end as int) < (n as int + 27)
            / 28 - 1;
        let mut st: BlockState = BlockState::new();
        let mut pos: usize = 0;
        let mut index: usize = 0;
        let mut written: usize = 0;
        let mut done: bool = n == 0;
        while !done
            invariant
                n == samples@.len(),
                count == chunk_count(n as int, loop_flag, loop_start as int, loop_end as int),
                early == (loop_flag && loop_end != loop_start && (loop_end as int) < (n as int + 27)
                    / 28 - 1),
                !done ==> pos == 28 * index,
                written == 16 * index,
                0 <= index <= count,
                !done ==> pos < n,
                !done ==> (early ==> index <= loop_end),
                done ==> index == count,
                st == state_before(samples@, index as nat),
                st.wf(),
                out@ == before + packet_bytes(
                    samples@,
                    index as nat,
                    loop_flag,
                    loop_start as int,
                    loop_end as int,
                ),
                index == 0 ==> self.last_header() == old(self).last_header(),
                index > 0 ==> self.last_header() == chunk_header(samples@, (index - 1) as nat),
            decreases n - pos + (if done { 0int } else { 1int }),
        {
            let remaining: usize = n - pos;
            let mut buf: Vec<i16> = Vec::new();
            let mut k: usize = 0;
            while k < 28
                invariant
                    k <= 28,
                    n == samples@.len(),
                    pos < n,
                    remaining == n - pos,
                    pos == 28 * index,
                    buf@.len() == k,
                    forall|j: int| 0 <= j < k ==> #[trigger] buf@[j] == block_at(samples@, index as int)[j],
                decreases 28 - k,
            {
                if k < remaining {
                    buf.push(samples[pos + k]);
                } else {
                    buf.push(0);
                }
                k += 1;
            }
            assert(buf@ =~= block_at(samples@, index as int));
            let enc: EncodedBlock = encode_block(&buf, st);
            let mark: (VAGFlag, bool) = block_flag(remaining, index, loop_flag, loop_start, loop_end);
            let chunk = VAGChunk {
                shift: enc.shift as i8,
                predict: enc.predict as i8,
                flags: mark.0.value(),
                sample: enc.payload,
            };
            chunk.write_to(out);
            self.last_predict_and_shift = chunk.header_byte();
            proof {
                assert(chunk.header() == chunk_header(samples@, index as nat));
                assert(chunk.bytes() =~= chunk_at(
                    samples@,
                    index as nat,
                    loop_flag,
                    loop_start as int,
                    loop_end as int,
                ));
                assert(out@ =~= before + packet_bytes(
                    samples@,
                    (index + 1) as nat,
                    loop_flag,
                    loop_start as int,
                    loop_end as int,
                ));
            }
            st = enc.state;
            written = written + 16;
            index = index + 1;
            if remaining > 28 && !mark.1 {
                pos = pos + 28;
            } else {
                done = true;
            }
        }
        written
    }

    /// Closes the stream. Unless it loops, one chunk is appended to `out`
    /// that repeats the last header byte, marks the end of playback and
    /// carries an empty payload. It returns the number of bytes appended.
    pub fn encode_ending(&self, loop_flag: bool, out: &mut Vec<u8>) -> (written: usize)
        ensures
            final(out)@ == old(out)@ + ending_bytes(self.last_header(), loop_flag),
            written == ending_bytes(self.last_header(), loop_flag).len(),
            loop_flag ==> written == 0,
            !loop_flag ==> written == 16,
    {
        if loop_flag {
            assert(out@ =~= old(out)@ + ending_bytes(self.last_header(), loop_flag));
            return 0;
        }
        let ghost before = out@;
        out.push(self.last_predict_and_shift);
        out.push(VAGFlag::PlaybackEnd.value());
        let mut k: usize = 0;
        while k < 14
            invariant
                k <= 14,
                out@ == before + seq![self.last_header(), 7u8] + Seq::new(k as nat, |i: int| 0u8),
            decreases 14 - k,
        {
            out.push(0);
            assert(Seq::new(k as nat, |i: int| 0u8).push(0u8) =~= Seq::new(
                (k + 1) as nat,
                |i: int| 0u8,
            ));
            k += 1;
        }
        assert(out@ =~= before + ending_bytes(self.last_header(), loop_flag));
        16
    }
}

} // verus!
