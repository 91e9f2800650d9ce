//! What holds of the encoder on every input.

use vstd::prelude::*;
use crate::encoder::{
    block_at, block_next, block_payload, block_predict, block_sample, block_shift, chunk_at,
    chunk_count, chunk_header, clamped, ending_bytes, header_after, packet_bytes, state_before,
    stream_body, stream_bytes, BlockState,
};
use crate::fixed::scale;
use crate::predictor::{clamp_sample, in_range, peak, residual, scan, selection};
use crate::quantize::{feedback, mask_hits, nibble, quantized, shift_for, shift_from};

verus! {

/// Every sample is brought into the range of the prediction before anything
/// else is computed from it: the samples that enter lie in that range, and
/// two blocks whose samples agree once they are brought into it encode alike.
pub proof fn lemma_clamped_before_prediction(a: Seq<i16>, b: Seq<i16>, st: BlockState)
    requires
        a.len() == 28,
        b.len() == 28,
        forall|i: int| 0 <= i < 28 ==> clamp_sample(#[trigger] a[i] as int) == clamp_sample(b[i] as int),
    ensures
        in_range(clamped(a)),
        forall|i: int| 0 <= i < 28 ==> #[trigger] clamped(a)[i] == clamp_sample(a[i] as int),
        clamped(a) == clamped(b),
        block_predict(a, st) == block_predict(b, st),
        block_shift(a, st) == block_shift(b, st),
        forall|k: int| block_sample(a, st, k) == block_sample(b, st, k),
        block_payload(a, st) == block_payload(b, st),
        block_next(a, st) == block_next(b, st),
{
    assert(clamped(a) =~= clamped(b));
    assert(block_payload(a, st) =~= block_payload(b, st));
}

/// A payload byte gives back the high four bits of the two reconstructed
/// samples it was packed from: the earlier one's in its low half, the later
/// one's in its high half.
pub proof fn lemma_payload_unpacks(block: Seq<i16>, st: BlockState, k: int)
    requires
        0 <= k < 14,
    ensures
        block_payload(block, st)[k] % 16 == nibble(block_sample(block, st, 2 * k)),
        block_payload(block, st)[k] / 16 == nibble(block_sample(block, st, 2 * k + 1)),
        0 <= nibble(block_sample(block, st, 2 * k)) < 16,
        0 <= nibble(block_sample(block, st, 2 * k + 1)) < 16,
{
}

/// Within a packet every block starts from the state that the block before
/// it left, and the first block starts from zero.
pub proof fn lemma_state_carries(samples: Seq<i16>, n: nat)
    ensures
        state_before(samples, 0) == (BlockState { prev1: 0, prev2: 0, hist1: 0, hist2: 0 }),
        state_before(samples, n + 1) == block_next(
            block_at(samples, n as int),
            state_before(samples, n),
        ),
{
}

/// A block holds the packet's own samples in their order, and zeros from
/// the packet's end on.
pub proof fn lemma_block_holds_packet(samples: Seq<i16>, index: nat, k: int)
    requires
        0 <= k < 28,
    ensures
        block_at(samples, index as int).len() == 28,
        28 * index + k < samples.len() ==> block_at(samples, index as int)[k] == samples[28 * index
            + k],
        28 * index + k >= samples.len() ==> block_at(samples, index as int)[k] == 0,
{
}

/// The first `n` chunks of a packet take 16 bytes each, and chunk `i` of
/// them stands at byte `16 * i`.
pub proof fn lemma_packet_layout(
    samples: Seq<i16>,
    n: nat,
    loop_flag: bool,
    loop_start: int,
    loop_end: int,
)
    ensures
        packet_bytes(samples, n, loop_flag, loop_start, loop_end).len() == 16 * n,
        forall|i: int|
            0 <= i < n ==> packet_bytes(samples, n, loop_flag, loop_start, loop_end).subrange(
                16 * i,
                16 * i + 16,
            ) == #[trigger] chunk_at(samples, i as nat, loop_flag, loop_start, loop_end),
    decreases n,
{
    if n > 0 {
        let m = (n - 1) as nat;
        lemma_packet_layout(samples, m, loop_flag, loop_start, loop_end);
        let head = packet_bytes(samples, m, loop_flag, loop_start, loop_end);
        let all = packet_bytes(samples, n, loop_flag, loop_start, loop_end);
        assert(chunk_at(samples, m, loop_flag, loop_start, loop_end).len() == 16);
        assert forall|i: int| 0 <= i < n implies all.subrange(16 * i, 16 * i + 16) == #[trigger] chunk_at(
            samples,
            i as nat,
            loop_flag,
            loop_start,
            loop_end,
        ) by {
            if i < m {
                assert(all.subrange(16 * i, 16 * i + 16) =~= head.subrange(16 * i, 16 * i + 16));
            } else {
                assert(all.subrange(16 * i, 16 * i + 16) =~= chunk_at(
                    samples,
                    m,
                    loop_flag,
                    loop_start,
                    loop_end,
                ));
            }
        }
    }
}

/// Without a loop a packet of `S` samples gives one chunk for every 28
/// samples begun: the least number of blocks that hold `S` samples.
pub proof fn lemma_chunks_per_packet(samples: Seq<i16>, loop_start: int, loop_end: int)
    ensures
        chunk_count(samples.len() as int, false, loop_start, loop_end) == (samples.len() + 27) / 28,
        28 * chunk_count(samples.len() as int, false, loop_start, loop_end) >= samples.len(),
        28 * (chunk_count(samples.len() as int, false, loop_start, loop_end) - 1) < samples.len()
            || samples.len() == 0,
        packet_bytes(
            samples,
            chunk_count(samples.len() as int, false, loop_start, loop_end) as nat,
            false,
            loop_start,
            loop_end,
        ).len() == 16 * ((samples.len() + 27) / 28),
{
    lemma_packet_layout(
        samples,
        chunk_count(samples.len() as int, false, loop_start, loop_end) as nat,
        false,
        loop_start,
        loop_end,
    );
}

/// With a loop a packet never gives more chunks than without one.
pub proof fn lemma_loop_shortens(len: nat, loop_start: int, loop_end: int)
    requires
        loop_end >= 0,
    ensures
        0 <= chunk_count(len as int, true, loop_start, loop_end) <= chunk_count(
            len as int,
            false,
            loop_start,
            loop_end,
        ),
{
}

/// A stream that does not loop ends in a chunk that marks the end of
/// playback, carries an empty payload and repeats the header byte of the
/// chunk before it.
pub proof fn lemma_terminator_closes_stream(samples: Seq<i16>, loop_start: int, loop_end: int)
    requires
        samples.len() > 0,
    ensures
        ({
            let count = chunk_count(samples.len() as int, false, loop_start, loop_end) as nat;
            let stream = packet_bytes(samples, count, false, loop_start, loop_end) + ending_bytes(
                chunk_header(samples, (count - 1) as nat),
                false,
            );
            &&& count > 0
            &&& stream.len() == 16 * count + 16
            &&& stream[stream.len() - 15] == 7
            &&& forall|i: int| stream.len() - 14 <= i < stream.len() ==> stream[i] == 0
            &&& stream[stream.len() - 16] == stream[stream.len() - 32]
        }),
{
    let count = chunk_count(samples.len() as int, false, loop_start, loop_end) as nat;
    let body = packet_bytes(samples, count, false, loop_start, loop_end);
    lemma_packet_layout(samples, count, false, loop_start, loop_end);
    let last: int = count - 1;
    let chunk = chunk_at(samples, last as nat, false, loop_start, loop_end);
    assert(body.subrange(16 * last, 16 * last + 16) == chunk);
    assert(body[16 * last] == body.subrange(16 * last, 16 * last + 16)[0]);
    assert(chunk[0] == chunk_header(samples, last as nat));
}

/// The chunks of the first `n` packets of a stream fill whole chunks, and
/// where there is one, the last chunk's header byte is the one that the
/// ending repeats.
pub proof fn lemma_stream_body(packets: Seq<Vec<i16>>, n: nat)
    requires
        n <= packets.len(),
    ensures
        stream_body(packets, n).len() % 16 == 0,
        stream_body(packets, n).len() >= 16 ==> stream_body(packets, n)[stream_body(packets, n).len()
            - 16] == header_after(packets, n),
        stream_body(packets, n).len() == 0 ==> header_after(packets, n) == 0,
    decreases n,
{
    if n > 0 {
        let m = (n - 1) as nat;
        lemma_stream_body(packets, m);
        let samples = packets[n - 1]@;
        let count = chunk_count(samples.len() as int, false, 0, 0) as nat;
        lemma_packet_layout(samples, count, false, 0, 0);
        if samples.len() > 0 {
            let last: int = count - 1;
            let body = packet_bytes(samples, count, false, 0, 0);
            let chunk = chunk_at(samples, last as nat, false, 0, 0);
            assert(body.subrange(16 * last, 16 * last + 16) == chunk);
            assert(body[16 * last] == body.subrange(16 * last, 16 * last + 16)[0]);
            assert(chunk[0] == chunk_header(samples, last as nat));
        } else {
            assert(stream_body(packets, n) =~= stream_body(packets, m));
        }
    }
}

/// Every stream that does not loop ends in one chunk that marks the end of
/// playback and carries an empty payload. Its header byte is that of the
/// chunk before it, where there is one.
pub proof fn lemma_stream_ends_in_terminator(packets: Seq<Vec<i16>>)
    ensures
        ({
            let stream = stream_bytes(packets);
            &&& stream.len() >= 16
            &&& stream.len() % 16 == 0
            &&& stream[stream.len() - 15] == 7
            &&& forall|i: int| stream.len() - 14 <= i < stream.len() ==> stream[i] == 0
            &&& stream.len() >= 32 ==> stream[stream.len() - 16] == stream[stream.len() - 32]
            &&& stream.len() == 16 ==> stream[0] == 0
        }),
{
    lemma_stream_body(packets, packets.len());
}

/// The peak of a predictor is no less than the magnitude of any of its
/// residuals and, over a block that is not empty, is the magnitude of one.
pub proof fn lemma_peak_is_largest(c: Seq<i32>, f1: int, f2: int, p: int, n: nat)
    ensures
        peak(c, f1, f2, p, n) >= 0,
        forall|i: int|
            0 <= i < n ==> -peak(c, f1, f2, p, n) <= #[trigger] residual(c, f1, f2, p, i) <= peak(
                c,
                f1,
                f2,
                p,
                n,
            ),
        n > 0 ==> exists|i: int|
            0 <= i < n && (#[trigger] residual(c, f1, f2, p, i) == peak(c, f1, f2, p, n)
                || -residual(c, f1, f2, p, i) == peak(c, f1, f2, p, n)),
    decreases n,
{
    if n > 0 {
        let m = (n - 1) as nat;
        lemma_peak_is_largest(c, f1, f2, p, m);
        let r = residual(c, f1, f2, p, n - 1);
        let a = if r < 0 {
            -r
        } else {
            r
        };
        if a > peak(c, f1, f2, p, m) || m == 0 {
            assert(residual(c, f1, f2, p, n - 1) == peak(c, f1, f2, p, n) || -residual(
                c,
                f1,
                f2,
                p,
                n - 1,
            ) == peak(c, f1, f2, p, n));
        } else {
            let i = choose|i: int|
                0 <= i < m && (#[trigger] residual(c, f1, f2, p, i) == peak(c, f1, f2, p, m)
                    || -residual(c, f1, f2, p, i) == peak(c, f1, f2, p, m));
            assert(residual(c, f1, f2, p, i) == peak(c, f1, f2, p, n) || -residual(c, f1, f2, p, i)
                == peak(c, f1, f2, p, n));
        }
    }
}

/// What the rest of a scan yields, from candidate `p` on with the lowest
/// peak `best` so far.
pub proof fn lemma_scan_from(c: Seq<i32>, f1: int, f2: int, p: int, best: int, best_p: int)
    requires
        0 <= p <= 5,
        best > 448,
    ensures
        ({
            let r = scan(c, f1, f2, p, best, best_p);
            &&& r.1 <= best
            &&& r.1 > 448 ==> forall|j: int| p <= j < 5 ==> #[trigger] peak(c, f1, f2, j, 28) >= r.1
            &&& r.1 > 448 && r.1 == best ==> r.0 == best_p
            &&& r.1 > 448 && r.1 < best ==> p <= r.0 < 5 && peak(c, f1, f2, r.0, 28) == r.1
                && forall|j: int| p <= j < r.0 ==> #[trigger] peak(c, f1, f2, j, 28) > r.1
            &&& r.1 <= 448 ==> r.0 == 0 && exists|j: int|
                p <= j < 5 && #[trigger] peak(c, f1, f2, j, 28) == r.1 && forall|i: int|
                    p <= i < j ==> #[trigger] peak(c, f1, f2, i, 28) > 448
        }),
    decreases 5 - p,
{
    if p < 5 {
        let m = peak(c, f1, f2, p, 28);
        if m < best {
            if m > 448 {
                lemma_scan_from(c, f1, f2, p + 1, m, p);
                let r = scan(c, f1, f2, p + 1, m, p);
                if r.1 <= 448 {
                    let j = choose|j: int|
                        p + 1 <= j < 5 && #[trigger] peak(c, f1, f2, j, 28) == r.1 && forall|i: int|
                            p + 1 <= i < j ==> #[trigger] peak(c, f1, f2, i, 28) > 448;
                    assert(p <= j < 5 && peak(c, f1, f2, j, 28) == r.1 && forall|i: int|
                        p <= i < j ==> #[trigger] peak(c, f1, f2, i, 28) > 448);
                }
            } else {
                assert(p <= p < 5 && peak(c, f1, f2, p, 28) == m && forall|i: int|
                    p <= i < p ==> #[trigger] peak(c, f1, f2, i, 28) > 448);
            }
        } else {
            lemma_scan_from(c, f1, f2, p + 1, best, best_p);
            let r = scan(c, f1, f2, p + 1, best, best_p);
            if r.1 <= 448 {
                let j = choose|j: int|
                    p + 1 <= j < 5 && #[trigger] peak(c, f1, f2, j, 28) == r.1 && forall|i: int|
                        p + 1 <= i < j ==> #[trigger] peak(c, f1, f2, i, 28) > 448;
                assert(p <= j < 5 && peak(c, f1, f2, j, 28) == r.1 && forall|i: int|
                    p <= i < j ==> #[trigger] peak(c, f1, f2, i, 28) > 448);
            }
        }
    }
}

/// The choice of a predictor. Where every candidate's peak is above seven,
/// the first candidate with the lowest peak is chosen. Otherwise predictor 0
/// is chosen, and the lowest peak is that of the first candidate whose peak
/// is at most seven, or a lower one scanned before it.
pub proof fn lemma_selection(c: Seq<i32>, f1: int, f2: int)
    requires
        in_range(c),
        -30720 <= f1 <= 30719,
        -30720 <= f2 <= 30719,
    ensures
        ({
            let r = selection(c, f1, f2);
            &&& 0 <= r.0 < 5
            &&& 0 <= r.1 <= 7_557_120
            &&& r.1 > 448 ==> peak(c, f1, f2, r.0, 28) == r.1
            &&& r.1 > 448 ==> forall|j: int| 0 <= j < 5 ==> #[trigger] peak(c, f1, f2, j, 28) >= r.1
            &&& r.1 > 448 ==> forall|j: int| 0 <= j < r.0 ==> #[trigger] peak(c, f1, f2, j, 28) > r.1
            &&& r.1 <= 448 ==> r.0 == 0 && exists|j: int|
                0 <= j < 5 && #[trigger] peak(c, f1, f2, j, 28) == r.1 && forall|i: int|
                    0 <= i < j ==> #[trigger] peak(c, f1, f2, i, 28) > 448
        }),
{
    lemma_scan_from(c, f1, f2, 0, 640_000_000_000, 0);
    lemma_peak_is_largest(c, f1, f2, 0, 28);
    let i = choose|i: int|
        0 <= i < 28 && (#[trigger] residual(c, f1, f2, 0, i) == peak(c, f1, f2, 0, 28) || -residual(
            c,
            f1,
            f2,
            0,
            i,
        ) == peak(c, f1, f2, 0, 28));
    assert(-30720 <= c[i] <= 30719);
    assert(peak(c, f1, f2, 0, 28) <= 7_557_120);
    let r = selection(c, f1, f2);
    if r.1 <= 448 {
        let j = choose|j: int|
            0 <= j < 5 && #[trigger] peak(c, f1, f2, j, 28) == r.1 && forall|i: int|
                0 <= i < j ==> #[trigger] peak(c, f1, f2, i, 28) > 448;
        lemma_peak_is_largest(c, f1, f2, j, 28);
    }
}

/// What the rest of the search for a shift yields, from shift `s` on.
pub proof fn lemma_shift_from(min_int: u32, s: u32)
    requires
        s <= 12,
    ensures
        s <= shift_from(min_int, s) <= 12,
        shift_from(min_int, s) < 12 ==> mask_hits(min_int, shift_from(min_int, s)),
        forall|t: u32| s <= t < shift_from(min_int, s) ==> !mask_hits(min_int, t),
    decreases 12 - s,
{
    if s < 12 && !mask_hits(min_int, s) {
        lemma_shift_from(min_int, (s + 1) as u32);
    }
}

/// The shift of a block is the first of the shifts 0 to 11 whose mask hits,
/// and 12 where none does.
pub proof fn lemma_shift_is_first(min_int: u32)
    ensures
        shift_for(min_int) <= 12,
        shift_for(min_int) < 12 ==> mask_hits(min_int, shift_for(min_int)),
        forall|t: u32| t < shift_for(min_int) ==> !mask_hits(min_int, t),
{
    lemma_shift_from(min_int, 0);
}

/// A reconstructed sample lies within 16 bits and is a multiple of 4096,
/// but for the highest value, which stands for every step above it.
pub proof fn lemma_quantized_is_a_step(pred: int, shift: int)
    ensures
        -32768 <= quantized(pred, shift) <= 32767,
        quantized(pred, shift) % 4096 == 0 || quantized(pred, shift) == 32767,
{
}

/// The history left by a sample is the difference between what is
/// reconstructed and what was predicted, to the nearest unit of the
/// history, unless it is cut back to the history's range.
pub proof fn lemma_feedback_is_nearest(pred: int, shift: int)
    ensures
        ({
            let exact = (quantized(pred, shift) / scale(shift)) * 0x40_0000_0000 - pred;
            let kept = feedback(pred, shift);
            &&& -0x4000_0000_0000_0000 <= kept <= 0x4000_0000_0000_0000
            &&& -0x4000_0000_0000_0000 < kept < 0x4000_0000_0000_0000 ==> -32 <= exact - 64 * kept
                < 32
        }),
{
}

} // verus!
