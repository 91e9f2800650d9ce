use ogg_vag_transcoder::encoder::{encode_block, encode_stream, BlockState, VAGEncoder};

fn ramp() -> Vec<i16> {
    let mut v: Vec<i16> = Vec::new();
    for i in 0..100i32 {
        v.push((300 * i - 4000) as i16);
    }
    v
}

fn smooth() -> Vec<i16> {
    let mut v: Vec<i16> = Vec::new();
    for i in 0..56i32 {
        v.push((2000 * i - 35 * i * i) as i16);
    }
    v
}

fn encode(samples: &Vec<i16>, loop_flag: bool, loop_start: u32, loop_end: u32) -> Vec<u8> {
    let mut enc = VAGEncoder::new();
    let mut out: Vec<u8> = Vec::new();
    let n = enc.encode_chunk(samples, loop_flag, loop_start, loop_end, &mut out);
    assert_eq!(n, out.len());
    out
}

#[test]
fn silent_block_chooses_first_predictor() {
    let block: Vec<i16> = vec![0; 28];
    let r = encode_block(&block, BlockState::new());
    assert_eq!(r.predict, 0);
    assert_eq!(r.shift, 12);
    assert_eq!(r.payload, [0u8; 14]);
    assert_eq!(r.quantized, vec![0i16; 28]);
    assert_eq!(r.state, BlockState::new());
}

#[test]
fn silent_packet_bytes() {
    let out = encode(&vec![0i16; 28], false, 0, 0);
    let mut expected: Vec<u8> = vec![0x0C, 0x01];
    expected.extend(vec![0u8; 14]);
    assert_eq!(out, expected);
}

#[test]
fn constant_packet_then_ending() {
    let samples: Vec<i16> = vec![100; 28];
    let mut enc = VAGEncoder::new();
    let mut out: Vec<u8> = Vec::new();
    let n = enc.encode_chunk(&samples, false, 0, 0, &mut out);
    assert_eq!(n, 16);
    assert_eq!(enc.last_predict_and_shift(), 0x08);
    let m = enc.encode_ending(false, &mut out);
    assert_eq!(m, 16);
    let mut expected: Vec<u8> = vec![0x08, 0x01];
    expected.extend(vec![0x66u8; 14]);
    expected.extend(vec![0x08u8, 0x07]);
    expected.extend(vec![0u8; 14]);
    assert_eq!(out.len(), 32);
    assert_eq!(out, expected);
}

#[test]
fn thirty_samples_give_two_chunks() {
    let samples: Vec<i16> = vec![100; 30];
    let out = encode(&samples, false, 0, 0);
    assert_eq!(out.len(), 32);
    assert_eq!(out[1], 0);
    assert_eq!(out[17], 1);
    // the second block holds two samples and 26 zeros
    let mut tail: Vec<i16> = vec![100, 100];
    tail.extend(vec![0i16; 26]);
    let first = encode_block(&vec![100i16; 28], BlockState::new());
    let second = encode_block(&tail, first.state);
    assert_eq!(&out[18..32], &second.payload[..]);
    assert_eq!(out[16], (second.predict << 4) | second.shift);
}

#[test]
fn ramp_packet_bytes() {
    let out = encode(&ramp(), false, 0, 0);
    let expected: Vec<u8> = vec![
        18, 0, 12, 1, 16, 0, 16, 0, 1, 0, 1, 16, 0, 1, 0, 1, 38, 0, 22, 35, 34, 35, 50, 35, 51,
        35, 52, 51, 52, 52, 52, 53, 22, 0, 69, 85, 84, 69, 85, 84, 69, 85, 69, 85, 84, 69, 85, 84,
        48, 1, 18, 34, 18, 34, 34, 49, 49, 49, 107, 31, 240, 1, 31, 240,
    ];
    assert_eq!(out, expected);
}

#[test]
fn smooth_packet_bytes() {
    let out = encode(&smooth(), false, 0, 0);
    let expected: Vec<u8> = vec![
        19, 0, 64, 52, 52, 51, 51, 50, 34, 34, 34, 33, 17, 17, 16, 16, 38, 1, 127, 102, 101, 84,
        68, 52, 51, 18, 2, 1, 239, 239, 220, 204,
    ];
    assert_eq!(out, expected);
}

#[test]
fn smooth_block_parts() {
    let block: Vec<i16> = smooth()[0..28].to_vec();
    let r = encode_block(&block, BlockState::new());
    assert_eq!(r.predict, 1);
    assert_eq!(r.shift, 3);
    let q: Vec<i16> = vec![
        0, 16384, 16384, 12288, 16384, 12288, 12288, 12288, 12288, 12288, 8192, 12288, 8192, 8192,
        8192, 8192, 8192, 8192, 4096, 8192, 4096, 4096, 4096, 4096, 0, 4096, 0, 4096,
    ];
    assert_eq!(r.quantized, q);
    assert_eq!(r.payload, [64, 52, 52, 51, 51, 50, 34, 34, 34, 33, 17, 17, 16, 16]);
    assert_eq!(r.state.prev1, block[27] as i32);
    assert_eq!(r.state.prev2, block[26] as i32);
    assert_eq!(r.state.hist1, 803158884352);
    assert_eq!(r.state.hist2, -773094113280);
}

#[test]
fn ramp_block_parts() {
    let block: Vec<i16> = ramp()[0..28].to_vec();
    let r = encode_block(&block, BlockState::new());
    assert_eq!(r.predict, 1);
    assert_eq!(r.shift, 2);
    assert_eq!(r.payload, [12, 1, 16, 0, 16, 0, 1, 0, 1, 16, 0, 1, 0, 1]);
    assert_eq!(r.state.hist1, -17179869184);
    assert_eq!(r.state.hist2, 1271310319616);
}

#[test]
fn samples_beyond_the_range_are_clamped() {
    let mut high: Vec<i16> = Vec::new();
    let mut low: Vec<i16> = Vec::new();
    for _ in 0..14 {
        high.push(32767);
        high.push(-32768);
        low.push(30719);
        low.push(-30720);
    }
    let a = encode(&high, false, 0, 0);
    let b = encode(&low, false, 0, 0);
    assert_eq!(a, b);
    let mut expected: Vec<u8> = vec![1, 1];
    expected.extend(vec![135u8; 14]);
    assert_eq!(a, expected);
    let r = encode_block(&high, BlockState::new());
    assert_eq!(r.state.prev1, -30720);
    assert_eq!(r.state.prev2, 30719);
}

#[test]
fn payload_bytes_unpack_to_high_nibbles() {
    let block: Vec<i16> = ramp()[28..56].to_vec();
    let first = encode_block(&ramp()[0..28].to_vec(), BlockState::new());
    let r = encode_block(&block, first.state);
    for k in 0..14 {
        let lo = ((r.quantized[2 * k] as u16) >> 12) as u8;
        let hi = ((r.quantized[2 * k + 1] as u16) >> 12) as u8;
        assert_eq!(r.payload[k] & 0x0F, lo);
        assert_eq!(r.payload[k] >> 4, hi);
    }
}

#[test]
fn blocks_of_a_packet_carry_their_state() {
    let samples = ramp();
    let out = encode(&samples, false, 0, 0);
    let mut st = BlockState::new();
    for i in 0..4 {
        let mut block: Vec<i16> = Vec::new();
        for k in 0..28 {
            let at = 28 * i + k;
            block.push(if at < samples.len() { samples[at] } else { 0 });
        }
        let r = encode_block(&block, st);
        assert_eq!(out[16 * i], (r.predict << 4) | r.shift);
        assert_eq!(&out[16 * i + 2..16 * i + 16], &r.payload[..]);
        st = r.state;
    }
}

#[test]
fn every_packet_starts_from_zero() {
    let samples = ramp();
    let mut enc = VAGEncoder::new();
    let mut out: Vec<u8> = Vec::new();
    enc.encode_chunk(&samples, false, 0, 0, &mut out);
    enc.encode_chunk(&samples, false, 0, 0, &mut out);
    assert_eq!(out.len(), 128);
    assert_eq!(&out[0..64], &out[64..128]);
}

#[test]
fn chunk_count_is_samples_over_28_rounded_up() {
    for (len, chunks) in [(0usize, 0usize), (1, 1), (27, 1), (28, 1), (29, 2), (56, 2), (57, 3), (280, 10)] {
        let samples: Vec<i16> = vec![5; len];
        let out = encode(&samples, false, 3, 1);
        assert_eq!(out.len(), 16 * chunks);
    }
}

#[test]
fn empty_packet_keeps_last_header() {
    let mut enc = VAGEncoder::new();
    let mut out: Vec<u8> = Vec::new();
    enc.encode_chunk(&vec![100i16; 28], false, 0, 0, &mut out);
    let n = enc.encode_chunk(&Vec::new(), false, 0, 0, &mut out);
    assert_eq!(n, 0);
    assert_eq!(out.len(), 16);
    assert_eq!(enc.last_predict_and_shift(), 0x08);
}

#[test]
fn loop_flags_and_early_end() {
    let out = encode(&ramp(), true, 1, 2);
    let expected: Vec<u8> = vec![
        18, 2, 12, 1, 16, 0, 16, 0, 1, 0, 1, 16, 0, 1, 0, 1, 38, 6, 22, 35, 34, 35, 50, 35, 51,
        35, 52, 51, 52, 52, 52, 53, 22, 3, 69, 85, 84, 69, 85, 84, 69, 85, 69, 85, 84, 69, 85, 84,
    ];
    assert_eq!(out, expected);
}

fn flags_of(out: &Vec<u8>) -> Vec<u8> {
    let mut f: Vec<u8> = Vec::new();
    let mut i = 1;
    while i < out.len() {
        f.push(out[i]);
        i += 16;
    }
    f
}

#[test]
fn loop_flag_table() {
    let samples: Vec<i16> = vec![1000; 140];
    assert_eq!(flags_of(&encode(&samples, false, 0, 2)), vec![0, 0, 0, 0, 1]);
    assert_eq!(flags_of(&encode(&samples, true, 0, 2)), vec![6, 2, 3]);
    assert_eq!(flags_of(&encode(&samples, true, 1, 1)), vec![2, 6, 2, 2, 3]);
    assert_eq!(flags_of(&encode(&samples, true, 9, 9)), vec![2, 2, 2, 2, 3]);
    assert_eq!(flags_of(&encode(&samples, true, 9, 4)), vec![2, 2, 2, 2, 3]);
    assert_eq!(flags_of(&encode(&samples, true, 9, 0)), vec![3]);
    assert_eq!(flags_of(&encode(&vec![1000i16; 28], true, 9, 9)), vec![3]);
}

#[test]
fn ending_of_a_looping_stream_is_empty() {
    let mut enc = VAGEncoder::new();
    let mut out: Vec<u8> = vec![9, 9];
    enc.encode_chunk(&vec![100i16; 28], true, 0, 0, &mut out);
    let before = out.clone();
    let n = enc.encode_ending(true, &mut out);
    assert_eq!(n, 0);
    assert_eq!(out, before);
}

#[test]
fn ending_repeats_last_header_after_several_packets() {
    let mut enc = VAGEncoder::new();
    let mut out: Vec<u8> = Vec::new();
    enc.encode_chunk(&vec![100i16; 28], false, 0, 0, &mut out);
    enc.encode_chunk(&ramp(), false, 0, 0, &mut out);
    let n = enc.encode_ending(false, &mut out);
    assert_eq!(n, 16);
    let len = out.len();
    assert_eq!(len, 16 * 6);
    assert_eq!(out[len - 16], out[len - 32]);
    assert_eq!(out[len - 16], 48);
    assert_eq!(out[len - 15], 7);
    assert_eq!(&out[len - 14..], &[0u8; 14][..]);
}

#[test]
fn ending_of_a_fresh_encoder() {
    let enc = VAGEncoder::default();
    let mut out: Vec<u8> = vec![1];
    assert_eq!(enc.encode_ending(false, &mut out), 16);
    let mut expected: Vec<u8> = vec![1, 0, 7];
    expected.extend(vec![0u8; 14]);
    assert_eq!(out, expected);
}

#[test]
fn encode_appends_to_what_is_there() {
    let mut enc = VAGEncoder::new();
    let mut out: Vec<u8> = vec![0xAA, 0xBB];
    let n = enc.encode_chunk(&vec![100i16; 28], false, 0, 0, &mut out);
    assert_eq!(n, 16);
    assert_eq!(out.len(), 18);
    assert_eq!(&out[0..2], &[0xAA, 0xBB]);
    assert_eq!(out[2], 0x08);
}

#[test]
fn whole_stream_is_packets_then_ending() {
    let packets: Vec<Vec<i16>> = vec![vec![100; 28], ramp(), Vec::new(), smooth(), Vec::new()];
    let mut all: Vec<u8> = vec![0x55];
    encode_stream(&packets, &mut all);
    let mut enc = VAGEncoder::new();
    let mut expected: Vec<u8> = vec![0x55];
    for p in packets.iter() {
        enc.encode_chunk(p, false, 0, 0, &mut expected);
    }
    enc.encode_ending(false, &mut expected);
    assert_eq!(all, expected);
    assert_eq!(all.len(), 1 + 16 * (1 + 4 + 2 + 1));
    let len = all.len();
    assert_eq!(all[len - 16], 38);
    assert_eq!(all[len - 32], 38);
    assert_eq!(all[len - 15], 7);
    assert_eq!(&all[len - 14..], &[0u8; 14][..]);
}

#[test]
fn stream_without_samples_is_one_terminator() {
    let mut out: Vec<u8> = Vec::new();
    encode_stream(&Vec::new(), &mut out);
    let mut expected: Vec<u8> = vec![0, 7];
    expected.extend(vec![0u8; 14]);
    assert_eq!(out, expected);
    let mut again: Vec<u8> = Vec::new();
    encode_stream(&vec![Vec::new(), Vec::new()], &mut again);
    assert_eq!(again, expected);
}
