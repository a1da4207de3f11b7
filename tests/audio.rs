use firmware::codec::{playback_input, CaptureFault, CapturePipeline, SinkCursor};
use firmware::pcm::{capture_samples, narrow_word, render_playback, scale_sample, FrameAssembler, FRAME_SAMPLES};
use firmware::queue::{offer_all, offer_frame, take_frame, FrameQueue, FRAME_QUEUE_CAPACITY};

fn word(v: i32) -> [u8; 4] {
    v.to_le_bytes()
}

fn stereo(pairs: &[(i32, i32)]) -> Vec<u8> {
    let mut raw = Vec::new();
    for (l, r) in pairs {
        raw.extend_from_slice(&word(*l));
        raw.extend_from_slice(&word(*r));
    }
    raw
}

#[test]
fn capture_keeps_left_channel_in_order() {
    let raw = stereo(&[(4096, 111 << 12), (2 * 4096, 222 << 12), (3 * 4096, 333 << 12)]);
    assert_eq!(capture_samples(&raw), vec![1, 2, 3]);
}

#[test]
fn capture_shift_floors_negative_words() {
    assert_eq!(narrow_word(0xff, 0xff, 0xff, 0xff), -1);
    let raw = stereo(&[(-4096, 0), (-1, 0), (4095, 0)]);
    assert_eq!(capture_samples(&raw), vec![-1, -1, 0]);
}

#[test]
fn capture_clamps_to_sixteen_bits() {
    let raw = stereo(&[(i32::MAX, 0), (i32::MIN, 0), (32767 << 12, 0), (-32768 << 12, 0)]);
    let out = capture_samples(&raw);
    assert_eq!(out, vec![32767, -32768, 32767, -32768]);
}

fn full_frame_stream() -> (Vec<u8>, Vec<i16>) {
    let pairs: Vec<(i32, i32)> = (0..FRAME_SAMPLES as i32).map(|i| (i << 12, -(i << 12) - 4096)).collect();
    let expected: Vec<i16> = (0..FRAME_SAMPLES as i32).map(|i| i as i16).collect();
    (stereo(&pairs), expected)
}

#[test]
fn capture_keeps_phase_across_chunks() {
    // [L0] then [R0, L1] then [R1]: the right words never contribute.
    let raw = stereo(&[(10 << 12, 99 << 12), (11 << 12, 98 << 12)]);
    let (raw, expected) = {
        let (mut stream, mut expected) = full_frame_stream();
        stream.splice(0..0, raw.iter().copied());
        expected.splice(0..0, [10, 11]);
        expected.truncate(FRAME_SAMPLES);
        (stream, expected)
    };
    let mut cap = CapturePipeline::new();
    let mut frames = cap.process(&raw[..4]);
    frames.extend(cap.process(&raw[4..12]));
    frames.extend(cap.process(&raw[12..]));
    assert_eq!(frames.len(), 1);
    assert_eq!(frames[0], expected);
}

#[test]
fn capture_chunks_split_inside_words() {
    let (raw, expected) = full_frame_stream();
    let mut cap = CapturePipeline::new();
    let mut frames = Vec::new();
    let mut start = 0;
    for size in [1usize, 3, 5, 2, 7, 13, 1000, 4, 6].iter().cycle() {
        if start >= raw.len() {
            break;
        }
        let end = (start + size).min(raw.len());
        frames.extend(cap.process(&raw[start..end]));
        start = end;
    }
    assert_eq!(frames, vec![expected]);
}

#[test]
fn capture_trailing_partial_pair_waits_for_more() {
    let mut cap = CapturePipeline::new();
    let (raw, expected) = full_frame_stream();
    let cut = raw.len() - 5;
    assert!(cap.process(&raw[..cut]).is_empty());
    assert_eq!(cap.process(&raw[cut..]), vec![expected]);
    assert!(cap.process(&[]).is_empty());
}

#[test]
fn assembler_splits_whole_frames() {
    let mut assembler = FrameAssembler::new();
    let first: Vec<i16> = (0..1000).map(|i| i as i16).collect();
    let frames = assembler.push_samples(&first);
    assert_eq!(frames.len(), 1);
    assert_eq!(frames[0].len(), FRAME_SAMPLES);
    assert_eq!(frames[0][959], 959);
    assert_eq!(assembler.pending_len(), 40);
    let second: Vec<i16> = (1000..1920).map(|i| i as i16).collect();
    let frames = assembler.push_samples(&second);
    assert_eq!(frames.len(), 1);
    assert_eq!(frames[0][0], 960);
    assert_eq!(frames[0][959], 1919);
    assert_eq!(assembler.pending_len(), 0);
}

#[test]
fn capture_pipeline_emits_frame_after_enough_input() {
    let mut cap = CapturePipeline::new();
    let pairs: Vec<(i32, i32)> = (0..FRAME_SAMPLES as i32).map(|i| (i << 12, -1)).collect();
    let raw = stereo(&pairs[..500]);
    assert!(cap.process(&raw).is_empty());
    let raw = stereo(&pairs[500..]);
    let frames = cap.process(&raw);
    assert_eq!(frames.len(), 1);
    assert_eq!(frames[0][0], 0);
    assert_eq!(frames[0][959], 959);
}

#[test]
fn volume_scaling_exact_values() {
    assert_eq!(scale_sample(1000), 32_112_000);
    assert_eq!(scale_sample(-32768), -1_052_246_016);
    assert_eq!(scale_sample(32767), 1_052_213_904);
    assert_eq!(scale_sample(0), 0);
}

#[test]
fn volume_never_louder_than_input() {
    for p in [i16::MIN, -12345, -1, 0, 1, 2, 777, i16::MAX] {
        let out = scale_sample(p) as i64;
        assert!(out.abs() <= (p as i64).abs() * 32767);
    }
}

#[test]
fn playback_interleaves_zero_slot_little_endian() {
    let bytes = render_playback(&[1, -1]);
    assert_eq!(bytes.len(), 16);
    assert_eq!(&bytes[..8], &[0, 0, 0, 0, 0x70, 0x7d, 0x00, 0x00]);
    assert_eq!(&bytes[8..], &[0, 0, 0, 0, 0x90, 0x82, 0xff, 0xff]);
    assert_eq!(render_playback(&vec![0; FRAME_SAMPLES]).len(), 8 * FRAME_SAMPLES);
}

#[test]
fn queue_overflow_keeps_first_capacity_in_order() {
    let mut q = FrameQueue::new();
    let frames: Vec<Vec<u8>> = (0..12u8).map(|i| vec![i, i]).collect();
    let dropped = offer_all(&mut q, frames);
    assert_eq!(dropped, 2);
    for i in 0..FRAME_QUEUE_CAPACITY as u8 {
        assert_eq!(take_frame(&mut q), Some(vec![i, i]));
    }
    assert_eq!(take_frame(&mut q), None);
}

#[test]
fn offer_frame_reports_drop_when_full() {
    let mut q = FrameQueue::new();
    for i in 0..FRAME_QUEUE_CAPACITY as u8 {
        assert!(offer_frame(&mut q, vec![i]));
    }
    assert!(!offer_frame(&mut q, vec![99]));
    assert_eq!(take_frame(&mut q), Some(vec![0]));
    assert!(offer_frame(&mut q, vec![100]));
}

#[test]
fn playback_input_substitutes_empty_on_underrun() {
    let mut q = FrameQueue::new();
    assert_eq!(playback_input(&mut q), Vec::<u8>::new());
    offer_frame(&mut q, vec![7, 8, 9]);
    offer_frame(&mut q, vec![10]);
    assert_eq!(playback_input(&mut q), vec![7, 8, 9]);
    assert_eq!(playback_input(&mut q), vec![10]);
    assert_eq!(playback_input(&mut q), Vec::<u8>::new());
}

#[test]
fn sink_cursor_delivers_every_byte_once() {
    let data: Vec<u8> = (0..10).collect();
    let mut cur = SinkCursor::new(data.clone());
    let mut seen = Vec::new();
    for n in [3usize, 0, 4, 3] {
        assert!(!cur.is_done());
        seen.extend_from_slice(&cur.remaining()[..n]);
        cur.advance(n);
    }
    assert!(cur.is_done());
    assert!(cur.remaining().is_empty());
    assert_eq!(seen, data);
}

#[test]
fn capture_faults_only_other_is_fatal() {
    assert!(!CaptureFault::Late.is_fatal());
    assert!(!CaptureFault::BufferTooSmall.is_fatal());
    assert!(CaptureFault::Other.is_fatal());
}
