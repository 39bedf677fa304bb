use image_loader::events::{FileMeta, FrameOutcome, LoadResult, RgbaBuffer};
use image_loader::session::{DecodePath, DecodeSession};

fn tiny_buffer() -> RgbaBuffer {
    RgbaBuffer::from_raw(1, 1, vec![0u8, 0u8, 0u8, 255u8]).unwrap()
}

#[test]
fn missing_file_yields_bare_failed() {
    let mut s = DecodeSession::new(7);
    assert!(s.is_fresh());
    let (events, path) = s.begin(None, None);
    assert!(matches!(path, DecodePath::Aborted));
    assert_eq!(events.len(), 1);
    assert!(events[0].is_failed());
    assert_eq!(events[0].req_id(), 7);
    assert!(s.is_finished());
}

#[test]
fn single_frame_yields_start_frame_done() {
    let mut s = DecodeSession::new(3);
    let (mut events, path) = s.begin(Some(FileMeta { file_len: 1024 }), Some(&[0u8; 512]));
    assert!(matches!(path, DecodePath::SingleFrame));
    let mut tail = s.on_single(Some(tiny_buffer()));
    events.append(&mut tail);
    assert_eq!(events.len(), 3);
    assert!(matches!(events[0], LoadResult::Start { req_id: 3, .. }));
    assert!(matches!(events[1], LoadResult::Frame { req_id: 3, delay_nano: 0, .. }));
    assert!(matches!(events[2], LoadResult::Done { req_id: 3 }));
    assert!(s.is_finished());
}

#[test]
fn single_frame_decode_failure_yields_start_failed() {
    let mut s = DecodeSession::new(9);
    let (mut events, path) = s.begin(Some(FileMeta { file_len: 10 }), None);
    assert!(matches!(path, DecodePath::SingleFrame));
    let mut tail = s.on_single(None);
    events.append(&mut tail);
    assert_eq!(events.len(), 2);
    assert!(matches!(events[0], LoadResult::Start { req_id: 9, .. }));
    assert!(events[1].is_failed());
}

#[test]
fn animated_clean_stream_yields_start_frames_done() {
    let gif_prefix: Vec<u8> = {
        let mut p = b"GIF89a".to_vec();
        p.resize(512, 0);
        p
    };
    let mut s = DecodeSession::new(21);
    let (mut events, path) = s.begin(Some(FileMeta { file_len: 2048 }), Some(&gif_prefix));
    assert!(matches!(path, DecodePath::Animated));
    let outcomes = vec![
        FrameOutcome::Decoded { image: tiny_buffer(), numer_ms: 100, denom_ms: 10 },
        FrameOutcome::Decoded { image: tiny_buffer(), numer_ms: 40, denom_ms: 1 },
        FrameOutcome::Decoded { image: tiny_buffer(), numer_ms: 1, denom_ms: 3 },
    ];
    let mut tail = s.run_stream(outcomes);
    events.append(&mut tail);
    assert_eq!(events.len(), 5);
    assert!(matches!(events[0], LoadResult::Start { req_id: 21, .. }));
    assert!(
        matches!(events[1], LoadResult::Frame { req_id: 21, delay_nano: 10_000_000, .. })
    );
    assert!(
        matches!(events[2], LoadResult::Frame { req_id: 21, delay_nano: 40_000_000, .. })
    );
    assert!(matches!(events[3], LoadResult::Frame { req_id: 21, delay_nano: 333_333, .. }));
    assert!(matches!(events[4], LoadResult::Done { req_id: 21 }));
}

#[test]
fn corrupt_frame_stops_stream_with_failed() {
    let mut s = DecodeSession::new(5);
    let (mut events, _) = s.begin(Some(FileMeta { file_len: 2048 }), None);
    let outcomes = vec![
        FrameOutcome::Decoded { image: tiny_buffer(), numer_ms: 10, denom_ms: 1 },
        FrameOutcome::Decoded { image: tiny_buffer(), numer_ms: 10, denom_ms: 1 },
        FrameOutcome::Corrupt,
        FrameOutcome::Decoded { image: tiny_buffer(), numer_ms: 10, denom_ms: 1 },
    ];
    let mut tail = s.run_stream(outcomes);
    events.append(&mut tail);
    // Start, two frames, then Failed: nothing after the corruption point.
    assert_eq!(events.len(), 4);
    assert!(matches!(events[0], LoadResult::Start { req_id: 5, .. }));
    assert!(matches!(events[1], LoadResult::Frame { .. }));
    assert!(matches!(events[2], LoadResult::Frame { .. }));
    assert!(events[3].is_failed());
}

#[test]
fn empty_stream_yields_start_done() {
    let mut s = DecodeSession::new(1);
    let (mut events, _) = s.begin(Some(FileMeta { file_len: 64 }), None);
    let mut tail = s.run_stream(Vec::new());
    events.append(&mut tail);
    assert_eq!(events.len(), 2);
    assert!(matches!(events[0], LoadResult::Start { .. }));
    assert!(matches!(events[1], LoadResult::Done { req_id: 1 }));
}

#[test]
fn unavailable_decoder_yields_start_failed() {
    let mut s = DecodeSession::new(2);
    let (mut events, _) = s.begin(Some(FileMeta { file_len: 64 }), None);
    assert!(s.is_started());
    let mut tail = s.fail();
    events.append(&mut tail);
    assert_eq!(events.len(), 2);
    assert!(matches!(events[0], LoadResult::Start { .. }));
    assert!(events[1].is_failed());
}

#[test]
fn every_request_gets_exactly_one_terminal_event() {
    let mut all_events: Vec<LoadResult> = Vec::new();
    for id in 0..5u32 {
        let mut s = DecodeSession::new(id);
        if id == 0 {
            let (mut evs, _) = s.begin(None, None);
            all_events.append(&mut evs);
        } else if id % 2 == 1 {
            let (mut evs, _) = s.begin(Some(FileMeta { file_len: 8 }), None);
            all_events.append(&mut evs);
            let mut tail = s.on_single(Some(tiny_buffer()));
            all_events.append(&mut tail);
        } else {
            let (mut evs, _) = s.begin(Some(FileMeta { file_len: 8 }), None);
            all_events.append(&mut evs);
            let mut tail = s.run_stream(vec![FrameOutcome::Corrupt]);
            all_events.append(&mut tail);
        }
    }
    let terminals = all_events
        .iter()
        .filter(|e| matches!(e, LoadResult::Done { .. } | LoadResult::Failed { .. }))
        .count();
    assert_eq!(terminals, 5);
}

#[test]
fn req_id_and_is_failed_read_any_variant() {
    let start = LoadResult::Start { req_id: 4, metadata: FileMeta { file_len: 0 } };
    let frame = LoadResult::Frame { req_id: 5, image: tiny_buffer(), delay_nano: 1 };
    let done = LoadResult::Done { req_id: 6 };
    let failed = LoadResult::Failed { req_id: 7 };
    assert_eq!(start.req_id(), 4);
    assert_eq!(frame.req_id(), 5);
    assert_eq!(done.req_id(), 6);
    assert_eq!(failed.req_id(), 7);
    assert!(!start.is_failed());
    assert!(!frame.is_failed());
    assert!(!done.is_failed());
    assert!(failed.is_failed());
}

#[test]
fn buffer_from_raw_checks_dimensions() {
    assert!(RgbaBuffer::from_raw(2, 2, vec![0u8; 16]).is_some());
    assert!(RgbaBuffer::from_raw(2, 2, vec![0u8; 15]).is_none());
    let b = RgbaBuffer::from_raw(0, 0, Vec::new()).unwrap();
    assert_eq!(b.width, 0);
    assert_eq!(b.height, 0);
}
