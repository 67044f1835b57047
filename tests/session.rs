use scroll_stitch::error::ScrollError;
use scroll_stitch::frame::{Frame, Region};
use scroll_stitch::session::{save_outcome, ScrollCapture, SessionState};

fn region(width: u32, height: u32) -> Region {
    Region { x: 10, y: 20, width, height }
}

fn rows_frame(width: u32, values: &[u8]) -> Frame {
    let mut pixels = Vec::new();
    for v in values {
        for _ in 0..(width as usize * 4) {
            pixels.push(*v);
        }
    }
    Frame::new(width, values.len() as u32, pixels, 0, region(width, values.len() as u32)).unwrap()
}

fn capture(s: &mut ScrollCapture, frame: Frame) -> Frame {
    let q = s.capture().unwrap();
    s.finish_capture(q, Some(frame)).unwrap()
}

#[test]
fn init_twice_is_refused() {
    let mut s = ScrollCapture::new(100);
    assert_eq!(s.init(region(4, 3)), Ok(()));
    assert_eq!(s.state(), SessionState::Initialized);
    assert_eq!(s.init(region(4, 3)), Err(ScrollError::AlreadyActive));
    assert_eq!(s.state(), SessionState::Initialized);
    let f = capture(&mut s, rows_frame(4, &[1, 2, 3]));
    s.handle_image(f).unwrap();
    assert_eq!(s.init(region(4, 3)), Err(ScrollError::AlreadyActive));
    assert_eq!(s.state(), SessionState::Capturing);
    assert_eq!(s.get_size(), (4, 3));
}

#[test]
fn other_width_is_size_mismatch() {
    let mut s = ScrollCapture::new(100);
    s.init(region(4, 3)).unwrap();
    let f = capture(&mut s, rows_frame(4, &[1, 2, 3]));
    s.handle_image(f).unwrap();
    let before = s.save_source().unwrap().snapshot().to_vec();
    let count = s.frame_count();
    assert_eq!(s.handle_image(rows_frame(5, &[1, 2, 3])), Err(ScrollError::SizeMismatch));
    assert_eq!(s.get_size(), (4, 3));
    assert_eq!(s.frame_count(), count);
    assert_eq!(s.state(), SessionState::Capturing);
    assert_eq!(s.save_source().unwrap().snapshot(), before.as_slice());
}

#[test]
fn clear_then_fresh_session() {
    let mut s = ScrollCapture::new(100);
    s.init(region(2, 3)).unwrap();
    let f = capture(&mut s, rows_frame(2, &[1, 2, 3]));
    s.handle_image(f).unwrap();
    s.clear();
    assert_eq!(s.get_size(), (0, 0));
    assert_eq!(s.state(), SessionState::Idle);
    assert_eq!(s.frame_count(), 0);

    let second = rows_frame(2, &[9, 8, 7]);
    s.init(region(2, 3)).unwrap();
    let f = capture(&mut s, second.clone());
    let r = s.handle_image(f).unwrap();
    assert_eq!(r.offset, 0);

    let mut fresh = ScrollCapture::new(100);
    fresh.init(region(2, 3)).unwrap();
    let f = capture(&mut fresh, second.clone());
    fresh.handle_image(f).unwrap();
    assert_eq!(s.get_size(), fresh.get_size());
    assert_eq!(
        s.save_source().unwrap().snapshot(),
        fresh.save_source().unwrap().snapshot()
    );
    assert_eq!(s.save_source().unwrap().snapshot(), second.pixels());
}

#[test]
fn exact_overlaps_give_summed_height() {
    let mut s = ScrollCapture::new(100);
    s.init(region(3, 6)).unwrap();
    let frames = [
        rows_frame(3, &[10, 20, 30, 40, 50, 60]),
        rows_frame(3, &[40, 50, 60, 70, 80, 90]),
        rows_frame(3, &[80, 90, 100, 110, 120, 130]),
        rows_frame(3, &[140, 150, 160, 170, 180, 190]),
    ];
    let mut offsets = 0usize;
    for f in frames.iter() {
        let f = capture(&mut s, f.clone());
        let r = s.handle_image(f).unwrap();
        offsets += r.offset;
    }
    assert_eq!(offsets, 3 + 2);
    assert_eq!(s.get_size(), (3, 24 - 5));
    let expected: Vec<u8> = [10u8, 20, 30, 40, 50, 60, 70, 80, 90, 100, 110, 120, 130, 140, 150,
        160, 170, 180, 190]
        .iter()
        .flat_map(|v| vec![*v; 12])
        .collect();
    assert_eq!(s.save_source().unwrap().snapshot(), expected.as_slice());
}

#[test]
fn repeated_frame_is_a_noop_duplicate() {
    let mut s = ScrollCapture::new(2);
    s.init(region(1, 5)).unwrap();
    let a = rows_frame(1, &[1, 2, 3, 4, 5]);
    s.handle_image(a.clone()).unwrap();
    let r = s.handle_image(a.clone()).unwrap();
    assert!(r.is_duplicate);
    assert_eq!(r.offset, 5);
    assert_eq!(r.confidence, 1000);
    assert_eq!(s.get_size(), (1, 5));
    assert_eq!(s.state(), SessionState::Finalized);
    let r = s.handle_image(a).unwrap();
    assert!(r.is_duplicate);
    assert_eq!(s.get_size(), (1, 5));
}

#[test]
fn detected_duplicate_finalizes() {
    let mut s = ScrollCapture::new(100);
    s.init(region(1, 6)).unwrap();
    s.handle_image(rows_frame(1, &[1, 2, 3, 4, 5, 6])).unwrap();
    let r = s.handle_image(rows_frame(1, &[4, 5, 6])).unwrap();
    assert!(r.is_duplicate);
    assert_eq!(r.offset, 3);
    assert_eq!(s.get_size(), (1, 6));
    assert_eq!(s.state(), SessionState::Finalized);
    assert_eq!(s.init(region(1, 6)), Ok(()));
    assert_eq!(s.get_size(), (0, 0));
}

#[test]
fn idle_session_is_not_initialized() {
    let mut s = ScrollCapture::new(100);
    assert_eq!(s.get_size(), (0, 0));
    assert_eq!(s.capture(), Err(ScrollError::NotInitialized));
    assert_eq!(s.handle_image(rows_frame(1, &[1])), Err(ScrollError::NotInitialized));
    assert!(matches!(s.save_source(), Err(ScrollError::NotInitialized)));
}

#[test]
fn save_needs_a_captured_frame() {
    let mut s = ScrollCapture::new(100);
    s.init(region(1, 2)).unwrap();
    assert!(matches!(s.save_source(), Err(ScrollError::NotInitialized)));
    let f = capture(&mut s, rows_frame(1, &[1, 2]));
    assert_eq!(s.state(), SessionState::Capturing);
    assert!(s.save_source().is_ok());
    s.handle_image(f).unwrap();
    assert_eq!(s.save_source().unwrap().current_size(), (1, 2));
    assert_eq!(s.state(), SessionState::Capturing);
}

#[test]
fn save_outcome_maps_writer_failure() {
    assert_eq!(save_outcome(true), Ok(()));
    assert_eq!(save_outcome(false), Err(ScrollError::EncodeFailed));
}

#[test]
fn failed_capture_is_retryable() {
    let mut s = ScrollCapture::new(100);
    s.init(region(1, 2)).unwrap();
    let q = s.capture().unwrap();
    assert_eq!(q.region, region(1, 2));
    assert!(matches!(s.finish_capture(q, None), Err(ScrollError::CaptureFailed)));
    assert_eq!(s.state(), SessionState::Initialized);
    let q = s.capture().unwrap();
    assert!(s.finish_capture(q, Some(rows_frame(1, &[1, 2]))).is_ok());
    assert_eq!(s.state(), SessionState::Capturing);
}

#[test]
fn capture_after_clear_is_discarded() {
    let mut s = ScrollCapture::new(100);
    s.init(region(1, 2)).unwrap();
    let q = s.capture().unwrap();
    assert_eq!(q.generation, s.generation());
    s.clear();
    s.init(region(1, 2)).unwrap();
    assert!(matches!(
        s.finish_capture(q, Some(rows_frame(1, &[1, 2]))),
        Err(ScrollError::NotInitialized)
    ));
    assert_eq!(s.state(), SessionState::Initialized);
}

#[test]
fn near_repeat_of_last_frame_finalizes() {
    let mut s = ScrollCapture::new(3);
    s.init(region(1, 6)).unwrap();
    s.handle_image(rows_frame(1, &[10, 20, 30, 40, 50, 60])).unwrap();
    let r = s.handle_image(rows_frame(1, &[12, 22, 32, 42, 52, 62])).unwrap();
    assert!(r.is_duplicate);
    assert_eq!(r.offset, 6);
    assert_eq!(s.get_size(), (1, 6));
    assert_eq!(s.state(), SessionState::Finalized);
}

#[test]
fn width_is_fixed_after_an_empty_frame() {
    let mut s = ScrollCapture::new(100);
    s.init(region(3, 4)).unwrap();
    let empty = Frame::new(3, 0, Vec::new(), 0, region(3, 0)).unwrap();
    let r = s.handle_image(empty).unwrap();
    assert!(r.is_duplicate);
    assert_eq!(s.get_size(), (3, 0));
    assert_eq!(s.handle_image(rows_frame(2, &[1])), Err(ScrollError::SizeMismatch));
    assert_eq!(s.get_size(), (3, 0));
    assert_eq!(s.frame_count(), 1);
}
