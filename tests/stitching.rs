use scroll_stitch::composite::CompositeImage;
use scroll_stitch::error::ScrollError;
use scroll_stitch::frame::{Frame, Region};
use scroll_stitch::stitch::detect_overlap;

fn region(width: u32, height: u32) -> Region {
    Region { x: 0, y: 0, width, height }
}

/// A frame whose row `r` has every byte equal to `row_value(r)`.
fn rows_frame(width: u32, values: &[u8]) -> Frame {
    let mut pixels = Vec::new();
    for v in values {
        for _ in 0..(width as usize * 4) {
            pixels.push(*v);
        }
    }
    Frame::new(width, values.len() as u32, pixels, 0, region(width, values.len() as u32)).unwrap()
}

fn composite_of(frame: &Frame) -> CompositeImage {
    let mut img = CompositeImage::new();
    img.append(frame, 0).unwrap();
    img
}

#[test]
fn frame_new_checks_buffer_length() {
    assert!(Frame::new(2, 3, vec![0u8; 24], 7, region(2, 3)).is_some());
    assert!(Frame::new(2, 3, vec![0u8; 23], 7, region(2, 3)).is_none());
    assert!(Frame::new(2, 3, vec![0u8; 25], 7, region(2, 3)).is_none());
    let f = Frame::new(0, 5, Vec::new(), 9, region(0, 5)).unwrap();
    assert_eq!(f.width(), 0);
    assert_eq!(f.height(), 5);
    assert_eq!(f.timestamp(), 9);
    assert_eq!(f.region(), region(0, 5));
}

#[test]
fn append_copies_rows_after_skip() {
    let a = rows_frame(1, &[1, 2, 3]);
    let mut img = CompositeImage::new();
    assert_eq!(img.current_size(), (0, 0));
    img.append(&a, 0).unwrap();
    assert_eq!(img.current_size(), (1, 3));
    let b = rows_frame(1, &[4, 5, 6]);
    img.append(&b, 1).unwrap();
    assert_eq!(img.current_height(), 5);
    let expected: Vec<u8> = [1u8, 2, 3, 5, 6].iter().flat_map(|v| vec![*v; 4]).collect();
    assert_eq!(img.snapshot(), expected.as_slice());
}

#[test]
fn append_skip_past_frame_adds_nothing() {
    let a = rows_frame(2, &[1, 2]);
    let mut img = composite_of(&a);
    img.append(&rows_frame(2, &[9, 9]), 5).unwrap();
    assert_eq!(img.current_size(), (2, 2));
    assert_eq!(img.snapshot().len(), 16);
}

#[test]
fn append_rejects_other_width() {
    let mut img = composite_of(&rows_frame(2, &[1, 2]));
    let before = img.snapshot().to_vec();
    assert_eq!(img.append(&rows_frame(3, &[1]), 0), Err(ScrollError::SizeMismatch));
    assert_eq!(img.current_size(), (2, 2));
    assert_eq!(img.snapshot(), before.as_slice());
}

#[test]
fn reset_empties_the_store() {
    let mut img = composite_of(&rows_frame(2, &[1, 2]));
    img.reset();
    assert_eq!(img.current_size(), (0, 0));
    assert!(img.snapshot().is_empty());
}

#[test]
fn identical_frames_are_duplicates() {
    let a = rows_frame(4, &[10, 20, 30, 40, 50]);
    let img = composite_of(&a);
    let r = detect_overlap(&img, &a, 100);
    assert_eq!(r.offset, 5);
    assert!(r.is_duplicate);
    assert_eq!(r.confidence, 1000);
    let mut grown = composite_of(&a);
    grown.append(&a, r.offset).unwrap();
    assert_eq!(grown.current_height(), 5);
}

#[test]
fn disjoint_frames_have_no_overlap() {
    let a = rows_frame(3, &[0; 50]);
    let b = rows_frame(3, &[200; 50]);
    let mut img = composite_of(&a);
    let r = detect_overlap(&img, &b, 100);
    assert_eq!(r.offset, 0);
    assert!(!r.is_duplicate);
    // 1000 - 200 * 1000 / 255
    assert_eq!(r.confidence, 216);
    img.append(&b, r.offset).unwrap();
    assert_eq!(img.current_size(), (3, 100));
}

#[test]
fn scenario_gradient_overlap_of_thirty_rows() {
    let a_rows: Vec<u8> = (0..50u32).map(|r| (r * 5) as u8).collect();
    let mut b_rows: Vec<u8> = a_rows[20..50].to_vec();
    for r in 0..20u32 {
        b_rows.push((3 + 7 * r) as u8);
    }
    let a = rows_frame(800, &a_rows);
    let b = rows_frame(800, &b_rows);
    let mut img = composite_of(&a);
    let r = detect_overlap(&img, &b, 50);
    assert_eq!(r.offset, 30);
    assert_eq!(r.confidence, 1000);
    assert!(!r.is_duplicate);
    img.append(&b, r.offset).unwrap();
    assert_eq!(img.current_size(), (800, 70));
}

#[test]
fn noisy_overlap_within_tolerance_matches() {
    let a = rows_frame(2, &[100, 110, 120, 130]);
    let b = rows_frame(2, &[123, 133, 1, 2]);
    let img = composite_of(&a);
    let r = detect_overlap(&img, &b, 10);
    assert_eq!(r.offset, 2);
    // mean difference 3 per byte: 1000 - 3000 / 255
    assert_eq!(r.confidence, 989);
}

#[test]
fn noise_beyond_tolerance_does_not_match() {
    let a = rows_frame(2, &[100, 110, 120, 130]);
    let b = rows_frame(2, &[125, 135, 1, 2]);
    let img = composite_of(&a);
    let r = detect_overlap(&img, &b, 10);
    assert_eq!(r.offset, 0);
}

#[test]
fn largest_overlap_wins() {
    let a = rows_frame(1, &[7, 7, 7, 7]);
    let b = rows_frame(1, &[7, 7, 7, 200]);
    let img = composite_of(&a);
    let r = detect_overlap(&img, &b, 10);
    assert_eq!(r.offset, 3);
}

#[test]
fn search_limit_bounds_the_overlap() {
    let a = rows_frame(1, &[10, 20, 30, 40, 50, 60]);
    let b = rows_frame(1, &[30, 40, 50, 60, 200]);
    let img = composite_of(&a);
    assert_eq!(detect_overlap(&img, &b, 10).offset, 4);
    assert_eq!(detect_overlap(&img, &b, 3).offset, 0);
}

#[test]
fn width_change_gives_no_overlap() {
    let a = rows_frame(2, &[1, 2]);
    let b = rows_frame(3, &[1, 2]);
    let img = composite_of(&a);
    let r = detect_overlap(&img, &b, 10);
    assert_eq!(r.offset, 0);
    assert_eq!(r.confidence, 0);
}

#[test]
fn repeated_frame_is_duplicate_beyond_search_limit() {
    let a = rows_frame(2, &[10, 20, 30, 40, 50, 60]);
    let noisy = rows_frame(2, &[11, 21, 31, 41, 51, 61]);
    let img = composite_of(&a);
    let r = detect_overlap(&img, &noisy, 2);
    assert!(r.is_duplicate);
    assert_eq!(r.offset, 6);
    // mean difference 1 per byte: 1000 - 1000 / 255
    assert_eq!(r.confidence, 997);
}
