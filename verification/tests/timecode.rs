use technus_timecode::timecode::Timecode;

// Tests for when the frames value is normal

#[test]
fn test_boundary_hours_unchanged() {
    let timecode = Timecode::new(100, 59, 59, 23, 24);

    assert_eq!(timecode.hours, 100)
}

#[test]
fn test_boundary_minutes_unchanged() {
    let timecode = Timecode::new(100, 59, 59, 23, 24);

    assert_eq!(timecode.minutes, 59)
}

#[test]
fn test_boundary_seconds_unchanged() {
    let timecode = Timecode::new(100, 59, 59, 23, 24);

    assert_eq!(timecode.seconds, 59)
}

#[test]
fn test_boundary_frames_unchanged() {
    let timecode = Timecode::new(100, 59, 59, 23, 24);

    assert_eq!(timecode.frames, 23)
}

// Tests for when the frames value is too high

#[test]
fn test_boundary_over_change_frames() {
    let timecode = Timecode::new(100, 59, 59, 25, 24);

    println!("Hours unchanged timecode: {}", timecode.format());

    assert_eq!(timecode.frames, 1)
}

#[test]
fn test_boundary_over_change_seconds() {
    let timecode = Timecode::new(100, 59, 59, 25, 24);

    assert_eq!(timecode.seconds, 0)
}

#[test]
fn test_boundary_over_change_minutes() {
    let timecode = Timecode::new(100, 59, 59, 25, 24);

    assert_eq!(timecode.minutes, 0)
}

#[test]
fn test_boundary_over_change_hours() {
    let timecode = Timecode::new(100, 59, 59, 25, 24);

    println!("Hours unchanged timecode: {}", timecode.format());

    assert_eq!(timecode.hours, 101)
}

// The total frame count is conserved by construction: carries are lossless
// radix conversions.

fn total(h: u64, m: u64, s: u64, f: u64, fps: u64) -> u64 {
    ((h * 60 + m) * 60 + s) * fps + f
}

#[test]
fn test_total_conserved() {
    let timecode = Timecode::new(2, 61, 75, 77, 25);
    assert_eq!(
        total(
            timecode.hours as u64,
            timecode.minutes as u64,
            timecode.seconds as u64,
            timecode.frames as u64,
            25,
        ),
        total(2, 61, 75, 77, 25)
    );
    assert!(timecode.frames < 25 && timecode.seconds < 60 && timecode.minutes < 60);
}

// Constructing from an already-normalized timecode's fields yields an
// identical timecode.

#[test]
fn test_construction_idempotent() {
    let first = Timecode::new(7, 59, 10, 29, 30);
    let second = Timecode::new(first.hours, first.minutes, first.seconds, first.frames, first.fps);
    assert_eq!(first, second);
}

// The degenerate frame rate of 0 must not panic and must leave the frames
// field as given.

#[test]
fn test_degenerate_fps() {
    let timecode = Timecode::new(0, 0, 0, 0, 0);
    assert_eq!(timecode.hours, 0);
    assert_eq!(timecode.minutes, 0);
    assert_eq!(timecode.seconds, 0);
    assert_eq!(timecode.frames, 0);
    assert_eq!(timecode.fps, 0);
}

#[test]
fn test_degenerate_fps_keeps_frames() {
    let timecode = Timecode::new(1, 2, 75, 200, 0);
    assert_eq!(timecode.frames, 200);
    assert_eq!(timecode.fps, 0);
    assert_eq!(timecode.seconds, 15);
    assert_eq!(timecode.minutes, 3);
    assert_eq!(timecode.hours, 1);
}

#[test]
fn test_default_is_all_zero() {
    let timecode = Timecode::default();
    assert_eq!(timecode, Timecode::new(0, 0, 0, 0, 0));
}

// The display convention: `H:MM:SS:FF @ FPSfps`, no zero padding.

#[test]
fn test_format() {
    let timecode = Timecode::new(1, 2, 3, 4, 25);
    assert_eq!(timecode.format(), "1:2:3:4 @ 25fps");
}

#[test]
fn test_format_wide_values() {
    let timecode = Timecode::new(101, 0, 0, 1, 24);
    assert_eq!(timecode.format(), "101:0:0:1 @ 24fps");
}

#[test]
fn test_u8_rendering() {
    assert_eq!(technus_timecode::timecode::u8_to_string(0), "0");
    assert_eq!(technus_timecode::timecode::u8_to_string(9), "9");
    assert_eq!(technus_timecode::timecode::u8_to_string(10), "10");
    assert_eq!(technus_timecode::timecode::u8_to_string(100), "100");
    assert_eq!(technus_timecode::timecode::u8_to_string(255), "255");
}
