use technus_timecode::components::{SelectTimecodeType, TimecodeDisplay};
use technus_timecode::timecode::Timecode;
use technus_timecode::timecode_type::TimecodeType;

#[test]
fn test_timecode_type_labels() {
    assert_eq!(TimecodeType::Artnet.label(), "Art-Net");
    assert_eq!(TimecodeType::Ltc.label(), "LTC");
    assert_eq!(TimecodeType::Mtc.label(), "MTC");
}

#[test]
fn test_default_timecode_type_is_mtc() {
    assert_eq!(TimecodeType::default(), TimecodeType::Mtc);
    assert_eq!(SelectTimecodeType::default().current_type, TimecodeType::Mtc);
}

#[test]
fn test_display_caches_latest_value() {
    let mut display = TimecodeDisplay::default();
    assert_eq!(display.current_timecode, Timecode::default());

    // No news keeps the cache and asks for no repaint.
    assert!(!display.refresh(None));
    assert_eq!(display.current_timecode, Timecode::default());

    let tc = Timecode::new(1, 2, 3, 4, 30);
    assert!(display.refresh(Some(tc)));
    assert_eq!(display.current_timecode, tc);

    // Polling faster than frames arrive leaves the cached value in place.
    assert!(!display.refresh(None));
    assert_eq!(display.current_timecode, tc);
}
