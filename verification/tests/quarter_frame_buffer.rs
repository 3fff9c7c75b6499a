use technus_timecode::quarter_frame::{code_fps, decode_quarter_frame, QuarterFrame, TimeCodeValue};
use technus_timecode::quarter_frame_buffer::TimeCodeQuarterFrameBuffer;
use technus_timecode::timecode::Timecode;

// The eight data bytes that encode 1:2:3:4 at the 25 fps rate code.
const FRAME_BYTES: [u8; 8] = [0x04, 0x10, 0x23, 0x30, 0x42, 0x50, 0x61, 0x72];

fn fragments() -> Vec<QuarterFrame> {
    FRAME_BYTES.iter().map(|&b| decode_quarter_frame(b)).collect()
}

fn complete(buffer: &mut TimeCodeQuarterFrameBuffer, order: &[usize]) -> Option<TimeCodeValue> {
    let frags = fragments();
    let mut result = None;
    for &i in order {
        buffer.add(frags[i]);
        if let Some(v) = buffer.construct_timecode() {
            result = Some(v);
        }
    }
    result
}

#[test]
fn test_decode_places_nibbles() {
    let qf = decode_quarter_frame(0x13);
    assert_eq!(qf.index, 1);
    assert_eq!(qf.value.frames, 0x30);
    assert_eq!(qf.value.seconds, 0);
    let qf = decode_quarter_frame(0x75);
    assert_eq!(qf.index, 7);
    assert_eq!(qf.value.hours, 0x10);
    assert_eq!(qf.value.code_type, 2);
}

#[test]
fn test_code_fps() {
    assert_eq!(code_fps(0), 24);
    assert_eq!(code_fps(1), 25);
    assert_eq!(code_fps(2), 30);
    assert_eq!(code_fps(3), 30);
}

#[test]
fn test_in_order_assembly() {
    let mut buffer = TimeCodeQuarterFrameBuffer::new();
    let v = complete(&mut buffer, &[0, 1, 2, 3, 4, 5, 6, 7]).unwrap();
    assert_eq!(v.frames, 4);
    assert_eq!(v.seconds, 3);
    assert_eq!(v.minutes, 2);
    assert_eq!(v.hours, 1);
    assert_eq!(v.code_type, 1);
}

// Feeding the 8 fragment kinds in any permutation order yields the same
// completed value as feeding them in index order.
#[test]
fn test_order_independent_assembly() {
    let mut buffer = TimeCodeQuarterFrameBuffer::new();
    let in_order = complete(&mut buffer, &[0, 1, 2, 3, 4, 5, 6, 7]).unwrap();
    let shuffled = complete(&mut buffer, &[7, 2, 5, 0, 3, 6, 1, 4]).unwrap();
    assert_eq!(in_order, shuffled);
    let reversed = complete(&mut buffer, &[7, 6, 5, 4, 3, 2, 1, 0]).unwrap();
    assert_eq!(in_order, reversed);
}

// Feeding only 7 of the 8 kinds yields nothing, however often completion is
// attempted, until the 8th arrives.
#[test]
fn test_missing_kind_never_completes() {
    let mut buffer = TimeCodeQuarterFrameBuffer::new();
    let frags = fragments();
    for i in 0..7 {
        buffer.add(frags[i]);
        assert_eq!(buffer.construct_timecode(), None);
    }
    for i in 0..7 {
        buffer.add(frags[i]);
        assert_eq!(buffer.construct_timecode(), None);
    }
    buffer.add(frags[7]);
    assert!(buffer.construct_timecode().is_some());
}

// After a successful completion the buffer is empty again.
#[test]
fn test_buffer_resets_after_completion() {
    let mut buffer = TimeCodeQuarterFrameBuffer::new();
    assert!(complete(&mut buffer, &[0, 1, 2, 3, 4, 5, 6, 7]).is_some());
    assert_eq!(buffer.construct_timecode(), None);
    let frags = fragments();
    for i in 0..7 {
        buffer.add(frags[i]);
        assert_eq!(buffer.construct_timecode(), None);
    }
    buffer.add(frags[7]);
    assert!(buffer.construct_timecode().is_some());
}

// A duplicate fragment for an already-filled slot does not alter the
// eventually-produced value.
#[test]
fn test_duplicate_fragment_ignored() {
    let frags = fragments();
    let mut buffer = TimeCodeQuarterFrameBuffer::new();
    let plain = complete(&mut buffer, &[0, 1, 2, 3, 4, 5, 6, 7]).unwrap();

    let mut buffer = TimeCodeQuarterFrameBuffer::new();
    buffer.add(frags[0]);
    // A retransmission carrying different payload must not overwrite slot 0.
    buffer.add(decode_quarter_frame(0x0F));
    for i in 1..8 {
        buffer.add(frags[i]);
    }
    let with_duplicate = buffer.construct_timecode().unwrap();
    assert_eq!(plain, with_duplicate);
}

// Feeding fragments for indices 0-6 yields nothing; feeding index 7 then
// completes with the fields the bit layout prescribes.
#[test]
fn test_completion_scenario() {
    let mut buffer = TimeCodeQuarterFrameBuffer::new();
    for &b in &FRAME_BYTES[..7] {
        buffer.add(decode_quarter_frame(b));
    }
    assert_eq!(buffer.construct_timecode(), None);
    buffer.add(decode_quarter_frame(FRAME_BYTES[7]));
    let v = buffer.construct_timecode().unwrap();
    assert_eq!(
        v,
        TimeCodeValue { frames: 4, seconds: 3, minutes: 2, hours: 1, code_type: 1 }
    );
    let tc = Timecode::from_value(v);
    assert_eq!(tc, Timecode::new(1, 2, 3, 4, 25));
}

// The stream-decoded rate code determines the assembled timecode's frame
// rate, and out-of-range raw fields are carry-normalized.
#[test]
fn test_from_value_normalizes() {
    let v = TimeCodeValue { frames: 25, seconds: 59, minutes: 59, hours: 100, code_type: 0 };
    let tc = Timecode::from_value(v);
    assert_eq!(tc, Timecode::new(100, 59, 59, 25, 24));
    assert_eq!(tc.hours, 101);
    assert_eq!(tc.fps, 24);
}

// Raw MIDI bytes run through the real parser: quarter-frame messages fill the
// buffer, anything else is ignored.
#[test]
fn test_handle_midi_messages() {
    let mut buffer = TimeCodeQuarterFrameBuffer::new();
    // Unrelated traffic on the same stream: note-on, tune request, garbage.
    assert_eq!(buffer.handle_midi_message(&[0x90, 60, 100]), None);
    assert_eq!(buffer.handle_midi_message(&[0xF6]), None);
    assert_eq!(buffer.handle_midi_message(&[0x01, 0x02]), None);
    assert_eq!(buffer.handle_midi_message(&[]), None);
    // A data byte with the high bit set is not a valid quarter frame.
    assert_eq!(buffer.handle_midi_message(&[0xF1, 0x84]), None);

    let mut produced = None;
    for &b in &FRAME_BYTES {
        let r = buffer.handle_midi_message(&[0xF1, b]);
        if r.is_some() {
            produced = r;
        }
    }
    assert_eq!(produced, Some(Timecode::new(1, 2, 3, 4, 25)));
    // The buffer reset itself: the next full set is needed again.
    assert_eq!(buffer.handle_midi_message(&[0xF1, FRAME_BYTES[0]]), None);
}
