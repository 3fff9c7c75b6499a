use vstd::prelude::*;
use crate::timecode::{Timecode, total_frames};

verus! {

/// The raw field values carried by quarter-frame fragments and produced by
/// merging a complete set of eight: one byte per field, plus the two-bit
/// frame-rate code taken from the eighth fragment (0 = 24 fps, 1 = 25 fps,
/// 2 = 30 fps drop, 3 = 30 fps non-drop).
#[derive(Debug, PartialEq, Eq, Structural, Clone, Copy)]
pub struct TimeCodeValue {
    pub frames: u8,
    pub seconds: u8,
    pub minutes: u8,
    pub hours: u8,
    pub code_type: u8,
}

/// One tagged quarter-frame fragment: the buffer slot index 0-7 it belongs to
/// and the partial field values its data byte decodes to.
#[derive(Debug, PartialEq, Eq, Structural, Clone, Copy)]
pub struct QuarterFrame {
    pub index: u8,
    pub value: TimeCodeValue,
}

/// The field values that a quarter-frame fragment with the given index carries
/// when its payload nibble is `nibble`: indices 0/2/4/6 hold the low nibble of
/// the frames/seconds/minutes/hours byte, indices 1/3/5 the high nibble shifted
/// into place, and index 7 the hour byte's bit 4 together with the two-bit
/// frame-rate code. All other fields stay at their rest value (zero, with the
/// frame-rate code at its default of 3).
pub open spec fn spec_placed(index: u8, nibble: u8) -> TimeCodeValue {
    if index == 0 {
        TimeCodeValue { frames: nibble, seconds: 0, minutes: 0, hours: 0, code_type: 3 }
    } else if index == 1 {
        TimeCodeValue { frames: nibble << 4, seconds: 0, minutes: 0, hours: 0, code_type: 3 }
    } else if index == 2 {
        TimeCodeValue { frames: 0, seconds: nibble, minutes: 0, hours: 0, code_type: 3 }
    } else if index == 3 {
        TimeCodeValue { frames: 0, seconds: nibble << 4, minutes: 0, hours: 0, code_type: 3 }
    } else if index == 4 {
        TimeCodeValue { frames: 0, seconds: 0, minutes: nibble, hours: 0, code_type: 3 }
    } else if index == 5 {
        TimeCodeValue { frames: 0, seconds: 0, minutes: nibble << 4, hours: 0, code_type: 3 }
    } else if index == 6 {
        TimeCodeValue { frames: 0, seconds: 0, minutes: 0, hours: nibble, code_type: 3 }
    } else {
        TimeCodeValue { frames: 0, seconds: 0, minutes: 0, hours: (nibble & 1) << 4, code_type: (nibble & 6) >> 1 }
    }
}

/// The fragment that one quarter-frame data byte (3-bit index, 4-bit payload)
/// denotes on the wire.
pub open spec fn spec_quarter_frame(data: u8) -> QuarterFrame {
    QuarterFrame { index: data >> 4, value: spec_placed(data >> 4, data & 0x0F) }
}

impl QuarterFrame {
    /// The payload nibble that this fragment's placed field values encode.
    pub open spec fn spec_nibble(self) -> u8 {
        if self.index == 0 { self.value.frames }
        else if self.index == 1 { self.value.frames >> 4 }
        else if self.index == 2 { self.value.seconds }
        else if self.index == 3 { self.value.seconds >> 4 }
        else if self.index == 4 { self.value.minutes }
        else if self.index == 5 { self.value.minutes >> 4 }
        else if self.index == 6 { self.value.hours }
        else { (self.value.hours >> 4) | (self.value.code_type << 1) }
    }

    /// A well-formed fragment is one as the wire yields it: a recognized index
    /// and exactly one payload nibble's worth of one field, every other field
    /// at its rest value.
    pub open spec fn wf(self) -> bool {
        self.index < 8 ==> self.spec_nibble() < 16 && self.value == spec_placed(self.index, self.spec_nibble())
    }
}

/// Decodes one quarter-frame data byte into the tagged fragment it carries,
/// following the MTC wire layout exactly.
pub fn decode_quarter_frame(data: u8) -> (qf: QuarterFrame)
    requires
        data < 128,
    ensures
        qf == spec_quarter_frame(data),
        qf.wf(),
        qf.index == data >> 4,
        qf.index < 8,
{
    let index: u8 = data >> 4;
    let nibble: u8 = data & 0x0F;
    assert(index < 8 && nibble < 16) by (bit_vector)
        requires
            index == data >> 4,
            nibble == data & 0x0F,
            data < 128;
    let value: TimeCodeValue = if index == 0 {
        TimeCodeValue { frames: nibble, seconds: 0, minutes: 0, hours: 0, code_type: 3 }
    } else if index == 1 {
        TimeCodeValue { frames: nibble << 4, seconds: 0, minutes: 0, hours: 0, code_type: 3 }
    } else if index == 2 {
        TimeCodeValue { frames: 0, seconds: nibble, minutes: 0, hours: 0, code_type: 3 }
    } else if index == 3 {
        TimeCodeValue { frames: 0, seconds: nibble << 4, minutes: 0, hours: 0, code_type: 3 }
    } else if index == 4 {
        TimeCodeValue { frames: 0, seconds: 0, minutes: nibble, hours: 0, code_type: 3 }
    } else if index == 5 {
        TimeCodeValue { frames: 0, seconds: 0, minutes: nibble << 4, hours: 0, code_type: 3 }
    } else if index == 6 {
        TimeCodeValue { frames: 0, seconds: 0, minutes: 0, hours: nibble, code_type: 3 }
    } else {
        TimeCodeValue { frames: 0, seconds: 0, minutes: 0, hours: (nibble & 1) << 4, code_type: (nibble & 6) >> 1 }
    };
    let qf = QuarterFrame { index, value };
    proof {
        lemma_decode_wf(index, nibble);
    }
    qf
}

/// A fragment built from a recognized index and a payload nibble is
/// well-formed: the nibble can be read back from the placed field values.
proof fn lemma_decode_wf(index: u8, nibble: u8)
    requires
        index < 8,
        nibble < 16,
    ensures
        (QuarterFrame { index, value: spec_placed(index, nibble) }).wf(),
{
    let qf = QuarterFrame { index, value: spec_placed(index, nibble) };
    if index == 1 || index == 3 || index == 5 {
        assert((nibble << 4) >> 4 == nibble) by (bit_vector)
            requires nibble < 16;
    } else if index == 7 {
        let hours = (nibble & 1) << 4;
        let code = (nibble & 6) >> 1;
        let back = (hours >> 4) | (code << 1);
        assert(back < 16 && ((back & 1) << 4) == hours && ((back & 6) >> 1) == code) by (bit_vector)
            requires
                hours == (nibble & 1) << 4,
                code == (nibble & 6) >> 1,
                back == (hours >> 4) | (code << 1),
                nibble < 16;
    }
}

/// The frame rate in frames per second that a two-bit frame-rate code denotes:
/// 0 is 24 fps, 1 is 25 fps, and 2 and 3 are the two 30 fps variants. Values
/// above 3 cannot occur in the two-bit field and read as 30 fps as well.
pub open spec fn spec_code_fps(code: u8) -> u8 {
    if code == 0 { 24 } else if code == 1 { 25 } else { 30 }
}

/// Maps a frame-rate code to its frame rate.
pub fn code_fps(code: u8) -> (fps: u8)
    ensures
        fps == spec_code_fps(code),
        24 <= fps <= 30,
{
    if code == 0 { 24 } else if code == 1 { 25 } else { 30 }
}

/// Whether a timecode is the one that assembling the raw value `v` yields: its
/// frame rate is the one `v`'s frame-rate code denotes, its fields are
/// normalized, and it denotes the same total position in frames as `v`'s raw
/// fields do at that rate. These conditions determine the timecode uniquely.
pub open spec fn assembled_from(tc: Timecode, v: TimeCodeValue) -> bool {
    &&& tc.fps == spec_code_fps(v.code_type)
    &&& tc.is_normalized()
    &&& tc.total() == total_frames(v.hours as int, v.minutes as int, v.seconds as int, v.frames as int, spec_code_fps(v.code_type) as int)
}

impl Timecode {
    /// Builds the timecode that a merged set of quarter-frame fragments
    /// denotes: the stream's own frame-rate code determines the frame rate,
    /// and the raw fields are carry-normalized. The hour bound keeps the hour
    /// carry within the field; merged wire values stay far below it.
    pub fn from_value(v: TimeCodeValue) -> (r: Timecode)
        requires
            v.hours <= 250,
        ensures
            assembled_from(r, v),
    {
        let fps = code_fps(v.code_type);
        proof {
            lemma_raw_total_fits(v.hours as int, v.minutes as int, v.seconds as int, v.frames as int, fps as int);
        }
        Timecode::new(v.hours, v.minutes, v.seconds, v.frames, fps)
    }
}

/// Any raw reading with at most 250 hours denotes fewer than `921600 * fps`
/// total frames, so its hour carry fits the hours field.
proof fn lemma_raw_total_fits(h: int, m: int, s: int, f: int, fps: int)
    by (nonlinear_arith)
    requires
        0 <= h <= 250,
        0 <= m <= 255,
        0 <= s <= 255,
        0 <= f <= 255,
        24 <= fps <= 30,
    ensures
        total_frames(h, m, s, f, fps) < 921600 * fps,
{
}

} // verus!
