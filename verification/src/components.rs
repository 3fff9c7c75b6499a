use vstd::prelude::*;
use crate::timecode::Timecode;
use crate::timecode_type::TimecodeType;

verus! {

/// The state behind the timecode-type picker: which timecode source is
/// currently selected. The widgets that change it live with the presentation
/// layer.
#[derive(Debug, PartialEq, Eq, Structural, Clone, Copy)]
pub struct SelectTimecodeType {
    pub current_type: TimecodeType,
}

impl Default for SelectTimecodeType {
    /// MTC is the initially selected timecode type.
    fn default() -> (r: SelectTimecodeType)
        ensures
            r.current_type == TimecodeType::Mtc,
    {
        SelectTimecodeType { current_type: TimecodeType::Mtc }
    }
}

/// The state behind the timecode readout: the most recently decoded timecode,
/// kept until a newer one arrives.
#[derive(Debug, PartialEq, Eq, Structural, Clone, Copy)]
pub struct TimecodeDisplay {
    pub current_timecode: Timecode,
}

impl Default for TimecodeDisplay {
    /// Starts out showing the all-zero placeholder timecode.
    fn default() -> (r: TimecodeDisplay)
        ensures
            r.current_timecode == (Timecode { hours: 0, minutes: 0, seconds: 0, frames: 0, fps: 0 }),
    {
        TimecodeDisplay { current_timecode: Timecode { hours: 0, minutes: 0, seconds: 0, frames: 0, fps: 0 } }
    }
}

impl TimecodeDisplay {
    /// Takes one poll's outcome: a fresh timecode replaces the cached value
    /// wholesale and asks the caller to repaint; no news keeps the cache.
    pub fn refresh(&mut self, polled: Option<Timecode>) -> (repaint: bool)
        ensures
            polled is Some ==> final(self).current_timecode == polled->0 && repaint,
            polled is None ==> *final(self) == *old(self) && !repaint,
    {
        match polled {
            Some(tc) => {
                self.current_timecode = tc;
                true
            },
            None => false,
        }
    }
}

} // verus!
