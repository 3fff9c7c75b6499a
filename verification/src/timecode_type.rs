use vstd::prelude::*;

verus! {

/// The kinds of timecode source the application can read. Only MTC is
/// implemented; the other two are recognized but stubbed.
#[derive(Debug, PartialEq, Eq, Structural, Clone, Copy)]
pub enum TimecodeType {
    Artnet,
    Ltc,
    Mtc,
}

impl TimecodeType {
    /// The display name of this timecode type.
    pub fn label(&self) -> (s: String)
        ensures
            self is Artnet ==> s@ == "Art-Net"@,
            self is Ltc ==> s@ == "LTC"@,
            self is Mtc ==> s@ == "MTC"@,
    {
        match self {
            TimecodeType::Artnet => "Art-Net".to_owned(),
            TimecodeType::Ltc => "LTC".to_owned(),
            TimecodeType::Mtc => "MTC".to_owned(),
        }
    }
}

impl Default for TimecodeType {
    fn default() -> (r: TimecodeType)
        ensures
            r == TimecodeType::Mtc,
    {
        TimecodeType::Mtc
    }
}

} // verus!
