use vstd::prelude::*;
use crate::timecode::Timecode;

verus! {

/// A source of decoded timecode values for a polling consumer. A call yields
/// the next decoded value if one has arrived since the last poll, and nothing
/// otherwise; it never blocks.
pub trait TimecodeDecoder {
    fn get_current_timecode(&mut self) -> Option<Timecode>;
}

} // verus!
