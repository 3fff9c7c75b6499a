//! Decoding of MIDI Time Code (MTC) quarter-frame messages into validated
//! timecode values.
//!
//! The crate is organised around three components: a range-normalized
//! [`timecode::Timecode`] value, a [`quarter_frame_buffer::TimeCodeQuarterFrameBuffer`]
//! that reassembles the eight quarter-frame fragments of one timecode in any
//! arrival order, and a [`mtc_decoder::MtcTimecodeDecoder`] state machine that
//! owns port selection and the connect/disconnect lifecycle and hands completed
//! timecodes from the producer side to a polling consumer.

pub mod components;
pub mod mtc_decoder;
pub mod quarter_frame;
pub mod quarter_frame_buffer;
pub mod timecode;
pub mod timecode_decoder;
pub mod timecode_type;
