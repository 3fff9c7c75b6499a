use vstd::prelude::*;
use crate::timecode::Timecode;
use crate::timecode_decoder::TimecodeDecoder;
use std::sync::mpsc::Receiver;

verus! {

/// Why a connection attempt cannot proceed.
#[derive(Debug, PartialEq, Eq, Structural, Clone, Copy)]
pub enum ConnectError {
    /// No port has been selected, so there is nothing to connect to.
    NoPortSelected,
    /// The transport layer failed to open the connection.
    Transport,
}

/// Why a disconnect request cannot proceed.
#[derive(Debug, PartialEq, Eq, Structural, Clone, Copy)]
pub enum DisconnectError {
    /// No connection is open, hence none can be closed.
    NotConnected,
}

#[verifier::external_type_specification]
#[verifier::external_body]
#[verifier::reject_recursive_types(T)]
pub struct ExReceiver<T>(Receiver<T>);

/// Relies on std::sync::mpsc::Receiver::try_recv: it never blocks and never
/// panics, and it returns a value only when one is pending on the channel.
#[verifier::external_body]
fn try_recv_timecode(rx: &Receiver<Timecode>) -> (r: Option<Timecode>) {
    rx.try_recv().ok()
}

/// The MTC decoder's lifecycle state and consumer-side endpoint. The transport
/// itself (port enumeration, the open connection, the producer callback) lives
/// with the caller, which drives the transitions here: a connection attempt
/// begins with [`MtcTimecodeDecoder::connect`] and is completed with
/// [`MtcTimecodeDecoder::connection_opened`] once the transport is up, so a
/// transport failure leaves the decoder in its pre-call state.
pub struct MtcTimecodeDecoder {
    /// The frame rate the consumer expects; a display fallback only, since the
    /// rate decoded from the stream itself wins once a frame has assembled.
    pub fps: u8,
    /// The index of the selected input port in the transport's port list. It
    /// is consumed when a connection opens and must be selected again after a
    /// disconnect.
    pub port: Option<usize>,
    /// The consumer-side receive endpoint of the connection's channel;
    /// present exactly while connected.
    pub timecode_rx: Option<Receiver<Timecode>>,
    /// Whether a connection is currently open.
    pub connected: bool,
}

impl MtcTimecodeDecoder {
    /// Whether a connection is currently open.
    pub open spec fn spec_connected(&self) -> bool {
        self.connected
    }

    /// Whether the consumer-side receive endpoint is present; it is, exactly
    /// while connected.
    pub open spec fn has_channel(&self) -> bool {
        self.timecode_rx is Some
    }

    /// A fresh decoder: no frame rate configured, no port selected, not
    /// connected.
    pub fn new() -> (d: MtcTimecodeDecoder)
        ensures
            d.fps == 0,
            d.port is None,
            !d.spec_connected(),
            !d.has_channel(),
    {
        MtcTimecodeDecoder { fps: 0, port: None, timecode_rx: None, connected: false }
    }

    /// Stores the port to connect to; only valid while not connected.
    pub fn select_port(&mut self, port: usize)
        requires
            !old(self).spec_connected(),
        ensures
            final(self).port == Some(port),
            final(self).fps == old(self).fps,
            !final(self).spec_connected(),
            final(self).has_channel() == old(self).has_channel(),
    {
        self.port = Some(port);
    }

    /// Begins a connection attempt: fails when no port is selected, and
    /// otherwise names the port the transport should open. The decoder itself
    /// is left untouched; the caller reports the outcome of the transport's
    /// open through [`MtcTimecodeDecoder::connection_opened`], so a failed
    /// attempt leaves no trace.
    pub fn connect(&self) -> (r: Result<usize, ConnectError>)
        ensures
            self.port is None ==> r == Err::<usize, ConnectError>(ConnectError::NoPortSelected),
            self.port is Some ==> r == Ok::<usize, ConnectError>(self.port->0),
    {
        match self.port {
            None => Err(ConnectError::NoPortSelected),
            Some(port) => Ok(port),
        }
    }

    /// Completes a successful connection attempt: takes ownership of the
    /// selected port (it cannot be reused for a second attempt), stores the
    /// consumer-side endpoint of the fresh channel, and becomes connected.
    pub fn connection_opened(&mut self, rx: Receiver<Timecode>)
        ensures
            final(self).port is None,
            final(self).fps == old(self).fps,
            final(self).spec_connected(),
            final(self).has_channel(),
    {
        self.port = None;
        self.timecode_rx = Some(rx);
        self.connected = true;
    }

    /// Closes the currently open connection; fails when none is open. The
    /// receive endpoint is dropped, and the consumed port is not restored: a
    /// port must be selected again before reconnecting. The caller must have
    /// torn the transport connection down first, so that no producer callback
    /// can fire once the channel is gone.
    pub fn disconnect(&mut self) -> (r: Result<(), DisconnectError>)
        ensures
            !old(self).spec_connected() ==> r == Err::<(), DisconnectError>(DisconnectError::NotConnected)
                && *final(self) == *old(self),
            old(self).spec_connected() ==> r == Ok::<(), DisconnectError>(())
                && !final(self).spec_connected()
                && !final(self).has_channel()
                && final(self).port == old(self).port
                && final(self).fps == old(self).fps,
    {
        if !self.connected {
            return Err(DisconnectError::NotConnected);
        }
        self.connected = false;
        self.timecode_rx = None;
        Ok(())
    }

    /// Returns true if there is a connection open.
    pub fn connected(&self) -> (r: bool)
        ensures
            r == self.spec_connected(),
    {
        self.connected
    }

    /// Polls for the latest decoded timecode without blocking: nothing while
    /// disconnected, and while connected the next value the producer sent, if
    /// any has arrived since the last poll.
    pub fn poll_latest_timecode(&mut self) -> (r: Option<Timecode>)
        ensures
            !old(self).has_channel() ==> r is None,
            final(self).fps == old(self).fps,
            final(self).port == old(self).port,
            final(self).spec_connected() == old(self).spec_connected(),
            final(self).has_channel() == old(self).has_channel(),
    {
        match &self.timecode_rx {
            Some(rx) => try_recv_timecode(rx),
            None => None,
        }
    }
}

impl TimecodeDecoder for MtcTimecodeDecoder {
    /// Gets the current timecode value from MTC; when no new value is
    /// available it returns nothing.
    fn get_current_timecode(&mut self) -> Option<Timecode> {
        self.poll_latest_timecode()
    }
}

} // verus!
