use std::sync::mpsc;

use technus_timecode::mtc_decoder::{ConnectError, DisconnectError, MtcTimecodeDecoder};
use technus_timecode::timecode::Timecode;
use technus_timecode::timecode_decoder::TimecodeDecoder;

#[test]
fn test_new_decoder_is_idle() {
    let mut decoder = MtcTimecodeDecoder::new();
    assert_eq!(decoder.fps, 0);
    assert_eq!(decoder.port, None);
    assert!(!decoder.connected());
    assert_eq!(decoder.poll_latest_timecode(), None);
}

// Connecting without a selected port fails and leaves the decoder
// disconnected; disconnecting without a connection fails likewise.
#[test]
fn test_connect_without_port() {
    let mut decoder = MtcTimecodeDecoder::new();
    assert_eq!(decoder.connect(), Err(ConnectError::NoPortSelected));
    assert!(!decoder.connected());
    assert_eq!(decoder.disconnect(), Err(DisconnectError::NotConnected));
    assert!(!decoder.connected());
}

#[test]
fn test_connect_names_selected_port() {
    let mut decoder = MtcTimecodeDecoder::new();
    decoder.select_port(3);
    assert_eq!(decoder.port, Some(3));
    assert_eq!(decoder.connect(), Ok(3));
    // The attempt itself does not change state; only a completed open does.
    assert!(!decoder.connected());
    assert_eq!(decoder.port, Some(3));
}

#[test]
fn test_connection_lifecycle() {
    let mut decoder = MtcTimecodeDecoder::new();
    decoder.select_port(0);
    let port = decoder.connect().unwrap();
    assert_eq!(port, 0);

    let (tx, rx) = mpsc::channel();
    decoder.connection_opened(rx);
    assert!(decoder.connected());
    // The port was consumed by the connection and must be re-selected for a
    // second attempt.
    assert_eq!(decoder.port, None);

    // Nothing sent yet: polling yields nothing, without blocking.
    assert_eq!(decoder.poll_latest_timecode(), None);

    let sent = Timecode::new(1, 2, 3, 4, 25);
    tx.send(sent).unwrap();
    assert_eq!(decoder.poll_latest_timecode(), Some(sent));
    // Take semantics: one pending value is returned once.
    assert_eq!(decoder.poll_latest_timecode(), None);

    tx.send(sent).unwrap();
    tx.send(Timecode::new(1, 2, 3, 5, 25)).unwrap();
    assert_eq!(decoder.get_current_timecode(), Some(sent));
    assert_eq!(decoder.get_current_timecode(), Some(Timecode::new(1, 2, 3, 5, 25)));
    assert_eq!(decoder.get_current_timecode(), None);

    assert_eq!(decoder.disconnect(), Ok(()));
    assert!(!decoder.connected());
    assert_eq!(decoder.poll_latest_timecode(), None);
    assert_eq!(decoder.disconnect(), Err(DisconnectError::NotConnected));
}

#[test]
fn test_failed_open_leaves_pre_call_state() {
    let mut decoder = MtcTimecodeDecoder::new();
    decoder.fps = 25;
    decoder.select_port(2);
    let attempt = decoder.connect();
    assert_eq!(attempt, Ok(2));
    // The transport could not open the port: no state was consumed.
    assert_eq!(decoder.port, Some(2));
    assert_eq!(decoder.fps, 25);
    assert!(!decoder.connected());
}
