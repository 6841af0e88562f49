use tunnel_core::relay::{
    message_to_stream_step, message_to_stream_writes, stream_to_message_frames,
    stream_to_message_step, MessageStep, ReadOutcome, RecvOutcome, RelayFrame, StreamStep,
};

#[test]
fn stream_pump_forwards_chunks_as_frames() {
    match stream_to_message_step(ReadOutcome::Bytes(vec![1, 2, 3])) {
        StreamStep::Forward(RelayFrame::Binary(p)) => assert_eq!(p, vec![1, 2, 3]),
        _ => panic!("data must travel on as one binary frame"),
    }
}

#[test]
fn stream_pump_sends_half_close_at_end_of_input() {
    match stream_to_message_step(ReadOutcome::Bytes(vec![])) {
        StreamStep::FinishHalfClose(RelayFrame::Text(t)) => {
            assert_eq!(t, b"half_close".to_vec());
        },
        _ => panic!("end-of-input must send the half-close command"),
    }
}

#[test]
fn stream_pump_stops_silently_on_read_error() {
    assert!(matches!(
        stream_to_message_step(ReadOutcome::Failed),
        StreamStep::Abort
    ));
}

/// Bytes written before end-of-input are all delivered, in order, before the
/// half-close frame.
#[test]
fn half_close_propagation() {
    let reads = vec![
        ReadOutcome::Bytes(vec![1, 2]),
        ReadOutcome::Bytes(vec![3]),
        ReadOutcome::Bytes(vec![]),
    ];
    let frames = stream_to_message_frames(reads);
    assert_eq!(frames.len(), 3);
    assert!(matches!(&frames[0], RelayFrame::Binary(p) if *p == vec![1, 2]));
    assert!(matches!(&frames[1], RelayFrame::Binary(p) if *p == vec![3]));
    assert!(matches!(&frames[2], RelayFrame::Text(t) if *t == b"half_close".to_vec()));

    // the peer pump writes the chunks in order and then shuts its write side
    let recvs = frames.into_iter().map(RecvOutcome::Frame).collect();
    let writes = message_to_stream_writes(recvs);
    assert_eq!(writes, vec![vec![1, 2], vec![3]]);
}

#[test]
fn stream_pump_stops_after_error_mid_run() {
    let reads = vec![
        ReadOutcome::Bytes(vec![9]),
        ReadOutcome::Failed,
        ReadOutcome::Bytes(vec![7]),
    ];
    let frames = stream_to_message_frames(reads);
    assert_eq!(frames.len(), 1);
    assert!(matches!(&frames[0], RelayFrame::Binary(p) if *p == vec![9]));
}

#[test]
fn message_pump_writes_binary_payloads() {
    match message_to_stream_step(RecvOutcome::Frame(RelayFrame::Binary(vec![5, 6]))) {
        MessageStep::Write(w) => assert_eq!(w, vec![5, 6]),
        _ => panic!("binary payload must be written verbatim"),
    }
}

#[test]
fn message_pump_shuts_down_on_half_close() {
    let frame = RelayFrame::Text(b"half_close".to_vec());
    assert!(matches!(
        message_to_stream_step(RecvOutcome::Frame(frame)),
        MessageStep::Shutdown
    ));
}

#[test]
fn message_pump_ignores_other_text() {
    let frame = RelayFrame::Text(b"ping".to_vec());
    assert!(matches!(
        message_to_stream_step(RecvOutcome::Frame(frame)),
        MessageStep::Skip
    ));
}

#[test]
fn message_pump_shuts_down_on_close_unknown_and_error() {
    assert!(matches!(
        message_to_stream_step(RecvOutcome::Frame(RelayFrame::Close)),
        MessageStep::Shutdown
    ));
    assert!(matches!(
        message_to_stream_step(RecvOutcome::Frame(RelayFrame::Other)),
        MessageStep::Shutdown
    ));
    assert!(matches!(
        message_to_stream_step(RecvOutcome::Failed),
        MessageStep::Shutdown
    ));
}

#[test]
fn message_pump_stops_writing_at_half_close() {
    let recvs = vec![
        RecvOutcome::Frame(RelayFrame::Binary(vec![1])),
        RecvOutcome::Frame(RelayFrame::Text(b"half_close".to_vec())),
        RecvOutcome::Frame(RelayFrame::Binary(vec![2])),
    ];
    let writes = message_to_stream_writes(recvs);
    assert_eq!(writes, vec![vec![1]]);
}
