use serial_port_backend::stream::{stream_step, StreamAction, StreamEvent};

#[test]
fn broadcasts_are_forwarded_unchanged() {
    match stream_step(StreamEvent::Broadcast("{\"type\":\"Data\"}".to_string())) {
        StreamAction::Forward(m) => assert_eq!(m, "{\"type\":\"Data\"}"),
        other => panic!("unexpected {:?}", other),
    }
}

#[test]
fn a_lag_only_skips() {
    assert!(matches!(stream_step(StreamEvent::Lagged(3)), StreamAction::Skip));
    assert!(matches!(stream_step(StreamEvent::ClientMessage), StreamAction::Skip));
}

#[test]
fn closing_events_stop_the_stream() {
    assert!(matches!(stream_step(StreamEvent::ChannelClosed), StreamAction::Stop));
    assert!(matches!(stream_step(StreamEvent::SendFailed), StreamAction::Stop));
    assert!(matches!(stream_step(StreamEvent::ClientClosed), StreamAction::Stop));
}
