use serial_port_backend::api::capture::{start, stop, LogsQuery};
use serial_port_backend::api::ports::{open, send_outcome, send_payload, set_display_mode};
use serial_port_backend::models::{DisplayMode, PortConfig, SendRequest, WsMessage};
use serial_port_backend::serial::{
    capture_received, close_port, open_port, reader_message, send_data, SerialState,
};

fn stamp() -> Option<String> {
    Some("2024-01-02T03:04:05+00:00".to_string())
}

fn config(name: &str, baud: u32) -> PortConfig {
    PortConfig { port_name: name.to_string(), baud_rate: baud }
}

#[test]
fn new_session_is_closed() {
    let s = SerialState::new();
    let st = s.status();
    assert!(!st.open);
    assert_eq!(st.port_name, None);
    assert_eq!(st.baud_rate, None);
    assert!(!st.capturing);
    assert_eq!(s.display_mode, DisplayMode::Ascii);
}

#[test]
fn open_reports_the_port() {
    let mut s = SerialState::new();
    let st = open(&mut s, &config("/dev/ttyUSB0", 115200), Ok(())).unwrap();
    assert!(st.open);
    assert_eq!(st.port_name.as_deref(), Some("/dev/ttyUSB0"));
    assert_eq!(st.baud_rate, Some(115200));
    assert!(!st.capturing);
}

#[test]
fn second_open_is_refused_and_changes_nothing() {
    let mut s = SerialState::new();
    open_port(&mut s, "COM1", 9600, Ok(())).unwrap();
    let r = open_port(&mut s, "COM2", 19200, Ok(()));
    assert_eq!(r, Err("Port already open".to_string()));
    assert_eq!(s.port_name.as_deref(), Some("COM1"));
    assert_eq!(s.baud_rate, Some(9600));
}

#[test]
fn device_error_is_passed_on() {
    let mut s = SerialState::new();
    let r = open(&mut s, &config("COM9", 9600), Err("No such file or directory".to_string()));
    assert_eq!(r.unwrap_err(), "No such file or directory");
    assert!(!s.port_open);
    assert_eq!(s.port_name, None);
}

#[test]
fn close_resets_port_and_capture() {
    let mut s = SerialState::new();
    open_port(&mut s, "COM1", 9600, Ok(())).unwrap();
    start(&mut s);
    set_display_mode(&mut s, Some("hex"));
    close_port(&mut s);
    let st = s.status();
    assert!(!st.open && st.port_name.is_none() && st.baud_rate.is_none() && !st.capturing);
    assert_eq!(s.display_mode, DisplayMode::Hex);
    // A closed port can be opened again.
    assert_eq!(open_port(&mut s, "COM2", 4800, Ok(())), Ok(()));
}

#[test]
fn capture_switches_without_a_port() {
    let mut s = SerialState::new();
    assert!(start(&mut s));
    assert!(s.capturing && !s.port_open);
    assert!(!stop(&mut s));
    assert!(!s.capturing);
}

#[test]
fn display_mode_words() {
    let mut s = SerialState::new();
    set_display_mode(&mut s, Some("hex"));
    assert_eq!(s.display_mode, DisplayMode::Hex);
    set_display_mode(&mut s, Some("HEX"));
    assert_eq!(s.display_mode, DisplayMode::Ascii);
    set_display_mode(&mut s, Some("hex"));
    set_display_mode(&mut s, Some("ascii"));
    assert_eq!(s.display_mode, DisplayMode::Ascii);
    assert_eq!(DisplayMode::Hex.as_str(), "hex");
    assert_eq!(DisplayMode::Ascii.as_str(), "ascii");
    assert_eq!(DisplayMode::from_word("hex"), DisplayMode::Hex);
    assert_eq!(DisplayMode::from_word(""), DisplayMode::Ascii);
}

#[test]
fn sending_needs_an_open_port() {
    let s = SerialState::new();
    assert_eq!(send_data(&s, Ok(3)), Err("Port not open".to_string()));
    let mut s = SerialState::new();
    open_port(&mut s, "COM1", 9600, Ok(())).unwrap();
    assert_eq!(send_data(&s, Ok(3)), Ok(3));
    assert_eq!(send_data(&s, Err("timed out".to_string())), Err("timed out".to_string()));
}

#[test]
fn send_payload_by_mode() {
    let ascii = SendRequest { data: "AT\r\n".to_string(), mode: DisplayMode::Ascii };
    assert_eq!(send_payload(&ascii), Ok(b"AT\r\n".to_vec()));
    let utf8 = SendRequest { data: "é".to_string(), mode: DisplayMode::Ascii };
    assert_eq!(send_payload(&utf8), Ok(vec![0xc3, 0xa9]));
    let hex = SendRequest { data: "41 54 0d".to_string(), mode: DisplayMode::Hex };
    assert_eq!(send_payload(&hex), Ok(vec![0x41, 0x54, 0x0d]));
    let bad = SendRequest { data: "4Z".to_string(), mode: DisplayMode::Hex };
    assert_eq!(send_payload(&bad), Err("invalid digit found in string".to_string()));
}

#[test]
fn send_logs_only_while_capturing() {
    let mut s = SerialState::new();
    open_port(&mut s, "COM1", 9600, Ok(())).unwrap();
    let (reply, log) = send_outcome(&s, b"hi", Ok(2), stamp());
    assert_eq!(reply, Ok(2));
    assert!(log.is_none());

    start(&mut s);
    set_display_mode(&mut s, Some("hex"));
    let (reply, log) = send_outcome(&s, b"hi", Ok(2), stamp());
    assert_eq!(reply, Ok(2));
    let log = log.unwrap();
    assert_eq!(log.direction, "tx");
    assert_eq!(log.data, "68 69");
    assert_eq!(log.display_mode, "hex");
    assert_eq!(log.timestamp, "2024-01-02T03:04:05+00:00");

    // Without a timestamp there is no log line, and the reply is the same.
    let (reply, log) = send_outcome(&s, b"hi", Ok(2), None);
    assert_eq!(reply, Ok(2));
    assert!(log.is_none());

    let (reply, log) = send_outcome(&s, b"hi", Err("broken pipe".to_string()), stamp());
    assert_eq!(reply, Err("broken pipe".to_string()));
    assert!(log.is_none());
}

#[test]
fn send_when_closed_logs_nothing() {
    let mut s = SerialState::new();
    start(&mut s);
    let (reply, log) = send_outcome(&s, b"x", Ok(1), stamp());
    assert_eq!(reply, Err("Port not open".to_string()));
    assert!(log.is_none());
}

#[test]
fn reader_messages() {
    let mut s = SerialState::new();
    assert!(reader_message(&s, vec![1, 2]).is_none());
    open_port(&mut s, "COM1", 9600, Ok(())).unwrap();
    assert!(reader_message(&s, vec![]).is_none());
    match reader_message(&s, b"ok".to_vec()) {
        Some(WsMessage::Data { raw, display, mode }) => {
            assert_eq!(raw, b"ok".to_vec());
            assert_eq!(display, "ok");
            assert_eq!(mode, "ascii");
        }
        other => panic!("unexpected {:?}", other),
    }
    set_display_mode(&mut s, Some("hex"));
    match reader_message(&s, vec![0xde, 0xad]) {
        Some(WsMessage::Data { display, mode, .. }) => {
            assert_eq!(display, "DE AD");
            assert_eq!(mode, "hex");
        }
        other => panic!("unexpected {:?}", other),
    }
}

#[test]
fn log_limit_defaults_to_500() {
    assert_eq!(LogsQuery { limit: None }.limit_or_default(), 500);
    assert_eq!(LogsQuery { limit: Some(20) }.limit_or_default(), 20);
    assert_eq!(LogsQuery { limit: Some(-1) }.limit_or_default(), -1);
}

#[test]
fn display_mode_request_without_word_is_ascii() {
    let mut s = SerialState::new();
    assert_eq!(set_display_mode(&mut s, Some("hex")), "hex");
    assert_eq!(set_display_mode(&mut s, None), "ascii");
    assert_eq!(s.display_mode, DisplayMode::Ascii);
    assert_eq!(set_display_mode(&mut s, Some("Hex")), "Hex");
    assert_eq!(s.display_mode, DisplayMode::Ascii);
}

#[test]
fn received_bytes_are_logged_while_capturing() {
    let mut s = SerialState::new();
    start(&mut s);
    assert!(capture_received(&s, b"ok", stamp()).is_none());
    open_port(&mut s, "COM1", 9600, Ok(())).unwrap();
    assert!(capture_received(&s, b"", stamp()).is_none());
    assert!(capture_received(&s, b"ok", None).is_none());
    let log = capture_received(&s, b"ok", stamp()).unwrap();
    assert_eq!(log.direction, "rx");
    assert_eq!(log.data, "ok");
    assert_eq!(log.display_mode, "ascii");
    set_display_mode(&mut s, Some("hex"));
    let log = capture_received(&s, &[0xde, 0xad], stamp()).unwrap();
    assert_eq!((log.data.as_str(), log.display_mode.as_str()), ("DE AD", "hex"));
    stop(&mut s);
    assert!(capture_received(&s, b"ok", stamp()).is_none());
}

#[test]
fn reader_passes_every_received_byte_in_order() {
    let mut s = SerialState::new();
    open_port(&mut s, "COM1", 9600, Ok(())).unwrap();
    let reads: Vec<Vec<u8>> = vec![vec![1, 2], vec![], vec![3], vec![], vec![], vec![4, 5, 6]];
    let mut raws: Vec<Vec<u8>> = Vec::new();
    for (i, r) in reads.iter().enumerate() {
        set_display_mode(&mut s, if i % 2 == 0 { Some("hex") } else { None });
        if let Some(WsMessage::Data { raw, .. }) = reader_message(&s, r.clone()) {
            raws.push(raw);
        }
    }
    assert_eq!(raws, vec![vec![1, 2], vec![3], vec![4, 5, 6]]);
    assert_eq!(raws.concat(), reads.concat());
}
