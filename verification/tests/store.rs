use serial_port_backend::api::macros::delete_reply;
use serial_port_backend::assets::{asset_path, static_reply, StaticReply};
use serial_port_backend::db::{
    chronological, macro_from_row, macro_mode_column, macro_with_random_id, new_log, new_macro,
    now_timestamp, timestamp_at,
};
use serial_port_backend::models::{CreateMacroRequest, DisplayMode, LogEntry};

fn is_uuid_v4(t: &str) -> bool {
    let b = t.as_bytes();
    b.len() == 36
        && b.iter().enumerate().all(|(i, c)| match i {
            8 | 13 | 18 | 23 => *c == b'-',
            _ => c.is_ascii_digit() || (b'a'..=b'f').contains(c),
        })
        && b[14] == b'4'
        && matches!(b[19], b'8' | b'9' | b'a' | b'b')
}

#[test]
fn new_macro_copies_request_under_fresh_id() {
    let req = CreateMacroRequest { name: "ping".to_string(), data: "AA 55".to_string(), mode: DisplayMode::Hex };
    let a = new_macro(&req).unwrap();
    let b = new_macro(&req).unwrap();
    assert_eq!(a.name, "ping");
    assert_eq!(a.data, "AA 55");
    assert_eq!(a.mode, DisplayMode::Hex);
    assert!(is_uuid_v4(&a.id), "{}", a.id);
    assert!(is_uuid_v4(&b.id));
    assert_ne!(a.id, b.id);
    assert_eq!(macro_mode_column(&a), "hex");
}

#[test]
fn macro_rows_read_mode_column() {
    let m = macro_from_row("1".to_string(), "n".to_string(), "d".to_string(), "hex");
    assert_eq!(m.mode, DisplayMode::Hex);
    let m = macro_from_row("1".to_string(), "n".to_string(), "d".to_string(), "ascii");
    assert_eq!(m.mode, DisplayMode::Ascii);
    let m = macro_from_row("1".to_string(), "n".to_string(), "d".to_string(), "binary");
    assert_eq!(m.mode, DisplayMode::Ascii);
    assert_eq!((m.id.as_str(), m.name.as_str(), m.data.as_str()), ("1", "n", "d"));
}

#[test]
fn macro_id_is_made_from_the_random_bytes() {
    let req = CreateMacroRequest { name: "n".to_string(), data: "d".to_string(), mode: DisplayMode::Ascii };
    let bytes: [u8; 16] = [0xff; 16];
    let m = macro_with_random_id(&req, bytes);
    assert_eq!(m.id, "ffffffff-ffff-4fff-bfff-ffffffffffff");
    let bytes: [u8; 16] = [0x00, 0x11, 0x22, 0x33, 0x44, 0x55, 0x66, 0x77, 0x88, 0x99, 0xaa, 0xbb, 0xcc, 0xdd, 0xee, 0xff];
    let m = macro_with_random_id(&req, bytes);
    assert_eq!(m.id, "00112233-4455-4677-8899-aabbccddeeff");
    assert_eq!(m.id, uuid::Builder::from_random_bytes(bytes).into_uuid().to_string());
    assert_eq!((m.name.as_str(), m.data.as_str(), m.mode), ("n", "d", DisplayMode::Ascii));
}

#[test]
fn new_log_keeps_its_fields() {
    let log = new_log("tx", "68 69", "hex", "2024-01-02T03:04:05+00:00".to_string());
    assert_eq!(log.direction, "tx");
    assert_eq!(log.data, "68 69");
    assert_eq!(log.display_mode, "hex");
    assert_eq!(log.timestamp, "2024-01-02T03:04:05+00:00");
}

#[test]
fn timestamps_in_rfc3339_utc() {
    assert_eq!(timestamp_at(0, 0).unwrap(), "1970-01-01T00:00:00+00:00");
    assert_eq!(timestamp_at(1431648000, 500_000_000).unwrap(), "2015-05-15T00:00:00.500+00:00");
    assert_eq!(timestamp_at(1431648000, 123_456).unwrap(), "2015-05-15T00:00:00.000123456+00:00");
    assert_eq!(timestamp_at(253402300799, 0).unwrap(), "9999-12-31T23:59:59+00:00");
    assert_eq!(timestamp_at(u64::MAX, 0), None);
    let now = now_timestamp().unwrap();
    assert!(now.len() >= 25 && now.ends_with("+00:00") && now.starts_with("20"));
}

fn entry(id: i64) -> LogEntry {
    LogEntry {
        id,
        timestamp: String::new(),
        direction: "tx".to_string(),
        data: id.to_string(),
        display_mode: "ascii".to_string(),
    }
}

#[test]
fn logs_come_oldest_first() {
    let rows = vec![entry(5), entry(4), entry(2)];
    let ids: Vec<i64> = chronological(rows).iter().map(|e| e.id).collect();
    assert_eq!(ids, vec![2, 4, 5]);
    assert!(chronological(vec![]).is_empty());
}

#[test]
fn delete_replies() {
    assert_eq!(delete_reply(Ok(1)), Ok(()));
    assert_eq!(delete_reply(Ok(0)), Err("not found".to_string()));
    assert_eq!(delete_reply(Err("database is locked".to_string())), Err("database is locked".to_string()));
}

#[test]
fn asset_paths() {
    assert_eq!(asset_path("/"), "index.html");
    assert_eq!(asset_path(""), "index.html");
    assert_eq!(asset_path("///"), "index.html");
    assert_eq!(asset_path("/_next/app.js"), "_next/app.js");
    assert_eq!(asset_path("//a/b.css"), "a/b.css");
    assert_eq!(asset_path("x/y"), "x/y");
}

#[test]
fn static_replies() {
    match static_reply("index.html", true, true, true) {
        StaticReply::Asset { content_type } => assert_eq!(content_type, "text/html"),
        other => panic!("unexpected {:?}", other),
    }
    match static_reply("_next/app.js", true, true, true) {
        StaticReply::Asset { content_type } => assert_eq!(content_type, "text/javascript"),
        other => panic!("unexpected {:?}", other),
    }
    match static_reply("LICENSE", true, true, true) {
        StaticReply::Asset { content_type } => assert_eq!(content_type, "application/octet-stream"),
        other => panic!("unexpected {:?}", other),
    }
    match static_reply("missing.js", false, true, true) {
        StaticReply::Index { content_type } => assert_eq!(content_type, "text/html; charset=utf-8"),
        other => panic!("unexpected {:?}", other),
    }
    assert!(matches!(static_reply("missing.js", false, false, true), StaticReply::NotFound));
    match static_reply("index.html", false, false, false) {
        StaticReply::NotBundled { content_type, page } => {
            assert_eq!(content_type, "text/html; charset=utf-8");
            assert_eq!(
                page,
                "<html><body><p>Frontend not bundled. Run <code>./package.sh</code> to build.</p></body></html>"
            );
        }
        other => panic!("unexpected {:?}", other),
    }
}
