//! The rows of the macro and log tables, as the library builds and reads them.
//! Running the SQL is the caller's part.
use vstd::prelude::*;

use std::time::{Duration, SystemTime};

use crate::models::{
    mode_of_word, mode_word, opt_text, CreateMacroRequest, DisplayMode, LogEntry, Macro,
};
use crate::text::owned;

verus! {

// ---------------------------------------------------------------------------
// Macro ids
// ---------------------------------------------------------------------------

/// A lower-case hex digit.
pub open spec fn is_lower_hex(c: char) -> bool {
    ('0' <= c && c <= '9') || ('a' <= c && c <= 'f')
}

/// The hyphenated lower-case text of a random (version 4, RFC 4122 variant)
/// UUID, such as `"67e55044-10b1-426f-9247-bb680e5fe0c8"`.
pub open spec fn is_uuid_v4_text(t: Seq<char>) -> bool {
    &&& t.len() == 36
    &&& forall|i: int|
        0 <= i < 36 ==> if i == 8 || i == 13 || i == 18 || i == 23 {
            #[trigger] t[i] == '-'
        } else {
            is_lower_hex(t[i])
        }
    &&& t[14] == '4'
    &&& (t[19] == '8' || t[19] == '9' || t[19] == 'a' || t[19] == 'b')
}

/// The lower-case hex digit of a nibble.
pub open spec fn lower_hex_char(n: u8) -> char {
    if n < 10 {
        (n + 48) as char
    } else {
        (n + 87) as char
    }
}

/// Sixteen random bytes with the version (4) and RFC 4122 variant bits set.
pub open spec fn v4_bytes(b: Seq<u8>) -> Seq<u8> {
    b.update(6, (b[6] & 0x0f) | 0x40).update(8, (b[8] & 0x3f) | 0x80)
}

/// Character `i` of the hyphenated lower-case text of the UUID with bytes `b`:
/// 32 hex digits, high nibble first, grouped 8-4-4-4-12.
pub open spec fn hyphenated_char(b: Seq<u8>, i: int) -> char {
    if i == 8 || i == 13 || i == 18 || i == 23 {
        '-'
    } else {
        let k = if i < 8 {
            i
        } else if i < 13 {
            i - 1
        } else if i < 18 {
            i - 2
        } else if i < 23 {
            i - 3
        } else {
            i - 4
        };
        let byte = b[k / 2];
        lower_hex_char(
            if k % 2 == 0 {
                byte >> 4
            } else {
                byte & 0x0f
            },
        )
    }
}

/// The hyphenated lower-case text of the UUID with bytes `b`.
pub open spec fn uuid_hyphenated(b: Seq<u8>) -> Seq<char> {
    Seq::new(36, |i: int| hyphenated_char(b, i))
}

/// Calls `getrandom::fill` on sixteen bytes. The bytes are random and nothing
/// is claimed of them; `None` means the operating system gave none.
#[verifier::external_body]
fn random_bytes() -> (bytes: Option<[u8; 16]>) {
    let mut bytes = [0u8; 16];
    match getrandom::fill(&mut bytes) {
        Ok(()) => Some(bytes),
        Err(_) => None,
    }
}

/// Calls `uuid::Builder::from_random_bytes(bytes).into_uuid()` and formats the
/// UUID with `to_string`. The contract claims what the crate's source does:
/// byte 6 gets version 4 in its high nibble, byte 8 the RFC 4122 variant bits
/// `10`, and `Display` writes the bytes as hyphenated lower-case hex.
#[verifier::external_body]
fn uuid_v4_text(bytes: [u8; 16]) -> (text: String)
    ensures
        text@ == uuid_hyphenated(v4_bytes(bytes@)),
{
    uuid::Builder::from_random_bytes(bytes).into_uuid().to_string()
}

proof fn lemma_lower_hex(n: u8)
    requires
        n < 16,
    ensures
        is_lower_hex(lower_hex_char(n)),
{
}

/// The text of a UUID made from any sixteen bytes is a version 4 UUID text.
pub proof fn lemma_uuid_text_shape(b: Seq<u8>)
    requires
        b.len() == 16,
    ensures
        is_uuid_v4_text(uuid_hyphenated(v4_bytes(b))),
{
    let v = v4_bytes(b);
    let t = uuid_hyphenated(v);
    assert forall|i: int|
        0 <= i < 36 implies if i == 8 || i == 13 || i == 18 || i == 23 {
        #[trigger] t[i] == '-'
    } else {
        is_lower_hex(t[i])
    } by {
        if !(i == 8 || i == 13 || i == 18 || i == 23) {
            let k = if i < 8 {
                i
            } else if i < 13 {
                i - 1
            } else if i < 18 {
                i - 2
            } else if i < 23 {
                i - 3
            } else {
                i - 4
            };
            let byte = v[k / 2];
            assert(byte >> 4 < 16 && byte & 0x0f < 16) by (bit_vector);
            lemma_lower_hex(byte >> 4);
            lemma_lower_hex(byte & 0x0f);
        }
    }
    let b6 = b[6];
    let b8 = b[8];
    assert(((b6 & 0x0f) | 0x40) >> 4 == 4) by (bit_vector);
    let h = ((b8 & 0x3f) | 0x80) >> 4;
    assert(8 <= h && h <= 11) by (bit_vector)
        requires
            h == ((b8 & 0x3f) | 0x80) >> 4,
    ;
    assert(t[14] == lower_hex_char(v[6] >> 4));
    assert(t[19] == lower_hex_char(v[8] >> 4));
}

/// A new macro for `req`, with the id that the sixteen `random` bytes make.
pub fn macro_with_random_id(req: &CreateMacroRequest, random: [u8; 16]) -> (m: Macro)
    ensures
        m.id@ == uuid_hyphenated(v4_bytes(random@)),
        is_uuid_v4_text(m.id@),
        m.name@ == req.name@,
        m.data@ == req.data@,
        m.mode == req.mode,
{
    proof {
        lemma_uuid_text_shape(random@);
    }
    Macro {
        id: uuid_v4_text(random),
        name: req.name.clone(),
        data: req.data.clone(),
        mode: req.mode,
    }
}

/// A new macro for `req` given the outcome `draw` of drawing sixteen random
/// bytes: a macro exactly when the draw gave bytes, whatever the request's mode,
/// name or data, with the id those bytes make.
pub fn macro_from_draw(req: &CreateMacroRequest, draw: Option<[u8; 16]>) -> (m: Option<Macro>)
    ensures
        m is Some <==> draw is Some,
        m matches Some(m) ==> {
            &&& m.id@ == uuid_hyphenated(v4_bytes(draw->Some_0@))
            &&& is_uuid_v4_text(m.id@)
            &&& m.name@ == req.name@
            &&& m.data@ == req.data@
            &&& m.mode == req.mode
        },
{
    match draw {
        Some(random) => Some(macro_with_random_id(req, random)),
        None => None,
    }
}

/// A new macro for `req`, under a fresh random id; `None` when the operating
/// system gives no random bytes.
pub fn new_macro(req: &CreateMacroRequest) -> (m: Option<Macro>)
    ensures
        m matches Some(m) ==> {
            &&& is_uuid_v4_text(m.id@)
            &&& m.name@ == req.name@
            &&& m.data@ == req.data@
            &&& m.mode == req.mode
        },
{
    macro_from_draw(req, random_bytes())
}

/// The macro that a stored row describes; a mode column other than `"hex"`
/// reads as ascii.
pub fn macro_from_row(id: String, name: String, data: String, mode: &str) -> (m: Macro)
    ensures
        m.id@ == id@,
        m.name@ == name@,
        m.data@ == data@,
        m.mode == mode_of_word(mode@),
{
    Macro { id, name, data, mode: DisplayMode::from_word(mode) }
}

/// The word stored in the mode column for a macro.
pub fn macro_mode_column(m: &Macro) -> (word: &'static str)
    ensures
        word@ == mode_word(m.mode),
{
    m.mode.as_str()
}

// ---------------------------------------------------------------------------
// Timestamps
// ---------------------------------------------------------------------------

/// An ASCII decimal digit.
pub open spec fn is_decimal_digit(c: char) -> bool {
    '0' <= c && c <= '9'
}

/// `t` starts with a date and time in the form `YYYY-MM-DDTHH:MM:SS`.
pub open spec fn has_datetime_prefix(t: Seq<char>) -> bool {
    &&& t.len() >= 19
    &&& forall|i: int|
        0 <= i < 19 ==> if i == 4 || i == 7 {
            #[trigger] t[i] == '-'
        } else if i == 10 {
            t[i] == 'T'
        } else if i == 13 || i == 16 {
            t[i] == ':'
        } else {
            is_decimal_digit(t[i])
        }
}

/// `t` is at least `YYYY-MM-DDTHH:MM:SS+00:00` long and ends with the UTC
/// offset `+00:00`.
pub open spec fn is_utc_stamp(t: Seq<char>) -> bool {
    t.len() >= 25 && t.subrange(t.len() - 6, t.len() as int) == "+00:00"@
}

/// `secs` whole seconds after 1970-01-01T00:00:00 UTC fall before the year
/// 10000, and `nanos` is less than a second.
pub open spec fn in_four_digit_years(secs: int, nanos: int) -> bool {
    0 <= secs < 253402300800 && 0 <= nanos < 1_000_000_000
}

/// The RFC 3339 text that chrono writes for the instant `secs` seconds and
/// `nanos` nanoseconds after 1970-01-01T00:00:00 UTC, or `None` when chrono has
/// no such instant.
pub uninterp spec fn rfc3339_utc(secs: int, nanos: int) -> Option<Seq<char>>;

/// Calls `chrono::DateTime::from_timestamp(secs, nanos)` and formats the
/// instant with `to_rfc3339`. The contract names the result (a function of
/// the two numbers alone) and states what the source shows of it: every text is
/// at least `YYYY-MM-DDTHH:MM:SS+00:00` long and ends with `+00:00`;
/// `from_timestamp` gives an instant for every whole second from 1970 up to the
/// end of the year 9999 with less than a second of nanoseconds, and for those
/// years the text starts with `YYYY-MM-DDTHH:MM:SS`.
#[verifier::external_body]
fn rfc3339_of_timestamp(secs: i64, nanos: u32) -> (text: Option<String>)
    ensures
        opt_text(text) == rfc3339_utc(secs as int, nanos as int),
        match text {
            Some(t) => is_utc_stamp(t@) && (in_four_digit_years(secs as int, nanos as int)
                ==> has_datetime_prefix(t@)),
            None => !in_four_digit_years(secs as int, nanos as int),
        },
{
    match chrono::DateTime::from_timestamp(secs, nanos) {
        Some(instant) => Some(instant.to_rfc3339()),
        None => None,
    }
}

/// `std::time::SystemTime`, an instant of the system clock.
#[verifier::external_type_specification]
#[verifier::external_body]
pub struct ExSystemTime(std::time::SystemTime);

/// Calls `SystemTime::now`. Nothing is claimed of the instant read.
#[verifier::external_body]
fn system_now() -> (now: SystemTime) {
    SystemTime::now()
}

/// Calls `SystemTime::duration_since(UNIX_EPOCH)`. Nothing is claimed of the
/// result; `None` means the instant lies before 1970.
#[verifier::external_body]
fn since_unix_epoch(t: &SystemTime) -> (elapsed: Option<Duration>) {
    t.duration_since(std::time::UNIX_EPOCH).ok()
}

/// Calls `Duration::as_secs`. Nothing is claimed of the whole seconds.
#[verifier::external_body]
fn whole_seconds(d: &Duration) -> (secs: u64) {
    d.as_secs()
}

/// Calls `Duration::subsec_nanos`, which the documentation says is below one
/// billion.
#[verifier::external_body]
fn subsec_nanos(d: &Duration) -> (nanos: u32)
    ensures
        nanos < 1_000_000_000,
{
    d.subsec_nanos()
}

/// The RFC 3339 UTC text of the instant `secs` seconds and `nanos` nanoseconds
/// after the Unix epoch; `None` when chrono has no such instant.
pub fn timestamp_at(secs: u64, nanos: u32) -> (text: Option<String>)
    ensures
        secs <= i64::MAX ==> opt_text(text) == rfc3339_utc(secs as int, nanos as int),
        secs > i64::MAX ==> text is None,
        text matches Some(t) ==> is_utc_stamp(t@),
        in_four_digit_years(secs as int, nanos as int) ==> (text matches Some(t)
            && has_datetime_prefix(t@)),
{
    if secs > 0x7fff_ffff_ffff_ffffu64 {
        return None;
    }
    rfc3339_of_timestamp(secs as i64, nanos)
}

/// The current UTC time in RFC 3339 form; `None` when the system clock reads
/// before 1970 or beyond what chrono can write.
pub fn now_timestamp() -> (text: Option<String>)
    ensures
        text matches Some(t) ==> is_utc_stamp(t@),
{
    let now = system_now();
    match since_unix_epoch(&now) {
        Some(elapsed) => timestamp_at(whole_seconds(&elapsed), subsec_nanos(&elapsed)),
        None => None,
    }
}

// ---------------------------------------------------------------------------
// Logs
// ---------------------------------------------------------------------------

/// A log line not yet stored: the store gives it its id.
#[derive(Debug, Clone)]
pub struct NewLog {
    pub timestamp: String,
    pub direction: String,
    pub data: String,
    pub display_mode: String,
}

/// A log line for `data` that went in `direction`, stamped `timestamp`.
pub fn new_log(direction: &str, data: &str, display_mode: &str, timestamp: String) -> (log: NewLog)
    ensures
        log.direction@ == direction@,
        log.data@ == data@,
        log.display_mode@ == display_mode@,
        log.timestamp@ == timestamp@,
{
    NewLog {
        timestamp,
        direction: owned(direction),
        data: owned(data),
        display_mode: owned(display_mode),
    }
}

/// The log lines that the store returned newest first, put oldest first.
pub fn chronological(newest_first: Vec<LogEntry>) -> (entries: Vec<LogEntry>)
    ensures
        entries@ == newest_first@.reverse(),
{
    let mut rest = newest_first;
    let mut entries: Vec<LogEntry> = Vec::new();
    let ghost all = rest@;
    while rest.len() > 0
        invariant
            all.len() == rest@.len() + entries@.len(),
            rest@ == all.take(rest@.len() as int),
            entries@ == all.reverse().take(entries@.len() as int),
        decreases rest@.len(),
    {
        let e = rest.pop().unwrap();
        entries.push(e);
        assert(entries@ =~= all.reverse().take(entries@.len() as int));
        assert(rest@ =~= all.take(rest@.len() as int));
    }
    assert(entries@ =~= all.reverse());
    entries
}

} // verus!
