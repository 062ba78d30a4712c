//! The serial port session: its state, the rules for opening, closing and
//! sending, and the two text forms of a payload.
use vstd::prelude::*;
use vstd::utf8::*;

use crate::hex::{
    byte_hex, digit_value, digits_value, hex_display, hex_error_text, hex_payload, is_space,
    nibble_char, split_state, token_value, tokens_value, ws_tokens, HexTokenError,
};
use crate::db::{new_log, NewLog};
use crate::models::{mode_word, opt_text, DisplayMode, PortStatus, WsMessage};
use crate::text::{chars_of, decode_lossy, owned};

verus! {

/// The state of the serial session. `port_open` stands for the device handle,
/// which the caller holds beside this value.
#[derive(Debug)]
pub struct SerialState {
    pub port_open: bool,
    pub port_name: Option<String>,
    pub baud_rate: Option<u32>,
    pub capturing: bool,
    pub display_mode: DisplayMode,
}

/// The session as a value: the state with its texts as character sequences.
pub struct Session {
    pub port_open: bool,
    pub port_name: Option<Seq<char>>,
    pub baud_rate: Option<u32>,
    pub capturing: bool,
    pub display_mode: DisplayMode,
}

impl View for SerialState {
    type V = Session;

    open spec fn view(&self) -> Session {
        Session {
            port_open: self.port_open,
            port_name: opt_text(self.port_name),
            baud_rate: self.baud_rate,
            capturing: self.capturing,
            display_mode: self.display_mode,
        }
    }
}

impl Session {
    /// A port is open exactly when its name and its baud rate are known.
    pub open spec fn wf(self) -> bool {
        &&& (self.port_open <==> self.port_name is Some)
        &&& (self.port_open <==> self.baud_rate is Some)
    }

    /// The session at start: no port, not capturing, ascii display.
    pub open spec fn initial() -> Session {
        Session {
            port_open: false,
            port_name: None,
            baud_rate: None,
            capturing: false,
            display_mode: DisplayMode::Ascii,
        }
    }

    /// The session once port `name` is open at `baud`.
    pub open spec fn opened(self, name: Seq<char>, baud: u32) -> Session {
        Session { port_open: true, port_name: Some(name), baud_rate: Some(baud), ..self }
    }

    /// The session once the port is closed: closing also stops capturing.
    pub open spec fn closed(self) -> Session {
        Session { port_open: false, port_name: None, baud_rate: None, capturing: false, ..self }
    }

    /// The session with capture logging switched to `on`.
    pub open spec fn with_capture(self, on: bool) -> Session {
        Session { capturing: on, ..self }
    }

    /// The session with display mode `mode`.
    pub open spec fn with_mode(self, mode: DisplayMode) -> Session {
        Session { display_mode: mode, ..self }
    }
}

impl SerialState {
    /// A port is open exactly when its name and its baud rate are known.
    pub open spec fn wf(&self) -> bool {
        self@.wf()
    }

    /// No port open, not capturing, ascii display.
    pub fn new() -> (state: Self)
        ensures
            state@ == Session::initial(),
            state.wf(),
    {
        SerialState {
            port_open: false,
            port_name: None,
            baud_rate: None,
            capturing: false,
            display_mode: DisplayMode::Ascii,
        }
    }

    /// The status reported to the user.
    pub fn status(&self) -> (status: PortStatus)
        ensures
            status.open == self@.port_open,
            opt_text(status.port_name) == self@.port_name,
            status.baud_rate == self@.baud_rate,
            status.capturing == self@.capturing,
    {
        let port_name = match &self.port_name {
            Some(name) => Some(name.clone()),
            None => None,
        };
        PortStatus {
            open: self.port_open,
            port_name,
            baud_rate: self.baud_rate,
            capturing: self.capturing,
        }
    }
}

/// Opens the port `port_name` at `baud_rate`. `device` is the outcome of
/// opening the device, which the caller attempts only while no port is open.
/// An open port refuses with "Port already open"; a device error is passed on;
/// either way the session is left as it was.
pub fn open_port(
    state: &mut SerialState,
    port_name: &str,
    baud_rate: u32,
    device: Result<(), String>,
) -> (r: Result<(), String>)
    ensures
        old(state).wf() ==> final(state).wf(),
        old(state).port_open ==> r is Err && r->Err_0@ == "Port already open"@ && final(state)@
            == old(state)@,
        !old(state).port_open && device is Err ==> r == device && final(state)@ == old(state)@,
        !old(state).port_open && device is Ok ==> r is Ok && final(state).wf() && final(state)@
            == old(state)@.opened(port_name@, baud_rate),
        !old(state).port_open && device is Ok ==> final(state).port_open && final(state).baud_rate
            == Some(baud_rate) && opt_text(final(state).port_name) == Some(port_name@)
            && final(state).capturing == old(state).capturing && final(state).display_mode
            == old(state).display_mode,
{
    if state.port_open {
        return Err(owned("Port already open"));
    }
    match device {
        Err(e) => Err(e),
        Ok(()) => {
            state.port_open = true;
            state.port_name = Some(owned(port_name));
            state.baud_rate = Some(baud_rate);
            Ok(())
        },
    }
}

/// Closes the port and stops capturing.
pub fn close_port(state: &mut SerialState)
    ensures
        final(state)@ == old(state)@.closed(),
        final(state).wf(),
{
    state.port_open = false;
    state.port_name = None;
    state.baud_rate = None;
    state.capturing = false;
}

/// The outcome of sending to the port. `written` is the outcome of the device
/// write, which the caller attempts only while the port is open; with no port
/// open the answer is "Port not open".
pub fn send_data(state: &SerialState, written: Result<usize, String>) -> (r: Result<usize, String>)
    ensures
        !state@.port_open ==> r is Err && r->Err_0@ == "Port not open"@,
        state@.port_open ==> r == written,
{
    if state.port_open {
        written
    } else {
        Err(owned("Port not open"))
    }
}

/// The bytes as the user sees them in display mode `mode`.
pub open spec fn shown(bytes: Seq<u8>, mode: DisplayMode) -> Seq<char> {
    match mode {
        DisplayMode::Ascii => crate::text::utf8_lossy(bytes),
        DisplayMode::Hex => hex_display(bytes),
    }
}

/// The bytes as the user sees them: decoded as UTF-8 (invalid sequences
/// replaced) in ascii mode, two upper-case hex digits per byte separated by
/// spaces in hex mode.
pub fn format_bytes(bytes: &[u8], mode: &DisplayMode) -> (text: String)
    ensures
        text@ == shown(bytes@, *mode),
        *mode == DisplayMode::Ascii ==> text@ == crate::text::utf8_lossy(bytes@),
        *mode == DisplayMode::Ascii && valid_utf8(bytes@) ==> text@ == decode_utf8(bytes@),
        *mode == DisplayMode::Hex ==> text@ == hex_display(bytes@),
{
    match mode {
        DisplayMode::Ascii => decode_lossy(bytes),
        DisplayMode::Hex => hex_text(bytes),
    }
}

fn hex_digit(n: u8) -> (c: char)
    requires
        n < 16,
    ensures
        c == nibble_char(n),
{
    if n < 10 {
        (n + 48) as char
    } else {
        (n + 55) as char
    }
}

fn hex_text(bytes: &[u8]) -> (text: String)
    ensures
        text@ == hex_display(bytes@),
{
    let mut text = String::new();
    let n = bytes.len();
    for i in 0..n
        invariant
            n == bytes@.len(),
            text@ == hex_display(bytes@.take(i as int)),
    {
        let b = bytes[i];
        let ghost before = text@;
        if i > 0 {
            text.push(' ');
        }
        text.push(hex_digit(b / 16));
        text.push(hex_digit(b % 16));
        proof {
            let p = bytes@.take(i + 1);
            assert(p.drop_last() =~= bytes@.take(i as int));
            if i == 0 {
                assert(text@ =~= byte_hex(b));
            } else {
                assert(text@ =~= before + seq![' '] + byte_hex(b));
            }
        }
    }
    assert(bytes@.take(n as int) =~= bytes@);
    text
}

fn is_space_char(c: char) -> (r: bool)
    ensures
        r == is_space(c),
{
    ('\u{9}' <= c && c <= '\u{d}') || c == ' ' || c == '\u{85}' || c == '\u{a0}' || c
        == '\u{1680}' || ('\u{2000}' <= c && c <= '\u{200a}') || c == '\u{2028}' || c
        == '\u{2029}' || c == '\u{202f}' || c == '\u{205f}' || c == '\u{3000}'
}

fn digit_of(c: char) -> (r: Option<u8>)
    ensures
        r == digit_value(c),
{
    if '0' <= c && c <= '9' {
        Some((c as u32 - 48) as u8)
    } else if 'a' <= c && c <= 'f' {
        Some((c as u32 - 87) as u8)
    } else if 'A' <= c && c <= 'F' {
        Some((c as u32 - 55) as u8)
    } else {
        None
    }
}

proof fn lemma_digits_error_prefix(d: Seq<char>, k: int)
    requires
        0 <= k <= d.len(),
        digits_value(d.take(k)) is Err,
    ensures
        digits_value(d) == digits_value(d.take(k)),
    decreases d.len(),
{
    if k == d.len() {
        assert(d.take(k) =~= d);
    } else {
        assert(d.drop_last().take(k) =~= d.take(k));
        lemma_digits_error_prefix(d.drop_last(), k);
    }
}

fn token_byte(t: &Vec<char>) -> (r: Result<u8, HexTokenError>)
    ensures
        r == token_value(t@),
{
    let n = t.len();
    if n == 0 {
        return Err(HexTokenError::Empty);
    }
    if n == 1 && (t[0] == '+' || t[0] == '-') {
        return Err(HexTokenError::InvalidDigit);
    }
    let start: usize = if t[0] == '+' {
        1
    } else {
        0
    };
    let ghost d = t@.subrange(start as int, n as int);
    assert(start == 1 ==> d =~= t@.drop_first());
    assert(start == 0 ==> d =~= t@);
    let mut acc: u8 = 0;
    let mut i: usize = start;
    assert(d.take(0) =~= Seq::<char>::empty());
    while i < n
        invariant
            n == t@.len(),
            start <= i <= n,
            d == t@.subrange(start as int, n as int),
            digits_value(d.take(i - start)) == Ok::<u8, HexTokenError>(acc),
            token_value(t@) == digits_value(d),
        decreases n - i,
    {
        let c = t[i];
        let ghost k = i - start;
        assert(d.take(k + 1).drop_last() =~= d.take(k));
        assert(d.take(k + 1).last() == c);
        match digit_of(c) {
            None => {
                proof {
                    lemma_digits_error_prefix(d, k + 1);
                }
                return Err(HexTokenError::InvalidDigit);
            },
            Some(x) => {
                let v: u16 = acc as u16 * 16 + x as u16;
                if v > 255 {
                    proof {
                        lemma_digits_error_prefix(d, k + 1);
                    }
                    return Err(HexTokenError::TooLarge);
                }
                acc = v as u8;
            },
        }
        i = i + 1;
    }
    assert(d.take(n - start) =~= d);
    Ok(acc)
}

/// `p` is a prefix of `q`.
pub open spec fn is_prefix<A>(p: Seq<A>, q: Seq<A>) -> bool {
    p.len() <= q.len() && forall|i: int| 0 <= i < p.len() ==> p[i] == q[i]
}

proof fn lemma_closed_tokens_prefix(s: Seq<char>, k: int)
    requires
        0 <= k <= s.len(),
    ensures
        is_prefix(split_state(s.take(k)).0, ws_tokens(s)),
    decreases s.len() - k,
{
    if k == s.len() {
        assert(s.take(k) =~= s);
    } else {
        lemma_closed_tokens_prefix(s, k + 1);
        assert(s.take(k + 1).drop_last() =~= s.take(k));
    }
}

proof fn lemma_tokens_error_prefix(ts: Seq<Seq<char>>, p: Seq<Seq<char>>)
    requires
        is_prefix(p, ts),
        tokens_value(p) is Err,
    ensures
        tokens_value(ts) == tokens_value(p),
    decreases ts.len(),
{
    if p.len() == ts.len() {
        assert(p =~= ts);
    } else {
        lemma_tokens_error_prefix(ts.drop_last(), p);
    }
}

fn error_text(e: HexTokenError) -> (t: String)
    ensures
        t@ == hex_error_text(e),
{
    match e {
        HexTokenError::Empty => owned("cannot parse integer from empty string"),
        HexTokenError::InvalidDigit => owned("invalid digit found in string"),
        HexTokenError::TooLarge => owned("number too large to fit in target type"),
    }
}

/// Reads whitespace-separated hex bytes (`"0a FF +7"`). Each token is a byte in
/// radix 16, digits of either case after an optional `+`. The first refused
/// token decides the error text.
pub fn parse_hex_string(s: &str) -> (r: Result<Vec<u8>, String>)
    ensures
        match hex_payload(s@) {
            Ok(bytes) => r is Ok && r->Ok_0@ == bytes,
            Err(e) => r is Err && r->Err_0@ == hex_error_text(e),
        },
{
    let chars = chars_of(s);
    let n = chars.len();
    let mut out: Vec<u8> = Vec::new();
    let mut cur: Vec<char> = Vec::new();
    let ghost mut done: Seq<Seq<char>> = Seq::empty();
    assert(s@.take(0) =~= Seq::<char>::empty());
    for i in 0..n
        invariant
            n == s@.len(),
            chars@ == s@,
            split_state(s@.take(i as int)) == (done, cur@),
            tokens_value(done) == Ok::<Seq<u8>, HexTokenError>(out@),
    {
        let c = chars[i];
        proof {
            assert(s@.take(i + 1).drop_last() =~= s@.take(i as int));
            assert(s@.take(i + 1).last() == c);
        }
        if is_space_char(c) {
            if cur.len() > 0 {
                let ghost closed = done.push(cur@);
                assert(closed.drop_last() =~= done);
                match token_byte(&cur) {
                    Err(e) => {
                        proof {
                            lemma_closed_tokens_prefix(s@, i + 1);
                            lemma_tokens_error_prefix(ws_tokens(s@), closed);
                        }
                        return Err(error_text(e));
                    },
                    Ok(b) => {
                        out.push(b);
                        proof {
                            done = closed;
                        }
                    },
                }
                cur = Vec::new();
            }
        } else {
            cur.push(c);
        }
    }
    assert(s@.take(n as int) =~= s@);
    if cur.len() > 0 {
        let ghost closed = done.push(cur@);
        assert(closed.drop_last() =~= done);
        match token_byte(&cur) {
            Err(e) => {
                return Err(error_text(e));
            },
            Ok(b) => {
                out.push(b);
            },
        }
    }
    Ok(out)
}

/// The raw bytes of the message that the reader pushes for `received`:
/// none when no port is open or nothing arrived.
pub open spec fn reader_output(session: Session, received: Seq<u8>) -> Option<Seq<u8>> {
    if session.port_open && received.len() > 0 {
        Some(received)
    } else {
        None
    }
}

/// What the background reader pushes to the browsers for bytes it received:
/// nothing when no port is open or nothing arrived, else the raw bytes with
/// their display in the current mode.
pub fn reader_message(state: &SerialState, received: Vec<u8>) -> (msg: Option<WsMessage>)
    ensures
        msg is Some <==> reader_output(state@, received@) is Some,
        msg matches Some(m) ==> match m {
            WsMessage::Data { raw, display, mode } => {
                &&& Some(raw@) == reader_output(state@, received@)
                &&& display@ == shown(received@, state.display_mode)
                &&& mode@ == mode_word(state.display_mode)
            },
            _ => false,
        },
{
    if !state.port_open || received.len() == 0 {
        return None;
    }
    let display = format_bytes(received.as_slice(), &state.display_mode);
    let mode = owned(state.display_mode.as_str());
    Some(WsMessage::Data { raw: received, display, mode })
}

/// The capture log line for `bytes` that went in `direction`: one exactly when
/// capturing and a timestamp `now` is at hand, with the bytes as shown in the
/// current display mode.
pub fn capture_line(state: &SerialState, direction: &str, bytes: &[u8], now: Option<String>) -> (log:
    Option<NewLog>)
    ensures
        log is Some <==> state.capturing && now is Some,
        log matches Some(l) ==> {
            &&& l.direction@ == direction@
            &&& l.data@ == shown(bytes@, state.display_mode)
            &&& l.display_mode@ == mode_word(state.display_mode)
            &&& Some(l.timestamp@) == opt_text(now)
        },
{
    if !state.capturing {
        return None;
    }
    match now {
        Some(stamp) => {
            let shown_text = format_bytes(bytes, &state.display_mode);
            Some(new_log(direction, shown_text.as_str(), state.display_mode.as_str(), stamp))
        },
        None => None,
    }
}

/// The capture log line for bytes the reader received: one, marked "rx", when
/// a port is open, bytes arrived, capture is on and a timestamp is at hand.
pub fn capture_received(state: &SerialState, received: &[u8], now: Option<String>) -> (log: Option<
    NewLog,
>)
    ensures
        log is Some <==> reader_output(state@, received@) is Some && state.capturing
            && now is Some,
        log matches Some(l) ==> {
            &&& l.direction@ == "rx"@
            &&& l.data@ == shown(received@, state.display_mode)
            &&& l.display_mode@ == mode_word(state.display_mode)
            &&& Some(l.timestamp@) == opt_text(now)
        },
{
    if !state.port_open || received.len() == 0 {
        return None;
    }
    capture_line(state, "rx", received, now)
}

} // verus!

verus! {

/// Law: every session the library can reach keeps "a port is open exactly
/// when its name and baud rate are known": the initial session has it, and
/// opening, closing, capturing and changing the display mode keep it.
pub proof fn lemma_session_wf_kept(v: Session, name: Seq<char>, baud: u32, on: bool, mode: DisplayMode)
    requires
        v.wf(),
    ensures
        Session::initial().wf(),
        v.opened(name, baud).wf(),
        v.closed().wf(),
        v.with_capture(on).wf(),
        v.with_mode(mode).wf(),
{
}

/// Law: each session step sets exactly what it is named for and keeps the
/// rest: opening port `name` at `baud` records that name and that baud rate;
/// closing clears the port and capture; switching capture sets the flag to
/// `on`; choosing display mode `mode` makes it the mode, whatever it was.
pub proof fn lemma_session_steps(v: Session, name: Seq<char>, baud: u32, on: bool, mode: DisplayMode)
    ensures
        v.opened(name, baud).port_open,
        v.opened(name, baud).port_name == Some(name),
        v.opened(name, baud).baud_rate == Some(baud),
        v.opened(name, baud).capturing == v.capturing,
        v.opened(name, baud).display_mode == v.display_mode,
        !v.closed().port_open,
        v.closed().port_name is None,
        v.closed().baud_rate is None,
        !v.closed().capturing,
        v.closed().display_mode == v.display_mode,
        v.with_capture(on).capturing == on,
        v.with_capture(on).port_open == v.port_open,
        v.with_capture(on).port_name == v.port_name,
        v.with_capture(on).baud_rate == v.baud_rate,
        v.with_capture(on).display_mode == v.display_mode,
        v.with_mode(mode).display_mode == mode,
        v.with_mode(mode).with_mode(mode) == v.with_mode(mode),
        v.with_mode(mode).port_open == v.port_open,
        v.with_mode(mode).port_name == v.port_name,
        v.with_mode(mode).baud_rate == v.baud_rate,
        v.with_mode(mode).capturing == v.capturing,
        !Session::initial().port_open,
        Session::initial().port_name is None,
        Session::initial().baud_rate is None,
        !Session::initial().capturing,
        Session::initial().display_mode == DisplayMode::Ascii,
{
}

/// Law: closing undoes opening; the session after open-then-close is the one
/// that closing alone gives, whatever port was opened.
pub proof fn lemma_close_undoes_open(v: Session, name: Seq<char>, baud: u32)
    ensures
        v.opened(name, baud).closed() == v.closed(),
{
}

/// Law: a closed session has no port and does not capture, and the display
/// mode survives closing.
pub proof fn lemma_closed_is_idle(v: Session)
    ensures
        !v.closed().port_open,
        v.closed().port_name is None,
        v.closed().baud_rate is None,
        !v.closed().capturing,
        v.closed().display_mode == v.display_mode,
{
}

/// Law: capture switching and the display mode are independent of the port:
/// neither opens, closes or renames it.
pub proof fn lemma_settings_keep_port(v: Session, on: bool, mode: DisplayMode)
    ensures
        v.with_capture(on).port_open == v.port_open,
        v.with_capture(on).port_name == v.port_name,
        v.with_capture(on).baud_rate == v.baud_rate,
        v.with_mode(mode).port_open == v.port_open,
        v.with_mode(mode).port_name == v.port_name,
        v.with_mode(mode).baud_rate == v.baud_rate,
        v.with_mode(mode).capturing == v.capturing,
{
}

/// Law: text sent in ascii mode is shown back, in ascii mode, exactly as typed:
/// its UTF-8 encoding is valid UTF-8 and decodes to the same characters.
pub proof fn lemma_ascii_echo(text: Seq<char>)
    ensures
        valid_utf8(encode_utf8(text)),
        decode_utf8(encode_utf8(text)) == text,
{
    encode_utf8_valid_utf8(text);
    encode_utf8_decode_utf8(text);
}

} // verus!

verus! {

/// The concatenation of byte chunks, in order.
pub open spec fn concat(chunks: Seq<Seq<u8>>) -> Seq<u8>
    decreases chunks.len(),
{
    if chunks.len() == 0 {
        Seq::empty()
    } else {
        concat(chunks.drop_last()) + chunks.last()
    }
}

/// The non-empty chunks, in order.
pub open spec fn nonempty_chunks(chunks: Seq<Seq<u8>>) -> Seq<Seq<u8>>
    decreases chunks.len(),
{
    if chunks.len() == 0 {
        Seq::empty()
    } else if chunks.last().len() > 0 {
        nonempty_chunks(chunks.drop_last()).push(chunks.last())
    } else {
        nonempty_chunks(chunks.drop_last())
    }
}

/// The raw bytes of the messages pushed over a run of polls, each poll being
/// the session at that moment and the bytes then received, in order.
pub open spec fn delivered(polls: Seq<(Session, Seq<u8>)>) -> Seq<Seq<u8>>
    decreases polls.len(),
{
    if polls.len() == 0 {
        Seq::empty()
    } else {
        match reader_output(polls.last().0, polls.last().1) {
            Some(raw) => delivered(polls.drop_last()).push(raw),
            None => delivered(polls.drop_last()),
        }
    }
}

/// The bytes received over a run of polls, poll by poll.
pub open spec fn received_chunks(polls: Seq<(Session, Seq<u8>)>) -> Seq<Seq<u8>> {
    polls.map_values(|p: (Session, Seq<u8>)| p.1)
}

proof fn lemma_concat_nonempty(chunks: Seq<Seq<u8>>)
    ensures
        concat(nonempty_chunks(chunks)) == concat(chunks),
    decreases chunks.len(),
{
    if chunks.len() > 0 {
        lemma_concat_nonempty(chunks.drop_last());
        if chunks.last().len() == 0 {
            assert(concat(chunks) =~= concat(chunks.drop_last()));
        } else {
            let n = nonempty_chunks(chunks.drop_last());
            assert(n.push(chunks.last()).drop_last() =~= n);
        }
    }
}

/// Law: the reader loses, duplicates and reorders nothing: over any run of
/// polls in which bytes arrive only while a port is open, its messages carry
/// exactly the non-empty chunks received, in order, and together exactly the
/// bytes received.
pub proof fn lemma_reader_loses_nothing(polls: Seq<(Session, Seq<u8>)>)
    requires
        forall|i: int|
            0 <= i < polls.len() ==> (#[trigger] polls[i]).0.port_open || polls[i].1.len() == 0,
    ensures
        delivered(polls) == nonempty_chunks(received_chunks(polls)),
        concat(delivered(polls)) == concat(received_chunks(polls)),
    decreases polls.len(),
{
    let r = received_chunks(polls);
    if polls.len() > 0 {
        let prev = polls.drop_last();
        assert forall|i: int| 0 <= i < prev.len() implies (#[trigger] prev[i]).0.port_open
            || prev[i].1.len() == 0 by {
            assert(prev[i] == polls[i]);
        }
        lemma_reader_loses_nothing(prev);
        assert(r.drop_last() =~= received_chunks(prev));
        assert(polls[polls.len() - 1].0.port_open || polls[polls.len() - 1].1.len() == 0);
    }
    lemma_concat_nonempty(r);
}

} // verus!
