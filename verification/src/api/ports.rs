//! Opening the port, sending to it and choosing how data is displayed.
use vstd::prelude::*;
use vstd::utf8::encode_utf8;

use crate::db::NewLog;
use crate::hex::{hex_error_text, hex_payload};
use crate::models::{mode_of_word, mode_word, opt_text, DisplayMode, PortConfig, PortStatus, SendRequest};
use crate::serial::{capture_line, open_port, parse_hex_string, send_data, shown, SerialState};
use crate::text::owned;

verus! {

/// Opens the port that `config` names; `device` is the outcome of opening the
/// device, attempted only while no port is open. On success the reply is the
/// new status.
pub fn open(state: &mut SerialState, config: &PortConfig, device: Result<(), String>) -> (reply:
    Result<PortStatus, String>)
    ensures
        old(state).wf() ==> final(state).wf(),
        old(state).port_open ==> reply is Err && reply->Err_0@ == "Port already open"@
            && final(state)@ == old(state)@,
        !old(state).port_open && device is Err ==> reply is Err && reply->Err_0 == device->Err_0
            && final(state)@ == old(state)@,
        !old(state).port_open && device is Ok ==> final(state).wf()
            && final(state)@ == old(state)@.opened(config.port_name@, config.baud_rate)
            && final(state).port_open && final(state).baud_rate == Some(config.baud_rate)
            && opt_text(final(state).port_name) == Some(config.port_name@)
            && match reply {
            Ok(status) => {
                &&& status.open
                &&& opt_text(status.port_name) == Some(config.port_name@)
                &&& status.baud_rate == Some(config.baud_rate)
                &&& status.capturing == old(state).capturing
            },
            Err(_) => false,
        },
{
    match open_port(state, config.port_name.as_str(), config.baud_rate, device) {
        Ok(()) => Ok(state.status()),
        Err(e) => Err(e),
    }
}

/// The bytes that a send request asks for: the UTF-8 encoding of the text in
/// ascii mode, the hex bytes it spells in hex mode.
pub fn send_payload(req: &SendRequest) -> (bytes: Result<Vec<u8>, String>)
    ensures
        req.mode == DisplayMode::Ascii ==> bytes is Ok && bytes->Ok_0@ == encode_utf8(req.data@),
        req.mode == DisplayMode::Hex ==> match hex_payload(req.data@) {
            Ok(b) => bytes is Ok && bytes->Ok_0@ == b,
            Err(e) => bytes is Err && bytes->Err_0@ == hex_error_text(e),
        },
{
    match req.mode {
        DisplayMode::Hex => parse_hex_string(req.data.as_str()),
        DisplayMode::Ascii => Ok(req.data.as_str().as_bytes_vec()),
    }
}

/// The answer to a send of `bytes`, given the outcome `written` of the device
/// write, and the log line to store: one, marked "tx" and shown in the current
/// display mode, when the send succeeded while capturing and a timestamp `now`
/// is at hand.
pub fn send_outcome(
    state: &SerialState,
    bytes: &[u8],
    written: Result<usize, String>,
    now: Option<String>,
) -> (out: (Result<usize, String>, Option<NewLog>))
    ensures
        !state.port_open ==> out.0 is Err && out.0->Err_0@ == "Port not open"@,
        state.port_open ==> out.0 == written,
        out.1 is Some <==> out.0 is Ok && state.capturing && now is Some,
        out.1 matches Some(log) ==> {
            &&& log.direction@ == "tx"@
            &&& log.data@ == shown(bytes@, state.display_mode)
            &&& log.display_mode@ == mode_word(state.display_mode)
            &&& Some(log.timestamp@) == opt_text(now)
        },
{
    let reply = send_data(state, written);
    match reply {
        Ok(n) => (Ok(n), capture_line(state, "tx", bytes, now)),
        Err(e) => (Err(e), None),
    }
}

/// Sets the display mode that the request's `mode` word names (`"hex"`, else
/// ascii); a request without a word asks for ascii. Returns the word, which the
/// reply echoes.
pub fn set_display_mode(state: &mut SerialState, mode: Option<&str>) -> (word: String)
    ensures
        word@ == match mode {
            Some(m) => m@,
            None => "ascii"@,
        },
        final(state)@ == old(state)@.with_mode(mode_of_word(word@)),
        final(state).display_mode == mode_of_word(word@),
        final(state).port_open == old(state).port_open,
        final(state).capturing == old(state).capturing,
        final(state).baud_rate == old(state).baud_rate,
{
    let word = match mode {
        Some(m) => owned(m),
        None => owned("ascii"),
    };
    state.display_mode = DisplayMode::from_word(word.as_str());
    word
}

} // verus!
