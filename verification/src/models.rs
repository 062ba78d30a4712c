//! The values that travel between the browser, the serial port and the
//! database.
use vstd::prelude::*;

verus! {

/// A request to open a serial port.
#[derive(Debug, Clone)]
pub struct PortConfig {
    pub port_name: String,
    pub baud_rate: u32,
}

/// How bytes are shown to, and read from, the user.
#[derive(Debug, Clone, Copy, PartialEq, Eq, Structural)]
pub enum DisplayMode {
    Ascii,
    Hex,
}

/// A request to send data to the open port.
#[derive(Debug, Clone)]
pub struct SendRequest {
    pub data: String,
    pub mode: DisplayMode,
}

/// A stored send-buffer macro.
#[derive(Debug, Clone)]
pub struct Macro {
    pub id: String,
    pub name: String,
    pub data: String,
    pub mode: DisplayMode,
}

/// A request to store a new macro.
#[derive(Debug, Clone)]
pub struct CreateMacroRequest {
    pub name: String,
    pub data: String,
    pub mode: DisplayMode,
}

/// One line of the capture log.
#[derive(Debug, Clone)]
pub struct LogEntry {
    pub id: i64,
    pub timestamp: String,
    pub direction: String,
    pub data: String,
    pub display_mode: String,
}

/// A serial port that the system offers.
#[derive(Debug, Clone)]
pub struct PortInfo {
    pub name: String,
    pub port_type: String,
}

/// What the user sees of the port state.
#[derive(Debug, Clone)]
pub struct PortStatus {
    pub open: bool,
    pub port_name: Option<String>,
    pub baud_rate: Option<u32>,
    pub capturing: bool,
}

/// A message pushed to every connected browser.
#[derive(Debug, Clone)]
pub enum WsMessage {
    Data { raw: Vec<u8>, display: String, mode: String },
    Status(PortStatus),
    Error { message: String },
}

/// The text of an optional string.
pub open spec fn opt_text(o: Option<String>) -> Option<Seq<char>> {
    match o {
        Some(s) => Some(s@),
        None => None,
    }
}

/// The word that names a display mode in requests, replies and the database.
pub open spec fn mode_word(mode: DisplayMode) -> Seq<char> {
    match mode {
        DisplayMode::Ascii => "ascii"@,
        DisplayMode::Hex => "hex"@,
    }
}

/// The display mode that a word names: `"hex"` is hex, every other word ascii.
pub open spec fn mode_of_word(word: Seq<char>) -> DisplayMode {
    if word == "hex"@ {
        DisplayMode::Hex
    } else {
        DisplayMode::Ascii
    }
}

impl DisplayMode {
    /// The word for this mode: `"ascii"` or `"hex"`.
    pub fn as_str(&self) -> (word: &'static str)
        ensures
            word@ == mode_word(*self),
    {
        match self {
            DisplayMode::Ascii => "ascii",
            DisplayMode::Hex => "hex",
        }
    }

    /// The mode a word names; any word but `"hex"` means ascii.
    pub fn from_word(word: &str) -> (mode: DisplayMode)
        ensures
            mode == mode_of_word(word@),
    {
        if crate::text::same_chars(word, "hex") {
            DisplayMode::Hex
        } else {
            DisplayMode::Ascii
        }
    }
}

/// Law: the word `"hex"` names hex mode and the word `"ascii"` names ascii
/// mode; every other word but `"hex"` names ascii mode.
pub proof fn lemma_mode_words(word: Seq<char>)
    ensures
        mode_of_word("hex"@) == DisplayMode::Hex,
        mode_of_word("ascii"@) == DisplayMode::Ascii,
        word != "hex"@ ==> mode_of_word(word) == DisplayMode::Ascii,
{
    reveal_strlit("ascii");
    reveal_strlit("hex");
    assert("ascii"@ != "hex"@) by {
        assert("ascii"@.len() != "hex"@.len());
    }
}

/// Law: every display mode is read back from its own word.
pub proof fn lemma_mode_word_roundtrip(mode: DisplayMode)
    ensures
        mode_of_word(mode_word(mode)) == mode,
{
    reveal_strlit("ascii");
    reveal_strlit("hex");
    assert("ascii"@ != "hex"@) by {
        assert("ascii"@.len() != "hex"@.len());
    }
}

} // verus!
