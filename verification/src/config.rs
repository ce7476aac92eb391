//! Process-wide configuration: the exposed root directory, the
//! presentation mode of directory listings, and the logging mode.
//!
//! String-valued flags are validated once, at startup, into closed
//! enumerations; an unrecognized value is reported then instead of
//! being compared as a string on every request.

use vstd::prelude::*;

verus! {

/// How a directory listing is rendered: a minimal unordered list, or a
/// styled page with a grid of cards.
#[derive(Clone, Copy, PartialEq, Eq, Structural, Debug)]
pub enum RenderMode {
    Minimal,
    Styled,
}

/// Where access-log lines go. `Off` discards them, `Console` prints
/// them, `File` appends them to the log file, `Both` does both.
#[derive(Clone, Copy, PartialEq, Eq, Structural, Debug)]
pub enum LogMode {
    Off,
    Console,
    File,
    Both,
}

/// Immutable per-process settings, built once at startup and shared
/// read-only across all requests.
pub struct ServerConfig {
    /// The root directory being exposed, as the path string it was
    /// configured with (no trailing separator).
    pub root: String,
    /// Which directory-listing renderer serves this process.
    pub mode: RenderMode,
    /// Whether console text is rendered in English.
    pub english: bool,
}

/// The ASCII-lowercased code point of `c`: letters `A`..`Z` map to
/// their lowercase counterparts, every other character to itself.
pub open spec fn lower_code(c: char) -> int {
    if 65 <= c as int && c as int <= 90 {
        c as int + 32
    } else {
        c as int
    }
}

/// Case-insensitive (ASCII) equality of two character sequences.
pub open spec fn eq_ignore_ascii_case(a: Seq<char>, b: Seq<char>) -> bool {
    a.len() == b.len() && forall|i: int| 0 <= i < a.len() ==> lower_code(a[i]) == lower_code(b[i])
}

/// ASCII-lowercased code point of one character.
fn lower_code_of(c: char) -> (r: u32)
    ensures
        r == lower_code(c),
{
    let u = c as u32;
    if 65 <= u && u <= 90 {
        u + 32
    } else {
        u
    }
}

/// Compares two strings for equality up to ASCII case.
pub fn eq_ignore_case(a: &str, b: &str) -> (r: bool)
    ensures
        r == eq_ignore_ascii_case(a@, b@),
{
    let alen = a.unicode_len();
    let blen = b.unicode_len();
    if alen != blen {
        return false;
    }
    let mut i: usize = 0;
    while i < alen
        invariant
            0 <= i <= alen,
            alen == a@.len(),
            alen == b@.len(),
            forall|j: int| 0 <= j < i ==> lower_code(a@[j]) == lower_code(b@[j]),
        decreases alen - i,
    {
        let ca = a.get_char(i);
        let cb = b.get_char(i);
        if lower_code_of(ca) != lower_code_of(cb) {
            return false;
        }
        i = i + 1;
    }
    true
}

/// The log mode a flag string denotes: `none`, `console`, `file` or
/// `both`, compared without regard to ASCII case; anything else is
/// rejected.
pub open spec fn log_mode_of(s: Seq<char>) -> Option<LogMode> {
    if eq_ignore_ascii_case(s, "none"@) {
        Some(LogMode::Off)
    } else if eq_ignore_ascii_case(s, "console"@) {
        Some(LogMode::Console)
    } else if eq_ignore_ascii_case(s, "file"@) {
        Some(LogMode::File)
    } else if eq_ignore_ascii_case(s, "both"@) {
        Some(LogMode::Both)
    } else {
        None
    }
}

impl LogMode {
    /// Validates a log-mode flag against the four accepted values.
    pub fn parse(s: &str) -> (r: Option<LogMode>)
        ensures
            r == log_mode_of(s@),
    {
        proof {
            reveal_strlit("none");
            reveal_strlit("console");
            reveal_strlit("file");
            reveal_strlit("both");
        }
        if eq_ignore_case(s, "none") {
            Some(LogMode::Off)
        } else if eq_ignore_case(s, "console") {
            Some(LogMode::Console)
        } else if eq_ignore_case(s, "file") {
            Some(LogMode::File)
        } else if eq_ignore_case(s, "both") {
            Some(LogMode::Both)
        } else {
            None
        }
    }

    /// Whether lines under this mode are printed to the console.
    pub fn writes_console(&self) -> (r: bool)
        ensures
            r <==> (self is Console || self is Both),
    {
        match self {
            LogMode::Console | LogMode::Both => true,
            _ => false,
        }
    }

    /// Whether lines under this mode are appended to the log file.
    pub fn writes_file(&self) -> (r: bool)
        ensures
            r <==> (self is File || self is Both),
    {
        match self {
            LogMode::File | LogMode::Both => true,
            _ => false,
        }
    }
}

} // verus!
