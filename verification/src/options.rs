//! The values of the command line.
use vstd::prelude::*;
use vstd::string::StringSliceAdditionalSpecFns;
use std::path::PathBuf;
use std::str::FromStr;
use crate::text::{find_byte, next_byte, parse_unsigned, parse_unsigned_spec};

verus! {

/// `std::path::PathBuf`, carried through as it is.
#[verifier::external_type_specification]
#[verifier::external_body]
pub struct ExPathBuf(PathBuf);

/// A pixel rectangle.
#[derive(Debug, Default, Clone, Copy, PartialEq, Eq, Structural)]
pub struct Rect {
    pub min_x: u32,
    pub max_x: u32,
    pub min_y: u32,
    pub max_y: u32,
}

/// How serious a message must be to be logged.
#[derive(Debug, Clone, Copy, PartialEq, Eq, Structural)]
pub enum LogLevel {
    Info,
    Warning,
    Error,
    Fatal,
}

/// What the command line asks for.
pub struct Options {
    /// The part of the image to render.
    pub crop_window: Option<Rect>,
    /// The number of threads to render with.
    pub threads: Option<u32>,
    /// Where the image is written.
    pub out_file: Option<PathBuf>,
    /// Lower the quality for speed.
    pub quick: bool,
    /// Print errors only.
    pub quiet: bool,
    /// Where log files are written.
    pub log_directory: Option<PathBuf>,
    /// Log to the standard error stream.
    pub log_to_stderr: bool,
    /// Log messages at or above this level.
    pub min_log_level: LogLevel,
    pub verbosity: u32,
    /// Print the input again and render nothing.
    pub cat: bool,
    /// Print the input again, meshes turned into files, and render nothing.
    pub toply: bool,
    /// The scene files.
    pub input_files: Vec<PathBuf>,
}

/// The byte of a comma.
pub const COMMA: u8 = 44;

/// The rectangle that a text writes: four numbers separated by commas, in
/// the order x0, x1, y0, y1, each an unsigned 32-bit number. What follows a
/// comma after the fourth number is not read.
pub open spec fn parse_rect_spec(s: Seq<u8>) -> Option<Rect> {
    let e0 = next_byte(s, 0, COMMA);
    let e1 = next_byte(s, e0 + 1, COMMA);
    let e2 = next_byte(s, e1 + 1, COMMA);
    let e3 = next_byte(s, e2 + 1, COMMA);
    if e0 >= s.len() || e1 >= s.len() || e2 >= s.len() {
        None
    } else {
        match (
            parse_unsigned_spec(s.subrange(0, e0), 0xffff_ffff),
            parse_unsigned_spec(s.subrange(e0 + 1, e1), 0xffff_ffff),
            parse_unsigned_spec(s.subrange(e1 + 1, e2), 0xffff_ffff),
            parse_unsigned_spec(s.subrange(e2 + 1, e3), 0xffff_ffff),
        ) {
            (Some(min_x), Some(max_x), Some(min_y), Some(max_y)) => Some(
                Rect {
                    min_x: min_x as u32,
                    max_x: max_x as u32,
                    min_y: min_y as u32,
                    max_y: max_y as u32,
                },
            ),
            _ => None,
        }
    }
}

impl Rect {
    /// Reads a rectangle written as `x0,x1,y0,y1`.
    pub fn parse(s: &str) -> (r: Result<Rect, String>)
        ensures
            match parse_rect_spec(s.spec_bytes()) {
                Some(rect) => r == Ok::<Rect, String>(rect),
                None => r is Err && r->Err_0@ == "Invalid rect.  Expected format: x0,x1,y0,y1"@,
            },
    {
        let bytes = s.as_bytes();
        let n: usize = bytes.len();
        let e0: usize = find_byte(bytes, 0, COMMA);
        if e0 >= n {
            return Err("Invalid rect.  Expected format: x0,x1,y0,y1".to_owned());
        }
        let e1: usize = find_byte(bytes, e0 + 1, COMMA);
        if e1 >= n {
            return Err("Invalid rect.  Expected format: x0,x1,y0,y1".to_owned());
        }
        let e2: usize = find_byte(bytes, e1 + 1, COMMA);
        if e2 >= n {
            return Err("Invalid rect.  Expected format: x0,x1,y0,y1".to_owned());
        }
        let e3: usize = find_byte(bytes, e2 + 1, COMMA);
        let min_x = parse_unsigned(bytes, 0, e0, 0xffff_ffff);
        let max_x = parse_unsigned(bytes, e0 + 1, e1, 0xffff_ffff);
        let min_y = parse_unsigned(bytes, e1 + 1, e2, 0xffff_ffff);
        let max_y = parse_unsigned(bytes, e2 + 1, e3, 0xffff_ffff);
        match (min_x, max_x, min_y, max_y) {
            (Some(min_x), Some(max_x), Some(min_y), Some(max_y)) => Ok(
                Rect {
                    min_x: min_x as u32,
                    max_x: max_x as u32,
                    min_y: min_y as u32,
                    max_y: max_y as u32,
                },
            ),
            _ => Err("Invalid rect.  Expected format: x0,x1,y0,y1".to_owned()),
        }
    }
}

impl FromStr for Rect {
    type Err = String;

    fn from_str(s: &str) -> (r: Result<Self, Self::Err>)
        ensures
            match parse_rect_spec(s.spec_bytes()) {
                Some(rect) => r == Ok::<Rect, String>(rect),
                None => r is Err && r->Err_0@ == "Invalid rect.  Expected format: x0,x1,y0,y1"@,
            },
    {
        Rect::parse(s)
    }
}

/// The text in lower case, as the Unicode character database maps it.
pub uninterp spec fn lowercase(s: Seq<char>) -> Seq<char>;

/// `str::to_lowercase`: the lower-case equivalent of the text, as a new
/// string.
#[verifier::external_body]
fn to_lowercase(s: &str) -> (r: String)
    ensures
        r@ == lowercase(s@),
{
    s.to_lowercase()
}

/// The level that a lower-case text names: its number from 0 to 3, or its
/// name; a warning may be written `warn` or `warning`.
pub open spec fn level_spec(s: Seq<char>) -> Option<LogLevel> {
    if s == "0"@ || s == "info"@ {
        Some(LogLevel::Info)
    } else if s == "1"@ || s == "warn"@ || s == "warning"@ {
        Some(LogLevel::Warning)
    } else if s == "2"@ || s == "error"@ {
        Some(LogLevel::Error)
    } else if s == "3"@ || s == "fatal"@ {
        Some(LogLevel::Fatal)
    } else {
        None
    }
}

fn same(a: &str, b: &str) -> (r: bool)
    ensures
        r == (a@ == b@),
{
    a.to_owned() == b.to_owned()
}

impl LogLevel {
    /// Reads a level from a text that is in lower case already.
    pub fn from_lowercase(s: &str) -> (r: Result<LogLevel, String>)
        ensures
            match level_spec(s@) {
                Some(level) => r == Ok::<LogLevel, String>(level),
                None => r is Err && r->Err_0@ == "Unrecognized log level"@,
            },
    {
        if same(s, "0") || same(s, "info") {
            Ok(LogLevel::Info)
        } else if same(s, "1") || same(s, "warn") || same(s, "warning") {
            Ok(LogLevel::Warning)
        } else if same(s, "2") || same(s, "error") {
            Ok(LogLevel::Error)
        } else if same(s, "3") || same(s, "fatal") {
            Ok(LogLevel::Fatal)
        } else {
            Err("Unrecognized log level".to_owned())
        }
    }

    /// Reads a level, whatever the case of its letters.
    pub fn parse(s: &str) -> (r: Result<LogLevel, String>)
        ensures
            match level_spec(lowercase(s@)) {
                Some(level) => r == Ok::<LogLevel, String>(level),
                None => r is Err && r->Err_0@ == "Unrecognized log level"@,
            },
    {
        let lowered = to_lowercase(s);
        LogLevel::from_lowercase(lowered.as_str())
    }
}

impl FromStr for LogLevel {
    type Err = String;

    fn from_str(s: &str) -> (r: Result<Self, Self::Err>)
        ensures
            match level_spec(lowercase(s@)) {
                Some(level) => r == Ok::<LogLevel, String>(level),
                None => r is Err && r->Err_0@ == "Unrecognized log level"@,
            },
    {
        LogLevel::parse(s)
    }
}

} // verus!
