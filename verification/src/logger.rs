//! What the host's logger decides: the level of a record, the sinks it goes
//! to, and the time stamp in front of it.

use crate::config;
use crate::config::{join_path, joined};
use vstd::prelude::*;
use vstd::string::*;

verus! {

/// The name of the log file inside the log directory.
pub const LOG_FILE: &'static str = "BEST-Bot.log";

/// The severity of a log record.
#[derive(Clone, Copy, Debug, PartialEq, Eq, Structural)]
pub enum Level {
    Error,
    Warn,
    Info,
    Debug,
    Trace,
}

impl Level {
    /// The place of this level in the order of severity: 1 for the most
    /// severe, 5 for the least.
    pub open spec fn spec_rank(&self) -> u8 {
        match self {
            Level::Error => 1,
            Level::Warn => 2,
            Level::Info => 3,
            Level::Debug => 4,
            Level::Trace => 5,
        }
    }

    /// The place of this level in the order of severity: 1 for the most
    /// severe, 5 for the least.
    #[verifier::when_used_as_spec(spec_rank)]
    pub fn rank(&self) -> (rank: u8)
        ensures
            rank == self.spec_rank(),
    {
        match self {
            Level::Error => 1,
            Level::Warn => 2,
            Level::Info => 3,
            Level::Debug => 4,
            Level::Trace => 5,
        }
    }
}

impl Level {
    pub open spec fn spec_name(&self) -> &'static str {
        match self {
            Level::Error => "ERROR",
            Level::Warn => "WARN",
            Level::Info => "INFO",
            Level::Debug => "DEBUG",
            Level::Trace => "TRACE",
        }
    }

    /// The name of this level, in capitals.
    #[verifier::when_used_as_spec(spec_name)]
    pub fn name(&self) -> (name: &'static str)
        ensures
            name == self.spec_name(),
    {
        match self {
            Level::Error => "ERROR",
            Level::Warn => "WARN",
            Level::Info => "INFO",
            Level::Debug => "DEBUG",
            Level::Trace => "TRACE",
        }
    }
}

/// Whether the logger takes records of `level`: it takes every record that
/// is at most as verbose as `Trace`.
pub fn enabled(level: Level) -> (taken: bool)
    ensures
        taken == (level.rank() <= Level::Trace.rank()),
{
    level.rank() <= Level::Trace.rank()
}

/// A log record as a plugin sends it: the text, under its level.
#[derive(Debug, PartialEq, Eq)]
pub enum Log {
    Error(String),
    Warn(String),
    Info(String),
    Debug(String),
    Trace(String),
}

impl Log {
    pub open spec fn spec_level(&self) -> Level {
        match self {
            Log::Error(_) => Level::Error,
            Log::Warn(_) => Level::Warn,
            Log::Info(_) => Level::Info,
            Log::Debug(_) => Level::Debug,
            Log::Trace(_) => Level::Trace,
        }
    }

    pub open spec fn spec_message(&self) -> &String {
        match self {
            Log::Error(message) => message,
            Log::Warn(message) => message,
            Log::Info(message) => message,
            Log::Debug(message) => message,
            Log::Trace(message) => message,
        }
    }

    /// The level of this record.
    #[verifier::when_used_as_spec(spec_level)]
    pub fn level(&self) -> (level: Level)
        ensures
            level == self.spec_level(),
    {
        match self {
            Log::Error(_) => Level::Error,
            Log::Warn(_) => Level::Warn,
            Log::Info(_) => Level::Info,
            Log::Debug(_) => Level::Debug,
            Log::Trace(_) => Level::Trace,
        }
    }

    /// The text of this record.
    #[verifier::when_used_as_spec(spec_message)]
    pub fn message(&self) -> (message: &String)
        ensures
            message == self.spec_message(),
    {
        match self {
            Log::Error(message) => message,
            Log::Warn(message) => message,
            Log::Info(message) => message,
            Log::Debug(message) => message,
            Log::Trace(message) => message,
        }
    }
}

/// The time since the logger started, as it stands in front of a record.
#[derive(Clone, Copy, Debug, PartialEq, Eq, Structural)]
pub struct Timestamp {
    /// Whole hours; not reduced to a day.
    pub hours: u64,
    /// Minutes of the hour, below 60.
    pub minutes: u64,
    /// Seconds of the minute, below 60.
    pub seconds: u64,
    /// Milliseconds of the second: the nanoseconds, rounded down.
    pub milliseconds: u32,
}

/// The time stamp for an elapsed time of `seconds` whole seconds and
/// `subsec_nanos` nanoseconds.
pub fn timestamp(seconds: u64, subsec_nanos: u32) -> (stamp: Timestamp)
    ensures
        stamp.hours == seconds / 3600,
        stamp.minutes == (seconds / 60) % 60,
        stamp.seconds == seconds % 60,
        stamp.milliseconds == subsec_nanos / 1_000_000,
        stamp.hours * 3600 + stamp.minutes * 60 + stamp.seconds == seconds,
{
    Timestamp {
        hours: seconds / 3600,
        minutes: (seconds / 60) % 60,
        seconds: seconds % 60,
        milliseconds: subsec_nanos / 1_000_000,
    }
}

/// The two streams of the terminal.
#[derive(Clone, Copy, Debug, PartialEq, Eq, Structural)]
pub enum Terminal {
    Stdout,
    Stderr,
}

/// Where one record is written.
#[derive(Clone, Copy, Debug, PartialEq, Eq, Structural)]
pub struct Sinks {
    /// The terminal stream, if the record goes to the terminal.
    pub terminal: Option<Terminal>,
    /// Whether the record goes to the log file.
    pub file: bool,
}

/// The terminal stream for records of `level`: errors and warnings go to
/// the error stream, everything else to the output stream.
pub open spec fn stream_of(level: Level) -> Terminal {
    match level {
        Level::Error => Terminal::Stderr,
        Level::Warn => Terminal::Stderr,
        _ => Terminal::Stdout,
    }
}

/// Where a record of `level` is written, given the two switches of the log
/// options and whether the log file could be opened.
pub fn sinks(level: Level, to_terminal: bool, to_file: bool, file_open: bool) -> (sinks: Sinks)
    ensures
        sinks.terminal == (if to_terminal {
            Some(stream_of(level))
        } else {
            None
        }),
        sinks.file == (to_file && file_open),
{
    let terminal = if to_terminal {
        match level {
            Level::Error => Some(Terminal::Stderr),
            Level::Warn => Some(Terminal::Stderr),
            _ => Some(Terminal::Stdout),
        }
    } else {
        None
    };
    Sinks { terminal, file: to_file && file_open }
}

/// The place of the log file for a user whose home directory is `home`, if
/// the log options ask for a log file.
pub fn log_file(log: &config::Log, home: &str) -> (place: Option<String>)
    ensures
        match place {
            Some(place) => log@.to_file == Some(true) && place@ == joined(
                log@.path(home@),
                LOG_FILE@,
            ),
            None => log@.to_file != Some(true),
        },
{
    if log.to_file() {
        let dir = log.path(home);
        Some(join_path(dir.as_str(), LOG_FILE))
    } else {
        None
    }
}

/// The digit for `value` in a base of at most 16, with small letters.
pub open spec fn digit(value: nat) -> char {
    if value == 0 {
        '0'
    } else if value == 1 {
        '1'
    } else if value == 2 {
        '2'
    } else if value == 3 {
        '3'
    } else if value == 4 {
        '4'
    } else if value == 5 {
        '5'
    } else if value == 6 {
        '6'
    } else if value == 7 {
        '7'
    } else if value == 8 {
        '8'
    } else if value == 9 {
        '9'
    } else if value == 10 {
        'a'
    } else if value == 11 {
        'b'
    } else if value == 12 {
        'c'
    } else if value == 13 {
        'd'
    } else if value == 14 {
        'e'
    } else {
        'f'
    }
}

/// The digits of `number` in `base`, most significant first; none for 0.
pub open spec fn digits(number: nat, base: nat) -> Seq<char>
    decreases number,
{
    if number == 0 || base < 2 {
        Seq::empty()
    } else {
        proof {
            assert(number / base < number) by (nonlinear_arith)
                requires
                    number > 0,
                    base >= 2,
            ;
        }
        digits(number / base, base).push(digit(number % base))
    }
}

/// How `number` is written in `base`: its digits, and `0` for 0.
pub open spec fn numeral(number: nat, base: nat) -> Seq<char> {
    if number == 0 {
        seq!['0']
    } else {
        digits(number, base)
    }
}

/// `text` with as many of `fill` in front as it takes to reach `width`.
pub open spec fn padded_left(text: Seq<char>, width: nat, fill: char) -> Seq<char> {
    if text.len() >= width {
        text
    } else {
        Seq::new((width - text.len()) as nat, |i: int| fill) + text
    }
}

/// `text` with as many of `fill` behind as it takes to reach `width`.
pub open spec fn padded_right(text: Seq<char>, width: nat, fill: char) -> Seq<char> {
    if text.len() >= width {
        text
    } else {
        text + Seq::new((width - text.len()) as nat, |i: int| fill)
    }
}

/// The line for one record: the time stamp in brackets, with two digits
/// each for hours, minutes and seconds and three for the milliseconds; the
/// number of the thread, in base 16, in parentheses; the name of the
/// plugin in brackets; the level, filled up to six places; the text; and
/// the end of the line.
pub open spec fn line_of(
    stamp: Timestamp,
    thread: nat,
    plugin_name: Seq<char>,
    level: Level,
    text: Seq<char>,
) -> Seq<char> {
    seq!['['] + padded_left(numeral(stamp.hours as nat, 10), 2, '0') + seq![':'] + padded_left(
        numeral(stamp.minutes as nat, 10),
        2,
        '0',
    ) + seq![':'] + padded_left(numeral(stamp.seconds as nat, 10), 2, '0') + seq!['.']
        + padded_left(numeral(stamp.milliseconds as nat, 10), 3, '0') + seq![']', ' ', '(']
        + numeral(thread, 16) + seq![')', ' ', '['] + plugin_name + seq![']', ' '] + padded_right(
        level.name()@,
        6,
        ' ',
    ) + seq![' '] + text + seq!['\n']
}

/// The digit for `value`, as a text of one character.
fn digit_text(value: u64) -> (text: &'static str)
    requires
        value < 16,
    ensures
        text@ == seq![digit(value as nat)],
{
    proof {
        reveal_strlit("0");
        reveal_strlit("1");
        reveal_strlit("2");
        reveal_strlit("3");
        reveal_strlit("4");
        reveal_strlit("5");
        reveal_strlit("6");
        reveal_strlit("7");
        reveal_strlit("8");
        reveal_strlit("9");
        reveal_strlit("a");
        reveal_strlit("b");
        reveal_strlit("c");
        reveal_strlit("d");
        reveal_strlit("e");
        reveal_strlit("f");
    }
    let text = if value == 0 {
        "0"
    } else if value == 1 {
        "1"
    } else if value == 2 {
        "2"
    } else if value == 3 {
        "3"
    } else if value == 4 {
        "4"
    } else if value == 5 {
        "5"
    } else if value == 6 {
        "6"
    } else if value == 7 {
        "7"
    } else if value == 8 {
        "8"
    } else if value == 9 {
        "9"
    } else if value == 10 {
        "a"
    } else if value == 11 {
        "b"
    } else if value == 12 {
        "c"
    } else if value == 13 {
        "d"
    } else if value == 14 {
        "e"
    } else {
        "f"
    };
    assert(text@ =~= seq![digit(value as nat)]);
    text
}

/// How `number` is written in `base`.
pub fn write_number(number: u64, base: u64) -> (text: String)
    requires
        2 <= base <= 16,
    ensures
        text@ == numeral(number as nat, base as nat),
{
    if number == 0 {
        proof {
            reveal_strlit("0");
            assert("0"@ =~= seq!['0']);
        }
        return String::from_str("0");
    }
    let mut rest = number;
    let mut text = String::new();
    assert(digits(number as nat, base as nat) =~= digits(rest as nat, base as nat) + text@);
    while rest > 0
        invariant
            2 <= base <= 16,
            digits(number as nat, base as nat) == digits(rest as nat, base as nat) + text@,
        decreases rest,
    {
        let last = digit_text(rest % base);
        let ghost before = text@;
        text = String::from_str(last).concat(text.as_str());
        proof {
            let b = base as nat;
            let r = rest as nat;
            assert(digits(r, b) == digits(r / b, b).push(digit(r % b)));
            assert(digits(r / b, b).push(digit(r % b)) + before =~= digits(r / b, b) + (seq![
                digit(r % b),
            ] + before));
            assert(text@ =~= seq![digit(r % b)] + before);
        }
        rest = rest / base;
    }
    assert(digits(number as nat, base as nat) =~= text@);
    text
}

/// `text` with zeros in front up to `width` characters.
pub fn pad_zeros(text: String, width: usize) -> (padded: String)
    ensures
        padded@ == padded_left(text@, width as nat, '0'),
{
    let ghost start = text@;
    let mut padded = text;
    let mut len = padded.as_str().unicode_len();
    assert(padded@ =~= Seq::new(0, |i: int| '0') + start);
    while len < width
        invariant
            len == padded@.len(),
            len <= width || padded@ == start,
            padded@ == Seq::new((len - start.len()) as nat, |i: int| '0') + start,
            start.len() <= len,
        decreases width - len,
    {
        proof {
            reveal_strlit("0");
        }
        let ghost before = padded@;
        padded = String::from_str("0").concat(padded.as_str());
        assert(padded@ =~= Seq::new((len + 1 - start.len()) as nat, |i: int| '0') + start);
        len = len + 1;
    }
    proof {
        if start.len() >= width {
            assert(padded@ =~= start);
        }
    }
    padded
}

/// The name of `level`, filled up with blanks to six characters.
fn level_column(level: Level) -> (column: &'static str)
    ensures
        column@ == padded_right(level.name()@, 6, ' '),
{
    proof {
        reveal_strlit("ERROR");
        reveal_strlit("WARN");
        reveal_strlit("INFO");
        reveal_strlit("DEBUG");
        reveal_strlit("TRACE");
        reveal_strlit("ERROR ");
        reveal_strlit("WARN  ");
        reveal_strlit("INFO  ");
        reveal_strlit("DEBUG ");
        reveal_strlit("TRACE ");
    }
    let column = match level {
        Level::Error => "ERROR ",
        Level::Warn => "WARN  ",
        Level::Info => "INFO  ",
        Level::Debug => "DEBUG ",
        Level::Trace => "TRACE ",
    };
    assert(column@ =~= padded_right(level.name()@, 6, ' '));
    column
}

/// The line for one record, as it is written to a sink.
pub fn record_line(
    stamp: Timestamp,
    thread: usize,
    plugin_name: &str,
    level: Level,
    text: &str,
) -> (written: String)
    ensures
        written@ == line_of(stamp, thread as nat, plugin_name@, level, text@),
{
    proof {
        reveal_strlit("[");
        reveal_strlit(":");
        reveal_strlit(".");
        reveal_strlit("] (");
        reveal_strlit(") [");
        reveal_strlit("] ");
        reveal_strlit(" ");
        reveal_strlit("\n");
        assert("["@ =~= seq!['[']);
        assert(":"@ =~= seq![':']);
        assert("."@ =~= seq!['.']);
        assert("] ("@ =~= seq![']', ' ', '(']);
        assert(") ["@ =~= seq![')', ' ', '[']);
        assert("] "@ =~= seq![']', ' ']);
        assert(" "@ =~= seq![' ']);
        assert("\n"@ =~= seq!['\n']);
    }
    let hours = pad_zeros(write_number(stamp.hours, 10), 2);
    let minutes = pad_zeros(write_number(stamp.minutes, 10), 2);
    let seconds = pad_zeros(write_number(stamp.seconds, 10), 2);
    let milliseconds = pad_zeros(write_number(stamp.milliseconds as u64, 10), 3);
    let thread = write_number(thread as u64, 16);
    String::from_str("[").concat(hours.as_str()).concat(":").concat(minutes.as_str()).concat(
        ":",
    ).concat(seconds.as_str()).concat(".").concat(milliseconds.as_str()).concat("] (").concat(
        thread.as_str(),
    ).concat(") [").concat(plugin_name).concat("] ").concat(level_column(level)).concat(
        " ",
    ).concat(text).concat("\n")
}

} // verus!
