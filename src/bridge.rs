use vstd::prelude::*;
use vstd::string::StrSliceExecFns;
use vstd::string::StringExecFns;

verus! {

/// Debug levels of the host's logging system, from least to most verbose.
#[derive(Clone, Copy, Debug, PartialEq, Eq, Structural)]
pub enum DebugLevel {
    NoLevel,
    Error,
    Warning,
    Fixme,
    Info,
    Log,
    Debug,
    Trace,
    Memdump,
}

/// Severities of exported log records.
#[derive(Clone, Copy, Debug, PartialEq, Eq, Structural)]
pub enum Severity {
    Trace,
    Debug,
    Info,
    Warn,
    Error,
}

pub open spec fn severity_spec(level: DebugLevel) -> Severity {
    match level {
        DebugLevel::NoLevel => Severity::Error,
        DebugLevel::Error => Severity::Error,
        DebugLevel::Warning => Severity::Warn,
        DebugLevel::Fixme => Severity::Error,
        DebugLevel::Info => Severity::Info,
        DebugLevel::Log => Severity::Debug,
        DebugLevel::Debug => Severity::Debug,
        DebugLevel::Trace => Severity::Trace,
        DebugLevel::Memdump => Severity::Trace,
    }
}

/// The severity a structured log record gets for a host debug level.
pub fn severity_of_debug_level(level: DebugLevel) -> (r: Severity)
    ensures
        r == severity_spec(level),
{
    match level {
        DebugLevel::NoLevel => Severity::Error,
        DebugLevel::Error => Severity::Error,
        DebugLevel::Warning => Severity::Warn,
        DebugLevel::Fixme => Severity::Error,
        DebugLevel::Info => Severity::Info,
        DebugLevel::Log => Severity::Debug,
        DebugLevel::Debug => Severity::Debug,
        DebugLevel::Trace => Severity::Trace,
        DebugLevel::Memdump => Severity::Trace,
    }
}

/// A monotonic clock reading split for display as `h:mm:ss.nnnnnnnnn`.
#[derive(Clone, Copy, Debug, PartialEq, Eq, Structural)]
pub struct TimestampParts {
    pub hours: u64,
    pub minutes: u64,
    pub seconds: u64,
    pub nanos: u64,
}

/// Splits a reading in microseconds into hours, minutes of the hour,
/// seconds of the minute and the sub-second part in nanoseconds.
pub fn timestamp_parts(usecs: u64) -> (r: TimestampParts)
    ensures
        r.hours == usecs / 3_600_000_000,
        r.minutes == (usecs / 60_000_000) % 60,
        r.seconds == (usecs / 1_000_000) % 60,
        r.nanos == (usecs % 1_000_000) * 1000,
        r.minutes < 60,
        r.seconds < 60,
        r.nanos < 1_000_000_000,
        usecs == ((r.hours * 60 + r.minutes) * 60 + r.seconds) * 1_000_000 + r.nanos / 1000,
{
    let secs = usecs / 1_000_000;
    let micros = usecs % 1_000_000;
    let hours = secs / 3600;
    let mins = (secs / 60) % 60;
    let secs_rem = secs % 60;
    let nanos = micros * 1_000;
    proof {
        assert(hours == usecs / 3_600_000_000) by (nonlinear_arith)
            requires
                secs == usecs / 1_000_000,
                hours == secs / 3600,
        {
            vstd::arithmetic::div_mod::lemma_div_denominator(usecs as int, 1_000_000, 3600);
        }
        assert(secs / 60 == usecs / 60_000_000) by {
            vstd::arithmetic::div_mod::lemma_div_denominator(usecs as int, 1_000_000, 60);
        }
        assert(usecs == ((hours * 60 + mins) * 60 + secs_rem) * 1_000_000 + micros) by (
        nonlinear_arith)
            requires
                secs == usecs / 1_000_000,
                micros == usecs % 1_000_000,
                hours == secs / 3600,
                mins == (secs / 60) % 60,
                secs_rem == secs % 60,
        {
        }
    }
    TimestampParts { hours, minutes: mins, seconds: secs_rem, nanos }
}

/// The character of decimal digit `d`.
pub open spec fn digit_char(d: nat) -> char {
    ('0' as nat + d) as char
}

/// Decimal text of `n`, without leading zeros.
pub open spec fn dec_text(n: nat) -> Seq<char>
    decreases n,
{
    if n < 10 {
        seq![digit_char(n)]
    } else {
        dec_text(n / 10).push(digit_char(n % 10))
    }
}

/// `s` with zeros in front up to width `w`.
pub open spec fn zero_pad(s: Seq<char>, w: nat) -> Seq<char> {
    if s.len() >= w {
        s
    } else {
        Seq::new((w - s.len()) as nat, |_i: int| '0') + s
    }
}

/// `s` with spaces behind up to width `w`.
pub open spec fn space_pad(s: Seq<char>, w: nat) -> Seq<char> {
    if s.len() >= w {
        s
    } else {
        s + Seq::new((w - s.len()) as nat, |_i: int| ' ')
    }
}

/// The display form `h:mm:ss.nnnnnnnnn` of a clock reading.
pub open spec fn timestamp_text(p: TimestampParts) -> Seq<char> {
    dec_text(p.hours as nat) + seq![':'] + zero_pad(dec_text(p.minutes as nat), 2) + seq![':']
        + zero_pad(dec_text(p.seconds as nat), 2) + seq!['.'] + zero_pad(dec_text(p.nanos as nat), 9)
}

fn digit_str(d: u64) -> (r: &'static str)
    requires
        d < 10,
    ensures
        r@ == seq![digit_char(d as nat)],
{
    let r = if d == 0 {
        "0"
    } else if d == 1 {
        "1"
    } else if d == 2 {
        "2"
    } else if d == 3 {
        "3"
    } else if d == 4 {
        "4"
    } else if d == 5 {
        "5"
    } else if d == 6 {
        "6"
    } else if d == 7 {
        "7"
    } else if d == 8 {
        "8"
    } else {
        "9"
    };
    proof {
        reveal_strlit("0");
        reveal_strlit("1");
        reveal_strlit("2");
        reveal_strlit("3");
        reveal_strlit("4");
        reveal_strlit("5");
        reveal_strlit("6");
        reveal_strlit("7");
        reveal_strlit("8");
        reveal_strlit("9");
        assert(r@ =~= seq![digit_char(d as nat)]);
    }
    r
}

/// Number of decimal digits of `n`.
fn dec_len(n: u64) -> (r: u64)
    ensures
        r == dec_text(n as nat).len(),
        r <= n / 10 + 1,
    decreases n,
{
    if n < 10 {
        1
    } else {
        dec_len(n / 10) + 1
    }
}

/// Appends the decimal text of `n`.
fn append_dec(s: &mut String, n: u64)
    ensures
        final(s)@ == old(s)@ + dec_text(n as nat),
    decreases n,
{
    if n >= 10 {
        append_dec(s, n / 10);
    }
    s.append(digit_str(n % 10));
    proof {
        if n >= 10 {
            assert(final(s)@ =~= old(s)@ + dec_text(n as nat));
        } else {
            assert(dec_text(n as nat) =~= seq![digit_char(n as nat)]);
        }
    }
}

/// Appends `k` copies of the one-character text `c`.
fn append_repeated(s: &mut String, c: &str, k: usize)
    requires
        c@.len() == 1,
    ensures
        final(s)@ == old(s)@ + Seq::new(k as nat, |_i: int| c@[0]),
{
    let mut j: usize = 0;
    while j < k
        invariant
            c@.len() == 1,
            j <= k,
            s@ == old(s)@ + Seq::new(j as nat, |_i: int| c@[0]),
        decreases k - j,
    {
        s.append(c);
        j = j + 1;
        assert(s@ =~= old(s)@ + Seq::new(j as nat, |_i: int| c@[0]));
    }
}

/// Appends the decimal text of `n`, with zeros in front up to width `w`.
fn append_dec_padded(s: &mut String, n: u64, w: usize)
    ensures
        final(s)@ == old(s)@ + zero_pad(dec_text(n as nat), w as nat),
{
    let len = dec_len(n);
    proof {
        reveal_strlit("0");
    }
    if len < w as u64 {
        append_repeated(s, "0", w - len as usize);
    }
    append_dec(s, n);
    assert(s@ =~= old(s)@ + zero_pad(dec_text(n as nat), w as nat));
}

/// The display form `h:mm:ss.nnnnnnnnn` of a clock reading.
pub fn format_timestamp(p: TimestampParts) -> (r: String)
    ensures
        r@ == timestamp_text(p),
{
    let mut s = String::new();
    append_dec(&mut s, p.hours);
    s.append(":");
    append_dec_padded(&mut s, p.minutes, 2);
    s.append(":");
    append_dec_padded(&mut s, p.seconds, 2);
    s.append(".");
    append_dec_padded(&mut s, p.nanos, 9);
    proof {
        reveal_strlit(":");
        reveal_strlit(".");
        assert(s@ =~= timestamp_text(p));
    }
    s
}

/// The upper-case name of a debug level.
pub open spec fn level_name_spec(level: DebugLevel) -> Seq<char> {
    match level {
        DebugLevel::NoLevel => "NONE"@,
        DebugLevel::Error => "ERROR"@,
        DebugLevel::Warning => "WARNING"@,
        DebugLevel::Fixme => "FIXME"@,
        DebugLevel::Info => "INFO"@,
        DebugLevel::Log => "LOG"@,
        DebugLevel::Debug => "DEBUG"@,
        DebugLevel::Trace => "TRACE"@,
        DebugLevel::Memdump => "MEMDUMP"@,
    }
}

/// Width of the level column of a plain-text line.
pub const LEVEL_COLUMN_WIDTH: usize = 16;

/// The level column of a plain-text line: the level's upper-case name,
/// filled with spaces to the column width.
pub fn level_column(level: DebugLevel) -> (r: String)
    ensures
        r@ == space_pad(level_name_spec(level), LEVEL_COLUMN_WIDTH as nat),
{
    let name = match level {
        DebugLevel::NoLevel => "NONE",
        DebugLevel::Error => "ERROR",
        DebugLevel::Warning => "WARNING",
        DebugLevel::Fixme => "FIXME",
        DebugLevel::Info => "INFO",
        DebugLevel::Log => "LOG",
        DebugLevel::Debug => "DEBUG",
        DebugLevel::Trace => "TRACE",
        DebugLevel::Memdump => "MEMDUMP",
    };
    proof {
        reveal_strlit("NONE");
        reveal_strlit("ERROR");
        reveal_strlit("WARNING");
        reveal_strlit("FIXME");
        reveal_strlit("INFO");
        reveal_strlit("LOG");
        reveal_strlit("DEBUG");
        reveal_strlit("TRACE");
        reveal_strlit("MEMDUMP");
        reveal_strlit(" ");
    }
    let mut s = String::from_str(name);
    let len = name.unicode_len();
    if len < LEVEL_COLUMN_WIDTH {
        append_repeated(&mut s, " ", LEVEL_COLUMN_WIDTH - len);
    }
    assert(s@ =~= space_pad(level_name_spec(level), LEVEL_COLUMN_WIDTH as nat));
    s
}

/// Writes host debug messages as plain text lines.
pub struct PlaintextBridge;

impl PlaintextBridge {
    pub fn new() -> (r: PlaintextBridge)
        ensures
            r == PlaintextBridge,
    {
        PlaintextBridge
    }
}

} // verus!
