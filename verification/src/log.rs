//! Logging policy and the text helpers the log lines use.
//!
//! The engine does not write log lines itself; it decides. `LogConfig`
//! is the configuration built once at startup, `allows` is the severity
//! gate, and `allows_sensitive` gates lines that would reveal clipboard
//! contents. `truncate` and `concise_numbers` prepare message text.

use vstd::prelude::*;

use vstd::string::StrSliceExecFns;
use vstd::string::StringExecFns;
use vstd::arithmetic::div_mod::lemma_div_denominator;

verus! {

/// Log severity, most severe first.
#[derive(Clone, Copy, Debug, PartialEq, Eq, Structural)]
pub enum Level {
    Fatal,
    Error,
    Warn,
    Info,
    Debug,
    Trace,
}

impl Level {
    /// Position in the severity order: 0 is most severe.
    pub open spec fn spec_rank(self) -> int {
        match self {
            Level::Fatal => 0,
            Level::Error => 1,
            Level::Warn => 2,
            Level::Info => 3,
            Level::Debug => 4,
            Level::Trace => 5,
        }
    }

    pub fn rank(&self) -> (r: u8)
        ensures
            r as int == self.spec_rank(),
    {
        match self {
            Level::Fatal => 0,
            Level::Error => 1,
            Level::Warn => 2,
            Level::Info => 3,
            Level::Debug => 4,
            Level::Trace => 5,
        }
    }
}

impl Default for Level {
    fn default() -> (l: Level)
        ensures
            l == Level::Info,
    {
        Level::Info
    }
}

/// Logging configuration, built once at startup and passed to every
/// component that logs.
#[derive(Clone, Copy, Debug, PartialEq, Eq, Structural)]
pub struct LogConfig {
    /// Most verbose level that is shown.
    pub level: Level,
    /// Whether lines carry a timestamp.
    pub timestamp: bool,
    /// Whether clipboard contents may appear in log lines.
    pub log_sensitive: bool,
}

/// Builds the logging configuration from the startup flags.
pub fn configure_logging(level: Level, hide_timestamp: bool, log_clipboard_contents: bool) -> (c:
    LogConfig)
    ensures
        c.level == level,
        c.timestamp == !hide_timestamp,
        c.log_sensitive == log_clipboard_contents,
{
    LogConfig { level, timestamp: !hide_timestamp, log_sensitive: log_clipboard_contents }
}

impl LogConfig {
    /// Whether a message of severity `msg` is shown under this
    /// configuration.
    pub fn allows(&self, msg: Level) -> (r: bool)
        ensures
            r == (msg.spec_rank() <= self.level.spec_rank()),
    {
        msg.rank() <= self.level.rank()
    }

    /// Whether clipboard contents may be logged.
    pub fn allows_sensitive(&self) -> (r: bool)
        ensures
            r == self.log_sensitive,
    {
        self.log_sensitive
    }
}

/// At most the first `max_chars` characters of `s`.
pub fn truncate<'a>(s: &'a str, max_chars: usize) -> (r: &'a str)
    ensures
        s@.len() <= max_chars ==> r@ == s@,
        s@.len() > max_chars ==> r@ == s@.subrange(0, max_chars as int),
{
    let n = s.unicode_len();
    if n <= max_chars {
        s
    } else {
        s.substring_char(0, max_chars)
    }
}

/// The decimal digit character for `d`.
pub open spec fn spec_digit_char(d: int) -> char {
    if d == 0 {
        '0'
    } else if d == 1 {
        '1'
    } else if d == 2 {
        '2'
    } else if d == 3 {
        '3'
    } else if d == 4 {
        '4'
    } else if d == 5 {
        '5'
    } else if d == 6 {
        '6'
    } else if d == 7 {
        '7'
    } else if d == 8 {
        '8'
    } else {
        '9'
    }
}

/// Decimal rendering of `n`, without sign or leading zeros.
pub open spec fn spec_u8_dec(n: int) -> Seq<char>
    decreases n,
{
    if n < 10 {
        seq![spec_digit_char(n)]
    } else {
        spec_u8_dec(n / 10).push(spec_digit_char(n % 10))
    }
}

/// Appends the digit character for `d` to `s`.
fn push_digit(s: &mut String, d: u8)
    requires
        d < 10,
    ensures
        final(s)@ == old(s)@ + seq![spec_digit_char(d as int)],
{
    proof {
        reveal_strlit("0");
        reveal_strlit("1");
        reveal_strlit("2");
        reveal_strlit("3");
        reveal_strlit("4");
        reveal_strlit("5");
        reveal_strlit("6");
        reveal_strlit("7");
        reveal_strlit("8");
        reveal_strlit("9");
    }
    match d {
        0 => s.append("0"),
        1 => s.append("1"),
        2 => s.append("2"),
        3 => s.append("3"),
        4 => s.append("4"),
        5 => s.append("5"),
        6 => s.append("6"),
        7 => s.append("7"),
        8 => s.append("8"),
        _ => s.append("9"),
    }
    proof {
        assert(final(s)@ =~= old(s)@ + seq![spec_digit_char(d as int)]);
    }
}

/// Appends the decimal rendering of `n` to `s`.
pub fn append_u8(s: &mut String, n: u8)
    ensures
        final(s)@ == old(s)@ + spec_u8_dec(n as int),
{
    if n >= 100 {
        push_digit(s, n / 100);
    }
    if n >= 10 {
        push_digit(s, (n / 10) % 10);
    }
    push_digit(s, n % 10);
    proof {
        let v = n as int;
        if v < 10 {
            assert(v % 10 == v);
            assert(final(s)@ =~= old(s)@ + spec_u8_dec(v));
        } else if v < 100 {
            assert(v / 10 < 10);
            assert((v / 10) % 10 == v / 10);
            assert(spec_u8_dec(v) == spec_u8_dec(v / 10).push(spec_digit_char(v % 10)));
            assert(final(s)@ =~= old(s)@ + spec_u8_dec(v));
        } else {
            lemma_div_denominator(v, 10, 10);
            assert(v / 10 / 10 == v / 100);
            assert(v / 100 < 10);
            assert(v / 10 >= 10);
            assert(spec_u8_dec(v) == spec_u8_dec(v / 10).push(spec_digit_char(v % 10)));
            assert(spec_u8_dec(v / 10) == spec_u8_dec(v / 10 / 10).push(
                spec_digit_char((v / 10) % 10),
            ));
            assert(spec_u8_dec(v / 100) == seq![spec_digit_char(v / 100)]);
            assert(final(s)@ =~= old(s)@ + spec_u8_dec(v));
        }
    }
}

/// Index of the last element of the maximal run of consecutive values
/// starting at `i`.
pub open spec fn spec_run_end(ns: Seq<u8>, i: int) -> int
    decreases ns.len() - i,
{
    if i + 1 < ns.len() && ns[i] + 1 == ns[i + 1] {
        spec_run_end(ns, i + 1)
    } else {
        i
    }
}

pub proof fn lemma_run_end_bounds(ns: Seq<u8>, i: int)
    requires
        0 <= i < ns.len(),
    ensures
        i <= spec_run_end(ns, i) < ns.len(),
    decreases ns.len() - i,
{
    if i + 1 < ns.len() && ns[i] + 1 == ns[i + 1] {
        lemma_run_end_bounds(ns, i + 1);
    }
}

/// Rendering of the run `ns[i ..= e]`: three or more values render as a
/// range, two as a pair, one as itself.
pub open spec fn spec_piece(ns: Seq<u8>, i: int, e: int) -> Seq<char> {
    if e - i >= 2 {
        spec_u8_dec(ns[i] as int) + ".."@ + spec_u8_dec(ns[e] as int)
    } else if e - i == 1 {
        spec_u8_dec(ns[i] as int) + ", "@ + spec_u8_dec(ns[e] as int)
    } else {
        spec_u8_dec(ns[i] as int)
    }
}

/// Rendering of all runs from `i` on, separated by commas.
pub open spec fn spec_groups(ns: Seq<u8>, i: int) -> Seq<char>
    decreases ns.len() - i,
    when 0 <= i < ns.len()
    via spec_groups_dec
{
    let e = spec_run_end(ns, i);
    if e + 1 < ns.len() {
        spec_piece(ns, i, e) + ", "@ + spec_groups(ns, e + 1)
    } else {
        spec_piece(ns, i, e)
    }
}

#[via_fn]
proof fn spec_groups_dec(ns: Seq<u8>, i: int) {
    lemma_run_end_bounds(ns, i);
}

/// The bracketed concise rendering: runs of three or more consecutive
/// values collapse to `a..b`, everything else is listed.
pub open spec fn spec_concise(ns: Seq<u8>) -> Seq<char> {
    if ns.len() == 0 {
        "[]"@
    } else {
        "["@ + spec_groups(ns, 0) + "]"@
    }
}

/// Renders a list of display indices compactly, collapsing runs of three
/// or more consecutive values to ranges.
pub fn concise_numbers(ns: &[u8]) -> (r: String)
    ensures
        r@ == spec_concise(ns@),
{
    if ns.len() == 0 {
        return String::from_str("[]");
    }
    let mut s = String::from_str("[");
    let mut i: usize = 0;
    while i < ns.len()
        invariant
            i <= ns@.len(),
            ns@.len() > 0,
            i < ns@.len() ==> s@ + spec_groups(ns@, i as int) + "]"@ == spec_concise(ns@),
            i == ns@.len() ==> s@ + "]"@ == spec_concise(ns@),
        decreases ns@.len() - i,
    {
        let ghost s0 = s@;
        let mut e: usize = i;
        while e < ns.len() - 1 && ns[e + 1] >= ns[e] && ns[e + 1] - ns[e] == 1
            invariant
                i <= e < ns@.len(),
                spec_run_end(ns@, i as int) == spec_run_end(ns@, e as int),
            decreases ns@.len() - e,
        {
            e = e + 1;
        }
        proof {
            assert(spec_run_end(ns@, e as int) == e);
        }
        append_u8(&mut s, ns[i]);
        if e - i >= 2 {
            s.append("..");
            append_u8(&mut s, ns[e]);
        } else if e - i == 1 {
            s.append(", ");
            append_u8(&mut s, ns[e]);
        }
        proof {
            assert(s@ =~= s0 + spec_piece(ns@, i as int, e as int));
        }
        if e < ns.len() - 1 {
            s.append(", ");
            proof {
                assert(s@ + spec_groups(ns@, e + 1) + "]"@ =~= s0 + spec_groups(ns@, i as int)
                    + "]"@);
            }
        } else {
            proof {
                assert(s@ + "]"@ =~= s0 + spec_groups(ns@, i as int) + "]"@);
            }
        }
        i = e + 1;
    }
    s.append("]");
    s
}

} // verus!
