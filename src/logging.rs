//! Log levels and the layout of a log line.

use vstd::prelude::*;

verus! {

/// How much is logged, from nothing to everything.
#[derive(Clone, Copy, Debug, PartialEq, Eq, Structural, PartialOrd, Ord)]
pub enum Level {
    Off,
    Error,
    Warn,
    Info,
    Debug,
    Trace,
}

/// The level that a verbosity count selects: none gives warnings, one
/// information, two debugging, three or more everything.
pub open spec fn level_of_verbosity(v: u64) -> Level {
    if v == 0 {
        Level::Warn
    } else if v == 1 {
        Level::Info
    } else if v == 2 {
        Level::Debug
    } else {
        Level::Trace
    }
}

impl From<u64> for Level {
    fn from(level: u64) -> (r: Level) {
        if level == 0 {
            Level::Warn
        } else if level == 1 {
            Level::Info
        } else if level == 2 {
            Level::Debug
        } else {
            Level::Trace
        }
    }
}

impl vstd::std_specs::convert::FromSpecImpl<u64> for Level {
    open spec fn obeys_from_spec() -> bool {
        true
    }

    open spec fn from_spec(v: u64) -> Level {
        level_of_verbosity(v)
    }
}

/// A level for the messages of one module.
#[derive(Debug)]
pub struct ModLevel {
    pub module: String,
    pub level: Level,
}

/// The text put in front of each log line for a context.
pub open spec fn context_text(context: Option<Seq<char>>) -> Seq<char> {
    match context {
        Some(c) => "[Context: "@ + c + "] "@,
        None => Seq::empty(),
    }
}

/// The text put in front of each log line for `context`.
pub fn context_prefix(context: &Option<String>) -> (r: String)
    ensures
        r@ == context_text(
            match context {
                Some(c) => Some(c@),
                None => None,
            },
        ),
{
    match context {
        Some(c) => {
            let mut r = String::from_str("[Context: ");
            r.append(c.as_str());
            r.append("] ");
            r
        },
        None => String::new(),
    }
}

/// How many spaces follow a level name of `name_len` characters, so that
/// the names of all levels take six columns; a longer name gets one.
pub open spec fn level_gap(name_len: nat) -> nat {
    if name_len < 6 {
        (6 - name_len) as nat
    } else {
        1
    }
}

/// The layout of a log line: context prefix, level, a gap that lines up
/// the targets, target, and message. `level` is the level as shown (it may
/// carry colour codes); `level_name_len` is the length of its plain name.
pub open spec fn log_line_text(
    prefix: Seq<char>,
    level: Seq<char>,
    level_name_len: nat,
    target: Seq<char>,
    message: Seq<char>,
) -> Seq<char> {
    prefix + level + Seq::new(level_gap(level_name_len), |i: int| ' ') + target + ": "@ + message
}

/// Lays out one log line.
pub fn log_line(
    prefix: &str,
    level: &str,
    level_name_len: usize,
    target: &str,
    message: &str,
) -> (r: String)
    ensures
        r@ == log_line_text(prefix@, level@, level_name_len as nat, target@, message@),
{
    let mut r = String::from_str(prefix);
    r.append(level);
    let gap: usize = if level_name_len < 6 {
        6 - level_name_len
    } else {
        1
    };
    let ghost head = prefix@ + level@;
    let mut k: usize = 0;
    proof {
        reveal_strlit(" ");
    }
    assert(r@ =~= head + Seq::new(0, |i: int| ' '));
    while k < gap
        invariant
            k <= gap,
            r@ == head + Seq::new(k as nat, |i: int| ' '),
            " "@ == seq![' '],
        decreases gap - k,
    {
        r.append(" ");
        k = k + 1;
        assert(r@ =~= head + Seq::new(k as nat, |i: int| ' '));
    }
    r.append(target);
    r.append(": ");
    r.append(message);
    assert(r@ =~= log_line_text(prefix@, level@, level_name_len as nat, target@, message@));
    r
}

} // verus!
