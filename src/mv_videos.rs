//! The selection-and-move pipeline: validated arguments become a `find`
//! command, its output becomes the list of files found, which is checked
//! against the file system and turned into a plan of moves into one flat
//! destination directory.
//!
//! The caller runs the command, checks which files exist and performs the
//! moves; each step's outcome is handed back to a function here.

use vstd::prelude::*;
use crate::fs::{file_name, file_name_of, join_path, joined_path, last_segment};
use crate::text::{
    decimal, decimal_string, lemma_split_on_len, lines_of, non_empty, non_empty_pred, split_on,
    text_lines, views,
};

verus! {

/// The scale letter of a size threshold, as `find -size` reads it.
#[derive(Clone, Copy, Debug, PartialEq, Eq, Structural)]
pub enum SizeUnit {
    Kilo,
    Mega,
    Giga,
    Tera,
    Peta,
}

/// A minimum file size: a magnitude and an optional scale.
#[derive(Clone, Copy, Debug, PartialEq, Eq, Structural)]
pub struct SizeThreshold {
    pub magnitude: u64,
    pub unit: Option<SizeUnit>,
}

/// Why a run stops.
#[derive(Debug, PartialEq, Eq)]
pub enum MvError {
    /// The size argument, as given, is no valid threshold.
    InvalidSize(String),
    /// No extension was given.
    EmptyExtensions,
    /// No source directory was given.
    EmptySources,
    /// The destination directory does not exist.
    DestinationMissing(String),
    /// The discovery command could not be started.
    DiscoverySpawnFailed { command: String, reason: String },
    /// The discovery command ended with a failure status.
    DiscoveryFailed { command: String, output: String },
    /// The discovery command did not end in time.
    DiscoveryTimedOut { command: String },
    /// Files that discovery reported but that no longer exist.
    FilesVanished(Vec<String>),
    /// A found path without a file name.
    InvalidFileName(String),
}

/// The scale that a trailing letter of a size argument stands for.
pub open spec fn unit_of(c: char) -> Option<SizeUnit> {
    if c == 'k' {
        Some(SizeUnit::Kilo)
    } else if c == 'M' {
        Some(SizeUnit::Mega)
    } else if c == 'G' {
        Some(SizeUnit::Giga)
    } else if c == 'T' {
        Some(SizeUnit::Tera)
    } else if c == 'P' {
        Some(SizeUnit::Peta)
    } else {
        None
    }
}

pub open spec fn is_digit(c: char) -> bool {
    '0' <= c && c <= '9'
}

pub open spec fn all_digits(s: Seq<char>) -> bool {
    forall|i: int| 0 <= i < s.len() ==> is_digit(#[trigger] s[i])
}

pub open spec fn digit_value(c: char) -> nat {
    if is_digit(c) {
        (c as int - '0' as int) as nat
    } else {
        0
    }
}

/// The number that a string of decimal digits denotes.
pub open spec fn digits_value(s: Seq<char>) -> nat
    decreases s.len(),
{
    if s.len() == 0 {
        0
    } else {
        digits_value(s.drop_last()) * 10 + digit_value(s.last())
    }
}

/// The number written in `s`, where `s` is a non-empty string of decimal
/// digits whose value fits in a `u64`.
pub open spec fn magnitude_of(s: Seq<char>) -> Option<u64> {
    if s.len() > 0 && all_digits(s) && digits_value(s) <= u64::MAX {
        Some(digits_value(s) as u64)
    } else {
        None
    }
}

/// The threshold that a size argument denotes: a magnitude, optionally
/// followed by one of the letters `k`, `M`, `G`, `T`, `P`.
pub open spec fn parse_size(raw: Seq<char>) -> Option<SizeThreshold> {
    if raw.len() == 0 {
        None
    } else {
        let unit = unit_of(raw.last());
        let digits = if unit is Some {
            raw.drop_last()
        } else {
            raw
        };
        match magnitude_of(digits) {
            Some(m) => Some(SizeThreshold { magnitude: m, unit }),
            None => None,
        }
    }
}

pub open spec fn is_invalid_size(r: Result<SizeThreshold, MvError>, raw: Seq<char>) -> bool {
    match r {
        Err(MvError::InvalidSize(s)) => s@ == raw,
        _ => false,
    }
}

proof fn lemma_digits_value_grows(s: Seq<char>, j: int)
    requires
        0 <= j <= s.len(),
    ensures
        digits_value(s.subrange(0, j)) <= digits_value(s),
    decreases s.len() - j,
{
    if j < s.len() {
        lemma_digits_value_grows(s, j + 1);
        assert(s.subrange(0, j + 1).drop_last() =~= s.subrange(0, j));
    } else {
        assert(s.subrange(0, j) =~= s);
    }
}

fn parse_magnitude(s: &str) -> (r: Option<u64>)
    ensures
        r == magnitude_of(s@),
{
    let n = s.unicode_len();
    if n == 0 {
        return None;
    }
    let mut value: u64 = 0;
    let mut i: usize = 0;
    while i < n
        invariant
            n == s@.len(),
            i <= n,
            all_digits(s@.subrange(0, i as int)),
            value as nat == digits_value(s@.subrange(0, i as int)),
        decreases n - i,
    {
        let c = s.get_char(i);
        if !('0' <= c && c <= '9') {
            assert(!is_digit(s@[i as int]));
            return None;
        }
        let d = (c as u32 - '0' as u32) as u64;
        assert(s@.subrange(0, i + 1).drop_last() =~= s@.subrange(0, i as int));
        assert(digits_value(s@.subrange(0, i + 1)) == value * 10 + d);
        if value > (u64::MAX - d) / 10 {
            assert(value * 10 + d > u64::MAX) by (nonlinear_arith)
                requires
                    value > (u64::MAX - d) / 10,
                    d <= 9,
            ;
            proof {
                lemma_digits_value_grows(s@, i + 1);
                assert(s@.subrange(0, i + 1).subrange(0, i + 1) =~= s@.subrange(0, i + 1));
            }
            return None;
        }
        assert(value * 10 + d <= u64::MAX) by (nonlinear_arith)
            requires
                value <= (u64::MAX - d) / 10,
                d <= 9,
        ;
        value = value * 10 + d;
        i = i + 1;
        assert forall|k: int| 0 <= k < i implies is_digit(#[trigger] s@.subrange(0, i as int)[k]) by {
            if k < i - 1 {
                assert(s@.subrange(0, i as int)[k] == s@.subrange(0, i - 1)[k]);
            }
        }
    }
    assert(s@.subrange(0, n as int) =~= s@);
    Some(value)
}

fn unit_from_char(c: char) -> (r: Option<SizeUnit>)
    ensures
        r == unit_of(c),
{
    if c == 'k' {
        Some(SizeUnit::Kilo)
    } else if c == 'M' {
        Some(SizeUnit::Mega)
    } else if c == 'G' {
        Some(SizeUnit::Giga)
    } else if c == 'T' {
        Some(SizeUnit::Tera)
    } else if c == 'P' {
        Some(SizeUnit::Peta)
    } else {
        None
    }
}

/// Validates a size argument such as `100M`: a non-negative decimal
/// magnitude, optionally followed by one of `k`, `M`, `G`, `T`, `P`.
/// Anything else is `InvalidSize`, carrying the argument.
pub fn check_size_arg(raw: &str) -> (r: Result<SizeThreshold, MvError>)
    ensures
        match parse_size(raw@) {
            Some(t) => r == Ok::<SizeThreshold, MvError>(t),
            None => is_invalid_size(r, raw@),
        },
{
    let n = raw.unicode_len();
    if n == 0 {
        return Err(MvError::InvalidSize(String::from_str(raw)));
    }
    let unit = unit_from_char(raw.get_char(n - 1));
    let digits = if unit.is_some() {
        raw.substring_char(0, n - 1)
    } else {
        raw
    };
    assert(digits@ =~= (if unit is Some { raw@.drop_last() } else { raw@ }));
    match parse_magnitude(digits) {
        Some(m) => Ok(SizeThreshold { magnitude: m, unit }),
        None => Err(MvError::InvalidSize(String::from_str(raw))),
    }
}

/// The extensions in a comma-separated list, in order. Empty pieces (from a
/// trailing comma, or two commas in a row) name no extension and are left
/// out.
pub open spec fn extension_list(raw: Seq<char>) -> Seq<Seq<char>> {
    non_empty(split_on(raw, ','))
}

/// A comma at the end of an extension list adds no extension.
pub proof fn trailing_comma_adds_nothing(raw: Seq<char>)
    ensures
        extension_list(raw.push(',')) == extension_list(raw),
{
    reveal(Seq::filter);
    assert(raw.push(',').drop_last() =~= raw);
    let p = split_on(raw.push(','), ',');
    assert(p.drop_last() =~= split_on(raw, ','));
}

/// Splits a comma-separated extension list such as `avi,mkv,mp4`. Empty
/// pieces are dropped; where no extension is left the result is
/// `EmptyExtensions`.
pub fn parse_extensions(raw: &str) -> (r: Result<Vec<String>, MvError>)
    ensures
        extension_list(raw@).len() == 0 ==> r == Err::<Vec<String>, MvError>(
            MvError::EmptyExtensions,
        ),
        extension_list(raw@).len() > 0 ==> match r {
            Ok(v) => views(v@) == extension_list(raw@),
            Err(_) => false,
        },
{
    let n = raw.unicode_len();
    let mut out: Vec<String> = Vec::new();
    let mut start: usize = 0;
    let mut i: usize = 0;
    proof {
        reveal(Seq::filter);
        assert(raw@.subrange(0, 0) =~= Seq::<char>::empty());
        assert(split_on(Seq::<char>::empty(), ',').drop_last() =~= Seq::<Seq<char>>::empty());
        assert(views(out@) =~= Seq::<Seq<char>>::empty());
    }
    while i < n
        invariant
            n == raw@.len(),
            start <= i <= n,
            split_on(raw@.subrange(0, i as int), ',').drop_last().filter(non_empty_pred()) == views(
                out@,
            ),
            split_on(raw@.subrange(0, i as int), ',').last() == raw@.subrange(
                start as int,
                i as int,
            ),
        decreases n - i,
    {
        let ghost p = split_on(raw@.subrange(0, i as int), ',');
        proof {
            lemma_split_on_len(raw@.subrange(0, i as int), ',');
        }
        assert(raw@.subrange(0, i + 1).drop_last() =~= raw@.subrange(0, i as int));
        let c = raw.get_char(i);
        assert(raw@.subrange(0, i + 1).last() == c);
        if c == ',' {
            proof {
                reveal(Seq::filter);
                assert(p.drop_last().push(p.last()) =~= p);
            }
            if start < i {
                let piece = String::from_str(raw.substring_char(start, i));
                let ghost before = out@;
                out.push(piece);
                assert(views(out@) =~= views(before).push(piece@));
            } else {
                assert(p.last().len() == 0);
            }
            assert(p.filter(non_empty_pred()) == views(out@)) by {
                reveal(Seq::filter);
            }
            start = i + 1;
            i = i + 1;
            assert(split_on(raw@.subrange(0, i as int), ',').drop_last() =~= p);
            assert(split_on(raw@.subrange(0, i as int), ',').last() =~= raw@.subrange(
                start as int,
                i as int,
            ));
        } else {
            i = i + 1;
            let ghost q = split_on(raw@.subrange(0, i as int), ',');
            assert(q.drop_last() =~= p.drop_last());
            assert(q.last() =~= raw@.subrange(start as int, i as int));
        }
    }
    assert(raw@.subrange(0, n as int) =~= raw@);
    let ghost p = split_on(raw@, ',');
    proof {
        lemma_split_on_len(raw@, ',');
        reveal(Seq::filter);
        assert(p.drop_last().push(p.last()) =~= p);
    }
    if start < n {
        let piece = String::from_str(raw.substring_char(start, n));
        let ghost before = out@;
        out.push(piece);
        assert(views(out@) =~= views(before).push(piece@));
    }
    assert(p.filter(non_empty_pred()) == views(out@)) by {
        reveal(Seq::filter);
    }
    if out.len() == 0 {
        Err(MvError::EmptyExtensions)
    } else {
        Ok(out)
    }
}

/// The letter of a scale, as `find -size` writes it.
pub open spec fn unit_suffix(u: Option<SizeUnit>) -> Seq<char> {
    match u {
        Some(SizeUnit::Kilo) => "k"@,
        Some(SizeUnit::Mega) => "M"@,
        Some(SizeUnit::Giga) => "G"@,
        Some(SizeUnit::Tera) => "T"@,
        Some(SizeUnit::Peta) => "P"@,
        None => Seq::empty(),
    }
}

/// The argument of `find -size` that selects files larger than `t`.
pub open spec fn size_arg(t: SizeThreshold) -> Seq<char> {
    "+"@ + decimal(t.magnitude as nat) + unit_suffix(t.unit)
}

/// Each source directory in double quotes, each preceded by a space.
pub open spec fn quoted_sources(sources: Seq<Seq<char>>) -> Seq<char>
    decreases sources.len(),
{
    if sources.len() == 0 {
        Seq::empty()
    } else {
        quoted_sources(sources.drop_last()) + " \""@ + sources.last() + "\""@
    }
}

/// One `-name "*.<ext>"` test per extension, joined by `-or`.
pub open spec fn name_tests(exts: Seq<Seq<char>>) -> Seq<char>
    decreases exts.len(),
{
    if exts.len() == 0 {
        Seq::empty()
    } else if exts.len() == 1 {
        " -name \"*."@ + exts[0] + "\""@
    } else {
        name_tests(exts.drop_last()) + " -or -name \"*."@ + exts.last() + "\""@
    }
}

/// The discovery command: regular files under any of the sources, larger
/// than the threshold, whose name ends in `.` and one of the extensions.
pub open spec fn find_command(
    sources: Seq<Seq<char>>,
    t: SizeThreshold,
    exts: Seq<Seq<char>>,
) -> Seq<char> {
    "find"@ + quoted_sources(sources) + " -type f -size "@ + size_arg(t) + name_tests(exts)
}

impl SizeThreshold {
    /// The argument of `find -size` that selects files larger than this.
    pub fn find_size_arg(&self) -> (r: String)
        ensures
            r@ == size_arg(*self),
    {
        let mut r = String::from_str("+");
        let digits = decimal_string(self.magnitude);
        r.append(digits.as_str());
        let suffix = match self.unit {
            Some(SizeUnit::Kilo) => "k",
            Some(SizeUnit::Mega) => "M",
            Some(SizeUnit::Giga) => "G",
            Some(SizeUnit::Tera) => "T",
            Some(SizeUnit::Peta) => "P",
            None => "",
        };
        proof {
            reveal_strlit("");
        }
        r.append(suffix);
        assert(r@ =~= size_arg(*self));
        r
    }
}

/// Builds the discovery command for the given sources, threshold and
/// extensions, keeping their order. Each source is quoted, so that it may
/// hold spaces. No sources is `EmptySources`; otherwise no extensions is
/// `EmptyExtensions`.
pub fn build_find_cmd(
    sources: &[String],
    threshold: &SizeThreshold,
    extensions: &[String],
) -> (r: Result<String, MvError>)
    ensures
        sources@.len() == 0 ==> r == Err::<String, MvError>(MvError::EmptySources),
        sources@.len() > 0 && extensions@.len() == 0 ==> r == Err::<String, MvError>(
            MvError::EmptyExtensions,
        ),
        sources@.len() > 0 && extensions@.len() > 0 ==> match r {
            Ok(c) => c@ == find_command(views(sources@), *threshold, views(extensions@)),
            Err(_) => false,
        },
{
    if sources.len() == 0 {
        return Err(MvError::EmptySources);
    }
    if extensions.len() == 0 {
        return Err(MvError::EmptyExtensions);
    }
    let ghost srcs = views(sources@);
    let ghost exts = views(extensions@);
    let mut cmd = String::from_str("find");
    assert(srcs.subrange(0, 0) =~= Seq::<Seq<char>>::empty());
    assert(cmd@ =~= "find"@ + quoted_sources(srcs.subrange(0, 0)));
    let mut i: usize = 0;
    while i < sources.len()
        invariant
            srcs == views(sources@),
            i <= sources@.len(),
            cmd@ == "find"@ + quoted_sources(srcs.subrange(0, i as int)),
        decreases sources@.len() - i,
    {
        cmd.append(" \"");
        cmd.append(sources[i].as_str());
        cmd.append("\"");
        assert(srcs.subrange(0, i + 1).drop_last() =~= srcs.subrange(0, i as int));
        i = i + 1;
        assert(cmd@ =~= "find"@ + quoted_sources(srcs.subrange(0, i as int)));
    }
    assert(srcs.subrange(0, i as int) =~= srcs);
    cmd.append(" -type f -size ");
    let size = threshold.find_size_arg();
    cmd.append(size.as_str());
    let ghost head = "find"@ + quoted_sources(srcs) + " -type f -size "@ + size_arg(*threshold);
    assert(cmd@ =~= head);
    cmd.append(" -name \"*.");
    cmd.append(extensions[0].as_str());
    cmd.append("\"");
    assert(cmd@ =~= head + name_tests(exts.subrange(0, 1)));
    let mut j: usize = 1;
    while j < extensions.len()
        invariant
            exts == views(extensions@),
            1 <= j <= extensions@.len(),
            cmd@ == head + name_tests(exts.subrange(0, j as int)),
        decreases extensions@.len() - j,
    {
        cmd.append(" -or -name \"*.");
        cmd.append(extensions[j].as_str());
        cmd.append("\"");
        assert(exts.subrange(0, j + 1).drop_last() =~= exts.subrange(0, j as int));
        j = j + 1;
        assert(cmd@ =~= head + name_tests(exts.subrange(0, j as int)));
    }
    assert(exts.subrange(0, j as int) =~= exts);
    Ok(cmd)
}

/// The command depends on nothing but the sources, the threshold and the
/// extensions: equal arguments give the same command, whatever strings hold
/// them.
pub proof fn find_command_is_deterministic(
    s1: Seq<String>,
    t1: SizeThreshold,
    e1: Seq<String>,
    s2: Seq<String>,
    t2: SizeThreshold,
    e2: Seq<String>,
)
    requires
        views(s1) == views(s2),
        t1 == t2,
        views(e1) == views(e2),
    ensures
        find_command(views(s1), t1, views(e1)) == find_command(views(s2), t2, views(e2)),
{
}

/// How a run of the discovery command ended.
#[derive(Debug)]
pub enum DiscoveryEvent {
    /// The command could not be started; the reason as the system gave it.
    SpawnFailed(String),
    /// The command was stopped after running longer than allowed.
    TimedOut,
    /// The command ended; its combined output.
    Exited { success: bool, output: String },
}

/// The paths that discovery output names: one per non-empty line, in order,
/// repeats kept.
pub open spec fn found_paths(output: Seq<char>) -> Seq<Seq<char>> {
    non_empty(lines_of(output))
}

/// Reads the output of the discovery command: each non-empty line is one
/// path. Empty output gives no paths.
pub fn parse_find_output(output: &str) -> (r: Vec<String>)
    ensures
        views(r@) == found_paths(output@),
{
    let lines = text_lines(output);
    let ghost all = views(lines@);
    let mut out: Vec<String> = Vec::new();
    let mut i: usize = 0;
    assert(all.subrange(0, 0).filter(non_empty_pred()) =~= views(out@)) by {
        reveal(Seq::filter);
    }
    while i < lines.len()
        invariant
            all == views(lines@),
            i <= lines@.len(),
            non_empty(all.subrange(0, i as int)) == views(out@),
        decreases lines@.len() - i,
    {
        let ghost before = out@;
        assert(all.subrange(0, i + 1).drop_last() =~= all.subrange(0, i as int));
        if !lines[i].as_str().is_empty() {
            let line = lines[i].clone();
            out.push(line);
            assert(views(out@) =~= views(before).push(line@));
        }
        i = i + 1;
        assert(non_empty(all.subrange(0, i as int)) == views(out@)) by {
            reveal(Seq::filter);
        }
    }
    assert(all.subrange(0, i as int) =~= all);
    out
}

/// Whether `r` is the error `e` that carries `command` and the reason or
/// output that `event` holds.
pub open spec fn is_discovery_error(r: Result<Vec<String>, MvError>, command: Seq<char>, event: DiscoveryEvent) -> bool {
    match (r, event) {
        (
            Err(MvError::DiscoverySpawnFailed { command: c, reason: x }),
            DiscoveryEvent::SpawnFailed(why),
        ) => c@ == command && x@ == why@,
        (Err(MvError::DiscoveryTimedOut { command: c }), DiscoveryEvent::TimedOut) => c@
            == command,
        (
            Err(MvError::DiscoveryFailed { command: c, output: o }),
            DiscoveryEvent::Exited { success: false, output },
        ) => c@ == command && o@ == output@,
        _ => false,
    }
}

/// Turns the end of the discovery command into the paths it found: a
/// command that could not start, ran too long or failed is an error that
/// names the command and carries what it printed or why it did not run.
pub fn discovery_result(command: &str, event: DiscoveryEvent) -> (r: Result<Vec<String>, MvError>)
    ensures
        match event {
            DiscoveryEvent::Exited { success: true, output } => match r {
                Ok(paths) => views(paths@) == found_paths(output@),
                Err(_) => false,
            },
            _ => is_discovery_error(r, command@, event),
        },
{
    let command_text = String::from_str(command);
    match event {
        DiscoveryEvent::SpawnFailed(reason) => Err(
            MvError::DiscoverySpawnFailed { command: command_text, reason },
        ),
        DiscoveryEvent::TimedOut => Err(MvError::DiscoveryTimedOut { command: command_text }),
        DiscoveryEvent::Exited { success, output } => {
            if success {
                Ok(parse_find_output(output.as_str()))
            } else {
                Err(MvError::DiscoveryFailed { command: command_text, output })
            }
        },
    }
}

/// The candidates whose flag is `want`, in order.
pub open spec fn with_flag(cands: Seq<Seq<char>>, flags: Seq<bool>, want: bool) -> Seq<Seq<char>>
    decreases cands.len(),
{
    if cands.len() == 0 {
        Seq::empty()
    } else {
        let rest = with_flag(cands.drop_last(), flags, want);
        if flags[cands.len() - 1] == want {
            rest.push(cands.last())
        } else {
            rest
        }
    }
}

proof fn lemma_none_missing(cands: Seq<Seq<char>>, flags: Seq<bool>)
    requires
        cands.len() <= flags.len(),
        with_flag(cands, flags, false).len() == 0,
    ensures
        with_flag(cands, flags, true) == cands,
    decreases cands.len(),
{
    if cands.len() > 0 {
        let rest = with_flag(cands.drop_last(), flags, false);
        if flags[cands.len() - 1] == false {
            assert(with_flag(cands, flags, false) == rest.push(cands.last()));
        }
        lemma_none_missing(cands.drop_last(), flags);
        assert(cands.drop_last().push(cands.last()) =~= cands);
    }
}

/// Splits the found paths by whether each exists (`exists[i]` for the
/// `i`-th), keeping their order within each part: first those that exist,
/// then those that do not.
pub fn partition_existing(candidates: &Vec<String>, exists: &Vec<bool>) -> (r: (
    Vec<String>,
    Vec<String>,
))
    requires
        candidates@.len() == exists@.len(),
    ensures
        views(r.0@) == with_flag(views(candidates@), exists@, true),
        views(r.1@) == with_flag(views(candidates@), exists@, false),
{
    let ghost all = views(candidates@);
    let mut present: Vec<String> = Vec::new();
    let mut missing: Vec<String> = Vec::new();
    let mut i: usize = 0;
    assert(all.subrange(0, 0) =~= Seq::<Seq<char>>::empty());
    assert(views(present@) =~= Seq::<Seq<char>>::empty());
    assert(views(missing@) =~= Seq::<Seq<char>>::empty());
    while i < candidates.len()
        invariant
            all == views(candidates@),
            candidates@.len() == exists@.len(),
            i <= candidates@.len(),
            views(present@) == with_flag(all.subrange(0, i as int), exists@, true),
            views(missing@) == with_flag(all.subrange(0, i as int), exists@, false),
        decreases candidates@.len() - i,
    {
        let ghost p0 = present@;
        let ghost m0 = missing@;
        assert(all.subrange(0, i + 1).drop_last() =~= all.subrange(0, i as int));
        let path = candidates[i].clone();
        if exists[i] {
            present.push(path);
            assert(views(present@) =~= views(p0).push(path@));
        } else {
            missing.push(path);
            assert(views(missing@) =~= views(m0).push(path@));
        }
        i = i + 1;
    }
    assert(all.subrange(0, i as int) =~= all);
    (present, missing)
}

/// Checks the found paths against the file system (`exists[i]` for the
/// `i`-th): where all exist they are the result; otherwise the run stops
/// with `FilesVanished`, listing those that do not, in order.
pub fn verify_found_files(candidates: Vec<String>, exists: &Vec<bool>) -> (r: Result<
    Vec<String>,
    MvError,
>)
    requires
        candidates@.len() == exists@.len(),
    ensures
        with_flag(views(candidates@), exists@, false).len() == 0 ==> match r {
            Ok(files) => views(files@) == views(candidates@),
            Err(_) => false,
        },
        with_flag(views(candidates@), exists@, false).len() > 0 ==> match r {
            Err(MvError::FilesVanished(m)) => views(m@) == with_flag(
                views(candidates@),
                exists@,
                false,
            ),
            _ => false,
        },
{
    let (present, missing) = partition_existing(&candidates, exists);
    if missing.len() == 0 {
        proof {
            lemma_none_missing(views(candidates@), exists@);
        }
        Ok(present)
    } else {
        Err(MvError::FilesVanished(missing))
    }
}

/// Where a file goes: the destination directory joined with the file's
/// name. The directories above the file play no part.
pub open spec fn planned_destination(destination: Seq<char>, source: Seq<char>) -> Seq<char> {
    match file_name_of(source) {
        Some(name) => joined_path(destination, name),
        None => Seq::empty(),
    }
}

/// The destination of a file moved into `destination`: the directory
/// joined with the file's name. A path without a file name is
/// `InvalidFileName`, carrying the path.
pub fn destination_path(destination: &str, file: &str) -> (r: Result<String, MvError>)
    ensures
        match file_name_of(file@) {
            Some(_) => match r {
                Ok(d) => d@ == planned_destination(destination@, file@),
                Err(_) => false,
            },
            None => match r {
                Err(MvError::InvalidFileName(p)) => p@ == file@,
                _ => false,
            },
        },
{
    match file_name(file) {
        Some(name) => Ok(join_path(destination, name.as_str())),
        None => Err(MvError::InvalidFileName(String::from_str(file))),
    }
}

/// A path flattened into the destination directory keeps its name and
/// loses its directories: for any parent path and any file name, the file
/// goes to the destination joined with that name.
pub proof fn destination_ignores_parents(destination: Seq<char>, parent: Seq<char>, name: Seq<char>)
    requires
        file_name_of(name) == Some(name),
        forall|i: int| 0 <= i < name.len() ==> name[i] != '/',
    ensures
        file_name_of(parent + seq!['/'] + name) == Some(name),
        planned_destination(destination, parent + seq!['/'] + name) == joined_path(
            destination,
            name,
        ),
{
    lemma_last_segment_after_separator(parent, name);
}

proof fn lemma_last_segment_after_separator(parent: Seq<char>, name: Seq<char>)
    requires
        forall|i: int| 0 <= i < name.len() ==> name[i] != '/',
    ensures
        last_segment(parent + seq!['/'] + name) == name,
    decreases name.len(),
{
    let p = parent + seq!['/'] + name;
    if name.len() == 0 {
        assert(p.last() == '/');
    } else {
        lemma_last_segment_after_separator(parent, name.drop_last());
        assert(p.drop_last() =~= parent + seq!['/'] + name.drop_last());
        assert(name.drop_last().push(name.last()) =~= name);
    }
}

/// One planned move.
#[derive(Debug)]
pub struct MoveEntry {
    pub from: String,
    pub to: String,
}

impl MoveEntry {
    /// A copy of this entry.
    pub fn duplicate(&self) -> (r: MoveEntry)
        ensures
            r == *self,
    {
        MoveEntry { from: self.from.clone(), to: self.to.clone() }
    }
}

/// Plans the move of each file into `destination`, in order. The first path
/// without a file name is `InvalidFileName`, carrying that path. Two files
/// with the same name get the same destination.
pub fn plan_moves(files: &Vec<String>, destination: &str) -> (r: Result<Vec<MoveEntry>, MvError>)
    ensures
        match r {
            Ok(plan) => {
                &&& forall|i: int| 0 <= i < files@.len() ==> file_name_of(#[trigger] files@[i]@) is Some
                &&& plan@.len() == files@.len()
                &&& forall|i: int|
                    0 <= i < plan@.len() ==> (#[trigger] plan@[i]).from@ == files@[i]@
                        && plan@[i].to@ == planned_destination(destination@, files@[i]@)
            },
            Err(e) => exists|i: int|
                0 <= i < files@.len() && file_name_of(#[trigger] files@[i]@) is None && (forall|
                    j: int,
                | 0 <= j < i ==> file_name_of(#[trigger] files@[j]@) is Some) && match e {
                    MvError::InvalidFileName(p) => p@ == files@[i]@,
                    _ => false,
                },
        },
{
    let mut plan: Vec<MoveEntry> = Vec::new();
    let mut i: usize = 0;
    while i < files.len()
        invariant
            i <= files@.len(),
            plan@.len() == i,
            forall|k: int| 0 <= k < i ==> file_name_of(#[trigger] files@[k]@) is Some,
            forall|k: int|
                0 <= k < i ==> (#[trigger] plan@[k]).from@ == files@[k]@ && plan@[k].to@
                    == planned_destination(destination@, files@[k]@),
        decreases files@.len() - i,
    {
        match destination_path(destination, files[i].as_str()) {
            Ok(to) => {
                plan.push(MoveEntry { from: files[i].clone(), to });
            },
            Err(e) => {
                assert(file_name_of(files@[i as int]@) is None);
                return Err(e);
            },
        }
        i = i + 1;
    }
    Ok(plan)
}

/// The first steps of a run, before anything outside is touched: the size
/// argument is checked, then that the destination directory exists
/// (`destination_is_dir`), then the extension list, and the discovery
/// command is built from the sources and the parsed arguments.
pub fn prepare_discovery(
    sources: &[String],
    destination: &str,
    destination_is_dir: bool,
    size: &str,
    extensions: &str,
) -> (r: Result<String, MvError>)
    ensures
        parse_size(size@) is None ==> match r {
            Err(MvError::InvalidSize(s)) => s@ == size@,
            _ => false,
        },
        parse_size(size@) is Some && !destination_is_dir ==> match r {
            Err(MvError::DestinationMissing(d)) => d@ == destination@,
            _ => false,
        },
        parse_size(size@) is Some && destination_is_dir && extension_list(extensions@).len() == 0
            ==> r == Err::<String, MvError>(MvError::EmptyExtensions),
        parse_size(size@) is Some && destination_is_dir && extension_list(extensions@).len() > 0
            && sources@.len() == 0 ==> r == Err::<String, MvError>(MvError::EmptySources),
        parse_size(size@) is Some && destination_is_dir && extension_list(extensions@).len() > 0
            && sources@.len() > 0 ==> match r {
            Ok(c) => c@ == find_command(
                views(sources@),
                parse_size(size@)->Some_0,
                extension_list(extensions@),
            ),
            Err(_) => false,
        },
{
    let threshold = match check_size_arg(size) {
        Ok(t) => t,
        Err(e) => {
            return Err(e);
        },
    };
    if !destination_is_dir {
        return Err(MvError::DestinationMissing(String::from_str(destination)));
    }
    let exts = match parse_extensions(extensions) {
        Ok(v) => v,
        Err(e) => {
            return Err(e);
        },
    };
    build_find_cmd(sources, &threshold, exts.as_slice())
}

} // verus!
