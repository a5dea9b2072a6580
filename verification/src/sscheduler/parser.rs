//! Command line of the scheduler.
//!
//! Options: `-p/--pipeline <FILE>` (required), `-w/--wait-seconds <N>`
//! (default 5), `-m/--max-concurrency <N>` (default 0, no limit),
//! `-l/--log-level <LEVEL>` (default `info`), `-r/--restart` and `--local`.
//! A value is given after `=`, attached to a short option, or as the next
//! argument when that one does not start with `-`. The first argument is
//! the program name.

use vstd::prelude::*;

verus! {

/// Options of the command line.
#[derive(Clone, Copy, Debug, PartialEq, Eq)]
pub enum Opt {
    Pipeline,
    WaitSeconds,
    MaxConcurrency,
    LogLevel,
    Restart,
    Local,
    Help,
    Version,
}

/// Option named by a long name.
pub open spec fn long_opt(name: Seq<char>) -> Option<Opt> {
    if name == "pipeline"@ {
        Some(Opt::Pipeline)
    } else if name == "wait-seconds"@ {
        Some(Opt::WaitSeconds)
    } else if name == "max-concurrency"@ {
        Some(Opt::MaxConcurrency)
    } else if name == "log-level"@ {
        Some(Opt::LogLevel)
    } else if name == "restart"@ {
        Some(Opt::Restart)
    } else if name == "local"@ {
        Some(Opt::Local)
    } else if name == "help"@ {
        Some(Opt::Help)
    } else if name == "version"@ {
        Some(Opt::Version)
    } else {
        None
    }
}

/// Option named by a short letter.
pub open spec fn short_opt(c: char) -> Option<Opt> {
    if c == 'p' {
        Some(Opt::Pipeline)
    } else if c == 'w' {
        Some(Opt::WaitSeconds)
    } else if c == 'm' {
        Some(Opt::MaxConcurrency)
    } else if c == 'l' {
        Some(Opt::LogLevel)
    } else if c == 'r' {
        Some(Opt::Restart)
    } else if c == 'h' {
        Some(Opt::Help)
    } else if c == 'V' {
        Some(Opt::Version)
    } else {
        None
    }
}

/// Options that take a value.
pub open spec fn takes_value(o: Opt) -> bool {
    !(o is Restart || o is Local || o is Help || o is Version)
}

/// What a request for help prints.
pub open spec fn help_text() -> Seq<char> {
    HELP_TEXT@
}

/// What a request for the version prints.
pub open spec fn version_text() -> Seq<char> {
    VERSION_TEXT@
}

/// The help of the scheduler's command line.
pub const HELP_TEXT: &'static str = "Slurm job scheduler\n\nUsage: sscheduler [OPTIONS] --pipeline <FILE>\n\nOptions:\n  -p, --pipeline <FILE>                    Compiled pipeline path\n  -w, --wait-seconds <WAIT_SECONDS>        Time between successive Slurm polls [default: 5]\n  -m, --max-concurrency <MAX_CONCURRENCY>  Max number of concurrent tasks. Set to 0 to disable. [default: 0]\n  -l, --log-level <LOG_LEVEL>              Logging level (debug, info, error, or tracing) [default: info]\n  -r, --restart                            Restart a pipeline from the last checkpoint\n      --local                              Submit jobs locally as blocking, child processes.\n  -h, --help                               Print help\n  -V, --version                            Print version\n";

/// The name and version of the scheduler.
pub const VERSION_TEXT: &'static str = "sscheduler 0.1.0\n";

/// Why a command line is refused.
#[derive(Clone, Copy, Debug, PartialEq, Eq)]
pub enum ErrorKind {
    /// An argument that is no option, or a value given to a flag.
    UnexpectedArgument,
    /// An option without its value.
    MissingValue(Opt),
    /// An option given twice.
    Repeated(Opt),
    /// A number option with a value that is no number in range.
    InvalidValue(Opt),
    /// No pipeline given.
    MissingPipeline,
    /// Help was asked for: the text to print is the error's token, and the
    /// program ends successfully.
    DisplayHelp,
    /// The version was asked for: the text to print is the error's token,
    /// and the program ends successfully.
    DisplayVersion,
}

/// A refused command line: the reason, and the argument or value at fault
/// (empty when there is none).
#[derive(Clone, Debug, PartialEq)]
pub struct CliError {
    pub kind: ErrorKind,
    pub token: String,
}

/// Scheduler command line.
#[derive(Clone, Debug, PartialEq)]
pub struct CLI {
    /// Compiled pipeline path.
    pub pipeline: String,
    /// Time between successive Slurm polls, in seconds.
    pub wait_seconds: u64,
    /// Max number of concurrent tasks; 0 disables the limit.
    pub max_concurrency: usize,
    /// Logging level.
    pub log_level: String,
    /// Restart a pipeline from the last checkpoint.
    pub restart: bool,
    /// Submit jobs locally as blocking child processes.
    pub local: bool,
}

/// Options read so far.
pub struct CliState {
    pub pipeline: Option<Seq<char>>,
    pub wait_seconds: Option<u64>,
    pub max_concurrency: Option<usize>,
    pub log_level: Option<Seq<char>>,
    pub restart: bool,
    pub local: bool,
}

/// Nothing read yet.
pub open spec fn empty_state() -> CliState {
    CliState {
        pipeline: None,
        wait_seconds: None,
        max_concurrency: None,
        log_level: None,
        restart: false,
        local: false,
    }
}

/// Every character is a decimal digit.
pub open spec fn all_digits(t: Seq<char>) -> bool {
    forall|i: int| 0 <= i < t.len() ==> '0' <= #[trigger] t[i] <= '9'
}

/// Value of a string of decimal digits.
pub open spec fn digits_value(t: Seq<char>) -> nat
    decreases t.len(),
{
    if t.len() == 0 {
        0
    } else {
        digits_value(t.drop_last()) * 10 + ((t.last() as int) - ('0' as int)) as nat
    }
}

/// Value of a decimal number, with an optional leading `+`.
pub open spec fn number_value(s: Seq<char>) -> Option<nat> {
    let t = if s.len() > 0 && s[0] == '+' {
        s.skip(1)
    } else {
        s
    };
    if t.len() > 0 && all_digits(t) {
        Some(digits_value(t))
    } else {
        None
    }
}

/// Whether an option was given already.
pub open spec fn is_set(st: CliState, o: Opt) -> bool {
    match o {
        Opt::Pipeline => st.pipeline is Some,
        Opt::WaitSeconds => st.wait_seconds is Some,
        Opt::MaxConcurrency => st.max_concurrency is Some,
        Opt::LogLevel => st.log_level is Some,
        Opt::Restart => st.restart,
        Opt::Local => st.local,
        Opt::Help | Opt::Version => false,
    }
}

/// Record option `o` with value `v` (ignored for flags).
pub open spec fn apply_opt(st: CliState, o: Opt, v: Seq<char>) -> Result<CliState, (ErrorKind, Seq<char>)> {
    if is_set(st, o) {
        Err((ErrorKind::Repeated(o), Seq::empty()))
    } else {
        match o {
            Opt::Pipeline => Ok(CliState { pipeline: Some(v), ..st }),
            Opt::WaitSeconds => match number_value(v) {
                Some(n) => if n <= u64::MAX {
                    Ok(CliState { wait_seconds: Some(n as u64), ..st })
                } else {
                    Err((ErrorKind::InvalidValue(o), v))
                },
                None => Err((ErrorKind::InvalidValue(o), v)),
            },
            Opt::MaxConcurrency => match number_value(v) {
                Some(n) => if n <= usize::MAX {
                    Ok(CliState { max_concurrency: Some(n as usize), ..st })
                } else {
                    Err((ErrorKind::InvalidValue(o), v))
                },
                None => Err((ErrorKind::InvalidValue(o), v)),
            },
            Opt::LogLevel => Ok(CliState { log_level: Some(v), ..st }),
            Opt::Restart => Ok(CliState { restart: true, ..st }),
            Opt::Local => Ok(CliState { local: true, ..st }),
            Opt::Help => Err((ErrorKind::DisplayHelp, help_text())),
            Opt::Version => Err((ErrorKind::DisplayVersion, version_text())),
        }
    }
}

/// Index of the first `=` in `s`, or its length.
pub open spec fn eq_index(s: Seq<char>) -> int
    decreases s.len(),
{
    if s.len() == 0 {
        0
    } else {
        let e = eq_index(s.drop_last());
        if e < s.len() - 1 {
            e
        } else if s.last() == '=' {
            s.len() - 1
        } else {
            s.len() as int
        }
    }
}

/// The value of option `o` given at `args[i]`: `inline` when the argument
/// holds one, otherwise the next argument unless it starts with `-`. Gives
/// the value and the index of the next argument to read.
pub open spec fn take_value(args: Seq<Seq<char>>, i: int, o: Opt, inline: Option<Seq<char>>) -> Result<
    (Seq<char>, int),
    (ErrorKind, Seq<char>),
> {
    match inline {
        Some(v) => Ok((v, i + 1)),
        None => if i + 1 < args.len() && !(args[i + 1].len() > 0 && args[i + 1][0] == '-') {
            Ok((args[i + 1], i + 2))
        } else {
            Err((ErrorKind::MissingValue(o), Seq::empty()))
        },
    }
}

/// The long option `--name` or `--name=value` that `t` names, with the
/// value given inside the argument, if any.
pub open spec fn read_long(t: Seq<char>) -> Option<(Opt, Option<Seq<char>>)> {
    let body = t.skip(2);
    let e = eq_index(body);
    match long_opt(body.take(e)) {
        Some(o) => Some(
            (
                o,
                if e < body.len() {
                    Some(body.skip(e + 1))
                } else {
                    None
                },
            ),
        ),
        None => None,
    }
}

/// The value given inside a short argument after the option letter: none
/// when nothing follows, what follows `=` when it starts with one, all that
/// follows otherwise.
pub open spec fn short_inline(rest: Seq<char>) -> Option<Seq<char>> {
    if rest.len() == 0 {
        None
    } else if rest[0] == '=' {
        Some(rest.skip(1))
    } else {
        Some(rest)
    }
}

/// Option `o`, named by the argument `t` at `args[i]`, with the value
/// `inline` given inside the argument: an option that takes a value gets
/// `inline` or the next argument (see `take_value`); a flag takes none.
/// Gives the new options and the index of the next argument.
pub open spec fn opt_step(
    args: Seq<Seq<char>>,
    i: int,
    st: CliState,
    o: Opt,
    inline: Option<Seq<char>>,
    t: Seq<char>,
) -> Result<(CliState, int), (ErrorKind, Seq<char>)> {
    if takes_value(o) {
        match take_value(args, i, o, inline) {
            Ok((v, next)) => match apply_opt(st, o, v) {
                Ok(s2) => Ok((s2, next)),
                Err(e) => Err(e),
            },
            Err(e) => Err(e),
        }
    } else if inline is Some {
        Err((ErrorKind::UnexpectedArgument, t))
    } else {
        match apply_opt(st, o, Seq::empty()) {
            Ok(s2) => Ok((s2, i + 1)),
            Err(e) => Err(e),
        }
    }
}

/// The short options stacked in `t = args[i]`, read from its letter `j` on:
/// flags are set one after the other; the first letter of an option that
/// takes a value ends the stack, and what follows it in the argument, or
/// else the next argument, is its value.
pub open spec fn short_stack(args: Seq<Seq<char>>, i: int, t: Seq<char>, j: int, st: CliState) -> Result<
    (CliState, int),
    (ErrorKind, Seq<char>),
>
    decreases t.len() - j,
{
    if j >= t.len() || j < 0 {
        Ok((st, i + 1))
    } else {
        match short_opt(t[j]) {
            None => Err((ErrorKind::UnexpectedArgument, t)),
            Some(o) => if takes_value(o) {
                opt_step(args, i, st, o, short_inline(t.skip(j + 1)), t)
            } else if j + 1 < t.len() && t[j + 1] == '=' {
                Err((ErrorKind::UnexpectedArgument, t))
            } else {
                match apply_opt(st, o, Seq::empty()) {
                    Ok(s2) => short_stack(args, i, t, j + 1, s2),
                    Err(e) => Err(e),
                }
            },
        }
    }
}

/// One argument (with its value) read: the new options and the index of
/// the next argument.
pub open spec fn parse_step(args: Seq<Seq<char>>, i: int, st: CliState) -> Result<
    (CliState, int),
    (ErrorKind, Seq<char>),
> {
    let t = args[i];
    if t.len() > 2 && t[0] == '-' && t[1] == '-' {
        match read_long(t) {
            None => Err((ErrorKind::UnexpectedArgument, t)),
            Some((o, inline)) => opt_step(args, i, st, o, inline, t),
        }
    } else if t.len() >= 2 && t[0] == '-' && t[1] != '-' {
        short_stack(args, i, t, 1, st)
    } else {
        Err((ErrorKind::UnexpectedArgument, t))
    }
}

/// The options read from `args[i..]`.
pub open spec fn parse_from(args: Seq<Seq<char>>, i: int, st: CliState) -> Result<
    CliState,
    (ErrorKind, Seq<char>),
>
    decreases args.len() - i,
{
    if i >= args.len() || i < 0 {
        Ok(st)
    } else {
        match parse_step(args, i, st) {
            Ok((s2, next)) => if i < next <= args.len() {
                parse_from(args, next, s2)
            } else {
                Ok(s2)
            },
            Err(e) => Err(e),
        }
    }
}

/// The command line read from `args` (the first being the program name):
/// the options given, the defaults for the others; a pipeline is required.
pub open spec fn cli_of(args: Seq<Seq<char>>) -> Result<
    (Seq<char>, u64, usize, Seq<char>, bool, bool),
    (ErrorKind, Seq<char>),
> {
    match parse_from(args, 1, empty_state()) {
        Ok(st) => match st.pipeline {
            Some(p) => Ok(
                (
                    p,
                    match st.wait_seconds {
                        Some(w) => w,
                        None => 5,
                    },
                    match st.max_concurrency {
                        Some(m) => m,
                        None => 0,
                    },
                    match st.log_level {
                        Some(l) => l,
                        None => "info"@,
                    },
                    st.restart,
                    st.local,
                ),
            ),
            None => Err((ErrorKind::MissingPipeline, Seq::empty())),
        },
        Err(e) => Err(e),
    }
}

/// The plain values of a command line.
pub open spec fn cli_view(c: CLI) -> (Seq<char>, u64, usize, Seq<char>, bool, bool) {
    (c.pipeline@, c.wait_seconds, c.max_concurrency, c.log_level@, c.restart, c.local)
}

/// The views of a list of arguments.
pub open spec fn args_view(args: Seq<&str>) -> Seq<Seq<char>> {
    args.map_values(|a: &str| a@)
}

fn long_opt_of(name: &str) -> (r: Option<Opt>)
    ensures
        r == long_opt(name@),
{
    if crate::text::str_eq(name, "pipeline") {
        Some(Opt::Pipeline)
    } else if crate::text::str_eq(name, "wait-seconds") {
        Some(Opt::WaitSeconds)
    } else if crate::text::str_eq(name, "max-concurrency") {
        Some(Opt::MaxConcurrency)
    } else if crate::text::str_eq(name, "log-level") {
        Some(Opt::LogLevel)
    } else if crate::text::str_eq(name, "restart") {
        Some(Opt::Restart)
    } else if crate::text::str_eq(name, "local") {
        Some(Opt::Local)
    } else if crate::text::str_eq(name, "help") {
        Some(Opt::Help)
    } else if crate::text::str_eq(name, "version") {
        Some(Opt::Version)
    } else {
        None
    }
}

fn short_opt_of(c: char) -> (r: Option<Opt>)
    ensures
        r == short_opt(c),
{
    if c == 'p' {
        Some(Opt::Pipeline)
    } else if c == 'w' {
        Some(Opt::WaitSeconds)
    } else if c == 'm' {
        Some(Opt::MaxConcurrency)
    } else if c == 'l' {
        Some(Opt::LogLevel)
    } else if c == 'r' {
        Some(Opt::Restart)
    } else if c == 'h' {
        Some(Opt::Help)
    } else if c == 'V' {
        Some(Opt::Version)
    } else {
        None
    }
}

fn find_eq(s: &str) -> (r: usize)
    ensures
        r == eq_index(s@),
        r <= s@.len(),
{
    let n = s.unicode_len();
    let mut i: usize = 0;
    while i < n
        invariant
            n == s@.len(),
            i <= n,
            eq_index(s@.take(i as int)) == i,
        decreases n - i,
    {
        assert(s@.take(i + 1).drop_last() =~= s@.take(i as int));
        if s.get_char(i) == '=' {
            proof {
                lemma_eq_index_prefix(s@, i as int + 1);
            }
            return i;
        }
        i = i + 1;
    }
    assert(s@.take(n as int) =~= s@);
    n
}

/// Once the first `=` is in a prefix, it is the first `=` of the whole.
proof fn lemma_eq_index_prefix(s: Seq<char>, k: int)
    requires
        0 < k <= s.len(),
        eq_index(s.take(k)) < k,
    ensures
        eq_index(s) == eq_index(s.take(k)),
    decreases s.len() - k,
{
    if k < s.len() {
        assert(s.take(k + 1).drop_last() =~= s.take(k));
        lemma_eq_index_prefix(s, k + 1);
    } else {
        assert(s.take(k) =~= s);
    }
}

proof fn lemma_digits_monotone(t: Seq<char>, k: int)
    requires
        0 <= k <= t.len(),
        all_digits(t),
    ensures
        digits_value(t.take(k)) <= digits_value(t),
    decreases t.len() - k,
{
    if k < t.len() {
        lemma_digits_monotone(t, k + 1);
        assert(t.take(k + 1).drop_last() =~= t.take(k));
        let a = digits_value(t.take(k));
        let d = ((t[k] as int) - ('0' as int)) as nat;
        assert(t.take(k + 1).last() == t[k]);
        assert(a <= a * 10 + d) by (nonlinear_arith);
    } else {
        assert(t.take(k) =~= t);
    }
}

fn parse_number(s: &str, max: u64) -> (r: Option<u64>)
    ensures
        match r {
            Some(n) => number_value(s@) == Some(n as nat) && n <= max,
            None => number_value(s@) is None || number_value(s@).unwrap() > max,
        },
{
    let n = s.unicode_len();
    let mut start: usize = 0;
    if n > 0 && s.get_char(0) == '+' {
        start = 1;
    }
    let ghost t = if start == 1 {
        s@.skip(1)
    } else {
        s@
    };
    assert(t =~= s@.subrange(start as int, n as int));
    if start >= n {
        return None;
    }
    let mut acc: u64 = 0;
    let mut i: usize = start;
    while i < n
        invariant
            n == s@.len(),
            start <= i <= n,
            t =~= s@.subrange(start as int, n as int),
            t == (if s@.len() > 0 && s@[0] == '+' {
                s@.skip(1)
            } else {
                s@
            }),
            t.len() > 0,
            all_digits(t.take(i - start)),
            acc as nat == digits_value(t.take(i - start)),
            acc <= max,
        decreases n - i,
    {
        let c = s.get_char(i);
        let ghost k = i - start;
        assert(t.take(k + 1).drop_last() =~= t.take(k));
        assert(t.take(k + 1).last() == c);
        assert(t[k as int] == c);
        if !('0' <= c && c <= '9') {
            assert(!all_digits(t));
            assert(number_value(s@) is None);
            return None;
        }
        let d = (c as u32 - '0' as u32) as u64;
        assert(d as int == (c as int) - ('0' as int));
        if d > max || acc > (max - d) / 10 {
            proof {
                if d <= max {
                    assert(acc * 10 + d > max) by (nonlinear_arith)
                        requires
                            acc > (max - d) / 10,
                            d <= max,
                    ;
                } else {
                    assert(acc * 10 + d > max) by (nonlinear_arith)
                        requires
                            d > max,
                    ;
                }
                assert(all_digits(t.take(k + 1)));
                if all_digits(t) {
                    lemma_digits_monotone(t, k + 1);
                }
            }
            return None;
        }
        assert(acc * 10 + d <= max) by (nonlinear_arith)
            requires
                acc <= (max - d) / 10,
                d <= max,
        ;
        acc = acc * 10 + d;
        i = i + 1;
    }
    assert(t.take(n - start) =~= t);
    Some(acc)
}

/// The view of an optional string.
pub open spec fn opt_view(o: Option<String>) -> Option<Seq<char>> {
    match o {
        Some(s) => Some(s@),
        None => None,
    }
}

fn read_long_exec(t: &str) -> (r: Option<(Opt, Option<String>)>)
    requires
        t@.len() > 2,
    ensures
        match r {
            Some((o, inl)) => read_long(t@) == Some((o, opt_view(inl))),
            None => read_long(t@) is None,
        },
{
    let n = t.unicode_len();
    let body = t.substring_char(2, n);
    assert(body@ =~= t@.skip(2));
    let e = find_eq(body);
    let name = body.substring_char(0, e);
    assert(name@ =~= body@.take(e as int));
    match long_opt_of(name) {
        Some(o) => {
            let bn = body.unicode_len();
            let inl = if e < bn {
                let v = body.substring_char(e + 1, bn);
                assert(v@ =~= body@.skip(e + 1));
                Some(String::from_str(v))
            } else {
                None
            };
            Some((o, inl))
        },
        None => None,
    }
}

fn short_inline_exec(t: &str, from: usize) -> (r: Option<String>)
    requires
        from <= t@.len(),
    ensures
        opt_view(r) == short_inline(t@.skip(from as int)),
{
    let n = t.unicode_len();
    let rest = t.substring_char(from, n);
    assert(rest@ =~= t@.skip(from as int));
    let rn = rest.unicode_len();
    if rn == 0 {
        None
    } else if rest.get_char(0) == '=' {
        let v = rest.substring_char(1, rn);
        assert(v@ =~= rest@.skip(1));
        Some(String::from_str(v))
    } else {
        Some(String::from_str(rest))
    }
}

/// Options read so far, as values.
struct ParseState {
    pipeline: Option<String>,
    wait_seconds: Option<u64>,
    max_concurrency: Option<usize>,
    log_level: Option<String>,
    restart: bool,
    local: bool,
}

impl ParseState {
    spec fn state(&self) -> CliState {
        CliState {
            pipeline: opt_view(self.pipeline),
            wait_seconds: self.wait_seconds,
            max_concurrency: self.max_concurrency,
            log_level: opt_view(self.log_level),
            restart: self.restart,
            local: self.local,
        }
    }
}

fn cli_error(kind: ErrorKind, token: &str) -> (e: CliError)
    ensures
        e.kind == kind,
        e.token@ == token@,
{
    CliError { kind, token: String::from_str(token) }
}

fn apply_exec(st: &mut ParseState, o: Opt, v: &str) -> (r: Result<(), CliError>)
    ensures
        match r {
            Ok(()) => apply_opt(old(st).state(), o, v@) == Ok::<CliState, (ErrorKind, Seq<char>)>(
                final(st).state(),
            ),
            Err(e) => apply_opt(old(st).state(), o, v@) == Err::<CliState, (ErrorKind, Seq<char>)>(
                (e.kind, e.token@),
            ),
        },
{
    proof {
        reveal_strlit("");
    }
    let set = match o {
        Opt::Pipeline => st.pipeline.is_some(),
        Opt::WaitSeconds => st.wait_seconds.is_some(),
        Opt::MaxConcurrency => st.max_concurrency.is_some(),
        Opt::LogLevel => st.log_level.is_some(),
        Opt::Restart => st.restart,
        Opt::Local => st.local,
        Opt::Help | Opt::Version => false,
    };
    if set {
        let e = cli_error(ErrorKind::Repeated(o), "");
        assert(e.token@ =~= Seq::<char>::empty());
        return Err(e);
    }
    match o {
        Opt::Pipeline => {
            st.pipeline = Some(String::from_str(v));
        },
        Opt::WaitSeconds => {
            match parse_number(v, u64::MAX) {
                Some(n) => {
                    st.wait_seconds = Some(n);
                },
                None => {
                    return Err(cli_error(ErrorKind::InvalidValue(o), v));
                },
            }
        },
        Opt::MaxConcurrency => {
            match parse_number(v, usize::MAX as u64) {
                Some(n) => {
                    st.max_concurrency = Some(n as usize);
                },
                None => {
                    return Err(cli_error(ErrorKind::InvalidValue(o), v));
                },
            }
        },
        Opt::LogLevel => {
            st.log_level = Some(String::from_str(v));
        },
        Opt::Restart => {
            st.restart = true;
        },
        Opt::Local => {
            st.local = true;
        },
        Opt::Help => {
            return Err(cli_error(ErrorKind::DisplayHelp, HELP_TEXT));
        },
        Opt::Version => {
            return Err(cli_error(ErrorKind::DisplayVersion, VERSION_TEXT));
        },
    }
    Ok(())
}

fn starts_with_dash(a: &str) -> (r: bool)
    ensures
        r == (a@.len() > 0 && a@[0] == '-'),
{
    a.unicode_len() > 0 && a.get_char(0) == '-'
}

fn takes_value_exec(o: Opt) -> (r: bool)
    ensures
        r == takes_value(o),
{
    match o {
        Opt::Restart | Opt::Local | Opt::Help | Opt::Version => false,
        _ => true,
    }
}

/// Read option `o`, named by `t = args[i]`, with the value `inline` given
/// inside the argument (see `opt_step`); gives the index of the next
/// argument.
fn opt_step_exec(
    args: &[&str],
    i: usize,
    st: &mut ParseState,
    o: Opt,
    inline: Option<String>,
    t: &str,
) -> (r: Result<usize, CliError>)
    requires
        i < args.len(),
        t@ == args@[i as int]@,
    ensures
        match r {
            Ok(next) => i < next <= args@.len() && opt_step(args_view(args@), i as int, old(st).state(), o, opt_view(inline), t@)
                == Ok::<(CliState, int), (ErrorKind, Seq<char>)>((final(st).state(), next as int)),
            Err(e) => opt_step(args_view(args@), i as int, old(st).state(), o, opt_view(inline), t@)
                == Err::<(CliState, int), (ErrorKind, Seq<char>)>((e.kind, e.token@)),
        },
{
    let ghost av = args_view(args@);
    if takes_value_exec(o) {
        let (v, next) = match inline {
            Some(v) => (v, i + 1),
            None => {
                if i + 1 < args.len() && !starts_with_dash(args[i + 1]) {
                    assert(av[i + 1] == args@[i + 1]@);
                    (String::from_str(args[i + 1]), i + 2)
                } else {
                    let e = cli_error(ErrorKind::MissingValue(o), "");
                    proof {
                        reveal_strlit("");
                    }
                    assert(e.token@ =~= Seq::<char>::empty());
                    return Err(e);
                }
            },
        };
        match apply_exec(st, o, v.as_str()) {
            Ok(()) => Ok(next),
            Err(e) => Err(e),
        }
    } else {
        if inline.is_some() {
            return Err(cli_error(ErrorKind::UnexpectedArgument, t));
        }
        proof {
            reveal_strlit("");
        }
        match apply_exec(st, o, "") {
            Ok(()) => {
                assert(Seq::<char>::empty() =~= ""@);
                Ok(i + 1)
            },
            Err(e) => {
                assert(Seq::<char>::empty() =~= ""@);
                Err(e)
            },
        }
    }
}

/// Read the short options stacked in `t = args[i]` (see `short_stack`);
/// gives the index of the next argument.
fn short_stack_exec(args: &[&str], i: usize, t: &str, st: &mut ParseState) -> (r: Result<usize, CliError>)
    requires
        i < args.len(),
        t@ == args@[i as int]@,
    ensures
        match r {
            Ok(next) => i < next <= args@.len() && short_stack(args_view(args@), i as int, t@, 1, old(st).state())
                == Ok::<(CliState, int), (ErrorKind, Seq<char>)>((final(st).state(), next as int)),
            Err(e) => short_stack(args_view(args@), i as int, t@, 1, old(st).state())
                == Err::<(CliState, int), (ErrorKind, Seq<char>)>((e.kind, e.token@)),
        },
{
    let ghost av = args_view(args@);
    let ghost st0 = st.state();
    let n = t.unicode_len();
    let mut j: usize = 1;
    while j < n
        invariant
            n == t@.len(),
            1 <= j,
            i < args@.len(),
            t@ == args@[i as int]@,
            av == args_view(args@),
            st0 == old(st).state(),
            short_stack(av, i as int, t@, 1, st0) == short_stack(av, i as int, t@, j as int, st.state()),
        decreases n - j,
    {
        let c = t.get_char(j);
        match short_opt_of(c) {
            None => {
                assert(c == t@[j as int]);
                return Err(cli_error(ErrorKind::UnexpectedArgument, t));
            },
            Some(o) => {
                assert(c == t@[j as int]);
                if takes_value_exec(o) {
                    let inl = short_inline_exec(t, j + 1);
                    return opt_step_exec(args, i, st, o, inl, t);
                } else if j + 1 < n && t.get_char(j + 1) == '=' {
                    return Err(cli_error(ErrorKind::UnexpectedArgument, t));
                }
                proof {
                    reveal_strlit("");
                }
                match apply_exec(st, o, "") {
                    Ok(()) => {
                        assert(Seq::<char>::empty() =~= ""@);
                    },
                    Err(e) => {
                        assert(Seq::<char>::empty() =~= ""@);
                        return Err(e);
                    },
                }
                j = j + 1;
            },
        }
    }
    Ok(i + 1)
}

impl CLI {
    /// Read a command line (see `cli_of`); the first argument is the
    /// program name.
    pub fn try_parse_from(args: &[&str]) -> (r: Result<CLI, CliError>)
        ensures
            match r {
                Ok(c) => cli_of(args_view(args@)) == Ok::<
                    (Seq<char>, u64, usize, Seq<char>, bool, bool),
                    (ErrorKind, Seq<char>),
                >(cli_view(c)),
                Err(e) => cli_of(args_view(args@)) == Err::<
                    (Seq<char>, u64, usize, Seq<char>, bool, bool),
                    (ErrorKind, Seq<char>),
                >((e.kind, e.token@)),
            },
    {
        let ghost av = args_view(args@);
        let mut st = ParseState {
            pipeline: None,
            wait_seconds: None,
            max_concurrency: None,
            log_level: None,
            restart: false,
            local: false,
        };
        let mut i: usize = 1;
        while i < args.len()
            invariant
                av == args_view(args@),
                av.len() == args@.len(),
                1 <= i,
                parse_from(av, 1, empty_state()) == parse_from(av, i as int, st.state()),
            decreases args@.len() - i,
        {
            let t = args[i];
            assert(av[i as int] == t@);
            let n = t.unicode_len();
            let step = if n > 2 && t.get_char(0) == '-' && t.get_char(1) == '-' {
                match read_long_exec(t) {
                    None => {
                        return Err(cli_error(ErrorKind::UnexpectedArgument, t));
                    },
                    Some((o, inline)) => opt_step_exec(args, i, &mut st, o, inline, t),
                }
            } else if n >= 2 && t.get_char(0) == '-' && t.get_char(1) != '-' {
                short_stack_exec(args, i, t, &mut st)
            } else {
                return Err(cli_error(ErrorKind::UnexpectedArgument, t));
            };
            match step {
                Ok(next) => {
                    i = next;
                },
                Err(e) => {
                    return Err(e);
                },
            }
        }
        match st.pipeline {
            Some(p) => Ok(
                CLI {
                    pipeline: p,
                    wait_seconds: match st.wait_seconds {
                        Some(w) => w,
                        None => 5,
                    },
                    max_concurrency: match st.max_concurrency {
                        Some(m) => m,
                        None => 0,
                    },
                    log_level: match st.log_level {
                        Some(l) => l,
                        None => String::from_str("info"),
                    },
                    restart: st.restart,
                    local: st.local,
                },
            ),
            None => {
                let e = cli_error(ErrorKind::MissingPipeline, "");
                proof {
                    reveal_strlit("");
                }
                assert(e.token@ =~= Seq::<char>::empty());
                Err(e)
            },
        }
    }
}

/// The arguments as string slices.
fn as_strs(argv: &Vec<String>) -> (r: Vec<&str>)
    ensures
        args_view(r@) == argv@.map_values(|a: String| a@),
{
    let mut r: Vec<&str> = Vec::new();
    let mut i: usize = 0;
    while i < argv.len()
        invariant
            i <= argv@.len(),
            args_view(r@) == argv@.take(i as int).map_values(|a: String| a@),
        decreases argv@.len() - i,
    {
        let a = argv[i].as_str();
        assert(a@ == argv@[i as int]@);
        let ghost before = r@;
        r.push(a);
        assert(args_view(r@) =~= args_view(before).push(a@));
        assert(argv@.take(i + 1).map_values(|a: String| a@) =~= argv@.take(i as int).map_values(
            |a: String| a@,
        ).push(a@));
        assert(args_view(r@) =~= argv@.take(i + 1).map_values(|a: String| a@));
        i = i + 1;
    }
    assert(argv@.take(argv@.len() as int) =~= argv@);
    r
}

/// Read the command line (see `cli_of`); for a local run the poll time is
/// set to 0. A request for help or for the version comes back as an error
/// of kind `DisplayHelp` or `DisplayVersion`, whose token is the text to
/// print before ending successfully.
pub fn parse_args(argv: Vec<String>) -> (r: Result<CLI, CliError>)
    ensures
        match r {
            Ok(c) => {
                let read = cli_of(argv@.map_values(|a: String| a@));
                read matches Ok(v) && c.pipeline@ == v.0 && c.max_concurrency == v.2
                    && c.log_level@ == v.3 && c.restart == v.4 && c.local == v.5
                    && c.wait_seconds == (if v.5 {
                    0
                } else {
                    v.1
                })
            },
            Err(e) => cli_of(argv@.map_values(|a: String| a@)) == Err::<
                (Seq<char>, u64, usize, Seq<char>, bool, bool),
                (ErrorKind, Seq<char>),
            >((e.kind, e.token@)),
        },
{
    let strs = as_strs(&argv);
    let mut args = match CLI::try_parse_from(strs.as_slice()) {
        Ok(a) => a,
        Err(e) => {
            return Err(e);
        },
    };
    if args.local && args.wait_seconds > 0 {
        args.wait_seconds = 0;
    }
    Ok(args)
}

} // verus!
