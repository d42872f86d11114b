//! # Command-line interface
//!
//! The command line has two modes:
//!
//! 1. **Server mode** (default): `-H/--host`, `-p/--port`, `-l/--log-level` and
//!    `-c/--config` configure the HTTP server.
//! 2. **Service mode**: a subcommand (`install-service`, `start-service`, ...)
//!    manages the systemd unit instead of starting the server.
//!
//! The grammar is parsed here, token by token, and `parse_tokens` states it:
//! options take their value either inline (`--host=x`, `-Hx`, `-H=x`) or from
//! the next token (which must not look like an option); every option may be
//! given at most once; `-h`/`--help` (and, at the top level, `-V`/`--version`)
//! stop parsing; the first positional token names the subcommand, after which
//! only that subcommand's options are accepted.

use vstd::prelude::*;

use crate::text::{
    all_digits, chars_after, chars_before, chars_of, decimal_value, index_of, index_of_from,
    is_digit, is_text, opt_text, string_of,
};

verus! {

/// Logging verbosity, from least (`Error`) to most (`Trace`) detailed.
#[derive(Debug, Clone, Copy, PartialEq, Eq, Structural)]
pub enum LogLevel {
    Error,
    Warn,
    Info,
    Debug,
    Trace,
}

/// The lowercase name of a level, as written on the command line and given to `tracing`.
pub open spec fn level_name(l: LogLevel) -> Seq<char> {
    match l {
        LogLevel::Error => "error"@,
        LogLevel::Warn => "warn"@,
        LogLevel::Info => "info"@,
        LogLevel::Debug => "debug"@,
        LogLevel::Trace => "trace"@,
    }
}

/// The level a command-line value names, if any (names are case-sensitive).
pub open spec fn level_named(s: Seq<char>) -> Option<LogLevel> {
    if s == "error"@ {
        Some(LogLevel::Error)
    } else if s == "warn"@ {
        Some(LogLevel::Warn)
    } else if s == "info"@ {
        Some(LogLevel::Info)
    } else if s == "debug"@ {
        Some(LogLevel::Debug)
    } else if s == "trace"@ {
        Some(LogLevel::Trace)
    } else {
        None
    }
}

impl LogLevel {
    /// The level's lowercase name (`"error"`, `"warn"`, `"info"`, `"debug"`, `"trace"`).
    pub fn to_string(&self) -> (s: String)
        ensures
            s@ == level_name(*self),
    {
        match self {
            LogLevel::Error => String::from_str("error"),
            LogLevel::Warn => String::from_str("warn"),
            LogLevel::Info => String::from_str("info"),
            LogLevel::Debug => String::from_str("debug"),
            LogLevel::Trace => String::from_str("trace"),
        }
    }
}

impl Default for LogLevel {
    fn default() -> (l: Self)
        ensures
            l == LogLevel::Info,
    {
        LogLevel::Info
    }
}

fn level_of(v: &Vec<char>) -> (r: Option<LogLevel>)
    ensures
        r == level_named(v@),
{
    if is_text(v, "error") {
        Some(LogLevel::Error)
    } else if is_text(v, "warn") {
        Some(LogLevel::Warn)
    } else if is_text(v, "info") {
        Some(LogLevel::Info)
    } else if is_text(v, "debug") {
        Some(LogLevel::Debug)
    } else if is_text(v, "trace") {
        Some(LogLevel::Trace)
    } else {
        None
    }
}

/// The digits of a port value, after an optional leading sign.
pub open spec fn unsigned_part(s: Seq<char>) -> Seq<char> {
    if s.len() > 0 && (s[0] == '+' || s[0] == '-') {
        s.drop_first()
    } else {
        s
    }
}

/// A port value: a whole number from 0 to 65535 in decimal, with an optional
/// sign (`+80`, and `-0` for zero).
pub open spec fn port_value(s: Seq<char>) -> Option<u16> {
    let d = unsigned_part(s);
    let negative = s.len() > 0 && s[0] == '-';
    if d.len() > 0 && all_digits(d) && decimal_value(d) <= 65535 && (!negative || decimal_value(d) == 0) {
        Some(decimal_value(d) as u16)
    } else {
        None
    }
}

fn port_of(v: &Vec<char>) -> (r: Option<u16>)
    ensures
        r == port_value(v@),
{
    let negative = v.len() > 0 && v[0] == '-';
    let start: usize = if v.len() > 0 && (v[0] == '+' || v[0] == '-') { 1 } else { 0 };
    let ghost d = unsigned_part(v@);
    assert(d == v@.skip(start as int));
    if start == v.len() {
        return None;
    }
    let mut acc: u32 = 0;
    let mut i: usize = start;
    while i < v.len()
        invariant
            start <= i <= v@.len(),
            d == unsigned_part(v@),
            d == v@.skip(start as int),
            all_digits(v@.subrange(start as int, i as int)),
            acc as int == if decimal_value(v@.subrange(start as int, i as int)) < 65536 {
                decimal_value(v@.subrange(start as int, i as int))
            } else {
                65536
            },
        decreases v@.len() - i,
    {
        let c = v[i];
        if !('0' <= c && c <= '9') {
            assert(d[i - start] == c);
            assert(!is_digit(d[i - start]));
            return None;
        }
        let dv: u32 = (c as u32) - ('0' as u32);
        let ghost prefix = v@.subrange(start as int, i as int);
        let ghost next = v@.subrange(start as int, i + 1);
        assert(next.drop_last() == prefix);
        assert(next.last() == c);
        acc = if acc * 10 + dv > 65535 { 65536 } else { acc * 10 + dv };
        assert(all_digits(next)) by {
            assert forall|k: int| 0 <= k < next.len() implies is_digit(#[trigger] next[k]) by {
                if k < prefix.len() {
                    assert(next[k] == prefix[k]);
                }
            }
        }
        i = i + 1;
    }
    assert(v@.subrange(start as int, v@.len() as int) == d);
    if acc > 65535 {
        None
    } else if negative && acc != 0 {
        None
    } else {
        Some(acc as u16)
    }
}

/// The parsing contexts: the top level and the option sets of the subcommands.
#[derive(Clone, Copy, PartialEq, Eq, Structural)]
pub enum Context {
    Top,
    Start,
    Install,
    UserOnly,
    Status,
}

/// The subcommands.
#[derive(Clone, Copy, PartialEq, Eq, Structural)]
pub enum Subcommand {
    Start,
    InstallService,
    UninstallService,
    StartService,
    StopService,
    RestartService,
    StatusService,
}

/// The option set of a subcommand.
pub open spec fn context_of(sub: Subcommand) -> Context {
    match sub {
        Subcommand::Start => Context::Start,
        Subcommand::InstallService => Context::Install,
        Subcommand::StatusService => Context::Status,
        _ => Context::UserOnly,
    }
}

/// The subcommand a positional token names, if any.
pub open spec fn subcommand_named(s: Seq<char>) -> Option<Subcommand> {
    if s == "start"@ {
        Some(Subcommand::Start)
    } else if s == "install-service"@ {
        Some(Subcommand::InstallService)
    } else if s == "uninstall-service"@ {
        Some(Subcommand::UninstallService)
    } else if s == "start-service"@ {
        Some(Subcommand::StartService)
    } else if s == "stop-service"@ {
        Some(Subcommand::StopService)
    } else if s == "restart-service"@ {
        Some(Subcommand::RestartService)
    } else if s == "status-service"@ {
        Some(Subcommand::StatusService)
    } else {
        None
    }
}

/// Long options: the slot an option fills and whether it takes a value.
///
/// Slots at the top level: 0 host, 1 port, 2 log level, 3 config.
/// `start`: 0 host, 1 port. `install-service`: 0 user, 1 binary, 2 config.
/// The other service subcommands: 0 user.
pub open spec fn long_option(ctx: Context, name: Seq<char>) -> Option<(int, bool)> {
    match ctx {
        Context::Top => if name == "host"@ {
            Some((0, true))
        } else if name == "port"@ {
            Some((1, true))
        } else if name == "log-level"@ {
            Some((2, true))
        } else if name == "config"@ {
            Some((3, true))
        } else {
            None
        },
        Context::Start => if name == "host"@ {
            Some((0, true))
        } else if name == "port"@ {
            Some((1, true))
        } else {
            None
        },
        Context::Install => if name == "user"@ {
            Some((0, false))
        } else if name == "binary"@ {
            Some((1, true))
        } else if name == "config"@ {
            Some((2, true))
        } else {
            None
        },
        Context::UserOnly => if name == "user"@ {
            Some((0, false))
        } else {
            None
        },
        Context::Status => None,
    }
}

/// Short options (all of which take a value): the slot they fill.
pub open spec fn short_option(ctx: Context, c: char) -> Option<int> {
    match ctx {
        Context::Top => if c == 'H' {
            Some(0)
        } else if c == 'p' {
            Some(1)
        } else if c == 'l' {
            Some(2)
        } else if c == 'c' {
            Some(3)
        } else {
            None
        },
        Context::Start => if c == 'H' {
            Some(0)
        } else if c == 'p' {
            Some(1)
        } else {
            None
        },
        _ => None,
    }
}

/// Whether a value is acceptable for a slot: ports must be port numbers and
/// log levels must name a level; other values are free text.
pub open spec fn value_fits(ctx: Context, slot: int, v: Seq<char>) -> bool {
    match ctx {
        Context::Top => if slot == 1 {
            port_value(v) is Some
        } else if slot == 2 {
            level_named(v) is Some
        } else {
            true
        },
        Context::Start => if slot == 1 {
            port_value(v) is Some
        } else {
            true
        },
        _ => true,
    }
}

/// Why a command line was refused.
#[derive(Debug, Clone, Copy, PartialEq, Eq, Structural)]
pub enum ParseError {
    /// `-h`, `--help` or the `help` subcommand: print help instead.
    DisplayHelp,
    /// `-V` or `--version`: print the version instead.
    DisplayVersion,
    /// An option, subcommand or argument that this context does not know.
    UnknownArgument,
    /// An option that takes a value was given none.
    MissingValue,
    /// A value that the option does not accept (a port or a log level).
    InvalidValue,
    /// An option given twice.
    ArgumentRepeated,
    /// A value given to an option that takes none.
    UnexpectedValue,
}

/// What one token (with its possible value token) does.
pub enum Step {
    Fail(ParseError),
    /// Consume `n` tokens and fill `slot` with `value`.
    Take(int, int, Seq<char>),
    /// `--` with nothing after it: stop.
    Finish,
    /// A positional token.
    Positional,
}

/// `--`: the end of the options.
pub open spec fn is_terminator(t: Seq<char>) -> bool {
    t == seq!['-', '-']
}

/// `--name` or `--name=value`.
pub open spec fn is_long(t: Seq<char>) -> bool {
    t.len() > 2 && t[0] == '-' && t[1] == '-'
}

/// `-x`, `-xvalue` or `-x=value`.
pub open spec fn is_short(t: Seq<char>) -> bool {
    t.len() >= 2 && t[0] == '-' && t[1] != '-'
}

/// A token that can stand as an option's value: it does not start with `-`, or it is `-` itself.
pub open spec fn can_be_value(t: Seq<char>) -> bool {
    t.len() <= 1 || t[0] != '-'
}

/// The name part of a long option.
pub open spec fn long_name(t: Seq<char>) -> Seq<char> {
    let body = t.skip(2);
    body.take(index_of_from(body, '=', 0))
}

/// The inline value of a long option (after the first `=`), if any.
pub open spec fn long_inline(t: Seq<char>) -> Option<Seq<char>> {
    let body = t.skip(2);
    let k = index_of_from(body, '=', 0);
    if k < body.len() {
        Some(body.skip(k + 1))
    } else {
        None
    }
}

/// The inline value of a short option, if any (a leading `=` is dropped).
pub open spec fn short_inline(t: Seq<char>) -> Option<Seq<char>> {
    let rest = t.skip(2);
    if rest.len() == 0 {
        None
    } else if rest[0] == '=' {
        Some(rest.drop_first())
    } else {
        Some(rest)
    }
}

/// Fill `slot` from an inline value, or else from the next token.
pub open spec fn value_step(ctx: Context, slot: int, inline: Option<Seq<char>>, toks: Seq<Seq<char>>) -> Step {
    match inline {
        Some(v) => if value_fits(ctx, slot, v) {
            Step::Take(1, slot, v)
        } else {
            Step::Fail(ParseError::InvalidValue)
        },
        None => if toks.len() >= 2 && can_be_value(toks[1]) {
            if value_fits(ctx, slot, toks[1]) {
                Step::Take(2, slot, toks[1])
            } else {
                Step::Fail(ParseError::InvalidValue)
            }
        } else {
            Step::Fail(ParseError::MissingValue)
        },
    }
}

/// The effect of the first token of `toks` (which must not be empty).
pub open spec fn step(ctx: Context, toks: Seq<Seq<char>>, slots: Seq<Option<Seq<char>>>) -> Step {
    let t = toks[0];
    if is_terminator(t) {
        if toks.len() == 1 {
            Step::Finish
        } else {
            Step::Fail(ParseError::UnknownArgument)
        }
    } else if is_long(t) {
        let name = long_name(t);
        if name == "help"@ {
            Step::Fail(ParseError::DisplayHelp)
        } else if ctx == Context::Top && name == "version"@ {
            Step::Fail(ParseError::DisplayVersion)
        } else {
            match long_option(ctx, name) {
                None => Step::Fail(ParseError::UnknownArgument),
                Some((slot, takes_value)) => if slots[slot] is Some {
                    Step::Fail(ParseError::ArgumentRepeated)
                } else if !takes_value {
                    if long_inline(t) is Some {
                        Step::Fail(ParseError::UnexpectedValue)
                    } else {
                        Step::Take(1, slot, seq![])
                    }
                } else {
                    value_step(ctx, slot, long_inline(t), toks)
                },
            }
        }
    } else if is_short(t) {
        let c = t[1];
        if c == 'h' {
            Step::Fail(ParseError::DisplayHelp)
        } else if ctx == Context::Top && c == 'V' {
            Step::Fail(ParseError::DisplayVersion)
        } else {
            match short_option(ctx, c) {
                None => Step::Fail(ParseError::UnknownArgument),
                Some(slot) => if slots[slot] is Some {
                    Step::Fail(ParseError::ArgumentRepeated)
                } else {
                    value_step(ctx, slot, short_inline(t), toks)
                },
            }
        }
    } else {
        Step::Positional
    }
}

/// The outcome of reading the options of one context.
pub enum Scan {
    Failed(ParseError),
    /// All tokens were options; the filled slots.
    Ended(Seq<Option<Seq<char>>>),
    /// The filled slots, and the tokens from the first positional one on.
    AtPositional(Seq<Option<Seq<char>>>, Seq<Seq<char>>),
}

/// Read options of `ctx` from `toks`, filling `slots`, up to the first positional token.
pub open spec fn scan(ctx: Context, toks: Seq<Seq<char>>, slots: Seq<Option<Seq<char>>>) -> Scan
    decreases toks.len(),
{
    if toks.len() == 0 {
        Scan::Ended(slots)
    } else {
        match step(ctx, toks, slots) {
            Step::Fail(e) => Scan::Failed(e),
            Step::Finish => Scan::Ended(slots),
            Step::Positional => Scan::AtPositional(slots, toks),
            Step::Take(n, slot, v) => if 1 <= n <= toks.len() {
                scan(ctx, toks.skip(n), slots.update(slot, Some(v)))
            } else {
                Scan::Ended(slots)
            },
        }
    }
}

/// Four empty slots.
pub open spec fn no_slots() -> Seq<Option<Seq<char>>> {
    seq![None, None, None, None]
}

/// Abstract command line.
pub struct CliView {
    pub command: Option<CommandView>,
    pub host: Seq<char>,
    pub port: u16,
    pub log_level: LogLevel,
    pub config: Option<Seq<char>>,
}

/// Abstract subcommand.
pub enum CommandView {
    Start { host: Option<Seq<char>>, port: Option<u16> },
    InstallService { user: bool, binary: Option<Seq<char>>, config: Seq<char> },
    UninstallService { user: bool },
    StartService { user: bool },
    StopService { user: bool },
    RestartService { user: bool },
    StatusService,
}

/// Default bind address.
pub open spec fn default_host_text() -> Seq<char> {
    "0.0.0.0"@
}

/// Default listen port.
pub open spec fn default_port_number() -> u16 {
    47890
}

/// Config file path baked into a unit file when none is given.
pub open spec fn default_unit_config_text() -> Seq<char> {
    "/etc/lm-sensors-web/config.json"@
}

/// The port in a slot (after validation), if the slot is filled.
pub open spec fn slot_port(o: Option<Seq<char>>) -> Option<u16> {
    match o {
        Some(v) => port_value(v),
        None => None,
    }
}

/// The subcommand's options, from its filled slots.
pub open spec fn build_command(sub: Subcommand, s: Seq<Option<Seq<char>>>) -> CommandView {
    match sub {
        Subcommand::Start => CommandView::Start { host: s[0], port: slot_port(s[1]) },
        Subcommand::InstallService => CommandView::InstallService {
            user: s[0] is Some,
            binary: s[1],
            config: match s[2] {
                Some(v) => v,
                None => default_unit_config_text(),
            },
        },
        Subcommand::UninstallService => CommandView::UninstallService { user: s[0] is Some },
        Subcommand::StartService => CommandView::StartService { user: s[0] is Some },
        Subcommand::StopService => CommandView::StopService { user: s[0] is Some },
        Subcommand::RestartService => CommandView::RestartService { user: s[0] is Some },
        Subcommand::StatusService => CommandView::StatusService,
    }
}

/// The command line, from the top-level slots; absent options take their defaults.
pub open spec fn build_cli(s: Seq<Option<Seq<char>>>, command: Option<CommandView>) -> CliView {
    CliView {
        command,
        host: match s[0] {
            Some(v) => v,
            None => default_host_text(),
        },
        port: match slot_port(s[1]) {
            Some(p) => p,
            None => default_port_number(),
        },
        log_level: match s[2] {
            Some(v) => match level_named(v) {
                Some(l) => l,
                None => LogLevel::Info,
            },
            None => LogLevel::Info,
        },
        config: s[3],
    }
}

/// The command-line grammar: the meaning of the tokens after the program name.
pub open spec fn parse_tokens(toks: Seq<Seq<char>>) -> Result<CliView, ParseError> {
    match scan(Context::Top, toks, no_slots()) {
        Scan::Failed(e) => Err(e),
        Scan::Ended(s) => Ok(build_cli(s, None)),
        Scan::AtPositional(s, rest) => {
            let name = rest[0];
            if name == "help"@ {
                Err(ParseError::DisplayHelp)
            } else {
                match subcommand_named(name) {
                    None => Err(ParseError::UnknownArgument),
                    Some(sub) => match scan(context_of(sub), rest.drop_first(), no_slots()) {
                        Scan::Failed(e) => Err(e),
                        Scan::Ended(s2) => Ok(build_cli(s, Some(build_command(sub, s2)))),
                        Scan::AtPositional(_, _) => Err(ParseError::UnknownArgument),
                    },
                }
            }
        },
    }
}

/// The tokens after the program name.
pub open spec fn after_program(args: Seq<Seq<char>>) -> Seq<Seq<char>> {
    if args.len() == 0 {
        args
    } else {
        args.drop_first()
    }
}

/// The meaning of a whole argument vector (program name first).
pub open spec fn parse_command_line(args: Seq<Seq<char>>) -> Result<CliView, ParseError> {
    parse_tokens(after_program(args))
}

/// Service-management subcommands. `None` in [`Cli::command`] starts the server.
#[derive(Debug, Clone, PartialEq, Eq)]
pub enum Command {
    /// Explicit start (same as no subcommand).
    Start { host: Option<String>, port: Option<u16> },
    /// Write a systemd unit file and run `daemon-reload`.
    InstallService { user: bool, binary: Option<String>, config: String },
    /// Stop, disable, and remove the systemd unit file.
    UninstallService { user: bool },
    /// `systemctl start`.
    StartService { user: bool },
    /// `systemctl stop`.
    StopService { user: bool },
    /// `systemctl restart`.
    RestartService { user: bool },
    /// `systemctl status`.
    StatusService,
}

/// The parsed command line.
#[derive(Debug, Clone, PartialEq, Eq)]
pub struct Cli {
    /// Subcommand (service management). `None` = start the server.
    pub command: Option<Command>,
    /// Bind address (default `0.0.0.0`).
    pub host: String,
    /// Listen port (default 47890).
    pub port: u16,
    /// Logging verbosity (default `info`).
    pub log_level: LogLevel,
    /// Path to a JSON config file.
    pub config: Option<String>,
}

impl View for Command {
    type V = CommandView;

    open spec fn view(&self) -> CommandView {
        match self {
            Command::Start { host, port } => CommandView::Start { host: opt_text(*host), port: *port },
            Command::InstallService { user, binary, config } => CommandView::InstallService {
                user: *user,
                binary: opt_text(*binary),
                config: config@,
            },
            Command::UninstallService { user } => CommandView::UninstallService { user: *user },
            Command::StartService { user } => CommandView::StartService { user: *user },
            Command::StopService { user } => CommandView::StopService { user: *user },
            Command::RestartService { user } => CommandView::RestartService { user: *user },
            Command::StatusService => CommandView::StatusService,
        }
    }
}

impl View for Cli {
    type V = CliView;

    open spec fn view(&self) -> CliView {
        CliView {
            command: match self.command {
                Some(c) => Some(c@),
                None => None,
            },
            host: self.host@,
            port: self.port,
            log_level: self.log_level,
            config: opt_text(self.config),
        }
    }
}

/// The meaning of a parse result.
pub open spec fn outcome(r: Result<Cli, ParseError>) -> Result<CliView, ParseError> {
    match r {
        Ok(c) => Ok(c@),
        Err(e) => Err(e),
    }
}

// ── Executable parser ─────────────────────────────────────────────

pub open spec fn vec_texts(v: Seq<Vec<char>>) -> Seq<Seq<char>> {
    v.map_values(|t: Vec<char>| t@)
}

pub open spec fn slot_texts(v: Seq<Option<Vec<char>>>) -> Seq<Option<Seq<char>>> {
    v.map_values(
        |o: Option<Vec<char>>|
            match o {
                Some(t) => Some(t@),
                None => None,
            },
    )
}

enum StepResult {
    Fail(ParseError),
    Take(usize, usize, Vec<char>),
    Finish,
    Positional,
}

impl StepResult {
    spec fn meaning(self) -> Step {
        match self {
            StepResult::Fail(e) => Step::Fail(e),
            StepResult::Take(n, slot, v) => Step::Take(n as int, slot as int, v@),
            StepResult::Finish => Step::Finish,
            StepResult::Positional => Step::Positional,
        }
    }
}

fn long_option_of(ctx: Context, name: &Vec<char>) -> (r: Option<(usize, bool)>)
    ensures
        match r {
            Some((slot, takes)) => long_option(ctx, name@) == Some((slot as int, takes)),
            None => long_option(ctx, name@) is None,
        },
{
    match ctx {
        Context::Top => if is_text(name, "host") {
            Some((0, true))
        } else if is_text(name, "port") {
            Some((1, true))
        } else if is_text(name, "log-level") {
            Some((2, true))
        } else if is_text(name, "config") {
            Some((3, true))
        } else {
            None
        },
        Context::Start => if is_text(name, "host") {
            Some((0, true))
        } else if is_text(name, "port") {
            Some((1, true))
        } else {
            None
        },
        Context::Install => if is_text(name, "user") {
            Some((0, false))
        } else if is_text(name, "binary") {
            Some((1, true))
        } else if is_text(name, "config") {
            Some((2, true))
        } else {
            None
        },
        Context::UserOnly => if is_text(name, "user") {
            Some((0, false))
        } else {
            None
        },
        Context::Status => None,
    }
}

fn short_option_of(ctx: Context, c: char) -> (r: Option<usize>)
    ensures
        match r {
            Some(slot) => short_option(ctx, c) == Some(slot as int),
            None => short_option(ctx, c) is None,
        },
{
    match ctx {
        Context::Top => if c == 'H' {
            Some(0)
        } else if c == 'p' {
            Some(1)
        } else if c == 'l' {
            Some(2)
        } else if c == 'c' {
            Some(3)
        } else {
            None
        },
        Context::Start => if c == 'H' {
            Some(0)
        } else if c == 'p' {
            Some(1)
        } else {
            None
        },
        _ => None,
    }
}

fn fits(ctx: Context, slot: usize, v: &Vec<char>) -> (r: bool)
    ensures
        r == value_fits(ctx, slot as int, v@),
{
    match ctx {
        Context::Top => if slot == 1 {
            port_of(v).is_some()
        } else if slot == 2 {
            level_of(v).is_some()
        } else {
            true
        },
        Context::Start => if slot == 1 {
            port_of(v).is_some()
        } else {
            true
        },
        _ => true,
    }
}

fn copy_chars(v: &Vec<char>) -> (r: Vec<char>)
    ensures
        r@ == v@,
{
    let r = chars_after(v, 0);
    assert(v@.skip(0) == v@);
    r
}

fn value_step_of(
    ctx: Context,
    slot: usize,
    inline: Option<Vec<char>>,
    toks: &Vec<Vec<char>>,
    pos: usize,
) -> (r: StepResult)
    requires
        pos < toks.len(),
    ensures
        r.meaning() == value_step(
            ctx,
            slot as int,
            match inline {
                Some(v) => Some(v@),
                None => None,
            },
            vec_texts(toks@).skip(pos as int),
        ),
{
    let ghost rest = vec_texts(toks@).skip(pos as int);
    match inline {
        Some(v) => if fits(ctx, slot, &v) {
            StepResult::Take(1, slot, v)
        } else {
            StepResult::Fail(ParseError::InvalidValue)
        },
        None => {
            if pos + 1 < toks.len() {
                let next = &toks[pos + 1];
                assert(rest[1] == next@);
                if next.len() <= 1 || next[0] != '-' {
                    if fits(ctx, slot, next) {
                        StepResult::Take(2, slot, copy_chars(next))
                    } else {
                        StepResult::Fail(ParseError::InvalidValue)
                    }
                } else {
                    StepResult::Fail(ParseError::MissingValue)
                }
            } else {
                StepResult::Fail(ParseError::MissingValue)
            }
        },
    }
}

fn step_of(ctx: Context, toks: &Vec<Vec<char>>, pos: usize, slots: &Vec<Option<Vec<char>>>) -> (r:
    StepResult)
    requires
        pos < toks.len(),
        slots@.len() == 4,
    ensures
        r.meaning() == step(ctx, vec_texts(toks@).skip(pos as int), slot_texts(slots@)),
        match r {
            StepResult::Take(n, slot, _) => 1 <= n <= toks@.len() - pos && slot < 4,
            _ => true,
        },
{
    let ghost rest = vec_texts(toks@).skip(pos as int);
    let t = &toks[pos];
    assert(rest[0] == t@);
    if t.len() == 2 && t[0] == '-' && t[1] == '-' {
        assert(t@ =~= seq!['-', '-']);
        if pos + 1 == toks.len() {
            StepResult::Finish
        } else {
            StepResult::Fail(ParseError::UnknownArgument)
        }
    } else if t.len() > 2 && t[0] == '-' && t[1] == '-' {
        assert(!is_terminator(t@));
        let body = chars_after(t, 2);
        let k = index_of(&body, '=');
        let name = chars_before(&body, k);
        let inline: Option<Vec<char>> = if k < body.len() {
            Some(chars_after(&body, k + 1))
        } else {
            None
        };
        assert(name@ == long_name(t@));
        if is_text(&name, "help") {
            StepResult::Fail(ParseError::DisplayHelp)
        } else if ctx == Context::Top && is_text(&name, "version") {
            StepResult::Fail(ParseError::DisplayVersion)
        } else {
            match long_option_of(ctx, &name) {
                None => StepResult::Fail(ParseError::UnknownArgument),
                Some((slot, takes_value)) => {
                    assert(slot < 4);
                    if slots[slot].is_some() {
                        StepResult::Fail(ParseError::ArgumentRepeated)
                    } else if !takes_value {
                        if inline.is_some() {
                            StepResult::Fail(ParseError::UnexpectedValue)
                        } else {
                            StepResult::Take(1, slot, Vec::new())
                        }
                    } else {
                        value_step_of(ctx, slot, inline, toks, pos)
                    }
                },
            }
        }
    } else if t.len() >= 2 && t[0] == '-' {
        assert(!is_terminator(t@));
        let c = t[1];
        if c == 'h' {
            StepResult::Fail(ParseError::DisplayHelp)
        } else if ctx == Context::Top && c == 'V' {
            StepResult::Fail(ParseError::DisplayVersion)
        } else {
            match short_option_of(ctx, c) {
                None => StepResult::Fail(ParseError::UnknownArgument),
                Some(slot) => {
                    assert(slot < 4);
                    if slots[slot].is_some() {
                        StepResult::Fail(ParseError::ArgumentRepeated)
                    } else {
                        let inline: Option<Vec<char>> = if t.len() == 2 {
                            None
                        } else if t[2] == '=' {
                            let v = chars_after(t, 3);
                            assert(v@ == t@.skip(2).drop_first());
                            Some(v)
                        } else {
                            Some(chars_after(t, 2))
                        };
                        value_step_of(ctx, slot, inline, toks, pos)
                    }
                },
            }
        }
    } else {
        assert(!is_terminator(t@));
        StepResult::Positional
    }
}

enum ScanResult {
    Failed(ParseError),
    Ended(Vec<Option<Vec<char>>>),
    AtPositional(Vec<Option<Vec<char>>>, usize),
}

fn empty_slots() -> (s: Vec<Option<Vec<char>>>)
    ensures
        slot_texts(s@) == no_slots(),
        s@.len() == 4,
{
    let mut s: Vec<Option<Vec<char>>> = Vec::new();
    s.push(None);
    s.push(None);
    s.push(None);
    s.push(None);
    assert(slot_texts(s@) =~= no_slots());
    s
}

fn scan_from(ctx: Context, toks: &Vec<Vec<char>>, start: usize) -> (r: ScanResult)
    requires
        start <= toks@.len(),
    ensures
        match (r, scan(ctx, vec_texts(toks@).skip(start as int), no_slots())) {
            (ScanResult::Failed(e1), Scan::Failed(e2)) => e1 == e2,
            (ScanResult::Ended(s1), Scan::Ended(s2)) => slot_texts(s1@) == s2 && s1@.len() == 4,
            (ScanResult::AtPositional(s1, at), Scan::AtPositional(s2, rest)) => {
                &&& slot_texts(s1@) == s2
                &&& s1@.len() == 4
                &&& start <= at < toks.len()
                &&& rest == vec_texts(toks@).skip(at as int)
            },
            _ => false,
        },
{
    let mut slots = empty_slots();
    let mut pos: usize = start;
    while pos < toks.len()
        invariant
            start <= pos <= toks@.len(),
            slots@.len() == 4,
            scan(ctx, vec_texts(toks@).skip(start as int), no_slots()) == scan(
                ctx,
                vec_texts(toks@).skip(pos as int),
                slot_texts(slots@),
            ),
        decreases toks@.len() - pos,
    {
        let ghost rest = vec_texts(toks@).skip(pos as int);
        let ghost before = slot_texts(slots@);
        match step_of(ctx, toks, pos, &slots) {
            StepResult::Fail(e) => {
                return ScanResult::Failed(e);
            },
            StepResult::Finish => {
                return ScanResult::Ended(slots);
            },
            StepResult::Positional => {
                return ScanResult::AtPositional(slots, pos);
            },
            StepResult::Take(n, slot, v) => {
                let ghost vt = v@;
                slots[slot] = Some(v);
                proof {
                    assert(slot_texts(slots@) =~= before.update(slot as int, Some(vt)));
                    assert(rest.skip(n as int) =~= vec_texts(toks@).skip(pos + n));
                }
                pos = pos + n;
            },
        }
    }
    assert(vec_texts(toks@).skip(pos as int).len() == 0);
    ScanResult::Ended(slots)
}

fn slot_string(o: &Option<Vec<char>>) -> (r: Option<String>)
    ensures
        opt_text(r) == match o {
            Some(v) => Some(v@),
            None => None,
        },
{
    match o {
        Some(v) => Some(string_of(v.as_slice())),
        None => None,
    }
}

fn slot_port_of(o: &Option<Vec<char>>) -> (r: Option<u16>)
    ensures
        r == slot_port(
            match o {
                Some(v) => Some(v@),
                None => None,
            },
        ),
{
    match o {
        Some(v) => port_of(v),
        None => None,
    }
}

fn build_command_of(sub: Subcommand, s: &Vec<Option<Vec<char>>>) -> (c: Command)
    requires
        s@.len() == 4,
    ensures
        c@ == build_command(sub, slot_texts(s@)),
{
    let ghost st = slot_texts(s@);
    assert(st[0] == match s@[0] {
        Some(v) => Some(v@),
        None => None::<Seq<char>>,
    });
    assert(st[1] == match s@[1] {
        Some(v) => Some(v@),
        None => None::<Seq<char>>,
    });
    assert(st[2] == match s@[2] {
        Some(v) => Some(v@),
        None => None::<Seq<char>>,
    });
    match sub {
        Subcommand::Start => Command::Start { host: slot_string(&s[0]), port: slot_port_of(&s[1]) },
        Subcommand::InstallService => {
            let config = match &s[2] {
                Some(v) => string_of(v.as_slice()),
                None => String::from_str("/etc/lm-sensors-web/config.json"),
            };
            Command::InstallService {
                user: s[0].is_some(),
                binary: slot_string(&s[1]),
                config,
            }
        },
        Subcommand::UninstallService => Command::UninstallService { user: s[0].is_some() },
        Subcommand::StartService => Command::StartService { user: s[0].is_some() },
        Subcommand::StopService => Command::StopService { user: s[0].is_some() },
        Subcommand::RestartService => Command::RestartService { user: s[0].is_some() },
        Subcommand::StatusService => Command::StatusService,
    }
}

fn build_cli_of(s: &Vec<Option<Vec<char>>>, command: Option<Command>) -> (c: Cli)
    requires
        s@.len() == 4,
    ensures
        c@ == build_cli(
            slot_texts(s@),
            match command {
                Some(x) => Some(x@),
                None => None,
            },
        ),
{
    let ghost st = slot_texts(s@);
    assert(st[0] == match s@[0] {
        Some(v) => Some(v@),
        None => None::<Seq<char>>,
    });
    assert(st[1] == match s@[1] {
        Some(v) => Some(v@),
        None => None::<Seq<char>>,
    });
    assert(st[2] == match s@[2] {
        Some(v) => Some(v@),
        None => None::<Seq<char>>,
    });
    assert(st[3] == match s@[3] {
        Some(v) => Some(v@),
        None => None::<Seq<char>>,
    });
    let host = match &s[0] {
        Some(v) => string_of(v.as_slice()),
        None => String::from_str("0.0.0.0"),
    };
    let port = match slot_port_of(&s[1]) {
        Some(p) => p,
        None => 47890,
    };
    let log_level = match &s[2] {
        Some(v) => match level_of(v) {
            Some(l) => l,
            None => LogLevel::Info,
        },
        None => LogLevel::Info,
    };
    Cli { command, host, port, log_level, config: slot_string(&s[3]) }
}

fn subcommand_of(v: &Vec<char>) -> (r: Option<Subcommand>)
    ensures
        r == subcommand_named(v@),
{
    if is_text(v, "start") {
        Some(Subcommand::Start)
    } else if is_text(v, "install-service") {
        Some(Subcommand::InstallService)
    } else if is_text(v, "uninstall-service") {
        Some(Subcommand::UninstallService)
    } else if is_text(v, "start-service") {
        Some(Subcommand::StartService)
    } else if is_text(v, "stop-service") {
        Some(Subcommand::StopService)
    } else if is_text(v, "restart-service") {
        Some(Subcommand::RestartService)
    } else if is_text(v, "status-service") {
        Some(Subcommand::StatusService)
    } else {
        None
    }
}

fn context_for(sub: Subcommand) -> (c: Context)
    ensures
        c == context_of(sub),
{
    match sub {
        Subcommand::Start => Context::Start,
        Subcommand::InstallService => Context::Install,
        Subcommand::StatusService => Context::Status,
        _ => Context::UserOnly,
    }
}

/// Parse the tokens that follow the program name.
pub fn parse_token_chars(toks: &Vec<Vec<char>>) -> (r: Result<Cli, ParseError>)
    ensures
        outcome(r) == parse_tokens(vec_texts(toks@)),
{
    assert(vec_texts(toks@).skip(0) == vec_texts(toks@));
    match scan_from(Context::Top, toks, 0) {
        ScanResult::Failed(e) => Err(e),
        ScanResult::Ended(s) => Ok(build_cli_of(&s, None)),
        ScanResult::AtPositional(s, at) => {
            let name = &toks[at];
            let ghost rest = vec_texts(toks@).skip(at as int);
            assert(rest[0] == name@);
            if is_text(name, "help") {
                Err(ParseError::DisplayHelp)
            } else {
                match subcommand_of(name) {
                    None => Err(ParseError::UnknownArgument),
                    Some(sub) => {
                        assert(rest.drop_first() =~= vec_texts(toks@).skip(at + 1));
                        match scan_from(context_for(sub), toks, at + 1) {
                            ScanResult::Failed(e) => Err(e),
                            ScanResult::Ended(s2) => {
                                let command = build_command_of(sub, &s2);
                                Ok(build_cli_of(&s, Some(command)))
                            },
                            ScanResult::AtPositional(_, _) => Err(ParseError::UnknownArgument),
                        }
                    },
                }
            }
        },
    }
}

impl Cli {
    /// Parse an argument vector whose first element is the program name.
    pub fn try_parse_args(args: &Vec<String>) -> (r: Result<Cli, ParseError>)
        ensures
            outcome(r) == parse_command_line(args@.map_values(|a: String| a@)),
    {
        let ghost all = args@.map_values(|a: String| a@);
        let mut toks: Vec<Vec<char>> = Vec::new();
        if args.len() > 0 {
            let mut i: usize = 1;
            while i < args.len()
                invariant
                    1 <= i <= args@.len(),
                    vec_texts(toks@) == args@.map_values(|a: String| a@).subrange(1, i as int),
                decreases args@.len() - i,
            {
                let ghost before = toks@;
                let t = chars_of(args[i].as_str());
                let ghost tv = t@;
                assert(tv == args@[i as int]@);
                toks.push(t);
                proof {
                    let lhs = vec_texts(toks@);
                    let rhs = args@.map_values(|a: String| a@).subrange(1, i + 1);
                    assert(vec_texts(before).len() == before.len());
                    assert(before.len() == i - 1);
                    assert(toks@.len() == i);
                    assert(rhs.len() == i);
                    assert(lhs.len() == rhs.len());
                    assert forall|k: int| 0 <= k < lhs.len() implies lhs[k] == rhs[k] by {
                        if k < before.len() {
                            assert(lhs[k] == vec_texts(before)[k]);
                        }
                    }
                    assert(lhs =~= rhs);
                }
                i = i + 1;
            }
        }
        assert(vec_texts(toks@) =~= after_program(all));
        parse_token_chars(&toks)
    }

    /// Parse an argument array whose first element is the program name.
    pub fn try_parse_from<const N: usize>(args: [&str; N]) -> (r: Result<Cli, ParseError>)
        ensures
            outcome(r) == parse_command_line(args@.map_values(|a: &str| a@)),
    {
        let ghost all = args@.map_values(|a: &str| a@);
        let mut toks: Vec<Vec<char>> = Vec::new();
        if N > 0 {
            let mut i: usize = 1;
            while i < N
                invariant
                    1 <= i <= N,
                    args@.len() == N,
                    vec_texts(toks@) == args@.map_values(|a: &str| a@).subrange(1, i as int),
                decreases N - i,
            {
                let ghost before = toks@;
                let t = chars_of(args[i]);
                let ghost tv = t@;
                assert(tv == args@[i as int]@);
                toks.push(t);
                proof {
                    let lhs = vec_texts(toks@);
                    let rhs = args@.map_values(|a: &str| a@).subrange(1, i + 1);
                    assert(vec_texts(before).len() == before.len());
                    assert(before.len() == i - 1);
                    assert(toks@.len() == i);
                    assert(rhs.len() == i);
                    assert(lhs.len() == rhs.len());
                    assert forall|k: int| 0 <= k < lhs.len() implies lhs[k] == rhs[k] by {
                        if k < before.len() {
                            assert(lhs[k] == vec_texts(before)[k]);
                        }
                    }
                    assert(lhs =~= rhs);
                }
                i = i + 1;
            }
        }
        assert(vec_texts(toks@) =~= after_program(all));
        parse_token_chars(&toks)
    }

    /// Parse an argument array that is known to be a valid command line.
    pub fn parse_from<const N: usize>(args: [&str; N]) -> (c: Cli)
        requires
            parse_command_line(args@.map_values(|a: &str| a@)) is Ok,
        ensures
            parse_command_line(args@.map_values(|a: &str| a@)) == Ok::<CliView, ParseError>(c@),
    {
        match Cli::try_parse_from(args) {
            Ok(c) => c,
            Err(_) => {
                proof {
                    assert(false);
                }
                Cli {
                    command: None,
                    host: String::new(),
                    port: 0,
                    log_level: LogLevel::Info,
                    config: None,
                }
            },
        }
    }
}


// ── Laws of the grammar ───────────────────────────────────────────

/// The command line with no options: the server starts with every default.
pub open spec fn default_cli() -> CliView {
    CliView {
        command: None,
        host: default_host_text(),
        port: default_port_number(),
        log_level: LogLevel::Info,
        config: None,
    }
}

/// With nothing after the program name, the server starts on `0.0.0.0:47890`
/// at level `info`, with no config file.
pub proof fn lemma_no_arguments(program: Seq<char>)
    ensures
        parse_command_line(seq![program]) == Ok::<CliView, ParseError>(default_cli()),
        parse_command_line(Seq::<Seq<char>>::empty()) == Ok::<CliView, ParseError>(default_cli()),
{
    assert(after_program(seq![program]) =~= Seq::<Seq<char>>::empty());
}

/// `-H <host>` sets the bind address and leaves everything else at its default.
pub proof fn lemma_host_option(host: Seq<char>)
    requires
        can_be_value(host),
    ensures
        parse_tokens(seq!["-H"@, host]) == Ok::<CliView, ParseError>(
            CliView { host, ..default_cli() },
        ),
{
    reveal_strlit("-H");
    reveal_with_fuel(scan, 2);
    let toks = seq!["-H"@, host];
    assert(toks[0] =~= seq!['-', 'H']);
    assert(toks[0].skip(2).len() == 0);
    assert(toks.skip(2) =~= Seq::<Seq<char>>::empty());
}

/// `-p <port>` sets the listen port to the number it spells.
pub proof fn lemma_port_option(text: Seq<char>, port: u16)
    requires
        can_be_value(text),
        port_value(text) == Some(port),
    ensures
        parse_tokens(seq!["-p"@, text]) == Ok::<CliView, ParseError>(
            CliView { port, ..default_cli() },
        ),
{
    reveal_strlit("-p");
    reveal_with_fuel(scan, 2);
    let toks = seq!["-p"@, text];
    assert(toks[0] =~= seq!['-', 'p']);
    assert(toks[0].skip(2).len() == 0);
    assert(toks.skip(2) =~= Seq::<Seq<char>>::empty());
}

/// Level names and levels correspond one to one.
pub proof fn lemma_level_names(l: LogLevel)
    ensures
        level_named(level_name(l)) == Some(l),
{
    reveal_strlit("error");
    reveal_strlit("warn");
    reveal_strlit("info");
    reveal_strlit("debug");
    reveal_strlit("trace");
    assert("error"@[0] != "warn"@[0] && "error"@[0] != "info"@[0]);
    assert("warn"@[0] != "info"@[0]);
    assert("debug"@[0] != "error"@[0]);
    assert("trace"@[0] != "error"@[0]);
    assert("trace"@[0] != "debug"@[0]);
    assert("debug"@ != "warn"@ && "debug"@ != "info"@);
    assert("trace"@ != "warn"@ && "trace"@ != "info"@);
}

/// `--log-level <name>` selects the level of that name, for every level; the
/// level's `to_string` gives the same name back.
pub proof fn lemma_log_level_option(l: LogLevel)
    ensures
        parse_tokens(seq!["--log-level"@, level_name(l)]) == Ok::<CliView, ParseError>(
            CliView { log_level: l, ..default_cli() },
        ),
{
    lemma_level_names(l);
    reveal_strlit("--log-level");
    reveal_strlit("log-level");
    reveal_strlit("help");
    reveal_strlit("version");
    reveal_strlit("host");
    reveal_strlit("port");
    reveal_strlit("error");
    reveal_strlit("warn");
    reveal_strlit("info");
    reveal_strlit("debug");
    reveal_strlit("trace");
    reveal_with_fuel(scan, 2);
    let toks = seq!["--log-level"@, level_name(l)];
    let body = toks[0].skip(2);
    assert(body =~= "log-level"@);
    reveal_with_fuel(index_of_from, 11);
    assert(index_of_from(body, '=', 0) == 9);
    assert(long_name(toks[0]) =~= "log-level"@);
    assert(toks.skip(2) =~= Seq::<Seq<char>>::empty());
}

/// A log level that names no level is refused.
pub proof fn lemma_unknown_log_level(value: Seq<char>)
    requires
        can_be_value(value),
        level_named(value) is None,
    ensures
        parse_tokens(seq!["--log-level"@, value]) == Err::<CliView, ParseError>(
            ParseError::InvalidValue,
        ),
{
    reveal_strlit("--log-level");
    reveal_strlit("log-level");
    reveal_strlit("help");
    reveal_strlit("version");
    reveal_strlit("host");
    reveal_strlit("port");
    let toks = seq!["--log-level"@, value];
    let body = toks[0].skip(2);
    assert(body =~= "log-level"@);
    reveal_with_fuel(index_of_from, 11);
    assert(index_of_from(body, '=', 0) == 9);
    assert(long_name(toks[0]) =~= "log-level"@);
}

/// `--help` refuses the command line (help is shown instead), whatever follows it.
pub proof fn lemma_help_first(rest: Seq<Seq<char>>)
    ensures
        parse_tokens(seq!["--help"@] + rest) == Err::<CliView, ParseError>(ParseError::DisplayHelp),
{
    reveal_strlit("--help");
    reveal_strlit("help");
    let toks = seq!["--help"@] + rest;
    assert(toks[0] == "--help"@);
    let body = toks[0].skip(2);
    assert(body =~= "help"@);
    reveal_with_fuel(index_of_from, 6);
    assert(index_of_from(body, '=', 0) == 4);
    assert(long_name(toks[0]) =~= "help"@);
}

/// The bind address may be given only once.
pub proof fn lemma_host_repeated(first: Seq<char>, second: Seq<char>)
    requires
        can_be_value(first),
        can_be_value(second),
    ensures
        parse_tokens(seq!["-H"@, first, "-H"@, second]) == Err::<CliView, ParseError>(
            ParseError::ArgumentRepeated,
        ),
{
    reveal_strlit("-H");
    reveal_with_fuel(scan, 2);
    let toks = seq!["-H"@, first, "-H"@, second];
    assert(toks[0] =~= seq!['-', 'H']);
    assert(toks[0].skip(2).len() == 0);
    let rest = toks.skip(2);
    assert(rest =~= seq!["-H"@, second]);
    assert(rest[0] =~= seq!['-', 'H']);
}

/// `start` with no options gives the explicit start subcommand and the top-level defaults.
pub proof fn lemma_start_subcommand()
    ensures
        parse_tokens(seq!["start"@]) == Ok::<CliView, ParseError>(
            CliView {
                command: Some(CommandView::Start { host: None, port: None }),
                ..default_cli()
            },
        ),
{
    reveal_strlit("start");
    reveal_strlit("help");
    let toks = seq!["start"@];
    assert(toks[0] =~= seq!['s', 't', 'a', 'r', 't']);
    assert(toks.drop_first() =~= Seq::<Seq<char>>::empty());
}

/// Different names never select the same subcommand.
pub proof fn lemma_subcommand_names_distinct(a: Seq<char>, b: Seq<char>)
    requires
        subcommand_named(a) is Some,
        subcommand_named(a) == subcommand_named(b),
    ensures
        a == b,
{
}

/// A subcommand name alone, or followed by `--user`, for a subcommand whose
/// only option is `--user`.
proof fn lemma_user_only_subcommand(program: Seq<char>, name: Seq<char>, sub: Subcommand)
    requires
        subcommand_named(name) == Some(sub),
        context_of(sub) == Context::UserOnly,
        name.len() > 2,
        name[0] != '-',
        name != "help"@,
    ensures
        parse_command_line(seq![program, name]) == Ok::<CliView, ParseError>(
            CliView { command: Some(build_command(sub, no_slots())), ..default_cli() },
        ),
        parse_command_line(seq![program, name, "--user"@]) == Ok::<CliView, ParseError>(
            CliView {
                command: Some(build_command(sub, no_slots().update(0, Some(Seq::<char>::empty())))),
                ..default_cli()
            },
        ),
{
    reveal_strlit("--user");
    reveal_strlit("user");
    reveal_strlit("help");
    let alone = seq![name];
    assert(after_program(seq![program, name]) =~= alone);
    assert(alone.drop_first() =~= Seq::<Seq<char>>::empty());
    assert(!is_terminator(name)) by {
        if is_terminator(name) {
            assert(name[0] == '-');
        }
    }
    assert(step(Context::Top, alone, no_slots()) == Step::Positional);
    assert(parse_tokens(alone) == Ok::<CliView, ParseError>(
        CliView { command: Some(build_command(sub, no_slots())), ..default_cli() },
    )) by {
        assert(build_cli(no_slots(), Some(build_command(sub, no_slots()))) == CliView {
            command: Some(build_command(sub, no_slots())),
            ..default_cli()
        });
    }
    let with_user = seq![name, "--user"@];
    assert(after_program(seq![program, name, "--user"@]) =~= with_user);
    assert(step(Context::Top, with_user, no_slots()) == Step::Positional);
    let rest = with_user.drop_first();
    assert(rest =~= seq!["--user"@]);
    let t = rest[0];
    assert(t =~= seq!['-', '-', 'u', 's', 'e', 'r']);
    let body = t.skip(2);
    assert(body =~= "user"@);
    reveal_with_fuel(index_of_from, 6);
    assert(index_of_from(body, '=', 0) == 4);
    assert(long_name(t) =~= "user"@);
    assert(long_inline(t) is None);
    assert(!is_terminator(t));
    assert(step(Context::UserOnly, rest, no_slots()) == Step::Take(1, 0, Seq::<char>::empty()));
    assert(rest.skip(1) =~= Seq::<Seq<char>>::empty());
    let filled = no_slots().update(0, Some(Seq::<char>::empty()));
    assert(scan(Context::UserOnly, rest, no_slots()) == Scan::Ended(filled)) by {
        reveal_with_fuel(scan, 2);
    }
}

/// Each service subcommand, given after the program name, selects its own
/// action: `start-service`, `stop-service`, `restart-service` and
/// `uninstall-service` the matching operation (user-level with `--user`,
/// system-wide without), `status-service` the status, `install-service` a
/// system-wide install with the default config path; the server options keep
/// their defaults.
pub proof fn lemma_service_subcommands(program: Seq<char>)
    ensures
        parse_command_line(seq![program, "start-service"@]) == Ok::<CliView, ParseError>(
            CliView { command: Some(CommandView::StartService { user: false }), ..default_cli() },
        ),
        parse_command_line(seq![program, "stop-service"@]) == Ok::<CliView, ParseError>(
            CliView { command: Some(CommandView::StopService { user: false }), ..default_cli() },
        ),
        parse_command_line(seq![program, "restart-service"@]) == Ok::<CliView, ParseError>(
            CliView { command: Some(CommandView::RestartService { user: false }), ..default_cli() },
        ),
        parse_command_line(seq![program, "uninstall-service"@]) == Ok::<CliView, ParseError>(
            CliView { command: Some(CommandView::UninstallService { user: false }), ..default_cli() },
        ),
        parse_command_line(seq![program, "start-service"@, "--user"@]) == Ok::<CliView, ParseError>(
            CliView { command: Some(CommandView::StartService { user: true }), ..default_cli() },
        ),
        parse_command_line(seq![program, "stop-service"@, "--user"@]) == Ok::<CliView, ParseError>(
            CliView { command: Some(CommandView::StopService { user: true }), ..default_cli() },
        ),
        parse_command_line(seq![program, "restart-service"@, "--user"@]) == Ok::<CliView, ParseError>(
            CliView { command: Some(CommandView::RestartService { user: true }), ..default_cli() },
        ),
        parse_command_line(seq![program, "uninstall-service"@, "--user"@]) == Ok::<CliView, ParseError>(
            CliView { command: Some(CommandView::UninstallService { user: true }), ..default_cli() },
        ),
        parse_command_line(seq![program, "status-service"@]) == Ok::<CliView, ParseError>(
            CliView { command: Some(CommandView::StatusService), ..default_cli() },
        ),
        parse_command_line(seq![program, "install-service"@]) == Ok::<CliView, ParseError>(
            CliView {
                command: Some(
                    CommandView::InstallService { user: false, binary: None, config: default_unit_config_text() },
                ),
                ..default_cli()
            },
        ),
{
    reveal_strlit("start");
    reveal_strlit("install-service");
    reveal_strlit("uninstall-service");
    reveal_strlit("start-service");
    reveal_strlit("stop-service");
    reveal_strlit("restart-service");
    reveal_strlit("status-service");
    reveal_strlit("help");
    assert("install-service"@[0] != "restart-service"@[0]);
    assert(subcommand_named("start-service"@) == Some(Subcommand::StartService));
    assert(subcommand_named("stop-service"@) == Some(Subcommand::StopService));
    assert(subcommand_named("restart-service"@) == Some(Subcommand::RestartService));
    assert(subcommand_named("uninstall-service"@) == Some(Subcommand::UninstallService));
    assert(subcommand_named("status-service"@) == Some(Subcommand::StatusService));
    lemma_user_only_subcommand(program, "start-service"@, Subcommand::StartService);
    lemma_user_only_subcommand(program, "stop-service"@, Subcommand::StopService);
    lemma_user_only_subcommand(program, "restart-service"@, Subcommand::RestartService);
    lemma_user_only_subcommand(program, "uninstall-service"@, Subcommand::UninstallService);
    let alone = seq!["status-service"@];
    assert(after_program(seq![program, "status-service"@]) =~= alone);
    assert(alone.drop_first() =~= Seq::<Seq<char>>::empty());
    assert(!is_terminator("status-service"@));
    assert(step(Context::Top, alone, no_slots()) == Step::Positional);
    let install = seq!["install-service"@];
    assert(after_program(seq![program, "install-service"@]) =~= install);
    assert(install.drop_first() =~= Seq::<Seq<char>>::empty());
    assert(!is_terminator("install-service"@));
    assert(step(Context::Top, install, no_slots()) == Step::Positional);
}

} // verus!
