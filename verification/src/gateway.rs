//! The gateway: which port it is on, where its files lie, and when it is started and stopped.
//!
//! The port on the command line comes before the one of the environment, which comes before the
//! configured one. A gateway that was started stays after the application ends.

use vstd::prelude::*;

use crate::i18n::{tr, trf, Locale, Strings, StringsView};
use crate::text::{
    begins_with, chars_of, join_path, joined, parse_unsigned, same, slice_text, trimmed, u64_text,
};

verus! {

/// The port of a gateway that nothing else is said of.
pub const DEFAULT_PORT: u16 = 3080;

/// How long a started gateway may take until it serves, in milliseconds.
pub const SPAWN_POLL_TIMEOUT_MS: u64 = 30000;

/// The time between two looks at a started gateway, in milliseconds.
pub const SPAWN_POLL_INTERVAL_MS: u64 = 50;

/// How long a gateway that was told to end may take.
pub const STOP_TIMEOUT_MS: u64 = 5000;

/// How often a gateway that was told to end is looked at.
pub const STOP_POLL_INTERVAL_MS: u64 = 50;

/// A port that is no port, with where it was given, or a `--port` without one.
#[derive(Debug, PartialEq, Eq)]
pub enum PortError {
    Invalid { value: String, source: String },
    MissingValue,
}

/// What a [`PortError`] stands for.
pub enum PortErrorView {
    Invalid { value: Seq<char>, source: Seq<char> },
    MissingValue,
}

impl View for PortError {
    type V = PortErrorView;

    open spec fn view(&self) -> PortErrorView {
        match *self {
            PortError::Invalid { value, source } => PortErrorView::Invalid {
                value: value@,
                source: source@,
            },
            PortError::MissingValue => PortErrorView::MissingValue,
        }
    }
}

/// The port on the command line, from argument `i` on: the first `--port` decides.
pub open spec fn port_argument(args: Seq<Seq<char>>, i: int) -> Result<Option<Seq<char>>, PortErrorView>
    decreases args.len() - i,
{
    if i < 0 || i >= args.len() {
        Ok(None)
    } else if args[i] == "--port"@ {
        if i + 1 < args.len() {
            Ok(Some(args[i + 1]))
        } else {
            Err(PortErrorView::MissingValue)
        }
    } else if "--port="@.is_prefix_of(args[i]) {
        Ok(Some(args[i].skip("--port="@.len() as int)))
    } else {
        port_argument(args, i + 1)
    }
}

/// The port on the command line, `--port <p>` or `--port=<p>`.
pub fn cli_port(args: &Vec<String>) -> (r: Result<Option<String>, PortError>)
    ensures
        match r {
            Ok(value) => port_argument(crate::text::views(args@), 0) == Ok::<_, PortErrorView>(
                crate::text::opt_view(value),
            ),
            Err(e) => port_argument(crate::text::views(args@), 0) == Err::<Option<Seq<char>>, _>(e@),
        },
{
    let ghost all = crate::text::views(args@);
    let mut i: usize = 0;
    while i < args.len()
        invariant
            i <= args.len(),
            all == crate::text::views(args@),
            port_argument(all, 0) == port_argument(all, i as int),
        decreases args.len() - i,
    {
        let arg = args[i].as_str();
        proof {
            assert(all[i as int] == arg@);
        }
        if same(arg, "--port") {
            if i < args.len() - 1 {
                proof {
                    assert(all[i + 1] == args@[i + 1]@);
                }
                return Ok(Some(args[i + 1].clone()));
            }
            return Err(PortError::MissingValue);
        }
        if begins_with(arg, "--port=") {
            let chars = chars_of(arg);
            let n = chars_of("--port=").len();
            let value = slice_text(&chars, n, chars.len());
            proof {
                assert(value@ =~= arg@.skip(n as int));
            }
            return Ok(Some(value));
        }
        i = i + 1;
    }
    Ok(None)
}

/// The port that a text stands for, with where it was given: a number from 1 to 65535.
pub open spec fn port_of(value: Seq<char>, source: Seq<char>) -> Result<u16, PortErrorView> {
    match crate::text::unsigned_value(value, 65535) {
        Some(n) => if n == 0 {
            Err(PortErrorView::Invalid { value, source })
        } else {
            Ok(n as u16)
        },
        None => Err(PortErrorView::Invalid { value, source }),
    }
}

/// The outcome of resolving a port, as what it stands for.
pub open spec fn port_outcome(r: Result<u16, PortError>) -> Result<u16, PortErrorView> {
    match r {
        Ok(port) => Ok(port),
        Err(e) => Err(e@),
    }
}

/// The port that a text stands for.
pub fn parse_port(value: &str, source: &str) -> (r: Result<u16, PortError>)
    ensures
        port_outcome(r) == port_of(value@, source@),
{
    match parse_unsigned(value, 65535) {
        Some(n) => {
            if n != 0 {
                return Ok(n as u16);
            }
        },
        None => {},
    }
    Err(PortError::Invalid { value: value.to_owned(), source: source.to_owned() })
}

/// The port of the gateway: the command line's, then the environment's, then the configured
/// one, then the default.
pub open spec fn resolved(
    args: Seq<Seq<char>>,
    env: Option<Seq<char>>,
    config: Option<u16>,
) -> Result<u16, PortErrorView> {
    match port_argument(args, 0) {
        Err(e) => Err(e),
        Ok(Some(value)) => port_of(value, "--port"@),
        Ok(None) => match env {
            Some(value) => port_of(value, "DSH_PORT"@),
            None => match config {
                Some(port) => if port == 0 {
                    Err(PortErrorView::Invalid { value: "0"@, source: "[gateway] port"@ })
                } else {
                    Ok(port)
                },
                None => Ok(DEFAULT_PORT),
            },
        },
    }
}

/// The port of the gateway. A value that is no port is an error that names where it stands.
pub fn resolve_port(args: &Vec<String>, env: Option<&str>, config: Option<u16>) -> (r: Result<
    u16,
    PortError,
>)
    ensures
        port_outcome(r) == resolved(
            crate::text::views(args@),
            crate::text::opt_view(env),
            config,
        ),
{
    match cli_port(args) {
        Err(e) => return Err(e),
        Ok(Some(value)) => return parse_port(value.as_str(), "--port"),
        Ok(None) => {},
    }
    match env {
        Some(value) => return parse_port(value, "DSH_PORT"),
        None => {},
    }
    match config {
        Some(port) => if port == 0 {
            Err(PortError::Invalid { value: "0".to_owned(), source: "[gateway] port".to_owned() })
        } else {
            Ok(port)
        },
        None => Ok(DEFAULT_PORT),
    }
}

/// What a port that is no port is answered with.
pub open spec fn port_error_text(strings: StringsView, locale: Locale, e: PortErrorView) -> Seq<char> {
    match e {
        PortErrorView::Invalid { value, source } => crate::i18n::text_with(
            strings,
            locale,
            "main.invalid_port"@,
            seq![value, source],
        ),
        PortErrorView::MissingValue => crate::i18n::text_of(
            strings,
            locale,
            "main.port_requires_value"@,
        ),
    }
}

impl PortError {
    /// What the user is told.
    pub fn message(&self, strings: &Strings, locale: Locale) -> (r: String)
        ensures
            r@ == port_error_text(strings@, locale, self@),
    {
        match self {
            PortError::Invalid { value, source } => {
                let args: [&str; 2] = [value.as_str(), source.as_str()];
                proof {
                    assert(crate::i18n::arg_texts(args@) =~= seq![value@, source@]);
                }
                trf(strings, locale, "main.invalid_port", &args)
            },
            PortError::MissingValue => tr(strings, locale, "main.port_requires_value").to_owned(),
        }
    }
}

/// The application's directory among the state files of the user: below `XDG_STATE_HOME`, else
/// below `.local/state` of the home directory.
pub open spec fn state_directory(xdg: Option<Seq<char>>, home: Option<Seq<char>>) -> Seq<char> {
    let base = if xdg matches Some(dir) && dir.len() > 0 {
        xdg->0
    } else {
        match home {
            Some(dir) => crate::text::path_join(dir, ".local/state"@),
            None => ".local/state"@,
        }
    };
    crate::text::path_join(base, "dsh-tui"@)
}

/// The application's directory among the state files of the user.
pub fn state_dir(xdg: Option<&str>, home: Option<&str>) -> (r: String)
    ensures
        r@ == state_directory(crate::text::opt_view(xdg), crate::text::opt_view(home)),
{
    match xdg {
        Some(dir) => {
            if !dir.is_empty() {
                return join_path(dir, "dsh-tui");
            }
        },
        None => {},
    }
    match home {
        Some(dir) => join_path(join_path(dir, ".local/state").as_str(), "dsh-tui"),
        None => join_path(".local/state", "dsh-tui"),
    }
}

/// Where the gateway's output goes.
pub fn gateway_log_path(xdg: Option<&str>, home: Option<&str>) -> (r: String)
    ensures
        r@ == crate::text::path_join(
            state_directory(crate::text::opt_view(xdg), crate::text::opt_view(home)),
            "gateway.log"@,
        ),
{
    join_path(state_dir(xdg, home).as_str(), "gateway.log")
}

/// Where the gateway's process number is kept.
pub fn gateway_pid_path(xdg: Option<&str>, home: Option<&str>) -> (r: String)
    ensures
        r@ == crate::text::path_join(
            state_directory(crate::text::opt_view(xdg), crate::text::opt_view(home)),
            "gateway.pid"@,
        ),
{
    join_path(state_dir(xdg, home).as_str(), "gateway.pid")
}

/// The program to start: the one that the environment names, else `dsh`.
pub fn gateway_bin(named: Option<&str>) -> (r: String)
    ensures
        r@ == (match named {
            Some(bin) => bin@,
            None => "dsh"@,
        }),
{
    match named {
        Some(bin) => bin.to_owned(),
        None => "dsh".to_owned(),
    }
}

/// The arguments that the gateway is started with.
pub fn gateway_args(port: u16) -> (r: Vec<String>)
    ensures
        crate::text::views(r@) == seq![
            "web"@,
            "--host"@,
            "127.0.0.1"@,
            "--port"@,
            crate::text::decimal(port as nat),
        ],
{
    let mut out: Vec<String> = Vec::new();
    out.push("web".to_owned());
    out.push("--host".to_owned());
    out.push("127.0.0.1".to_owned());
    out.push("--port".to_owned());
    out.push(u64_text(port as u64));
    proof {
        assert(crate::text::views(out@) =~= seq![
            "web"@,
            "--host"@,
            "127.0.0.1"@,
            "--port"@,
            crate::text::decimal(port as nat),
        ]);
    }
    out
}

/// What to do about a gateway that was started.
#[derive(Debug, Clone, Copy, PartialEq, Eq, Structural)]
pub enum SpawnStep {
    /// It serves.
    Ready,
    /// It ended before it served.
    Died,
    /// Look again later.
    Wait,
    /// It took too long.
    TimedOut,
}

/// What to do about a gateway that was started some time ago. A port that serves is a success
/// whoever serves it: of two that are started at once one ends, and attaches to the other.
pub fn spawn_step(elapsed_ms: u64, serving: bool, ended: bool) -> (r: SpawnStep)
    ensures
        r == (if elapsed_ms >= SPAWN_POLL_TIMEOUT_MS {
            SpawnStep::TimedOut
        } else if serving {
            SpawnStep::Ready
        } else if ended {
            SpawnStep::Died
        } else {
            SpawnStep::Wait
        }),
{
    if elapsed_ms >= SPAWN_POLL_TIMEOUT_MS {
        SpawnStep::TimedOut
    } else if serving {
        SpawnStep::Ready
    } else if ended {
        SpawnStep::Died
    } else {
        SpawnStep::Wait
    }
}

/// What to do about a gateway that was told to end.
#[derive(Debug, Clone, Copy, PartialEq, Eq, Structural)]
pub enum StopStep {
    /// Look again later.
    Wait,
    /// It has ended, or took too long.
    Done,
}

/// What to do about a gateway that was told to end some time ago: it is waited for while it runs,
/// but not for ever.
pub fn stop_step(elapsed_ms: u64, alive: bool) -> (r: StopStep)
    ensures
        r == (if alive && elapsed_ms < STOP_TIMEOUT_MS {
            StopStep::Wait
        } else {
            StopStep::Done
        }),
{
    if alive && elapsed_ms < STOP_TIMEOUT_MS {
        StopStep::Wait
    } else {
        StopStep::Done
    }
}

/// Why a gateway that ended did not serve.
pub fn died_message(bin: &str, status: &str, log: &str) -> (r: String)
    ensures
        r@ == "`"@ + bin@ + "` exited with "@ + status@ + " before serving — see "@ + log@,
{
    let mut out = joined("`", bin);
    out.append("` exited with ");
    out.append(status);
    out.append(" before serving — see ");
    out.append(log);
    out
}

/// Why a gateway that took too long did not serve.
pub fn timed_out_message(port: u16, log: &str) -> (r: String)
    ensures
        r@ == "gateway did not serve on 127.0.0.1:"@ + crate::text::decimal(port as nat)
            + " within 30s — see "@ + log@,
{
    let mut out = joined("gateway did not serve on 127.0.0.1:", u64_text(port as u64).as_str());
    out.append(" within 30s — see ");
    out.append(log);
    out
}

/// What to do at startup about the gateway.
#[derive(Debug, Clone, Copy, PartialEq, Eq, Structural)]
pub enum StartPlan {
    Attach,
    Spawn,
    Refuse,
}

/// What to do at startup about the gateway: attach where it serves, else start it unless the
/// configuration forbids that. A worker never starts it.
pub fn start_plan(serving: bool, auto_start: bool, worker: bool) -> (r: StartPlan)
    ensures
        r == (if serving {
            StartPlan::Attach
        } else if auto_start && !worker {
            StartPlan::Spawn
        } else {
            StartPlan::Refuse
        }),
{
    if serving {
        StartPlan::Attach
    } else if auto_start && !worker {
        StartPlan::Spawn
    } else {
        StartPlan::Refuse
    }
}

/// What the command line asks for.
#[derive(Debug, Clone, Copy, PartialEq, Eq, Structural)]
pub enum Route {
    ServerStop,
    Light,
    Interactive,
}

/// What the command line asks for: `server stop` first, then `--light` anywhere.
pub open spec fn route_of(args: Seq<Seq<char>>) -> Route {
    if args.len() >= 2 && args[0] == "server"@ && args[1] == "stop"@ {
        Route::ServerStop
    } else if args.contains("--light"@) {
        Route::Light
    } else {
        Route::Interactive
    }
}

/// What the command line asks for.
pub fn route(args: &Vec<String>) -> (r: Route)
    ensures
        r == route_of(crate::text::views(args@)),
{
    let ghost all = crate::text::views(args@);
    if args.len() >= 2 && same(args[0].as_str(), "server") && same(args[1].as_str(), "stop") {
        return Route::ServerStop;
    }
    proof {
        if args@.len() >= 2 {
            assert(all[0] == args@[0]@ && all[1] == args@[1]@);
        }
    }
    let mut i: usize = 0;
    while i < args.len()
        invariant
            i <= args.len(),
            all == crate::text::views(args@),
            !(all.len() >= 2 && all[0] == "server"@ && all[1] == "stop"@),
            forall|k: int| 0 <= k < i ==> (#[trigger] all[k]) != "--light"@,
        decreases args.len() - i,
    {
        proof {
            assert(all[i as int] == args@[i as int]@);
        }
        if same(args[i].as_str(), "--light") {
            return Route::Light;
        }
        i = i + 1;
    }
    Route::Interactive
}

/// How stopping the gateway ended.
#[derive(Debug, Clone, Copy, PartialEq, Eq, Structural)]
pub enum StopVerdict {
    Stopped,
    /// There was none.
    NoGateway,
    /// Something still serves: it is not this application's to stop.
    NotOurs,
}

/// How stopping the gateway ended: it is stopped only where nothing serves any more.
pub fn stop_verdict(serving: bool, had_pid: bool) -> (r: StopVerdict)
    ensures
        r == (if serving {
            StopVerdict::NotOurs
        } else if had_pid {
            StopVerdict::Stopped
        } else {
            StopVerdict::NoGateway
        }),
{
    if serving {
        StopVerdict::NotOurs
    } else if had_pid {
        StopVerdict::Stopped
    } else {
        StopVerdict::NoGateway
    }
}

impl StopVerdict {
    /// The exit code: 1 where something still serves.
    pub fn exit_code(self) -> (r: i32)
        ensures
            r == (if self == StopVerdict::NotOurs {
                1i32
            } else {
                0i32
            }),
    {
        if self == StopVerdict::NotOurs {
            1
        } else {
            0
        }
    }

    /// What the user is told.
    pub fn message(self, strings: &Strings, locale: Locale, port: u16) -> (r: String)
        ensures
            r@ == (match self {
                StopVerdict::NotOurs => crate::i18n::text_with(
                    strings@,
                    locale,
                    "gateway.not_ours"@,
                    seq![crate::text::decimal(port as nat)],
                ),
                StopVerdict::Stopped => crate::i18n::text_of(
                    strings@,
                    locale,
                    "gateway.stopped"@,
                ),
                StopVerdict::NoGateway => crate::i18n::text_of(strings@, locale, "gateway.none"@),
            }),
    {
        match self {
            StopVerdict::NotOurs => {
                let number = u64_text(port as u64);
                let args: [&str; 1] = [number.as_str()];
                proof {
                    assert(crate::i18n::arg_texts(args@) =~= seq![
                        crate::text::decimal(port as nat),
                    ]);
                }
                trf(strings, locale, "gateway.not_ours", &args)
            },
            StopVerdict::Stopped => tr(strings, locale, "gateway.stopped").to_owned(),
            StopVerdict::NoGateway => tr(strings, locale, "gateway.none").to_owned(),
        }
    }
}

/// The process number in a file: a whole number, white space around it ignored.
pub open spec fn pid_in(text: Seq<char>) -> Option<int> {
    let s = crate::text::trim(text);
    if s.len() > 0 && s[0] == '-' {
        let digits = s.drop_first();
        if digits.len() > 0 && crate::text::all_digits(digits) && crate::text::digits_value(digits)
            <= 2147483648 {
            Some(-(crate::text::digits_value(digits) as int))
        } else {
            None
        }
    } else {
        match crate::text::unsigned_value(s, 2147483647) {
            Some(n) => Some(n as int),
            None => None,
        }
    }
}

/// The process number in a file.
pub fn read_pid(text: &str) -> (r: Option<i32>)
    ensures
        match r {
            Some(pid) => pid_in(text@) == Some(pid as int),
            None => pid_in(text@) is None,
        },
{
    let s = trimmed(text);
    let chars = chars_of(s.as_str());
    if chars.len() > 0 && chars[0] == '-' {
        if chars.len() > 1 && chars[1] == '+' {
            proof {
                let digits = s@.drop_first();
                assert(digits[0] == '+');
                assert(!crate::text::all_digits(digits));
            }
            return None;
        }
        let rest = slice_text(&chars, 1, chars.len());
        proof {
            assert(rest@ =~= s@.drop_first());
        }
        match parse_unsigned(rest.as_str(), 2147483648) {
            Some(n) => Some((0 - (n as i64)) as i32),
            None => None,
        }
    } else {
        match parse_unsigned(s.as_str(), 2147483647) {
            Some(n) => Some(n as i32),
            None => None,
        }
    }
}

/// A port that was resolved is a port: never 0, wherever it comes from.
pub proof fn law_resolved_port(
    args: Seq<Seq<char>>,
    env: Option<Seq<char>>,
    config: Option<u16>,
)
    ensures
        resolved(args, env, config) matches Ok(port) ==> port != 0,
{
}

/// What comes first decides: with a port on the command line neither the environment nor the
/// configuration matters.
pub proof fn law_command_line_wins(
    args: Seq<Seq<char>>,
    env: Option<Seq<char>>,
    config: Option<u16>,
    other_env: Option<Seq<char>>,
    other_config: Option<u16>,
)
    requires
        port_argument(args, 0) != Ok::<Option<Seq<char>>, PortErrorView>(None),
    ensures
        resolved(args, env, config) == resolved(args, other_env, other_config),
{
}

} // verus!
