//! Top-level configuration: the frontend selector, the command line, and the
//! runtime configuration assembled from it.

use vstd::prelude::*;
use crate::text::{
    eq_lit, find_ch, find_char, from_chars, lemma_find_from, slice_vec, starts_lit,
    starts_with, to_chars,
};

verus! {

/// Which frontend the launcher starts.
#[derive(Debug, Clone, Copy, PartialEq, Eq, Structural)]
pub enum Frontend {
    /// Terminal UI.
    Tui,
    /// Native GUI window.
    Gui,
    /// Browser UI over WebSocket.
    Webui,
}

impl Default for Frontend {
    fn default() -> (r: Self)
        ensures
            r == Frontend::Tui,
    {
        Frontend::Tui
    }
}

impl Frontend {
    /// The lowercase name used on the command line and in serialized form.
    pub open spec fn spec_name(self) -> Seq<char> {
        match self {
            Frontend::Tui => "tui"@,
            Frontend::Gui => "gui"@,
            Frontend::Webui => "webui"@,
        }
    }

    /// The frontend with the given lowercase name, if any.
    pub open spec fn spec_from_name(s: Seq<char>) -> Option<Frontend> {
        if s == "tui"@ {
            Some(Frontend::Tui)
        } else if s == "gui"@ {
            Some(Frontend::Gui)
        } else if s == "webui"@ {
            Some(Frontend::Webui)
        } else {
            None
        }
    }

    /// Every frontend is read back from its name, and the names differ.
    pub proof fn lemma_name_round_trip(f: Frontend)
        ensures
            Frontend::spec_from_name(f.spec_name()) == Some(f),
    {
        reveal_strlit("tui");
        reveal_strlit("gui");
        reveal_strlit("webui");
        assert("tui"@ != "gui"@) by {
            assert("tui"@[0] != "gui"@[0]);
        }
        assert("tui"@ != "webui"@) by {
            assert("tui"@.len() != "webui"@.len());
        }
        assert("gui"@ != "webui"@) by {
            assert("gui"@.len() != "webui"@.len());
        }
    }

    pub fn name(&self) -> (r: &'static str)
        ensures
            r@ == self.spec_name(),
    {
        match self {
            Frontend::Tui => "tui",
            Frontend::Gui => "gui",
            Frontend::Webui => "webui",
        }
    }

    pub fn from_name(s: &str) -> (r: Option<Frontend>)
        ensures
            r == Frontend::spec_from_name(s@),
    {
        let c = to_chars(s);
        if eq_lit(&c, "tui") {
            Some(Frontend::Tui)
        } else if eq_lit(&c, "gui") {
            Some(Frontend::Gui)
        } else if eq_lit(&c, "webui") {
            Some(Frontend::Webui)
        } else {
            None
        }
    }
}

/// Frontend-agnostic runtime configuration assembled from the command line.
#[derive(Debug, Clone)]
pub struct RuntimeConfig {
    /// Logical name for the agent instance.
    pub agent_name: Option<String>,
    /// Which frontend to launch.
    pub frontend: Frontend,
    /// Working directory to run the agent in (`None` = inherit).
    pub cwd: Option<String>,
    /// Model override forwarded to the frontend.
    pub model: Option<String>,
    /// Skip all approvals and sandboxing.
    pub yolo: bool,
    /// WebUI only: host address to bind on.
    pub host: String,
    /// WebUI only: TCP port to bind on (`None` = ephemeral).
    pub port: Option<u16>,
}

impl Default for RuntimeConfig {
    fn default() -> (r: Self)
        ensures
            r.agent_name is None,
            r.frontend == Frontend::Tui,
            r.cwd is None,
            r.model is None,
            !r.yolo,
            r.host@ == Seq::<char>::empty(),
            r.port is None,
    {
        RuntimeConfig {
            agent_name: None,
            frontend: Frontend::Tui,
            cwd: None,
            model: None,
            yolo: false,
            host: String::new(),
            port: None,
        }
    }
}

/// The launcher's command line.
#[derive(Debug, Clone)]
pub struct Cli {
    /// `--agent-name NAME`
    pub agent_name: Option<String>,
    /// `--frontend tui|gui|webui` (default `tui`)
    pub frontend: Frontend,
    /// `--cwd DIR` / `-C DIR`
    pub cwd: Option<String>,
    /// `--model MODEL` / `-m MODEL`
    pub model: Option<String>,
    /// `--yolo`
    pub yolo: bool,
    /// `--host HOST` (default `127.0.0.1`)
    pub host: String,
    /// `--port PORT`
    pub port: Option<u16>,
}

impl From<Cli> for RuntimeConfig {
    /// Every option the command line carried is kept, field for field.
    fn from(cli: Cli) -> (r: RuntimeConfig)
        ensures
            r.agent_name == cli.agent_name,
            r.frontend == cli.frontend,
            r.cwd == cli.cwd,
            r.model == cli.model,
            r.yolo == cli.yolo,
            r.host == cli.host,
            r.port == cli.port,
    {
        RuntimeConfig {
            agent_name: cli.agent_name,
            frontend: cli.frontend,
            cwd: cli.cwd,
            model: cli.model,
            yolo: cli.yolo,
            host: cli.host,
            port: cli.port,
        }
    }
}

impl vstd::std_specs::convert::FromSpecImpl<Cli> for RuntimeConfig {
    open spec fn obeys_from_spec() -> bool {
        true
    }

    open spec fn from_spec(cli: Cli) -> RuntimeConfig {
        RuntimeConfig {
            agent_name: cli.agent_name,
            frontend: cli.frontend,
            cwd: cli.cwd,
            model: cli.model,
            yolo: cli.yolo,
            host: cli.host,
            port: cli.port,
        }
    }
}

/// Converting a command line into a runtime configuration loses nothing: each
/// field of the configuration is the field of the same name on the command line.
pub proof fn lemma_runtime_config_keeps_cli(cli: Cli)
    ensures
        <RuntimeConfig as vstd::std_specs::convert::FromSpec<Cli>>::from_spec(cli).agent_name
            == cli.agent_name,
        <RuntimeConfig as vstd::std_specs::convert::FromSpec<Cli>>::from_spec(cli).frontend
            == cli.frontend,
        <RuntimeConfig as vstd::std_specs::convert::FromSpec<Cli>>::from_spec(cli).cwd == cli.cwd,
        <RuntimeConfig as vstd::std_specs::convert::FromSpec<Cli>>::from_spec(cli).model
            == cli.model,
        <RuntimeConfig as vstd::std_specs::convert::FromSpec<Cli>>::from_spec(cli).yolo == cli.yolo,
        <RuntimeConfig as vstd::std_specs::convert::FromSpec<Cli>>::from_spec(cli).host == cli.host,
        <RuntimeConfig as vstd::std_specs::convert::FromSpec<Cli>>::from_spec(cli).port == cli.port,
{
}

// ---------------------------------------------------------------------------
// Command-line grammar
// ---------------------------------------------------------------------------

/// The options the command line knows.
#[derive(Debug, Clone, Copy, PartialEq, Eq, Structural)]
pub enum CliOption {
    AgentName,
    Frontend,
    Cwd,
    Model,
    Yolo,
    Host,
    Port,
    Help,
    Version,
}

/// Why a command line was not accepted.
#[derive(Debug, Clone, Copy, PartialEq, Eq, Structural)]
pub enum CliErrorKind {
    /// A token that names no option (or a positional argument).
    UnknownArgument,
    /// An option that takes a value was given none.
    MissingValue,
    /// A value that the option does not accept.
    InvalidValue,
    /// A value given to an option that takes none.
    UnexpectedValue,
    /// An option given twice.
    Duplicate,
    /// `--help` / `-h`: the caller shows the help text.
    DisplayHelp,
    /// `--version` / `-V`: the caller shows the version.
    DisplayVersion,
}

/// A refused command line: the kind, and the token or value at fault.
#[derive(Debug, Clone)]
pub struct CliError {
    pub kind: CliErrorKind,
    pub arg: String,
}

/// The options seen so far while reading a command line.
pub struct Draft {
    pub agent_name: Option<Seq<char>>,
    pub frontend: Option<Frontend>,
    pub cwd: Option<Seq<char>>,
    pub model: Option<Seq<char>>,
    pub yolo: bool,
    pub host: Option<Seq<char>>,
    pub port: Option<u16>,
}

/// An accepted command line, as plain values.
pub struct CliModel {
    pub agent_name: Option<Seq<char>>,
    pub frontend: Frontend,
    pub cwd: Option<Seq<char>>,
    pub model: Option<Seq<char>>,
    pub yolo: bool,
    pub host: Seq<char>,
    pub port: Option<u16>,
}

pub open spec fn opt_view(o: Option<String>) -> Option<Seq<char>> {
    match o {
        Some(s) => Some(s@),
        None => None,
    }
}

impl Cli {
    pub open spec fn model(self) -> CliModel {
        CliModel {
            agent_name: opt_view(self.agent_name),
            frontend: self.frontend,
            cwd: opt_view(self.cwd),
            model: opt_view(self.model),
            yolo: self.yolo,
            host: self.host@,
            port: self.port,
        }
    }
}

pub open spec fn empty_draft() -> Draft {
    Draft {
        agent_name: None,
        frontend: None,
        cwd: None,
        model: None,
        yolo: false,
        host: None,
        port: None,
    }
}

/// The default bind host.
pub open spec fn default_host() -> Seq<char> {
    "127.0.0.1"@
}

pub open spec fn finish(d: Draft) -> CliModel {
    CliModel {
        agent_name: d.agent_name,
        frontend: match d.frontend {
            Some(f) => f,
            None => Frontend::Tui,
        },
        cwd: d.cwd,
        model: d.model,
        yolo: d.yolo,
        host: match d.host {
            Some(h) => h,
            None => default_host(),
        },
        port: d.port,
    }
}

/// Long option names.
pub open spec fn long_option(name: Seq<char>) -> Option<CliOption> {
    if name == "agent-name"@ {
        Some(CliOption::AgentName)
    } else if name == "frontend"@ {
        Some(CliOption::Frontend)
    } else if name == "cwd"@ {
        Some(CliOption::Cwd)
    } else if name == "model"@ {
        Some(CliOption::Model)
    } else if name == "yolo"@ {
        Some(CliOption::Yolo)
    } else if name == "host"@ {
        Some(CliOption::Host)
    } else if name == "port"@ {
        Some(CliOption::Port)
    } else if name == "help"@ {
        Some(CliOption::Help)
    } else if name == "version"@ {
        Some(CliOption::Version)
    } else {
        None
    }
}

/// Short option letters.
pub open spec fn short_option(c: char) -> Option<CliOption> {
    if c == 'C' {
        Some(CliOption::Cwd)
    } else if c == 'm' {
        Some(CliOption::Model)
    } else if c == 'h' {
        Some(CliOption::Help)
    } else if c == 'V' {
        Some(CliOption::Version)
    } else {
        None
    }
}

pub open spec fn takes_value(o: CliOption) -> bool {
    !(o == CliOption::Yolo || o == CliOption::Help || o == CliOption::Version)
}

/// A token that reads as an option rather than as a value.
pub open spec fn looks_like_option(t: Seq<char>) -> bool {
    t.len() > 1 && t[0] == '-'
}

/// The value of an option token written together with its value, if any:
/// `--name=value`, `-Xvalue` or `-X=value`.
pub open spec fn short_inline(t: Seq<char>) -> Option<Seq<char>> {
    let rest = t.skip(2);
    if rest.len() == 0 {
        None
    } else if rest[0] == '=' {
        Some(rest.skip(1))
    } else {
        Some(rest)
    }
}

/// Reads one option token: which option it names and the value written
/// with it.
pub open spec fn classify(t: Seq<char>) -> Result<(CliOption, Option<Seq<char>>), CliErrorKind> {
    if starts_with(t, "--"@) {
        let body = t.skip(2);
        let (name, inline) = match find_char(body, '=') {
            Some(k) => (body.take(k), Some(body.skip(k + 1))),
            None => (body, None),
        };
        match long_option(name) {
            Some(o) => Ok((o, inline)),
            None => Err(CliErrorKind::UnknownArgument),
        }
    } else if looks_like_option(t) {
        match short_option(t[1]) {
            Some(o) => Ok((o, if takes_value(o) { short_inline(t) } else { None })),
            None => Err(CliErrorKind::UnknownArgument),
        }
    } else {
        Err(CliErrorKind::UnknownArgument)
    }
}

/// The decimal value of a string of ASCII digits.
pub open spec fn digits_value(d: Seq<char>) -> nat
    decreases d.len(),
{
    if d.len() == 0 {
        0
    } else {
        digits_value(d.drop_last()) * 10 + ((d.last() as u32) - 48) as nat
    }
}

pub open spec fn all_digits(d: Seq<char>) -> bool {
    forall|i: int| 0 <= i < d.len() ==> 48 <= #[trigger] (d[i] as u32) <= 57
}

/// The digits of a port number: the value without its sign.
pub open spec fn port_digits(v: Seq<char>) -> Seq<char> {
    if v.len() > 0 && (v[0] == '+' || v[0] == '-') {
        v.skip(1)
    } else {
        v
    }
}

/// A port number: an optionally signed decimal integer in `0..=65535`.
pub open spec fn parse_port(v: Seq<char>) -> Option<u16> {
    let neg = v.len() > 0 && v[0] == '-';
    let d = port_digits(v);
    if d.len() == 0 || !all_digits(d) || digits_value(d) > 65535 || (neg && digits_value(d) != 0) {
        None
    } else {
        Some(digits_value(d) as u16)
    }
}

/// Records option `o` with value `v`.
pub open spec fn apply_value(d: Draft, o: CliOption, v: Seq<char>) -> Result<Draft, CliErrorKind> {
    match o {
        CliOption::AgentName => if d.agent_name is Some {
            Err(CliErrorKind::Duplicate)
        } else {
            Ok(Draft { agent_name: Some(v), ..d })
        },
        CliOption::Frontend => if d.frontend is Some {
            Err(CliErrorKind::Duplicate)
        } else {
            match Frontend::spec_from_name(v) {
                Some(f) => Ok(Draft { frontend: Some(f), ..d }),
                None => Err(CliErrorKind::InvalidValue),
            }
        },
        CliOption::Cwd => if d.cwd is Some {
            Err(CliErrorKind::Duplicate)
        } else {
            Ok(Draft { cwd: Some(v), ..d })
        },
        CliOption::Model => if d.model is Some {
            Err(CliErrorKind::Duplicate)
        } else {
            Ok(Draft { model: Some(v), ..d })
        },
        CliOption::Host => if d.host is Some {
            Err(CliErrorKind::Duplicate)
        } else {
            Ok(Draft { host: Some(v), ..d })
        },
        CliOption::Port => if d.port is Some {
            Err(CliErrorKind::Duplicate)
        } else {
            match parse_port(v) {
                Some(p) => Ok(Draft { port: Some(p), ..d }),
                None => Err(CliErrorKind::InvalidValue),
            }
        },
        _ => Err(CliErrorKind::UnexpectedValue),
    }
}

/// Reads tokens `toks[i..]` into draft `d`. An error carries its kind and the
/// token (or, for a refused value, the value) at fault.
pub open spec fn parse_tokens(toks: Seq<Seq<char>>, i: int, d: Draft) -> Result<
    CliModel,
    (CliErrorKind, Seq<char>),
>
    decreases toks.len() - i,
{
    if i < 0 || i >= toks.len() {
        Ok(finish(d))
    } else if toks[i] == "--"@ {
        if i + 1 < toks.len() {
            Err((CliErrorKind::UnknownArgument, toks[i + 1]))
        } else {
            Ok(finish(d))
        }
    } else {
        let t = toks[i];
        match classify(t) {
            Err(k) => Err((k, t)),
            Ok((o, inline)) => if o == CliOption::Help {
                Err((CliErrorKind::DisplayHelp, t))
            } else if o == CliOption::Version {
                Err((CliErrorKind::DisplayVersion, t))
            } else if !takes_value(o) {
                if inline is Some {
                    Err((CliErrorKind::UnexpectedValue, t))
                } else if d.yolo {
                    Err((CliErrorKind::Duplicate, t))
                } else {
                    parse_tokens(toks, i + 1, Draft { yolo: true, ..d })
                }
            } else {
                let (val, next) = match inline {
                    Some(v) => (Some(v), i + 1),
                    None => if i + 1 < toks.len() && !looks_like_option(toks[i + 1]) {
                        (Some(toks[i + 1]), i + 2)
                    } else {
                        (None, i + 1)
                    },
                };
                match val {
                    None => Err((CliErrorKind::MissingValue, t)),
                    Some(v) => match apply_value(d, o, v) {
                        Ok(d2) => parse_tokens(toks, next, d2),
                        Err(k) => if k == CliErrorKind::InvalidValue {
                            Err((k, v))
                        } else {
                            Err((k, t))
                        },
                    },
                }
            }
        }
    }
}

/// The command line `args` (program name first) as read by the launcher.
pub open spec fn parse_args(args: Seq<Seq<char>>) -> Result<CliModel, (CliErrorKind, Seq<char>)> {
    parse_tokens(args, 1, empty_draft())
}

/// `-C DIR` and `--cwd DIR` set the working directory to `DIR` (a value that
/// does not read as an option) and leave every other setting at its default.
pub proof fn lemma_parse_cwd(prog: Seq<char>, dir: Seq<char>)
    requires
        !(dir.len() > 1 && dir[0] == '-'),
    ensures
        parse_args(seq![prog, seq!['-', 'C'], dir]) == Ok::<CliModel, (CliErrorKind, Seq<char>)>(
            CliModel {
                agent_name: None,
                frontend: Frontend::Tui,
                cwd: Some(dir),
                model: None,
                yolo: false,
                host: seq!['1', '2', '7', '.', '0', '.', '0', '.', '1'],
                port: None,
            },
        ),
        parse_args(seq![prog, seq!['-', '-', 'c', 'w', 'd'], dir]) == Ok::<
            CliModel,
            (CliErrorKind, Seq<char>),
        >(
            CliModel {
                agent_name: None,
                frontend: Frontend::Tui,
                cwd: Some(dir),
                model: None,
                yolo: false,
                host: seq!['1', '2', '7', '.', '0', '.', '0', '.', '1'],
                port: None,
            },
        ),
{
    reveal_strlit("--");
    reveal_strlit("127.0.0.1");
    reveal_strlit("agent-name");
    reveal_strlit("frontend");
    reveal_strlit("cwd");
    assert("127.0.0.1"@ =~= seq!['1', '2', '7', '.', '0', '.', '0', '.', '1']);
    let short = seq!['-', 'C'];
    assert(short != "--"@);
    assert(!starts_with(short, "--"@)) by {
        assert(short.subrange(0, 2) =~= short);
    }
    assert(short.skip(2) =~= Seq::<char>::empty());
    let long = seq!['-', '-', 'c', 'w', 'd'];
    assert(long != "--"@);
    assert(starts_with(long, "--"@)) by {
        assert(long.subrange(0, 2) =~= "--"@);
    }
    let body = long.skip(2);
    assert(body =~= "cwd"@);
    lemma_find_from(body, seq!['='], 0);
    assert forall|j: int| 0 <= j implies !crate::text::matches_at(body, j, seq!['=']) by {
        if crate::text::matches_at(body, j, seq!['=']) {
            assert(body.subrange(j, j + 1)[0] == body[j]);
        }
    }
    assert(find_char(body, '=') is None);
    assert(long_option(body) == Some(CliOption::Cwd));
    assert(classify(long) == Ok::<(CliOption, Option<Seq<char>>), CliErrorKind>((CliOption::Cwd, None)));
    assert(classify(short) == Ok::<(CliOption, Option<Seq<char>>), CliErrorKind>((CliOption::Cwd, None)));
    let d2 = Draft { cwd: Some(dir), ..empty_draft() };
    assert(apply_value(empty_draft(), CliOption::Cwd, dir) == Ok::<Draft, CliErrorKind>(d2));
    let ts = seq![prog, short, dir];
    assert(ts[1] == short && ts[2] == dir);
    assert(parse_tokens(ts, 3, d2) == Ok::<CliModel, (CliErrorKind, Seq<char>)>(finish(d2)));
    assert(parse_tokens(ts, 1, empty_draft()) == parse_tokens(ts, 3, d2));
    let tl = seq![prog, long, dir];
    assert(tl[1] == long && tl[2] == dir);
    assert(parse_tokens(tl, 3, d2) == Ok::<CliModel, (CliErrorKind, Seq<char>)>(finish(d2)));
    assert(parse_tokens(tl, 1, empty_draft()) == parse_tokens(tl, 3, d2));
}

// ---------------------------------------------------------------------------
// Reading a command line
// ---------------------------------------------------------------------------

struct DraftExec {
    agent_name: Option<String>,
    frontend: Option<Frontend>,
    cwd: Option<String>,
    model: Option<String>,
    yolo: bool,
    host: Option<String>,
    port: Option<u16>,
}

impl DraftExec {
    spec fn view(&self) -> Draft {
        Draft {
            agent_name: opt_view(self.agent_name),
            frontend: self.frontend,
            cwd: opt_view(self.cwd),
            model: opt_view(self.model),
            yolo: self.yolo,
            host: opt_view(self.host),
            port: self.port,
        }
    }
}

pub open spec fn opt_vec_view(o: Option<Vec<char>>) -> Option<Seq<char>> {
    match o {
        Some(v) => Some(v@),
        None => None,
    }
}

fn long_option_of(name: &[char]) -> (r: Option<CliOption>)
    ensures
        r == long_option(name@),
{
    if eq_lit(name, "agent-name") {
        Some(CliOption::AgentName)
    } else if eq_lit(name, "frontend") {
        Some(CliOption::Frontend)
    } else if eq_lit(name, "cwd") {
        Some(CliOption::Cwd)
    } else if eq_lit(name, "model") {
        Some(CliOption::Model)
    } else if eq_lit(name, "yolo") {
        Some(CliOption::Yolo)
    } else if eq_lit(name, "host") {
        Some(CliOption::Host)
    } else if eq_lit(name, "port") {
        Some(CliOption::Port)
    } else if eq_lit(name, "help") {
        Some(CliOption::Help)
    } else if eq_lit(name, "version") {
        Some(CliOption::Version)
    } else {
        None
    }
}

fn short_option_of(c: char) -> (r: Option<CliOption>)
    ensures
        r == short_option(c),
{
    if c == 'C' {
        Some(CliOption::Cwd)
    } else if c == 'm' {
        Some(CliOption::Model)
    } else if c == 'h' {
        Some(CliOption::Help)
    } else if c == 'V' {
        Some(CliOption::Version)
    } else {
        None
    }
}

fn option_takes_value(o: CliOption) -> (r: bool)
    ensures
        r == takes_value(o),
{
    !(o == CliOption::Yolo || o == CliOption::Help || o == CliOption::Version)
}

fn is_option_like(t: &[char]) -> (r: bool)
    ensures
        r == looks_like_option(t@),
{
    t.len() > 1 && t[0] == '-'
}

fn classify_token(t: &[char]) -> (r: Result<(CliOption, Option<Vec<char>>), CliErrorKind>)
    ensures
        match (r, classify(t@)) {
            (Ok((o, v)), Ok((so, sv))) => o == so && opt_vec_view(v) == sv,
            (Err(k), Err(sk)) => k == sk,
            _ => false,
        },
{
    proof {
        reveal_strlit("--");
    }
    if starts_lit(t, "--") {
        let body = slice_vec(t, 2, t.len());
        assert(body@ =~= t@.skip(2));
        let (name, inline) = match find_ch(&body, '=') {
            Some(k) => {
                proof {
                    lemma_find_from(body@, seq!['='], 0);
                }
                assert(k < body@.len());
                (slice_vec(&body, 0, k), Some(slice_vec(&body, k + 1, body.len())))
            },
            None => (body.clone(), None),
        };
        assert(match find_char(body@, '=') {
            Some(k) => name@ =~= body@.take(k) && opt_vec_view(inline) == Some(body@.skip(k + 1)),
            None => name@ == body@ && inline is None,
        });
        match long_option_of(&name) {
            Some(o) => Ok((o, inline)),
            None => Err(CliErrorKind::UnknownArgument),
        }
    } else if is_option_like(t) {
        match short_option_of(t[1]) {
            Some(o) => {
                if option_takes_value(o) {
                    let rest = slice_vec(t, 2, t.len());
                    assert(rest@ =~= t@.skip(2));
                    if rest.len() == 0 {
                        Ok((o, None))
                    } else if rest[0] == '=' {
                        let v = slice_vec(&rest, 1, rest.len());
                        assert(v@ =~= rest@.skip(1));
                        Ok((o, Some(v)))
                    } else {
                        Ok((o, Some(rest)))
                    }
                } else {
                    Ok((o, None))
                }
            },
            None => Err(CliErrorKind::UnknownArgument),
        }
    } else {
        Err(CliErrorKind::UnknownArgument)
    }
}

/// Reads a port number (see [`parse_port`]).
pub fn parse_port_value(v: &[char]) -> (r: Option<u16>)
    ensures
        r == parse_port(v@),
{
    let neg = v.len() > 0 && v[0] == '-';
    let d = if v.len() > 0 && (v[0] == '+' || v[0] == '-') {
        slice_vec(v, 1, v.len())
    } else {
        slice_vec(v, 0, v.len())
    };
    assert(d@ =~= port_digits(v@));
    if d.len() == 0 {
        return None;
    }
    let mut val: u32 = 0;
    let mut i: usize = 0;
    while i < d.len()
        invariant
            i <= d@.len(),
            d@ == port_digits(v@),
            neg == (v@.len() > 0 && v@[0] == '-'),
            d@.len() > 0,
            val <= 65536,
            all_digits(d@.take(i as int)),
            val == (if digits_value(d@.take(i as int)) > 65535 {
                65536
            } else {
                digits_value(d@.take(i as int))
            }),
        decreases d@.len() - i,
    {
        let c = d[i];
        let u = c as u32;
        assert(d@.take(i + 1).drop_last() =~= d@.take(i as int));
        if u < 48 || u > 57 {
            assert(!all_digits(d@)) by {
                assert(!(48 <= (d@[i as int] as u32) <= 57));
            }
            return None;
        }
        let digit = u - 48;
        if val <= 65535 {
            let nv = val * 10 + digit;
            val = if nv > 65535 {
                65536
            } else {
                nv
            };
        }
        assert(all_digits(d@.take(i + 1))) by {
            assert forall|j: int| 0 <= j < i + 1 implies 48 <= #[trigger] (d@.take(i + 1)[j] as u32)
                <= 57 by {
                if j < i {
                    assert(d@.take(i + 1)[j] == d@.take(i as int)[j]);
                }
            }
        }
        i = i + 1;
    }
    assert(d@.take(d@.len() as int) =~= d@);
    if val > 65535 {
        None
    } else if neg && val != 0 {
        None
    } else {
        Some(val as u16)
    }
}

fn apply_value_exec(d: &mut DraftExec, o: CliOption, v: Vec<char>) -> (r: Result<(), CliErrorKind>)
    ensures
        match (r, apply_value(old(d).view(), o, v@)) {
            (Ok(()), Ok(d2)) => final(d).view() == d2,
            (Err(k), Err(sk)) => k == sk,
            _ => false,
        },
{
    match o {
        CliOption::AgentName => {
            if d.agent_name.is_some() {
                return Err(CliErrorKind::Duplicate);
            }
            d.agent_name = Some(from_chars(&v));
            Ok(())
        },
        CliOption::Frontend => {
            if d.frontend.is_some() {
                return Err(CliErrorKind::Duplicate);
            }
            let s = from_chars(&v);
            match Frontend::from_name(s.as_str()) {
                Some(f) => {
                    d.frontend = Some(f);
                    Ok(())
                },
                None => Err(CliErrorKind::InvalidValue),
            }
        },
        CliOption::Cwd => {
            if d.cwd.is_some() {
                return Err(CliErrorKind::Duplicate);
            }
            d.cwd = Some(from_chars(&v));
            Ok(())
        },
        CliOption::Model => {
            if d.model.is_some() {
                return Err(CliErrorKind::Duplicate);
            }
            d.model = Some(from_chars(&v));
            Ok(())
        },
        CliOption::Host => {
            if d.host.is_some() {
                return Err(CliErrorKind::Duplicate);
            }
            d.host = Some(from_chars(&v));
            Ok(())
        },
        CliOption::Port => {
            if d.port.is_some() {
                return Err(CliErrorKind::Duplicate);
            }
            match parse_port_value(&v) {
                Some(p) => {
                    d.port = Some(p);
                    Ok(())
                },
                None => Err(CliErrorKind::InvalidValue),
            }
        },
        _ => Err(CliErrorKind::UnexpectedValue),
    }
}

pub open spec fn arg_views(args: Seq<&str>) -> Seq<Seq<char>> {
    args.map_values(|a: &str| a@)
}

pub open spec fn cli_error_view(e: CliError) -> (CliErrorKind, Seq<char>) {
    (e.kind, e.arg@)
}

fn fail(kind: CliErrorKind, arg: &[char]) -> (r: CliError)
    ensures
        r.kind == kind,
        r.arg@ == arg@,
{
    CliError { kind, arg: from_chars(arg) }
}

impl Cli {
    /// Reads a command line (program name first). Accepted command lines
    /// give the options read; refused ones give why (see [`parse_args`]).
    pub fn parse_from(args: &[&str]) -> (r: Result<Cli, CliError>)
        ensures
            match (r, parse_args(arg_views(args@))) {
                (Ok(cli), Ok(m)) => cli.model() == m,
                (Err(e), Err(se)) => cli_error_view(e) == se,
                _ => false,
            },
    {
        let ghost toks = arg_views(args@);
        let mut d = DraftExec {
            agent_name: None,
            frontend: None,
            cwd: None,
            model: None,
            yolo: false,
            host: None,
            port: None,
        };
        assert(d.view() == empty_draft());
        let mut i: usize = 1;
        while i < args.len()
            invariant
                toks == arg_views(args@),
                1 <= i,
                parse_tokens(toks, i as int, d.view()) == parse_args(toks),
            decreases args@.len() - i,
        {
            let t = to_chars(args[i]);
            assert(t@ == toks[i as int]);
            if eq_lit(&t, "--") {
                if i + 1 < args.len() {
                    let next = to_chars(args[i + 1]);
                    return Err(fail(CliErrorKind::UnknownArgument, &next));
                }
                return Ok(finish_exec(d));
            }
            match classify_token(&t) {
                Err(k) => {
                    return Err(fail(k, &t));
                },
                Ok((o, inline)) => {
                    if o == CliOption::Help {
                        return Err(fail(CliErrorKind::DisplayHelp, &t));
                    }
                    if o == CliOption::Version {
                        return Err(fail(CliErrorKind::DisplayVersion, &t));
                    }
                    if !option_takes_value(o) {
                        if inline.is_some() {
                            return Err(fail(CliErrorKind::UnexpectedValue, &t));
                        }
                        if d.yolo {
                            return Err(fail(CliErrorKind::Duplicate, &t));
                        }
                        d.yolo = true;
                        i = i + 1;
                    } else {
                        let (val, next): (Option<Vec<char>>, usize) = match inline {
                            Some(v) => (Some(v), i + 1),
                            None => {
                                if i + 1 < args.len() {
                                    let n = to_chars(args[i + 1]);
                                    assert(n@ == toks[i + 1]);
                                    if !is_option_like(&n) {
                                        (Some(n), i + 2)
                                    } else {
                                        (None, i + 1)
                                    }
                                } else {
                                    (None, i + 1)
                                }
                            },
                        };
                        match val {
                            None => {
                                return Err(fail(CliErrorKind::MissingValue, &t));
                            },
                            Some(v) => {
                                let vc = v.clone();
                                match apply_value_exec(&mut d, o, v) {
                                    Ok(()) => {
                                        i = next;
                                    },
                                    Err(k) => {
                                        if k == CliErrorKind::InvalidValue {
                                            return Err(fail(k, &vc));
                                        } else {
                                            return Err(fail(k, &t));
                                        }
                                    },
                                }
                            },
                        }
                    }
                },
            }
        }
        Ok(finish_exec(d))
    }
}

fn finish_exec(d: DraftExec) -> (r: Cli)
    ensures
        r.model() == finish(d.view()),
{
    let frontend = match d.frontend {
        Some(f) => f,
        None => Frontend::Tui,
    };
    let host = match d.host {
        Some(h) => h,
        None => String::from_str("127.0.0.1"),
    };
    Cli {
        agent_name: d.agent_name,
        frontend,
        cwd: d.cwd,
        model: d.model,
        yolo: d.yolo,
        host,
        port: d.port,
    }
}

} // verus!
