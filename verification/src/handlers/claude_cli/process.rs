//! How the child process of a session is started, and how its turns end.

use crate::encoding::{format_uuid, is_random_uuid, random_uuid, uuid_text};
use crate::text::{
    begins_with, concat2, concat3, digit, numeral, starts_with, strip, texts, to_decimal, without,
};
use vstd::prelude::*;
use vstd::string::StringExecFns;

verus! {

/// Tunables for one process.
#[derive(Debug)]
pub struct ClaudeCliConfig {
    /// Path or name of the program (looked up via `$PATH`).
    pub binary: String,
    /// Value passed to `--permission-mode`.
    pub permission_mode: String,
    /// Idle session time to live, in milliseconds — after this long without a
    /// request the session manager kills the child.
    pub session_ttl: u64,
    /// Per-line watchdog, in milliseconds: if no line arrives for this long
    /// during a turn, the child is killed. Reset on every line.
    pub watchdog: u64,
}

impl ClaudeCliConfig {
    /// The usual tunables, for a program.
    pub fn for_program(binary: &str) -> (r: Self)
        ensures
            r.binary@ == binary@,
            r.permission_mode@ == "bypassPermissions"@,
            r.session_ttl == 600_000,
            r.watchdog == 120_000,
    {
        ClaudeCliConfig {
            binary: binary.to_owned(),
            permission_mode: "bypassPermissions".to_owned(),
            session_ttl: 600_000,
            watchdog: 120_000,
        }
    }
}

/// Errors produced while interacting with the child process.
#[derive(Debug)]
pub enum ProcessError {
    Spawn { binary: String, source: String },
    StdinWrite(String),
    ExitedEarly,
    MissingStdio { which: String },
    WatchdogTimeout { millis: u64 },
    Serialize(String),
    TurnInProgress,
}

/// A number of thousandths behind the point, without zeros at its end.
pub open spec fn thousandths(n: int) -> Seq<char> {
    if n % 100 == 0 {
        seq![digit(n / 100)]
    } else if n % 10 == 0 {
        seq![digit(n / 100), digit(n / 10 % 10)]
    } else {
        seq![digit(n / 100), digit(n / 10 % 10), digit(n % 10)]
    }
}

/// A duration of milliseconds in its largest unit.
pub open spec fn duration_text(millis: u64) -> Seq<char> {
    if millis == 0 {
        "0ns"@
    } else if millis < 1000 {
        numeral(millis as nat) + "ms"@
    } else if millis % 1000 == 0 {
        numeral((millis / 1000) as nat) + "s"@
    } else {
        numeral((millis / 1000) as nat) + "."@ + thousandths((millis % 1000) as int) + "s"@
    }
}

fn write_digit(d: u64) -> (r: String)
    requires
        d < 10,
    ensures
        r@ == seq![digit(d as int)],
{
    let r: String = to_decimal(d as u128);
    r
}

fn write_duration(millis: u64) -> (r: String)
    ensures
        r@ == duration_text(millis),
{
    if millis == 0 {
        return "0ns".to_owned();
    }
    if millis < 1000 {
        return concat2(to_decimal(millis as u128).as_str(), "ms");
    }
    let mut r: String = to_decimal((millis / 1000) as u128);
    let rest: u64 = millis % 1000;
    if rest != 0 {
        let ghost whole = r@;
        r.append(".");
        r.append(write_digit(rest / 100).as_str());
        if rest % 100 != 0 {
            r.append(write_digit(rest / 10 % 10).as_str());
            if rest % 10 != 0 {
                r.append(write_digit(rest % 10).as_str());
            }
        }
        assert(r@ =~= whole + "."@ + thousandths(rest as int));
    }
    r.append("s");
    r
}

impl ProcessError {
    /// The error in words, of a program.
    pub open spec fn text(&self, program: Seq<char>) -> Seq<char> {
        match *self {
            ProcessError::Spawn { binary, source } => "failed to spawn `"@ + binary@ + "`: "@
                + source@,
            ProcessError::StdinWrite(e) => "failed to write to "@ + program + " stdin: "@ + e@,
            ProcessError::ExitedEarly => program + " process exited unexpectedly"@,
            ProcessError::MissingStdio { which } => program + " child is missing piped "@ + which@
                + " after spawn"@,
            ProcessError::WatchdogTimeout { millis } => program + " watchdog fired after "@
                + duration_text(millis) + " of silence"@,
            ProcessError::Serialize(e) => "failed to serialize stdin payload: "@ + e@,
            ProcessError::TurnInProgress => "turn already in progress for this session"@,
        }
    }

    /// The error in words, of a program.
    pub fn message(&self, program: &str) -> (r: String)
        ensures
            r@ == self.text(program@),
    {
        match self {
            ProcessError::Spawn { binary, source } => {
                let mut r: String = concat3("failed to spawn `", binary.as_str(), "`: ");
                r.append(source.as_str());
                r
            },
            ProcessError::StdinWrite(e) => {
                let mut r: String = concat3("failed to write to ", program, " stdin: ");
                r.append(e.as_str());
                r
            },
            ProcessError::ExitedEarly => concat2(program, " process exited unexpectedly"),
            ProcessError::MissingStdio { which } => {
                let mut r: String = concat3(program, " child is missing piped ", which.as_str());
                r.append(" after spawn");
                r
            },
            ProcessError::WatchdogTimeout { millis } => {
                let mut r: String = concat3(
                    program,
                    " watchdog fired after ",
                    write_duration(*millis).as_str(),
                );
                r.append(" of silence");
                r
            },
            ProcessError::Serialize(e) => concat2("failed to serialize stdin payload: ", e.as_str()),
            ProcessError::TurnInProgress => "turn already in progress for this session".to_owned(),
        }
    }
}

/// The model without the provider prefix.
pub open spec fn bare_model(provider: Seq<char>, model: Seq<char>) -> Seq<char> {
    match without(model, provider + "/"@) {
        Some(m) => m,
        None => model,
    }
}

/// Strip down to the model alias / id the program's `--model` flag accepts.
/// Models registered via the provider's wildcard arrive prefixed with the
/// provider and a slash (or just bare, e.g. `sonnet`); both forms are
/// normalized here.
pub fn normalize_model_arg<'a>(provider: &str, model: &'a str) -> (r: &'a str)
    ensures
        r@ == bare_model(provider@, model@),
{
    let prefix: String = concat2(provider, "/");
    match strip(model, prefix.as_str()) {
        Some(m) => m,
        None => model,
    }
}

/// Prefixes of environment variables that must be removed before starting
/// the program so the child uses its own login rather than picking up
/// server-side credentials.
pub const SCRUB_ENV_PREFIXES: [&'static str; 3] = ["ANTHROPIC_", "CLAUDE_CODE_", "OTEL_"];

/// Whether a variable is removed.
pub open spec fn is_scrubbed(name: Seq<char>) -> bool {
    exists|i: int|
        0 <= i < SCRUB_ENV_PREFIXES@.len() && begins_with(
            name,
            (#[trigger] SCRUB_ENV_PREFIXES@[i])@,
        )
}

fn must_scrub(name: &str) -> (b: bool)
    ensures
        b == is_scrubbed(name@),
{
    let mut i: usize = 0;
    while i < 3
        invariant
            i <= 3,
            forall|j: int|
                0 <= j < i ==> !begins_with(name@, (#[trigger] SCRUB_ENV_PREFIXES@[j])@),
        decreases 3 - i,
    {
        if starts_with(name, SCRUB_ENV_PREFIXES[i]) {
            assert(begins_with(name@, SCRUB_ENV_PREFIXES@[i as int]@));
            return true;
        }
        i += 1;
    }
    false
}

/// The variables that are not removed, in order.
pub open spec fn scrubbed(vars: Seq<(String, String)>) -> Seq<(String, String)>
    decreases vars.len(),
{
    if vars.len() == 0 {
        Seq::empty()
    } else if is_scrubbed(vars.last().0@) {
        scrubbed(vars.drop_last())
    } else {
        scrubbed(vars.drop_last()).push(vars.last())
    }
}

/// The environment of the child: the given one without credentials.
pub fn scrubbed_env_for_spawn(vars: Vec<(String, String)>) -> (r: Vec<(String, String)>)
    ensures
        r@ == scrubbed(vars@),
{
    let ghost all = vars@;
    let mut rest: Vec<(String, String)> = vars;
    let mut r: Vec<(String, String)> = Vec::new();
    let ghost mut done: int = 0;
    assert(all.take(0) =~= Seq::empty());
    assert(all.skip(0) =~= all);
    while rest.len() > 0
        invariant
            0 <= done <= all.len(),
            rest@ == all.skip(done),
            r@ == scrubbed(all.take(done)),
        decreases rest.len(),
    {
        let var: (String, String) = rest.remove(0);
        proof {
            let cut = all.take(done + 1);
            assert(all.skip(done)[0] == all[done]);
            assert(cut.last() == var);
            assert(cut.drop_last() =~= all.take(done));
            assert(rest@ =~= all.skip(done + 1));
            done = done + 1;
        }
        if !must_scrub(var.0.as_str()) {
            r.push(var);
        }
    }
    assert(all.take(done) =~= all);
    r
}

/// The arguments of the child.
pub open spec fn arguments(
    provider: Seq<char>,
    permission_mode: Seq<char>,
    model: Seq<char>,
    cli_session_id: Seq<char>,
    system_prompt: Option<Seq<char>>,
) -> Seq<Seq<char>> {
    let fixed = seq![
        "-p"@,
        "--output-format"@,
        "stream-json"@,
        "--input-format"@,
        "stream-json"@,
        "--verbose"@,
        "--include-partial-messages"@,
        "--permission-mode"@,
        permission_mode,
        "--model"@,
        bare_model(provider, model),
        "--session-id"@,
        cli_session_id,
        "--no-session-persistence"@,
    ];
    match system_prompt {
        Some(p) => fixed.push("--append-system-prompt"@).push(p),
        None => fixed,
    }
}

/// The arguments the child is started with. A system prompt is appended to
/// the child's own rather than replacing it.
pub fn spawn_args(
    config: &ClaudeCliConfig,
    provider: &str,
    model: &str,
    cli_session_id: &str,
    system_prompt: Option<&str>,
) -> (r: Vec<String>)
    ensures
        texts(r@) == arguments(
            provider@,
            config.permission_mode@,
            model@,
            cli_session_id@,
            match system_prompt {
                Some(p) => Some(p@),
                None => None,
            },
        ),
{
    let mut r: Vec<String> = Vec::new();
    r.push("-p".to_owned());
    r.push("--output-format".to_owned());
    r.push("stream-json".to_owned());
    r.push("--input-format".to_owned());
    r.push("stream-json".to_owned());
    r.push("--verbose".to_owned());
    r.push("--include-partial-messages".to_owned());
    r.push("--permission-mode".to_owned());
    r.push(config.permission_mode.clone());
    r.push("--model".to_owned());
    r.push(normalize_model_arg(provider, model).to_owned());
    r.push("--session-id".to_owned());
    r.push(cli_session_id.to_owned());
    r.push("--no-session-persistence".to_owned());
    let ghost fixed = arguments(
        provider@,
        config.permission_mode@,
        model@,
        cli_session_id@,
        None,
    );
    assert(texts(r@) =~= fixed);
    if let Some(prompt) = system_prompt {
        r.push("--append-system-prompt".to_owned());
        r.push(prompt.to_owned());
        assert(texts(r@) =~= fixed.push("--append-system-prompt"@).push(prompt@));
    }
    r
}

/// A fresh random session id for the child: always new, so that it never
/// collides with what an earlier run of the same conversation left on disk.
pub fn fresh_cli_session_id() -> (r: String)
    ensures
        exists|id: u128| is_random_uuid(id) && r@ == #[trigger] uuid_text(id),
{
    format_uuid(random_uuid())
}

/// What happened while the next event of a turn was awaited.
#[derive(Debug, Clone, Copy, PartialEq, Eq, Structural)]
pub enum TurnInput {
    /// An event came; a result ends the turn.
    Event { is_result: bool },
    /// The child closed its output.
    Closed,
    /// Nothing came for as long as the watchdog waits.
    Silence,
}

/// What is done about it.
#[derive(Debug, Clone, Copy, PartialEq, Eq, Structural)]
pub enum TurnStep {
    /// The event is handed on.
    Deliver,
    /// The child exited before the turn ended.
    ExitedEarly,
    /// The child was silent for too long, and is killed.
    WatchdogTimeout,
}

impl TurnStep {
    /// Whether the child is killed: it was silent for too long.
    pub fn kills_child(&self) -> (b: bool)
        ensures
            b == (*self == TurnStep::WatchdogTimeout),
    {
        match self {
            TurnStep::WatchdogTimeout => true,
            TurnStep::Deliver | TurnStep::ExitedEarly => false,
        }
    }
}

/// One turn: events until the terminal result, the end of the output, or the watchdog.
#[derive(Debug, Clone, Copy, PartialEq, Eq, Structural)]
pub struct TurnStream {
    pub done: bool,
}

/// Whether `r` is done about what happened, and the turn then is `after`.
pub open spec fn turn_goes_on(
    before: TurnStream,
    input: TurnInput,
    r: Option<TurnStep>,
    after: TurnStream,
) -> bool {
    if before.done {
        r is None && after.done
    } else {
        &&& r == Some(
            match input {
                TurnInput::Event { .. } => TurnStep::Deliver,
                TurnInput::Closed => TurnStep::ExitedEarly,
                TurnInput::Silence => TurnStep::WatchdogTimeout,
            },
        )
        &&& after.done == (input != TurnInput::Event { is_result: false })
    }
}

impl TurnStream {
    /// A turn that begins.
    pub fn new() -> (r: Self)
        ensures
            !r.done,
    {
        TurnStream { done: false }
    }

    /// What is done about what happened. `None` once the turn is over.
    pub fn step(&mut self, input: TurnInput) -> (r: Option<TurnStep>)
        ensures
            turn_goes_on(*old(self), input, r, *final(self)),
    {
        if self.done {
            return None;
        }
        match input {
            TurnInput::Event { is_result } => {
                if is_result {
                    self.done = true;
                }
                Some(TurnStep::Deliver)
            },
            TurnInput::Closed => {
                self.done = true;
                Some(TurnStep::ExitedEarly)
            },
            TurnInput::Silence => {
                self.done = true;
                Some(TurnStep::WatchdogTimeout)
            },
        }
    }
}

/// No variable with a scrubbed prefix reaches the child, and every other one does.
pub proof fn credentials_never_reach_the_child(vars: Seq<(String, String)>, v: (String, String))
    ensures
        scrubbed(vars).contains(v) == (vars.contains(v) && !is_scrubbed(v.0@)),
    decreases vars.len(),
{
    if vars.len() > 0 {
        let shorter = vars.drop_last();
        let n = vars.len() - 1;
        credentials_never_reach_the_child(shorter, v);
        assert(vars.contains(v) == (shorter.contains(v) || vars.last() == v)) by {
            if vars.contains(v) {
                let i = vars.index_of(v);
                assert(vars[i] == v);
                if i < n {
                    assert(shorter[i] == v);
                }
            }
            if shorter.contains(v) {
                let i = shorter.index_of(v);
                assert(shorter[i] == v);
                assert(vars[i] == v);
            }
            if vars.last() == v {
                assert(vars[n] == v);
            }
        }
        if !is_scrubbed(vars.last().0@) {
            let before = scrubbed(shorter);
            let after = before.push(vars.last());
            assert(after.contains(v) == (before.contains(v) || vars.last() == v)) by {
                if after.contains(v) {
                    let i = after.index_of(v);
                    assert(after[i] == v);
                    if i < before.len() {
                        assert(before[i] == v);
                    }
                }
                if before.contains(v) {
                    let i = before.index_of(v);
                    assert(before[i] == v);
                    assert(after[i] == v);
                }
                if vars.last() == v {
                    assert(after[before.len() as int] == v);
                }
            }
        }
    }
}

/// The variables that are held back are those that begin with one of the
/// prefixes.
pub proof fn prefixes_are_held_back(name: Seq<char>)
    ensures
        is_scrubbed(name) == (begins_with(name, "ANTHROPIC_"@) || begins_with(name, "CLAUDE_CODE_"@)
            || begins_with(name, "OTEL_"@)),
{
    assert(SCRUB_ENV_PREFIXES@[0] == "ANTHROPIC_");
    assert(SCRUB_ENV_PREFIXES@[1] == "CLAUDE_CODE_");
    assert(SCRUB_ENV_PREFIXES@[2] == "OTEL_");
}

/// A model is asked for without its provider and the slash behind it; one that
/// does not begin with them, as it stands.
pub proof fn provider_is_taken_off(provider: Seq<char>, model: Seq<char>)
    ensures
        bare_model(provider, provider + "/"@ + model) == model,
        !begins_with(model, provider + "/"@) ==> bare_model(provider, model) == model,
{
    let p = provider + "/"@;
    let full = provider + "/"@ + model;
    assert(full.subrange(0, p.len() as int) =~= p);
    assert(full.skip(p.len() as int) =~= model);
    assert(begins_with(full, p));
}

/// Whether a flag is followed by a value.
pub open spec fn sets(args: Seq<Seq<char>>, flag: Seq<char>, value: Seq<char>) -> bool {
    exists|i: int| 0 <= i && i + 1 < args.len() && #[trigger] args[i] == flag && args[i + 1] == value
}

/// The child reads and writes streams of JSON, in the given mode and session,
/// with the model it is asked for, and keeps no session of its own. A system
/// prompt is passed on where there is one.
pub proof fn child_is_told_what_to_do(
    provider: Seq<char>,
    mode: Seq<char>,
    model: Seq<char>,
    session: Seq<char>,
    prompt: Seq<char>,
)
    ensures
        ({
            let a = arguments(provider, mode, model, session, None);
            &&& sets(a, "--output-format"@, "stream-json"@)
            &&& sets(a, "--input-format"@, "stream-json"@)
            &&& sets(a, "--permission-mode"@, mode)
            &&& sets(a, "--model"@, bare_model(provider, model))
            &&& sets(a, "--session-id"@, session)
            &&& a.contains("-p"@)
            &&& a.contains("--verbose"@)
            &&& a.contains("--include-partial-messages"@)
            &&& a.contains("--no-session-persistence"@)
            &&& arguments(provider, mode, model, session, Some(prompt)) == a
                + seq!["--append-system-prompt"@, prompt]
        }),
{
    let a = arguments(provider, mode, model, session, None);
    assert(a[0] == "-p"@);
    assert(a[1] == "--output-format"@ && a[2] == "stream-json"@);
    assert(a[3] == "--input-format"@ && a[4] == "stream-json"@);
    assert(a[5] == "--verbose"@);
    assert(a[6] == "--include-partial-messages"@);
    assert(a[7] == "--permission-mode"@ && a[8] == mode);
    assert(a[9] == "--model"@ && a[10] == bare_model(provider, model));
    assert(a[11] == "--session-id"@ && a[12] == session);
    assert(a[13] == "--no-session-persistence"@);
    assert(arguments(provider, mode, model, session, Some(prompt)) =~= a + seq![
        "--append-system-prompt"@,
        prompt,
    ]);
}

/// A turn ends with its result, with the end of the output or with silence;
/// silence alone kills the child, and once over a turn says nothing more.
pub proof fn turn_ends_once(
    before: TurnStream,
    input: TurnInput,
    r: Option<TurnStep>,
    after: TurnStream,
    next: TurnInput,
    s: Option<TurnStep>,
    end: TurnStream,
)
    requires
        turn_goes_on(before, input, r, after),
        turn_goes_on(after, next, s, end),
    ensures
        before.done ==> r is None && after.done,
        !before.done ==> r is Some && (after.done <==> input == TurnInput::Closed || input
            == TurnInput::Silence || input == TurnInput::Event { is_result: true }),
        !before.done && input is Event ==> r == Some(TurnStep::Deliver),
        r == Some(TurnStep::WatchdogTimeout) <==> !before.done && input == TurnInput::Silence,
        r == Some(TurnStep::ExitedEarly) ==> input == TurnInput::Closed,
        after.done ==> s is None && end.done,
{
}

/// Durations are told in seconds from one second on, with what is left over
/// behind a point, and in milliseconds below.
pub proof fn durations_are_told_in_seconds(seconds: u64, tenths: u64, millis: u64)
    requires
        0 < seconds < 1_000_000_000,
        0 < tenths < 10,
        0 < millis < 1000,
    ensures
        duration_text((seconds * 1000) as u64) == numeral(seconds as nat) + "s"@,
        duration_text((seconds * 1000 + tenths * 100) as u64) == numeral(seconds as nat) + "."@
            + seq![digit(tenths as int)] + "s"@,
        duration_text(millis) == numeral(millis as nat) + "ms"@,
{
    let whole = (seconds * 1000) as u64;
    assert(whole % 1000 == 0 && whole / 1000 == seconds);
    let part = (seconds * 1000 + tenths * 100) as u64;
    assert(part % 1000 == tenths * 100 && part / 1000 == seconds);
    assert((tenths * 100) % 100 == 0 && (tenths * 100) / 100 == tenths);
}

} // verus!
