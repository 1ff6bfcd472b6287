//! The QuickJS engine: runs a script in an instrumented context under the
//! limits, with fallbacks for modules and strict-mode scripts, then calls the
//! functions it left dormant, and reports what it saw.

use rquickjs::{Ctx, Error, Runtime};
use vstd::prelude::*;
use crate::engine::guard::RunGuard;
use crate::engine::hooks::{new_shared_log, take_shared_log, SharedLog};
use crate::engine::quickjs::{
    atob_function, catch_text, clock_function, declare_module, error_text,
    eval_module, eval_unit, eval_value, is_exception, log_function, memory_used, new_context,
    new_object, new_runtime, random_function, seeded_rng, set_global_function, set_global_object,
    set_integer_property, set_interrupt_guard, set_memory_limit, set_text_property, with_context,
};
use crate::engine::scripts::{ENVIRONMENT_JS, FUNCTION_DISCOVERY_JS, INSTRUMENTATION_JS, WINDOW_STUBS_JS};
use crate::engine::{EngineError, SandboxEngine};
use crate::environment::Environment;
use crate::features::BehavioralFeatures;
use crate::instrumentation::{instant_now, millis_since, EventType, InstrumentationLog, LogEntry};
use crate::limits::ExecutionLimits;
use crate::sandbox::{AnalysisMetadata, ExecutionMode, ExecutionResult};
use crate::static_analysis::StaticAnalysis;
use crate::text::{
    chars_of, contains_seq, decimal, decimal_string, duration_string, duration_text, lowercase,
    second_piece, second_piece_bounds, str_contains, string_from_chars, to_lowercase,
    trim_end_matches, trim_end_matches_len,
};

verus! {

/// The engine backed by QuickJS through `rquickjs`.
pub struct RQuickJsEngine;

impl RQuickJsEngine {
    /// A QuickJS engine.
    pub fn new() -> (e: Self) {
        RQuickJsEngine
    }
}

/// What a run inside a locked context needs.
pub(crate) struct ScriptJob {
    /// The script.
    pub(crate) code: String,
    /// The log the hooks report to.
    pub(crate) log: SharedLog,
    /// The fake environment.
    pub(crate) env: Environment,
    /// The budgets and their enforcement.
    pub(crate) guard: RunGuard,
}

/// How a run inside the context ended.
pub struct RunOutcome {
    /// Whether the script ran to its end.
    pub completed: bool,
    /// Why it did not, if it did not.
    pub error: Option<String>,
    /// The rendering of its value, if it did.
    pub return_value: Option<String>,
}

/// The retry a failed first run leads to.
pub enum Retry {
    /// Run the script again as a module.
    Module,
    /// Run the script again unchanged.
    Strict,
    /// Report the failure.
    Report,
}

/// The retry for a first run that failed with message `msg`: as a module when
/// the message or the code speaks of imports or exports, again when the
/// message speaks of strict mode or an invalid keyword, otherwise none.
pub open spec fn retry_for(msg: Seq<char>, code: Seq<char>) -> Retry {
    if contains_seq(msg, "import"@) || contains_seq(msg, "export"@) || contains_seq(code, "import "@)
        || contains_seq(code, "export "@) {
        Retry::Module
    } else if contains_seq(msg, "strict mode"@) || contains_seq(msg, "invalid keyword"@) {
        Retry::Strict
    } else {
        Retry::Report
    }
}

/// Whether a failure was the interrupt handler stopping the run: a message
/// that mentions an interruption, an empty one, or one that mentions null.
pub open spec fn interrupted(caught: Seq<char>, text: Seq<char>) -> bool {
    contains_seq(lowercase(caught), "interrupted"@) || contains_seq(lowercase(text), "interrupted"@)
        || caught.len() == 0 || contains_seq(caught, "null"@)
}

/// The message for a run the interrupt handler stopped.
pub open spec fn limit_message(wall_time_exceeded: bool, max_wall_ms: nat, max_instructions: nat) -> Seq<
    char,
> {
    if wall_time_exceeded {
        "Wall-time limit of "@ + duration_text(max_wall_ms) + " exceeded"@
    } else {
        "Instruction limit of "@ + decimal(max_instructions) + " exceeded"@
    }
}

/// The retry for a first run that failed with message `msg`.
fn choose_retry(msg: &str, code: &str) -> (r: Retry)
    ensures
        r == retry_for(msg@, code@),
{
    if str_contains(msg, "import") || str_contains(msg, "export") || str_contains(code, "import ")
        || str_contains(code, "export ") {
        Retry::Module
    } else if str_contains(msg, "strict mode") || str_contains(msg, "invalid keyword") {
        Retry::Strict
    } else {
        Retry::Report
    }
}

/// Whether a failure was the interrupt handler stopping the run.
fn was_interrupted(caught: &str, text: &str) -> (r: bool)
    ensures
        r == interrupted(caught@, text@),
{
    let lc = to_lowercase(caught);
    let lt = to_lowercase(text);
    str_contains(lc.as_str(), "interrupted") || str_contains(lt.as_str(), "interrupted")
        || caught.is_empty() || str_contains(caught, "null")
}

/// The message for a run the interrupt handler stopped.
fn limit_text(wall_time_exceeded: bool, max_wall_ms: u64, max_instructions: u64) -> (r: String)
    ensures
        r@ == limit_message(wall_time_exceeded, max_wall_ms as nat, max_instructions as nat),
{
    if wall_time_exceeded {
        let mut r = String::from_str("Wall-time limit of ");
        let d = duration_string(max_wall_ms);
        r.append(d.as_str());
        r.append(" exceeded");
        r
    } else {
        let mut r = String::from_str("Instruction limit of ");
        let d = decimal_string(max_instructions);
        r.append(d.as_str());
        r.append(" exceeded");
        r
    }
}

/// The message of a failed evaluation: the pending exception, rendered, when
/// it raised one; the error's own text otherwise.
fn failure_message<'js>(ctx: &Ctx<'js>, e: &Error) -> String {
    if is_exception(e) {
        catch_text(ctx)
    } else {
        error_text(e)
    }
}

/// `prefix` followed by `detail`.
fn prefixed(prefix: &str, detail: String) -> (r: String)
    ensures
        r@ == prefix@ + detail@,
{
    let mut r = String::from_str(prefix);
    r.append(detail.as_str());
    r
}

/// What the instrumentation installs in a context: the global that reports
/// events to the log, the global that decodes base64, and the scripts run
/// after them, in order.
pub struct HookSetup {
    /// The global whose calls report events (through `record_event`).
    pub log_global: String,
    /// The global that decodes base64 (through `decode_for_atob`).
    pub atob_global: String,
    /// The log the events go to.
    pub log: SharedLog,
    /// The scripts evaluated after the globals are set, in order.
    pub scripts: Vec<&'static str>,
}

/// What the instrumentation installs for `log`: `__jsnabber_log` reporting to
/// `log`, `__js_atob`, then the window stubs and the instrumentation script.
pub fn hook_setup(log: SharedLog) -> (h: HookSetup)
    ensures
        h.log_global@ == "__jsnabber_log"@,
        h.atob_global@ == "__js_atob"@,
        h.log == log,
        h.scripts@.len() == 2,
        h.scripts@[0]@ == WINDOW_STUBS_JS@,
        h.scripts@[1]@ == INSTRUMENTATION_JS@,
{
    let mut scripts: Vec<&'static str> = Vec::new();
    scripts.push(WINDOW_STUBS_JS);
    scripts.push(INSTRUMENTATION_JS);
    HookSetup {
        log_global: String::from_str("__jsnabber_log"),
        atob_global: String::from_str("__js_atob"),
        log,
        scripts,
    }
}

/// What a registration handed to the engine, in order: the names set on the
/// global object, the scripts evaluated, and the string and integer
/// properties set on the objects it made.
pub struct Installation {
    pub globals: Seq<Seq<char>>,
    pub scripts: Seq<Seq<char>>,
    pub text_properties: Seq<(Seq<char>, Seq<char>)>,
    pub integer_properties: Seq<(Seq<char>, i32)>,
}

/// Installs the instrumentation that `hook_setup` describes: the logging
/// hook (each call records an event with `record_event`) and the base64
/// hook (`decode_for_atob`) under their globals, then the scripts in order.
/// What it installed comes back on success, with a record of what was handed
/// to the engine.
pub fn register_native_hooks<'js>(ctx: &Ctx<'js>, log: SharedLog) -> (r: Result<
    (HookSetup, Ghost<Installation>),
    Error,
>)
    ensures
        r matches Ok((h, i)) ==> {
            &&& h.log_global@ == "__jsnabber_log"@
            &&& h.atob_global@ == "__js_atob"@
            &&& h.log == log
            &&& h.scripts@.len() == 2
            &&& h.scripts@[0]@ == WINDOW_STUBS_JS@
            &&& h.scripts@[1]@ == INSTRUMENTATION_JS@
            &&& i@.globals == seq![h.log_global@, h.atob_global@]
            &&& i@.scripts == seq![h.scripts@[0]@, h.scripts@[1]@]
            &&& i@.text_properties.len() == 0
            &&& i@.integer_properties.len() == 0
        },
{
    let setup = hook_setup(log);
    let f = log_function(ctx, crate::engine::quickjs::share(&setup.log))?;
    let g1 = set_global_function(ctx, setup.log_global.as_str(), f)?;
    let a = atob_function(ctx)?;
    let g2 = set_global_function(ctx, setup.atob_global.as_str(), a)?;
    let s1 = eval_unit(ctx, setup.scripts[0])?;
    let s2 = eval_unit(ctx, setup.scripts[1])?;
    let ghost installed = Installation {
        globals: seq![g1@, g2@],
        scripts: seq![s1@, s2@],
        text_properties: seq![],
        integer_properties: seq![],
    };
    Ok((setup, Ghost(installed)))
}

/// What the fake environment installs in a context.
pub struct EnvironmentSetup {
    /// The seed of the generator behind `Math.random`.
    pub seed: u64,
    /// The time the clock is frozen at, in milliseconds.
    pub now_ms: i64,
    /// `navigator.userAgent`.
    pub user_agent: String,
    /// `navigator.platform`.
    pub platform: String,
    /// `screen.width`.
    pub screen_width: i32,
}

/// What the fake environment `env` installs: its seed, its frozen time and
/// its user agent, on a "Win32" platform with a screen 1920 pixels wide.
pub fn environment_setup(env: &Environment) -> (s: EnvironmentSetup)
    ensures
        s.seed == env.random_seed,
        s.now_ms == env.frozen_timestamp,
        s.user_agent@ == env.user_agent@,
        s.platform@ == "Win32"@,
        s.screen_width == 1920,
{
    EnvironmentSetup {
        seed: env.random_seed,
        now_ms: env.frozen_timestamp,
        user_agent: env.user_agent.clone(),
        platform: String::from_str("Win32"),
        screen_width: 1920,
    }
}

/// Installs the environment: the seeded random and frozen clock hooks, the
/// environment script, and the navigator and screen objects, as
/// `environment_setup` gives them. What it installed comes back on success,
/// with a record of what was handed to the engine.
pub fn register_native_environment<'js>(ctx: &Ctx<'js>, env: &Environment) -> (r: Result<
    (EnvironmentSetup, Ghost<Installation>),
    Error,
>)
    ensures
        r matches Ok((s, i)) ==> {
            &&& s.seed == env.random_seed
            &&& s.now_ms == env.frozen_timestamp
            &&& s.user_agent@ == env.user_agent@
            &&& s.platform@ == "Win32"@
            &&& s.screen_width == 1920
            &&& i@.globals == seq![
                "__jsnabber_random"@,
                "__jsnabber_now"@,
                "navigator"@,
                "screen"@,
            ]
            &&& i@.scripts == seq![ENVIRONMENT_JS@]
            &&& i@.text_properties == seq![("userAgent"@, s.user_agent@), ("platform"@, s.platform@)]
            &&& i@.integer_properties == seq![("width"@, s.screen_width)]
        },
{
    let setup = environment_setup(env);
    let rng = seeded_rng(setup.seed);
    let r = random_function(ctx, rng)?;
    let g1 = set_global_function(ctx, "__jsnabber_random", r)?;
    let c = clock_function(ctx, setup.now_ms)?;
    let g2 = set_global_function(ctx, "__jsnabber_now", c)?;
    let s1 = eval_unit(ctx, ENVIRONMENT_JS)?;
    let navigator = new_object(ctx)?;
    let t1 = set_text_property(&navigator, "userAgent", setup.user_agent.as_str())?;
    let t2 = set_text_property(&navigator, "platform", setup.platform.as_str())?;
    let g3 = set_global_object(ctx, "navigator", navigator)?;
    let screen = new_object(ctx)?;
    let n1 = set_integer_property(&screen, "width", setup.screen_width)?;
    let g4 = set_global_object(ctx, "screen", screen)?;
    let ghost installed = Installation {
        globals: seq![g1@, g2@, g3@, g4@],
        scripts: seq![s1@],
        text_properties: seq![t1@, t2@],
        integer_properties: seq![n1@],
    };
    Ok((setup, Ghost(installed)))
}

/// An outcome of a finished run.
fn finished(value: String) -> (o: RunOutcome)
    ensures
        o.completed && o.error is None && o.return_value == Some(value),
{
    RunOutcome { completed: true, error: None, return_value: Some(value) }
}

/// An outcome of a failed run.
fn failed(message: String) -> (o: RunOutcome)
    ensures
        !o.completed && o.error == Some(message) && o.return_value is None,
{
    RunOutcome { completed: false, error: Some(message), return_value: None }
}

/// How an evaluation of the script ends: finished with the rendering of its
/// value, or failed with the message of its failure.
pub fn outcome_of_evaluation(r: Result<String, String>) -> (o: RunOutcome)
    ensures
        r matches Ok(v) ==> o.completed && o.error is None && o.return_value == Some(v),
        r matches Err(m) ==> !o.completed && o.error == Some(m) && o.return_value is None,
{
    match r {
        Ok(v) => finished(v),
        Err(m) => failed(m),
    }
}

/// How a retry as a module ends: finished with the value "Module Loaded"
/// when the module was declared and evaluated, failed with the message of
/// the failure otherwise.
pub fn outcome_of_module(r: Result<(), String>) -> (o: RunOutcome)
    ensures
        r is Ok ==> o.completed && o.error is None && (o.return_value matches Some(v) && v@
            == "Module Loaded"@),
        r matches Err(m) ==> !o.completed && o.error == Some(m) && o.return_value is None,
{
    match r {
        Ok(()) => finished(String::from_str("Module Loaded")),
        Err(m) => failed(m),
    }
}

/// How a reported failure ends: when the interrupt handler stopped the run,
/// with the message of the budget it exceeded (the wall-clock budget when
/// that is exceeded, the budget of checks otherwise); with what was caught
/// otherwise.
pub fn outcome_of_report(
    caught: String,
    text: &str,
    wall_time_exceeded: bool,
    max_wall_ms: u64,
    max_instructions: u64,
) -> (o: RunOutcome)
    ensures
        !o.completed,
        o.return_value is None,
        o.error matches Some(m) && m@ == if interrupted(caught@, text@) {
            limit_message(wall_time_exceeded, max_wall_ms as nat, max_instructions as nat)
        } else {
            caught@
        },
{
    if was_interrupted(caught.as_str(), text) {
        failed(limit_text(wall_time_exceeded, max_wall_ms, max_instructions))
    } else {
        failed(caught)
    }
}

/// What the engine gave back while a script ran, in the order asked: the
/// first evaluation (the rendering of its value, or what was caught and the
/// engine's error text), the module attempt and the second evaluation when
/// they were made, and whether the wall-clock budget was exceeded when a
/// failure was reported.
pub struct RunTrace {
    pub first: Result<Seq<char>, (Seq<char>, Seq<char>)>,
    pub module: Result<(), Seq<char>>,
    pub second: Result<Seq<char>, Seq<char>>,
    pub wall_time_exceeded: bool,
}

/// What a run handed to the engine and what the engine gave back: the memory
/// ceiling set on the runtime, the budgets of the guard its interrupt handler
/// asks, and the trace of the script's evaluations.
pub struct RunRecord {
    pub trace: RunTrace,
    pub memory_limit: usize,
    pub wall_ms: u64,
    pub instructions: u64,
}

/// An outcome as whether it completed, its error text and its value text.
pub open spec fn outcome_view(o: RunOutcome) -> (bool, Option<Seq<char>>, Option<Seq<char>>) {
    (
        o.completed,
        match o.error {
            Some(s) => Some(s@),
            None => None,
        },
        match o.return_value {
            Some(s) => Some(s@),
            None => None,
        },
    )
}

/// The outcome of running `code` when the engine gave back `t`: a first
/// evaluation's value when it succeeded; otherwise, by the retry its failure
/// leads to, "Module Loaded" or the module attempt's failure, the second
/// evaluation's value or failure, or the reported failure (the budget
/// exceeded when the interrupt handler stopped the run, what was caught
/// otherwise).
pub open spec fn run_outcome(code: Seq<char>, t: RunTrace, max_wall_ms: nat, max_instructions: nat) -> (
    bool,
    Option<Seq<char>>,
    Option<Seq<char>>,
) {
    match t.first {
        Ok(v) => (true, None, Some(v)),
        Err((caught, text)) => match retry_for(caught, code) {
            Retry::Module => match t.module {
                Ok(_) => (true, None, Some("Module Loaded"@)),
                Err(m) => (false, Some(m), None),
            },
            Retry::Strict => match t.second {
                Ok(v) => (true, None, Some(v)),
                Err(m) => (false, Some(m), None),
            },
            Retry::Report => (
                false,
                Some(
                    if interrupted(caught, text) {
                        limit_message(t.wall_time_exceeded, max_wall_ms, max_instructions)
                    } else {
                        caught
                    },
                ),
                None,
            ),
        },
    }
}

/// Runs a script in a locked context: installs the hooks and the
/// environment, then runs the script with the budgets enforced; a failure
/// that speaks of modules retries it as a module, one that speaks of strict
/// mode retries it as it is, one that the interrupt handler caused is
/// reported as the budget it exceeded, and any other is reported as the
/// engine described it. After a finished run the dormant functions are
/// called, best effort.
pub(crate) fn run_script<'js>(ctx: &Ctx<'js>, job: ScriptJob) -> (r: (
    Result<RunOutcome, EngineError>,
    Ghost<RunTrace>,
))
    ensures
        r.0 matches Ok(o) ==> outcome_view(o) == run_outcome(
            job.code@,
            r.1@,
            job.guard.max_wall_ms() as nat,
            job.guard.max_instructions() as nat,
        ),
        r.0 matches Ok(o) ==> (o.completed <==> o.error is None) && (o.completed <==> o.return_value is Some),
        r.0 matches Err(e) ==> e is Initialization,
{
    let ghost mut trace = RunTrace {
        first: Ok(seq![]),
        module: Ok(()),
        second: Ok(seq![]),
        wall_time_exceeded: false,
    };
    let guard = &job.guard;
    let code = job.code.as_str();
    match register_native_hooks(ctx, job.log) {
        Ok(_) => {},
        Err(e) => {
            let m = failure_message(ctx, &e);
            return (Err(EngineError::Initialization(prefixed("Instrumentation error: ", m))), Ghost(trace));
        },
    }
    match register_native_environment(ctx, &job.env) {
        Ok(_) => {},
        Err(e) => {
            let m = failure_message(ctx, &e);
            return (Err(EngineError::Initialization(prefixed("Environment error: ", m))), Ghost(trace));
        },
    }
    guard.activate();
    let first = eval_value(ctx, code);
    let outcome = match first {
        Ok(v) => {
            guard.deactivate();
            proof {
                trace.first = Ok(v@);
            }
            outcome_of_evaluation(Ok(v))
        },
        Err(e) => {
            let caught = failure_message(ctx, &e);
            let text = error_text(&e);
            proof {
                trace.first = Err((caught@, text@));
            }
            match choose_retry(caught.as_str(), code) {
                Retry::Module => {
                    let loaded = match declare_module(ctx, "main", code) {
                        Ok(module) => match eval_module(module) {
                            Ok(()) => Ok(()),
                            Err(e2) => Err(failure_message(ctx, &e2)),
                        },
                        Err(e2) => Err(error_text(&e2)),
                    };
                    guard.deactivate();
                    proof {
                        trace.module = match loaded {
                            Ok(_) => Ok(()),
                            Err(ref m) => Err(m@),
                        };
                    }
                    outcome_of_module(loaded)
                },
                Retry::Strict => {
                    let again = match eval_value(ctx, code) {
                        Ok(v) => Ok(v),
                        Err(e2) => Err(failure_message(ctx, &e2)),
                    };
                    guard.deactivate();
                    proof {
                        trace.second = match again {
                            Ok(ref v) => Ok(v@),
                            Err(ref m) => Err(m@),
                        };
                    }
                    outcome_of_evaluation(again)
                },
                Retry::Report => {
                    guard.deactivate();
                    let exceeded = guard.wall_time_exceeded();
                    proof {
                        trace.wall_time_exceeded = exceeded;
                    }
                    outcome_of_report(
                        caught,
                        text.as_str(),
                        exceeded,
                        guard.max_wall_ms_value(),
                        guard.max_instructions_value(),
                    )
                },
            }
        },
    };
    if outcome.completed {
        guard.activate();
        match eval_unit(ctx, FUNCTION_DISCOVERY_JS) {
            Ok(_) => {},
            Err(e) => {
                if is_exception(&e) {
                    let _ = catch_text(ctx);
                }
            },
        }
        guard.deactivate();
    }
    (Ok(outcome), Ghost(trace))
}


/// Whether an entry was logged by the function discovery pass.
pub open spec fn is_discovery(e: LogEntry) -> bool {
    e.event_type matches EventType::Other(s) && s@ == "function_discovery"@
}

/// The entry point an entry reports calling: the name after
/// "Calling common entry point: " in a discovery payload, without trailing
/// "()".
pub open spec fn entry_point_of(e: LogEntry) -> Option<Seq<char>> {
    if is_discovery(e) && e.payload is Some && contains_seq(
        e.payload->0@,
        "Calling common entry point:"@,
    ) {
        match second_piece(e.payload->0@, "Calling common entry point: "@) {
            Some(name) => Some(trim_end_matches(name, "()"@)),
            None => None,
        }
    } else {
        None
    }
}

/// Whether an entry reports calling a discovered function.
pub open spec fn reports_call(e: LogEntry) -> bool {
    is_discovery(e) && e.payload is Some && !contains_seq(
        e.payload->0@,
        "Calling common entry point:"@,
    ) && contains_seq(e.payload->0@, "Calling discovered function:"@)
}

/// Whether an entry reports access to an unknown global.
pub open spec fn reports_unknown_global(e: LogEntry) -> bool {
    e.event_type matches EventType::Other(s) && s@ == "undefined_global"@
}

/// The entry points the entries of `logs` report calling, in order.
pub open spec fn entry_points(logs: Seq<LogEntry>) -> Seq<Seq<char>>
    decreases logs.len(),
{
    if logs.len() == 0 {
        seq![]
    } else {
        let prev = entry_points(logs.drop_last());
        match entry_point_of(logs.last()) {
            Some(n) => prev.push(n),
            None => prev,
        }
    }
}

/// How many entries of `logs` report calling a discovered function.
pub open spec fn discovered_calls(logs: Seq<LogEntry>) -> nat
    decreases logs.len(),
{
    if logs.len() == 0 {
        0
    } else {
        discovered_calls(logs.drop_last()) + if reports_call(logs.last()) {
            1nat
        } else {
            0nat
        }
    }
}

/// How a script ran: as a module when its value reads "Module Loaded"; in
/// strict mode when its code has a "use strict" directive in either quote;
/// as a plain script otherwise.
pub open spec fn mode_for(code: Seq<char>, return_value: Option<String>) -> ExecutionMode {
    if return_value is Some && contains_seq(return_value->0@, "Module Loaded"@) {
        ExecutionMode::Module
    } else if contains_seq(code, "\"use strict\""@) || contains_seq(code, "'use strict'"@) {
        ExecutionMode::StrictScript
    } else {
        ExecutionMode::Script
    }
}

/// How a run is reported: a run whose value mentions "Module Loaded" ran as
/// a module; otherwise code that holds the directive 'use strict', in single
/// or double quotes, ran in strict mode; any other code ran as a plain
/// script.
pub proof fn law_execution_mode(code: Seq<char>, return_value: Option<String>)
    ensures
        (return_value matches Some(v) && contains_seq(v@, "Module Loaded"@)) ==> mode_for(
            code,
            return_value,
        ) == ExecutionMode::Module,
        !(return_value matches Some(v) && contains_seq(v@, "Module Loaded"@)) && contains_seq(
            code,
            "'use strict'"@,
        ) ==> mode_for(code, return_value) == ExecutionMode::StrictScript,
        !(return_value matches Some(v) && contains_seq(v@, "Module Loaded"@)) && contains_seq(
            code,
            "\"use strict\""@,
        ) ==> mode_for(code, return_value) == ExecutionMode::StrictScript,
        !(return_value matches Some(v) && contains_seq(v@, "Module Loaded"@)) && !contains_seq(
            code,
            "'use strict'"@,
        ) && !contains_seq(code, "\"use strict\""@) ==> mode_for(code, return_value)
            == ExecutionMode::Script,
{
}

/// The entry point a discovery payload names, if it reports calling one.
fn entry_point_from_payload(p: &str) -> (r: Option<String>)
    ensures
        match second_piece(p@, "Calling common entry point: "@) {
            Some(name) => r matches Some(s) && s@ == trim_end_matches(name, "()"@),
            None => r is None,
        },
{
    let chars = chars_of(p);
    let sep = chars_of("Calling common entry point: ");
    let suffix = chars_of("()");
    proof {
        reveal_strlit("Calling common entry point: ");
        reveal_strlit("()");
    }
    match second_piece_bounds(&chars, &sep) {
        Some((a, b)) => {
            let piece = crate::text::copy_range(&chars, a, b);
            let end = trim_end_matches_len(&piece, &suffix);
            Some(string_from_chars(&piece, 0, end))
        },
        None => None,
    }
}

/// The entry point an entry reports calling.
fn entry_point_in(e: &LogEntry) -> (r: Option<String>)
    ensures
        match entry_point_of(*e) {
            Some(n) => r matches Some(s) && s@ == n,
            None => r is None,
        },
{
    if let EventType::Other(s) = &e.event_type {
        if crate::text::same_text(s.as_str(), "function_discovery") {
            if let Some(p) = &e.payload {
                if str_contains(p.as_str(), "Calling common entry point:") {
                    return entry_point_from_payload(p.as_str());
                }
            }
        }
    }
    None
}

/// Whether an entry reports calling a discovered function.
fn is_reported_call(e: &LogEntry) -> (r: bool)
    ensures
        r == reports_call(*e),
{
    if let EventType::Other(s) = &e.event_type {
        if crate::text::same_text(s.as_str(), "function_discovery") {
            if let Some(p) = &e.payload {
                return !str_contains(p.as_str(), "Calling common entry point:") && str_contains(
                    p.as_str(),
                    "Calling discovered function:",
                );
            }
        }
    }
    false
}

/// Whether an entry reports access to an unknown global.
fn is_unknown_global(e: &LogEntry) -> (r: bool)
    ensures
        r == reports_unknown_global(*e),
{
    if let EventType::Other(s) = &e.event_type {
        crate::text::same_text(s.as_str(), "undefined_global")
    } else {
        false
    }
}

/// The entry points the log reports calling, in order.
fn collect_entry_points(logs: &Vec<LogEntry>) -> (r: Vec<String>)
    ensures
        r@.map_values(|s: String| s@) == entry_points(logs@),
{
    let mut r: Vec<String> = Vec::new();
    let mut i: usize = 0;
    assert(logs@.take(0) =~= Seq::<LogEntry>::empty());
    while i < logs.len()
        invariant
            i <= logs@.len(),
            r@.map_values(|s: String| s@) == entry_points(logs@.take(i as int)),
        decreases logs@.len() - i,
    {
        let e = &logs[i];
        proof {
            assert(logs@.take(i + 1).drop_last() =~= logs@.take(i as int));
            assert(logs@.take(i + 1).last() == *e);
        }
        match entry_point_in(e) {
            Some(name) => {
                let ghost before = r@;
                r.push(name);
                assert(r@.map_values(|s: String| s@) =~= before.map_values(|s: String| s@).push(
                    name@,
                ));
            },
            None => {},
        }
        i = i + 1;
    }
    assert(logs@.take(logs@.len() as int) =~= logs@);
    r
}

/// How many entries of the log report calling a discovered function.
fn count_discovered_calls(logs: &Vec<LogEntry>) -> (r: usize)
    ensures
        r == discovered_calls(logs@),
{
    let mut count: usize = 0;
    let mut i: usize = 0;
    assert(logs@.take(0) =~= Seq::<LogEntry>::empty());
    while i < logs.len()
        invariant
            i <= logs@.len(),
            count == discovered_calls(logs@.take(i as int)),
            count <= i,
        decreases logs@.len() - i,
    {
        proof {
            assert(logs@.take(i + 1).drop_last() =~= logs@.take(i as int));
        }
        if is_reported_call(&logs[i]) {
            count = count + 1;
        }
        i = i + 1;
    }
    assert(logs@.take(logs@.len() as int) =~= logs@);
    count
}

/// Whether some entry of the log reports access to an unknown global.
fn any_unknown_global(logs: &Vec<LogEntry>) -> (r: bool)
    ensures
        r == exists|i: int| 0 <= i < logs@.len() && reports_unknown_global(#[trigger] logs@[i]),
{
    let mut i: usize = 0;
    while i < logs.len()
        invariant
            i <= logs@.len(),
            forall|k: int| 0 <= k < i ==> !reports_unknown_global(#[trigger] logs@[k]),
        decreases logs@.len() - i,
    {
        if is_unknown_global(&logs[i]) {
            return true;
        }
        i = i + 1;
    }
    false
}

/// What the log and the outcome say about how the script was analysed.
pub fn summarize_run(
    code: &str,
    return_value: &Option<String>,
    logs: &Vec<LogEntry>,
    static_analysis: StaticAnalysis,
) -> (m: AnalysisMetadata)
    ensures
        m.execution_mode == mode_for(code@, *return_value),
        m.used_es6_modules == (m.execution_mode == ExecutionMode::Module),
        m.function_discovery_enabled,
        m.functions_discovered == discovered_calls(logs@),
        m.entry_points_called@.map_values(|s: String| s@) == entry_points(logs@),
        m.accessed_unknown_apis == exists|i: int| 0 <= i < logs@.len() && reports_unknown_global(#[trigger] logs@[i]),
        m.static_analysis == static_analysis,
{
    let execution_mode = match return_value {
        Some(v) => if str_contains(v.as_str(), "Module Loaded") {
            ExecutionMode::Module
        } else if str_contains(code, "\"use strict\"") || str_contains(code, "'use strict'") {
            ExecutionMode::StrictScript
        } else {
            ExecutionMode::Script
        },
        None => if str_contains(code, "\"use strict\"") || str_contains(code, "'use strict'") {
            ExecutionMode::StrictScript
        } else {
            ExecutionMode::Script
        },
    };
    let entry_points_called = collect_entry_points(logs);
    let count = count_discovered_calls(logs);
    let unknown = any_unknown_global(logs);
    AnalysisMetadata {
        execution_mode,
        function_discovery_enabled: true,
        functions_discovered: count,
        entry_points_called,
        used_es6_modules: execution_mode == ExecutionMode::Module,
        accessed_unknown_apis: unknown,
        static_analysis,
    }
}

/// What a run hands to QuickJS and to the guard of its budgets.
pub struct RunPlan {
    /// The memory ceiling of the runtime, in bytes.
    pub memory_limit: usize,
    /// The wall-clock budget, in milliseconds.
    pub wall_ms: u64,
    /// The budget of interrupt checks.
    pub instructions: u64,
    /// The script.
    pub code: String,
    /// The fake environment.
    pub env: Environment,
}

/// The plan of a run of `code` under `limits` in `env`: each budget where it
/// belongs, the script and the environment as given.
pub fn run_plan(code: &str, limits: &ExecutionLimits, env: &Environment) -> (p: RunPlan)
    ensures
        p.memory_limit == limits.max_memory_bytes,
        p.wall_ms == limits.max_wall_time_ms,
        p.instructions == limits.max_instructions,
        p.code@ == code@,
        p.env.is(env.random_seed, env.frozen_timestamp, env.user_agent@),
{
    RunPlan {
        memory_limit: limits.max_memory_bytes,
        wall_ms: limits.max_wall_time_ms,
        instructions: limits.max_instructions,
        code: String::from_str(code),
        env: copy_environment(env),
    }
}

impl RQuickJsEngine {
    /// Runs `code` as `execute` does, in the runtime given, which has no
    /// context yet: scans it statically, sets the memory ceiling and the
    /// interrupt handler, runs it in an instrumented context (see
    /// `run_script`), and reports the outcome, the log, how it was analysed
    /// and the features of its events. A caller that has installed a module
    /// loader on the runtime gets it used for the script's imports.
    pub fn execute_in_runtime(&self, runtime: Runtime, code: &str, limits: &ExecutionLimits, env: &Environment) -> (out: (
        Result<ExecutionResult, EngineError>,
        Ghost<RunRecord>,
    ))
        requires
            !StaticAnalysis::scan_cuts_char(code@),
        ensures
            out.0 matches Ok(res) ==> {
                &&& (res.completed <==> res.error is None)
                &&& (res.completed <==> res.return_value is Some)
                &&& res.analysis.execution_mode == mode_for(code@, res.return_value)
                &&& res.analysis.functions_discovered == discovered_calls(res.logs@)
                &&& res.analysis.entry_points_called@.map_values(|s: String| s@) == entry_points(res.logs@)
                &&& crate::static_analysis::findings_of(res.analysis.static_analysis.patterns_found@)
                    == crate::static_analysis::findings(
                    crate::static_analysis::pattern_table(),
                    crate::text::lines_of(code@),
                )
                &&& res.features.api_call_counts@ == crate::features::tally(
                    crate::features::event_keys(res.logs@),
                )
                &&& res.env.is(env.random_seed, env.frozen_timestamp, env.user_agent@)
                &&& res.analysis.static_analysis.risk_score == crate::static_analysis::risk_of(
                    crate::static_analysis::findings_of(res.analysis.static_analysis.patterns_found@),
                )
                &&& res.analysis.function_discovery_enabled
                &&& res.analysis.used_es6_modules == (res.analysis.execution_mode == ExecutionMode::Module)
                &&& res.analysis.accessed_unknown_apis == exists|i: int|
                    0 <= i < res.logs@.len() && reports_unknown_global(#[trigger] res.logs@[i])
                &&& res.peak_memory_bytes is Some
                &&& res.logs@.len() <= 1000
                &&& res.features.total_expansion_bytes == if crate::features::expansion_bytes(res.logs@)
                    < usize::MAX {
                    crate::features::expansion_bytes(res.logs@)
                } else {
                    usize::MAX as nat
                }
            },
            out.0 matches Ok(res) ==> (res.completed, match res.error {
                Some(s) => Some(s@),
                None => None,
            }, match res.return_value {
                Some(s) => Some(s@),
                None => None,
            }) == run_outcome(code@, out.1@.trace, limits.max_wall_time_ms as nat, limits.max_instructions as nat),
            out.0 matches Err(e) ==> e is Initialization,
            out.1@.memory_limit == limits.max_memory_bytes,
            out.1@.wall_ms == limits.max_wall_time_ms,
            out.1@.instructions == limits.max_instructions,
    {
        let start = instant_now();
        let static_analysis = StaticAnalysis::analyze(code);
        let shared = new_shared_log();
        let plan = run_plan(code, limits, env);
        let memory_set = set_memory_limit(&runtime, plan.memory_limit);
        let guard = RunGuard::new(start, plan.wall_ms, plan.instructions);
        let budgets_set = set_interrupt_guard(&runtime, guard.share());
        let context = match new_context(&runtime) {
            Ok(c) => c,
            Err(m) => {
                let ghost record = RunRecord {
                    trace: arbitrary(),
                    memory_limit: memory_set@,
                    wall_ms: budgets_set@.0,
                    instructions: budgets_set@.1,
                };
                return (Err(EngineError::Initialization(m)), Ghost(record));
            },
        };
        let job = ScriptJob {
            code: plan.code,
            log: crate::engine::quickjs::share(&shared),
            env: plan.env,
            guard: guard.share(),
        };
        let (run, trace) = with_context(&context, job);
        let ghost record = RunRecord {
            trace: trace@,
            memory_limit: memory_set@,
            wall_ms: budgets_set@.0,
            instructions: budgets_set@.1,
        };
        let outcome = match run {
            Ok(o) => o,
            Err(e) => {
                return (Err(e), Ghost(record));
            },
        };
        let log = take_shared_log(&shared);
        let logs = log.into_entries();
        assert(logs@.len() <= 1000);
        let execution_time_ms = millis_since(&start);
        let instruction_count = guard.checks_counted();
        let analysis = summarize_run(code, &outcome.return_value, &logs, static_analysis);
        let memory = memory_used(&runtime);
        let mut result = ExecutionResult {
            completed: outcome.completed,
            instruction_count,
            execution_time_ms,
            peak_memory_bytes: Some(#[verifier::truncate] (memory as usize)),
            error: outcome.error,
            return_value: outcome.return_value,
            logs,
            env: copy_environment(env),
            features: BehavioralFeatures::default(),
            analysis,
        };
        result.features = BehavioralFeatures::extract(&result);
        assert(result.logs@.len() <= 1000);
        (Ok(result), Ghost(record))
    }
}


impl SandboxEngine for RQuickJsEngine {
    /// Runs `code` in a fresh QuickJS runtime (see `execute_in_runtime`).
    fn execute(&self, code: &str, limits: &ExecutionLimits, env: &Environment) -> (r: Result<
        ExecutionResult,
        EngineError,
    >)
        ensures
            r matches Ok(res) ==> {
                &&& (res.completed <==> res.error is None)
                &&& (res.completed <==> res.return_value is Some)
                &&& res.analysis.execution_mode == mode_for(code@, res.return_value)
                &&& res.analysis.functions_discovered == discovered_calls(res.logs@)
                &&& res.analysis.entry_points_called@.map_values(|s: String| s@) == entry_points(res.logs@)
                &&& crate::static_analysis::findings_of(res.analysis.static_analysis.patterns_found@)
                    == crate::static_analysis::findings(
                    crate::static_analysis::pattern_table(),
                    crate::text::lines_of(code@),
                )
                &&& res.features.api_call_counts@ == crate::features::tally(
                    crate::features::event_keys(res.logs@),
                )
                &&& res.env.is(env.random_seed, env.frozen_timestamp, env.user_agent@)
                &&& res.analysis.static_analysis.risk_score == crate::static_analysis::risk_of(
                    crate::static_analysis::findings_of(res.analysis.static_analysis.patterns_found@),
                )
                &&& res.analysis.function_discovery_enabled
                &&& res.analysis.used_es6_modules == (res.analysis.execution_mode == ExecutionMode::Module)
                &&& res.analysis.accessed_unknown_apis == exists|i: int|
                    0 <= i < res.logs@.len() && reports_unknown_global(#[trigger] res.logs@[i])
                &&& res.peak_memory_bytes is Some
                &&& res.logs@.len() <= 1000
                &&& res.features.total_expansion_bytes == if crate::features::expansion_bytes(res.logs@)
                    < usize::MAX {
                    crate::features::expansion_bytes(res.logs@)
                } else {
                    usize::MAX as nat
                }
            },
            r matches Ok(res) ==> exists|t: RunTrace|
                (res.completed, match res.error {
                    Some(s) => Some(s@),
                    None => None,
                }, match res.return_value {
                    Some(s) => Some(s@),
                    None => None,
                }) == #[trigger] run_outcome(code@, t, limits.max_wall_time_ms as nat, limits.max_instructions as nat),
            r matches Err(e) ==> e is Initialization,
    {
        match new_runtime() {
            Ok(runtime) => {
                let (r, record) = self.execute_in_runtime(runtime, code, limits, env);
                proof {
                    let t = record@.trace;
                    assert(r matches Ok(res) ==> (res.completed, match res.error {
                        Some(s) => Some(s@),
                        None => None,
                    }, match res.return_value {
                        Some(s) => Some(s@),
                        None => None,
                    }) == run_outcome(code@, t, limits.max_wall_time_ms as nat, limits.max_instructions as nat));
                }
                r
            },
            Err(m) => Err(EngineError::Initialization(m)),
        }
    }
}

/// A copy of an environment.
fn copy_environment(env: &Environment) -> (r: Environment)
    ensures
        r.random_seed == env.random_seed,
        r.frozen_timestamp == env.frozen_timestamp,
        r.user_agent@ == env.user_agent@,
{
    Environment {
        random_seed: env.random_seed,
        frozen_timestamp: env.frozen_timestamp,
        user_agent: env.user_agent.clone(),
    }
}

} // verus!
