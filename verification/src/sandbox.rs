//! The sandbox: runs a script under limits in an environment through an
//! engine, and compares runs across environments.

use vstd::prelude::*;
use crate::environment::Environment;
use crate::features::BehavioralFeatures;
use crate::instrumentation::{EventType, LogEntry};
use crate::static_analysis::StaticAnalysis;
use crate::engine::{engine_error_text, EngineError, SandboxEngine};
use crate::engine::native::{run_outcome, RQuickJsEngine, RunTrace};
use crate::limits::{ExecutionLimits, LimitTier};
use crate::text::{decimal, decimal_string, duration_string, duration_text, same_text};

verus! {

/// How the JavaScript code was executed.
#[derive(Debug, Clone, Copy, PartialEq, Eq, Structural)]
pub enum ExecutionMode {
    /// Executed as a standard script.
    Script,
    /// Executed as an ES6 module.
    Module,
    /// Executed in strict mode.
    StrictScript,
}

/// Metadata about how the code was analysed.
#[derive(Debug, Clone)]
pub struct AnalysisMetadata {
    /// How the code was executed.
    pub execution_mode: ExecutionMode,
    /// Whether function discovery was performed.
    pub function_discovery_enabled: bool,
    /// Number of discovered functions that were called.
    pub functions_discovered: usize,
    /// Entry points that were called automatically.
    pub entry_points_called: Vec<String>,
    /// Whether the code ran as an ES6 module.
    pub used_es6_modules: bool,
    /// Whether unknown globals were accessed.
    pub accessed_unknown_apis: bool,
    /// Static analysis results.
    pub static_analysis: StaticAnalysis,
}

impl Default for AnalysisMetadata {
    /// A script run with discovery enabled and nothing observed yet.
    fn default() -> (m: Self)
        ensures
            m.execution_mode == ExecutionMode::Script,
            m.function_discovery_enabled,
            m.functions_discovered == 0,
            m.entry_points_called@.len() == 0,
            !m.used_es6_modules,
            !m.accessed_unknown_apis,
            m.static_analysis.patterns_found@.len() == 0,
            m.static_analysis.risk_score == 0,
    {
        AnalysisMetadata {
            execution_mode: ExecutionMode::Script,
            function_discovery_enabled: true,
            functions_discovered: 0,
            entry_points_called: Vec::new(),
            used_es6_modules: false,
            accessed_unknown_apis: false,
            static_analysis: StaticAnalysis::default(),
        }
    }
}

/// Result of running a script.
#[derive(Debug, Clone)]
pub struct ExecutionResult {
    /// Whether execution completed successfully.
    pub completed: bool,
    /// Number of interpreter interrupt checks counted.
    pub instruction_count: u64,
    /// Wall-clock execution time in milliseconds.
    pub execution_time_ms: u64,
    /// Memory in use by the engine at the end, in bytes (if available).
    pub peak_memory_bytes: Option<usize>,
    /// Error message if execution failed.
    pub error: Option<String>,
    /// Debug rendering of the return value, if any.
    pub return_value: Option<String>,
    /// Instrumentation logs.
    pub logs: Vec<LogEntry>,
    /// Environment configuration.
    pub env: Environment,
    /// Behavioural features.
    pub features: BehavioralFeatures,
    /// Analysis metadata.
    pub analysis: AnalysisMetadata,
}

/// Variance metrics across environments.
#[derive(Debug)]
pub struct EnvironmentVariance {
    /// Number of different return values observed.
    pub unique_return_values: usize,
    /// Number of different non-empty error messages observed.
    pub unique_errors: usize,
    /// Least and greatest instruction counts.
    pub instruction_count_range: (u64, u64),
    /// Number of different sequences of event types observed.
    pub unique_log_patterns: usize,
}

impl Clone for EnvironmentVariance {
    /// A copy of every metric.
    fn clone(&self) -> (c: Self)
        ensures
            c == *self,
    {
        EnvironmentVariance {
            unique_return_values: self.unique_return_values,
            unique_errors: self.unique_errors,
            instruction_count_range: (self.instruction_count_range.0, self.instruction_count_range.1),
            unique_log_patterns: self.unique_log_patterns,
        }
    }
}

/// Result of running a script in several environments.
#[derive(Debug)]
pub struct MultiEnvironmentResult {
    /// Results from each environment.
    pub results: Vec<ExecutionResult>,
    /// Whether all environments produced the same behaviour.
    pub consistent: bool,
    /// Variance metrics.
    pub variance: EnvironmentVariance,
}


/// The text a result returned, empty when it returned nothing.
pub open spec fn returned_text(r: ExecutionResult) -> Seq<char> {
    match r.return_value {
        Some(s) => s@,
        None => seq![],
    }
}

/// The error text of a result, empty when it has none.
pub open spec fn error_text_of(r: ExecutionResult) -> Seq<char> {
    match r.error {
        Some(s) => s@,
        None => seq![],
    }
}

/// An event type as a tag and, for `Other`, its name.
pub open spec fn event_shape(e: EventType) -> (nat, Seq<char>) {
    match e {
        EventType::Eval => (0, seq![]),
        EventType::FunctionConstructor => (1, seq![]),
        EventType::StringDecode => (2, seq![]),
        EventType::Timer => (3, seq![]),
        EventType::Random => (4, seq![]),
        EventType::Network => (5, seq![]),
        EventType::Storage => (6, seq![]),
        EventType::System => (7, seq![]),
        EventType::Crypto => (8, seq![]),
        EventType::Evasion => (9, seq![]),
        EventType::DOM => (10, seq![]),
        EventType::Other(s) => (11, s@),
    }
}

/// The sequence of event types of a log.
pub open spec fn log_shape(logs: Seq<LogEntry>) -> Seq<(nat, Seq<char>)> {
    logs.map_values(|l: LogEntry| event_shape(l.event_type))
}

/// The sequence of event types of a result's log.
pub open spec fn result_shape(r: ExecutionResult) -> Seq<(nat, Seq<char>)> {
    log_shape(r.logs@)
}

/// The number of different returned texts (a missing value reads as empty).
pub open spec fn distinct_returns(rs: Seq<ExecutionResult>) -> nat {
    rs.map_values(|r: ExecutionResult| returned_text(r)).to_set().len()
}

/// The number of different non-empty error texts.
pub open spec fn distinct_errors(rs: Seq<ExecutionResult>) -> nat {
    rs.map_values(|r: ExecutionResult| error_text_of(r)).to_set().remove(seq![]).len()
}

/// The number of different sequences of event types.
pub open spec fn distinct_shapes(rs: Seq<ExecutionResult>) -> nat {
    rs.map_values(|r: ExecutionResult| result_shape(r)).to_set().len()
}

/// Whether `range` holds the least and greatest instruction counts of `rs`,
/// or is (0, 0) when there are none.
pub open spec fn is_count_range(rs: Seq<ExecutionResult>, range: (u64, u64)) -> bool {
    if rs.len() == 0 {
        range == (0u64, 0u64)
    } else {
        &&& exists|i: int| 0 <= i < rs.len() && rs[i].instruction_count == range.0
        &&& exists|i: int| 0 <= i < rs.len() && rs[i].instruction_count == range.1
        &&& forall|i: int| 0 <= i < rs.len() ==> range.0 <= #[trigger] rs[i].instruction_count <= range.1
    }
}

/// Whether two event types are the same.
fn same_event(a: &EventType, b: &EventType) -> (r: bool)
    ensures
        r == (event_shape(*a) == event_shape(*b)),
{
    match (a, b) {
        (EventType::Eval, EventType::Eval) => true,
        (EventType::FunctionConstructor, EventType::FunctionConstructor) => true,
        (EventType::StringDecode, EventType::StringDecode) => true,
        (EventType::Timer, EventType::Timer) => true,
        (EventType::Random, EventType::Random) => true,
        (EventType::Network, EventType::Network) => true,
        (EventType::Storage, EventType::Storage) => true,
        (EventType::System, EventType::System) => true,
        (EventType::Crypto, EventType::Crypto) => true,
        (EventType::Evasion, EventType::Evasion) => true,
        (EventType::DOM, EventType::DOM) => true,
        (EventType::Other(x), EventType::Other(y)) => same_text(x.as_str(), y.as_str()),
        _ => false,
    }
}

/// Whether two logs have the same sequence of event types.
fn same_shape(a: &Vec<LogEntry>, b: &Vec<LogEntry>) -> (r: bool)
    ensures
        r == (log_shape(a@) == log_shape(b@)),
{
    if a.len() != b.len() {
        assert(log_shape(a@).len() != log_shape(b@).len());
        return false;
    }
    let mut i: usize = 0;
    while i < a.len()
        invariant
            a@.len() == b@.len(),
            i <= a@.len(),
            forall|k: int| 0 <= k < i ==> #[trigger] log_shape(a@)[k] == log_shape(b@)[k],
        decreases a@.len() - i,
    {
        if !same_event(&a[i].event_type, &b[i].event_type) {
            assert(log_shape(a@)[i as int] != log_shape(b@)[i as int]);
            return false;
        }
        i = i + 1;
    }
    assert(log_shape(a@) =~= log_shape(b@));
    true
}

/// Adding `x` to a list without repeats that covers `s`: the list then covers
/// `s` with `x` added, still without repeats.
proof fn lemma_add_distinct<A>(reps: Seq<A>, s: Set<A>, x: A, present: bool)
    requires
        reps.no_duplicates(),
        reps.to_set() == s,
        present == reps.contains(x),
    ensures
        present ==> s.insert(x) == s,
        !present ==> reps.push(x).no_duplicates() && reps.push(x).to_set() == s.insert(x),
{
    if present {
        assert(s.contains(x));
        assert(s.insert(x) =~= s);
    } else {
        reps.lemma_push_to_set_commute(x);
        assert(reps.push(x).no_duplicates()) by {
            assert forall|i: int, j: int|
                0 <= i < reps.len() + 1 && 0 <= j < reps.len() + 1 && i != j implies reps.push(x)[i]
                != reps.push(x)[j] by {
                if i == reps.len() {
                    assert(reps.push(x)[j] == reps[j]);
                } else if j == reps.len() {
                    assert(reps.push(x)[i] == reps[i]);
                }
            }
        }
    }
}

/// The number of different texts among `texts`, leaving out the empty text
/// when `skip_empty`.
fn count_distinct_texts(texts: &Vec<String>, skip_empty: bool) -> (n: usize)
    ensures
        !skip_empty ==> n == texts@.map_values(|s: String| s@).to_set().len(),
        skip_empty ==> n == texts@.map_values(|s: String| s@).to_set().remove(seq![]).len(),
{
    let ghost all = texts@.map_values(|s: String| s@);
    let mut reps: Vec<String> = Vec::new();
    let ghost mut rv: Seq<Seq<char>> = seq![];
    let mut i: usize = 0;
    assert(all.take(0).to_set() =~= Set::<Seq<char>>::empty());
    assert(rv.to_set() =~= Set::<Seq<char>>::empty());
    while i < texts.len()
        invariant
            all == texts@.map_values(|s: String| s@),
            i <= texts@.len(),
            rv == reps@.map_values(|s: String| s@),
            rv.no_duplicates(),
            !skip_empty ==> rv.to_set() == all.take(i as int).to_set(),
            skip_empty ==> rv.to_set() == all.take(i as int).to_set().remove(seq![]),
            reps@.len() <= i,
        decreases texts@.len() - i,
    {
        let t = &texts[i];
        let ghost x = t@;
        proof {
            assert(all.take(i + 1) =~= all.take(i as int).push(x));
            all.take(i as int).lemma_push_to_set_commute(x);
        }
        if skip_empty && t.as_str().is_empty() {
            proof {
                assert(x == Seq::<char>::empty());
                assert(all.take(i + 1).to_set().remove(seq![]) =~= all.take(i as int).to_set().remove(
                    seq![],
                ));
            }
        } else {
            let mut present = false;
            let mut j: usize = 0;
            while j < reps.len()
                invariant
                    j <= reps@.len(),
                    x == t@,
                    rv == reps@.map_values(|s: String| s@),
                    present == exists|k: int| 0 <= k < j && rv[k] == x,
                decreases reps@.len() - j,
            {
                assert(rv[j as int] == reps@[j as int]@);
                if same_text(reps[j].as_str(), t.as_str()) {
                    present = true;
                }
                j = j + 1;
            }
            proof {
                if present {
                    let k = choose|k: int| 0 <= k < reps@.len() && rv[k] == x;
                    assert(rv.contains(x));
                }
                let s_now = rv.to_set();
                lemma_add_distinct(rv, s_now, x, present);
                if skip_empty {
                    assert(x != Seq::<char>::empty());
                    assert(all.take(i + 1).to_set().remove(seq![]) =~= all.take(i as int).to_set().remove(
                        seq![],
                    ).insert(x));
                }
            }
            if !present {
                let c = t.clone();
                reps.push(c);
                proof {
                    rv = rv.push(x);
                    assert(reps@.map_values(|s: String| s@) =~= rv);
                }
            }
        }
        i = i + 1;
    }
    proof {
        assert(all.take(texts@.len() as int) =~= all);
        rv.unique_seq_to_set();
    }
    reps.len()
}

/// Variance metrics of a list of results: the number of different returned
/// texts, of different non-empty errors, the least and greatest instruction
/// counts, and the number of different sequences of event types.
fn calculate_variance(results: &Vec<ExecutionResult>) -> (v: EnvironmentVariance)
    ensures
        v.unique_return_values == distinct_returns(results@),
        v.unique_errors == distinct_errors(results@),
        is_count_range(results@, v.instruction_count_range),
        v.unique_log_patterns == distinct_shapes(results@),
{
    let mut returned: Vec<String> = Vec::new();
    let mut errors: Vec<String> = Vec::new();
    let mut i: usize = 0;
    while i < results.len()
        invariant
            i <= results@.len(),
            returned@.len() == i,
            errors@.len() == i,
            forall|k: int| 0 <= k < i ==> #[trigger] returned@[k]@ == returned_text(results@[k]),
            forall|k: int| 0 <= k < i ==> #[trigger] errors@[k]@ == error_text_of(results@[k]),
        decreases results@.len() - i,
    {
        let r = &results[i];
        let t = match &r.return_value {
            Some(s) => s.clone(),
            None => String::new(),
        };
        let e = match &r.error {
            Some(s) => s.clone(),
            None => String::new(),
        };
        returned.push(t);
        errors.push(e);
        i = i + 1;
    }
    let unique_return_values = count_distinct_texts(&returned, false);
    let unique_errors = count_distinct_texts(&errors, true);
    proof {
        assert(returned@.map_values(|s: String| s@) =~= results@.map_values(
            |r: ExecutionResult| returned_text(r),
        ));
        assert(errors@.map_values(|s: String| s@) =~= results@.map_values(
            |r: ExecutionResult| error_text_of(r),
        ));
    }
    let instruction_count_range = count_range(results);
    let unique_log_patterns = count_distinct_shapes(results);
    EnvironmentVariance {
        unique_return_values,
        unique_errors,
        instruction_count_range,
        unique_log_patterns,
    }
}

/// The least and greatest instruction counts, (0, 0) for no results.
fn count_range(results: &Vec<ExecutionResult>) -> (range: (u64, u64))
    ensures
        is_count_range(results@, range),
{
    if results.len() == 0 {
        return (0, 0);
    }
    let mut lo = results[0].instruction_count;
    let mut hi = results[0].instruction_count;
    let mut i: usize = 1;
    while i < results.len()
        invariant
            1 <= i <= results@.len(),
            exists|k: int| 0 <= k < i && results@[k].instruction_count == lo,
            exists|k: int| 0 <= k < i && results@[k].instruction_count == hi,
            forall|k: int| 0 <= k < i ==> lo <= #[trigger] results@[k].instruction_count <= hi,
        decreases results@.len() - i,
    {
        let c = results[i].instruction_count;
        if c < lo {
            lo = c;
        }
        if c > hi {
            hi = c;
        }
        i = i + 1;
    }
    (lo, hi)
}

/// The number of different sequences of event types among the results.
fn count_distinct_shapes(results: &Vec<ExecutionResult>) -> (n: usize)
    ensures
        n == distinct_shapes(results@),
{
    let ghost all = results@.map_values(|r: ExecutionResult| result_shape(r));
    let mut reps: Vec<usize> = Vec::new();
    let ghost mut rv: Seq<Seq<(nat, Seq<char>)>> = seq![];
    let mut i: usize = 0;
    assert(all.take(0).to_set() =~= Set::<Seq<(nat, Seq<char>)>>::empty());
    assert(rv.to_set() =~= Set::<Seq<(nat, Seq<char>)>>::empty());
    while i < results.len()
        invariant
            all == results@.map_values(|r: ExecutionResult| result_shape(r)),
            i <= results@.len(),
            reps@.len() == rv.len(),
            forall|k: int| 0 <= k < reps@.len() ==> #[trigger] reps@[k] < i,
            forall|k: int| 0 <= k < reps@.len() ==> rv[k] == result_shape(results@[#[trigger] reps@[k] as int]),
            rv.no_duplicates(),
            rv.to_set() == all.take(i as int).to_set(),
            reps@.len() <= i,
        decreases results@.len() - i,
    {
        let ghost x = result_shape(results@[i as int]);
        proof {
            assert(all.take(i + 1) =~= all.take(i as int).push(x));
            all.take(i as int).lemma_push_to_set_commute(x);
        }
        let mut present = false;
        let mut j: usize = 0;
        while j < reps.len()
            invariant
                j <= reps@.len() == rv.len(),
                i < results@.len(),
                x == result_shape(results@[i as int]),
                forall|k: int| 0 <= k < reps@.len() ==> #[trigger] reps@[k] < i,
                forall|k: int| 0 <= k < reps@.len() ==> rv[k] == result_shape(results@[#[trigger] reps@[k] as int]),
                present == exists|k: int| 0 <= k < j && rv[k] == x,
            decreases reps@.len() - j,
        {
            let r = reps[j];
            if same_shape(&results[r].logs, &results[i].logs) {
                present = true;
            }
            j = j + 1;
        }
        proof {
            if present {
                let k = choose|k: int| 0 <= k < reps@.len() && rv[k] == x;
                assert(rv.contains(x));
            }
            lemma_add_distinct(rv, rv.to_set(), x, present);
        }
        if !present {
            reps.push(i);
            proof {
                rv = rv.push(x);
            }
        }
        i = i + 1;
    }
    proof {
        assert(all.take(results@.len() as int) =~= all);
        rv.unique_seq_to_set();
    }
    reps.len()
}

/// The variance counts never exceed the number of runs, so a script run in
/// a single environment is always consistent.
pub proof fn law_variance_bounded(rs: Seq<ExecutionResult>)
    ensures
        distinct_returns(rs) <= rs.len(),
        distinct_errors(rs) <= rs.len(),
        distinct_shapes(rs) <= rs.len(),
        rs.len() <= 1 ==> distinct_returns(rs) <= 1 && distinct_errors(rs) <= 1 && distinct_shapes(rs)
            <= 1,
{
    let rets = rs.map_values(|r: ExecutionResult| returned_text(r));
    let errors = rs.map_values(|r: ExecutionResult| error_text_of(r));
    let shapes = rs.map_values(|r: ExecutionResult| result_shape(r));
    rets.lemma_cardinality_of_set();
    errors.lemma_cardinality_of_set();
    shapes.lemma_cardinality_of_set();
    vstd::seq_lib::seq_to_set_is_finite(errors);
    vstd::set::axiom_set_remove_len(errors.to_set(), seq![]);
}

/// Runs that all return the same text, all end with the same error text (or
/// none) and all show the same sequence of event types are consistent.
pub proof fn law_uniform_runs_are_consistent(rs: Seq<ExecutionResult>)
    requires
        rs.len() > 0,
        forall|i: int|
            0 <= i < rs.len() ==> returned_text(#[trigger] rs[i]) == returned_text(rs[0])
                && error_text_of(rs[i]) == error_text_of(rs[0]) && result_shape(rs[i]) == result_shape(
                rs[0],
            ),
    ensures
        distinct_returns(rs) <= 1,
        distinct_errors(rs) <= 1,
        distinct_shapes(rs) <= 1,
{
    let rets = rs.map_values(|r: ExecutionResult| returned_text(r));
    let errors = rs.map_values(|r: ExecutionResult| error_text_of(r));
    let shapes = rs.map_values(|r: ExecutionResult| result_shape(r));
    let one_return = set![returned_text(rs[0])];
    let one_error = set![error_text_of(rs[0])];
    let one_shape = set![result_shape(rs[0])];
    assert(shapes.to_set().subset_of(one_shape)) by {
        assert forall|t: Seq<(nat, Seq<char>)>| shapes.to_set().contains(t) implies one_shape.contains(t) by {
            assert(shapes.contains(t));
            let i = choose|i: int| 0 <= i < shapes.len() && shapes[i] == t;
            assert(result_shape(rs[i]) == result_shape(rs[0]));
        }
    }
    vstd::set_lib::lemma_len_subset(shapes.to_set(), one_shape);
    assert(rets.to_set().subset_of(one_return)) by {
        assert forall|t: Seq<char>| rets.to_set().contains(t) implies one_return.contains(t) by {
            assert(rets.contains(t));
            let i = choose|i: int| 0 <= i < rets.len() && rets[i] == t;
            assert(returned_text(rs[i]) == returned_text(rs[0]));
        }
    }
    assert(errors.to_set().subset_of(one_error)) by {
        assert forall|t: Seq<char>| errors.to_set().contains(t) implies one_error.contains(t) by {
            assert(errors.contains(t));
            let i = choose|i: int| 0 <= i < errors.len() && errors[i] == t;
            assert(error_text_of(rs[i]) == error_text_of(rs[0]));
        }
    }
    vstd::set_lib::lemma_len_subset(rets.to_set(), one_return);
    vstd::set_lib::lemma_len_subset(errors.to_set(), one_error);
    vstd::seq_lib::seq_to_set_is_finite(errors);
    vstd::set::axiom_set_remove_len(errors.to_set(), seq![]);
}

/// The variance depends only on which results were seen, not on their order
/// or on repeats: runs with the same results have the same numbers of
/// distinct returns, errors and event sequences, and the same least and
/// greatest instruction counts.
pub proof fn law_variance_ignores_order(rs1: Seq<ExecutionResult>, rs2: Seq<ExecutionResult>, range: (u64, u64))
    requires
        rs1.to_set() == rs2.to_set(),
    ensures
        distinct_returns(rs1) == distinct_returns(rs2),
        distinct_errors(rs1) == distinct_errors(rs2),
        distinct_shapes(rs1) == distinct_shapes(rs2),
        is_count_range(rs1, range) <==> is_count_range(rs2, range),
{
    let fr = |r: ExecutionResult| returned_text(r);
    let fe = |r: ExecutionResult| error_text_of(r);
    let fs = |r: ExecutionResult| result_shape(r);
    rs1.lemma_to_set_map_commutes(fr);
    rs2.lemma_to_set_map_commutes(fr);
    rs1.lemma_to_set_map_commutes(fe);
    rs2.lemma_to_set_map_commutes(fe);
    rs1.lemma_to_set_map_commutes(fs);
    rs2.lemma_to_set_map_commutes(fs);
    assert(rs1.len() == 0 <==> rs2.len() == 0) by {
        rs1.lemma_cardinality_of_empty_set_is_0();
        rs2.lemma_cardinality_of_empty_set_is_0();
    }
    assert forall|k: int| 0 <= k < rs1.len() implies rs2.contains(#[trigger] rs1[k]) by {
        assert(rs1.to_set().contains(rs1[k]));
    }
    assert forall|k: int| 0 <= k < rs2.len() implies rs1.contains(#[trigger] rs2[k]) by {
        assert(rs2.to_set().contains(rs2[k]));
    }
}

/// A script run at least once has at least one returned text (an absent
/// value reads as empty) and at least one sequence of event types.
pub proof fn law_variance_nonempty(rs: Seq<ExecutionResult>)
    requires
        rs.len() > 0,
    ensures
        distinct_returns(rs) >= 1,
        distinct_shapes(rs) >= 1,
{
    rs.map_values(|r: ExecutionResult| returned_text(r)).lemma_cardinality_of_empty_set_is_0();
    rs.map_values(|r: ExecutionResult| result_shape(r)).lemma_cardinality_of_empty_set_is_0();
}

/// Errors of the sandbox.
#[derive(Debug)]
pub enum SandboxError {
    /// The runtime could not be set up.
    InitializationError(String),
    /// The instruction budget was exceeded.
    InstructionLimitExceeded(u64),
    /// The wall-clock budget, in milliseconds, was exceeded.
    TimeLimitExceeded(u64),
    /// The memory ceiling was exceeded.
    MemoryLimitExceeded,
    /// The script failed.
    ExecutionError(String),
    /// The limits are not valid.
    InvalidLimits(String),
    /// The engine failed.
    EngineError(String),
}

/// The message of a sandbox error.
pub open spec fn sandbox_error_text(e: SandboxError) -> Seq<char> {
    match e {
        SandboxError::InitializationError(s) => "Failed to initialize runtime: "@ + s@,
        SandboxError::InstructionLimitExceeded(n) => "Execution exceeded instruction limit ("@
            + decimal(n as nat) + " instructions)"@,
        SandboxError::TimeLimitExceeded(ms) => "Execution exceeded time limit ("@ + duration_text(
            ms as nat,
        ) + ")"@,
        SandboxError::MemoryLimitExceeded => "Execution exceeded memory limit"@,
        SandboxError::ExecutionError(s) => "JavaScript execution error: "@ + s@,
        SandboxError::InvalidLimits(s) => "Invalid limits: "@ + s@,
        SandboxError::EngineError(s) => "Engine error: "@ + s@,
    }
}

impl SandboxError {
    /// The message of the error.
    pub fn to_string(&self) -> (r: String)
        ensures
            r@ == sandbox_error_text(*self),
    {
        match self {
            SandboxError::InitializationError(s) => {
                let mut r = String::from_str("Failed to initialize runtime: ");
                r.append(s.as_str());
                r
            },
            SandboxError::InstructionLimitExceeded(n) => {
                let mut r = String::from_str("Execution exceeded instruction limit (");
                let d = decimal_string(*n);
                r.append(d.as_str());
                r.append(" instructions)");
                r
            },
            SandboxError::TimeLimitExceeded(ms) => {
                let mut r = String::from_str("Execution exceeded time limit (");
                let d = duration_string(*ms);
                r.append(d.as_str());
                r.append(")");
                r
            },
            SandboxError::MemoryLimitExceeded => String::from_str("Execution exceeded memory limit"),
            SandboxError::ExecutionError(s) => {
                let mut r = String::from_str("JavaScript execution error: ");
                r.append(s.as_str());
                r
            },
            SandboxError::InvalidLimits(s) => {
                let mut r = String::from_str("Invalid limits: ");
                r.append(s.as_str());
                r
            },
            SandboxError::EngineError(s) => {
                let mut r = String::from_str("Engine error: ");
                r.append(s.as_str());
                r
            },
        }
    }
}

/// The engine a sandbox runs scripts through: the library's QuickJS engine,
/// or one the caller gave.
pub enum EngineSlot {
    QuickJs(RQuickJsEngine),
    Custom(Box<dyn SandboxEngine>),
}

/// What a QuickJS run of `code` under `limits` gives back: the findings and
/// the risk score of the static scan of the code, an outcome that follows
/// from what the engine answered under these budgets (see `run_outcome`),
/// and at most 1000 log entries.
pub open spec fn quickjs_result(code: Seq<char>, limits: ExecutionLimits, res: ExecutionResult) -> bool {
    &&& crate::static_analysis::findings_of(res.analysis.static_analysis.patterns_found@)
        == crate::static_analysis::findings(
        crate::static_analysis::pattern_table(),
        crate::text::lines_of(code),
    )
    &&& res.analysis.static_analysis.risk_score == crate::static_analysis::risk_of(
        crate::static_analysis::findings_of(res.analysis.static_analysis.patterns_found@),
    )
    &&& exists|t: RunTrace|
        (res.completed, match res.error {
            Some(s) => Some(s@),
            None => None,
        }, match res.return_value {
            Some(s) => Some(s@),
            None => None,
        }) == #[trigger] run_outcome(code, t, limits.max_wall_time_ms as nat, limits.max_instructions as nat)
    &&& res.logs@.len() <= 1000
}

/// A JavaScript sandbox: limits, an environment, and the engine that runs
/// scripts.
pub struct Sandbox {
    limits: ExecutionLimits,
    env: Environment,
    engine: EngineSlot,
}

impl Sandbox {
    /// The limits of the sandbox.
    pub closed spec fn limits(&self) -> ExecutionLimits {
        self.limits
    }

    /// The environment of the sandbox.
    pub closed spec fn environment(&self) -> Environment {
        self.env
    }

    /// The engine the sandbox runs scripts through.
    pub closed spec fn engine(&self) -> EngineSlot {
        self.engine
    }

    /// A sandbox with `limits`, the default environment and the QuickJS
    /// engine; refused with the validation message when the limits are not
    /// valid.
    pub fn new(limits: ExecutionLimits) -> (r: Result<Self, SandboxError>)
        ensures
            r is Ok <==> limits.is_valid(),
            r matches Ok(s) ==> s.limits() == limits && s.environment().is(
                42,
                1640000000000,
                crate::environment::chrome_windows_agent(),
            ) && s.engine() is QuickJs,
            r matches Err(e) ==> e is InvalidLimits && (limits.max_instructions == 0 ==> e->InvalidLimits_0@
                == crate::limits::zero_instructions_message()) && (limits.max_instructions > 0
                && limits.max_memory_bytes == 0 ==> e->InvalidLimits_0@
                == crate::limits::zero_memory_message()) && (limits.max_instructions > 0
                && limits.max_memory_bytes > 0 ==> e->InvalidLimits_0@
                == crate::limits::zero_time_message()),
    {
        match limits.validate() {
            Ok(()) => Ok(
                Sandbox {
                    limits,
                    env: Environment::default(),
                    engine: EngineSlot::QuickJs(RQuickJsEngine::new()),
                },
            ),
            Err(m) => Err(SandboxError::InvalidLimits(m)),
        }
    }

    /// The same sandbox in environment `env`.
    pub fn with_environment(self, env: Environment) -> (s: Self)
        ensures
            s.limits() == self.limits(),
            s.environment() == env,
            s.engine() == self.engine(),
    {
        let mut s = self;
        s.env = env;
        s
    }

    /// The same sandbox, running its scripts through `engine`.
    pub fn with_engine(self, engine: Box<dyn SandboxEngine>) -> (s: Self)
        ensures
            s.limits() == self.limits(),
            s.environment() == self.environment(),
            s.engine() is Custom,
    {
        let mut s = self;
        s.engine = EngineSlot::Custom(engine);
        s
    }

    /// What the sandbox reports for what its engine returned: the engine's
    /// result as it is, or its error as `EngineError` with the engine's
    /// message.
    pub fn from_engine(r: Result<ExecutionResult, EngineError>) -> (out: Result<ExecutionResult, SandboxError>)
        ensures
            r matches Ok(res) ==> out == Ok::<ExecutionResult, SandboxError>(res),
            r matches Err(e) ==> (out matches Err(SandboxError::EngineError(m)) && m@ == engine_error_text(e)),
    {
        match r {
            Ok(res) => Ok(res),
            Err(e) => Err(SandboxError::EngineError(e.to_string())),
        }
    }

    /// One run of `code` through the sandbox's engine with its limits, in
    /// `env`, as `execute` describes it.
    fn run_engine(&self, code: &str, env: &Environment) -> (r: Result<ExecutionResult, SandboxError>)
        requires
            !StaticAnalysis::scan_cuts_char(code@),
        ensures
            r matches Ok(res) ==> res.env.is(env.random_seed, env.frozen_timestamp, env.user_agent@),
            r matches Err(e) ==> e is EngineError,
            r matches Err(SandboxError::EngineError(m)) ==> exists|e: EngineError|
                #[trigger] engine_error_text(e) == m@,
            self.engine() is QuickJs ==> (r matches Ok(res) ==> quickjs_result(code@, self.limits(), res)),
            self.engine() is QuickJs ==> (r matches Err(SandboxError::EngineError(m))
                ==> "Initialization error: "@.is_prefix_of(m@)),
    {
        match &self.engine {
            EngineSlot::QuickJs(e) => {
                let out = e.execute(code, &self.limits, env);
                proof {
                    if out is Err {
                        let x = out->Err_0;
                        if x is Initialization {
                            let d = x->Initialization_0;
                            assert(("Initialization error: "@ + d@).take("Initialization error: "@.len() as int)
                                =~= "Initialization error: "@);
                        }
                    }
                }
                Self::from_engine(out)
            },
            EngineSlot::Custom(e) => Self::from_engine(e.execute(code, &self.limits, env)),
        }
    }

    /// Runs `code` through the engine with the sandbox's limits and
    /// environment; an engine error comes back as `EngineError` with the
    /// engine's message. Through the QuickJS engine, a result carries the
    /// static scan of the code and an outcome under the sandbox's budgets,
    /// and an error is an initialization error.
    pub fn execute(&self, code: &str) -> (r: Result<ExecutionResult, SandboxError>)
        requires
            !StaticAnalysis::scan_cuts_char(code@),
        ensures
            r matches Ok(res) ==> res.env.is(
                self.environment().random_seed,
                self.environment().frozen_timestamp,
                self.environment().user_agent@,
            ),
            r matches Err(e) ==> e is EngineError,
            r matches Err(SandboxError::EngineError(m)) ==> exists|e: EngineError|
                #[trigger] engine_error_text(e) == m@,
            self.engine() is QuickJs ==> (r matches Ok(res) ==> quickjs_result(code@, self.limits(), res)),
            self.engine() is QuickJs ==> (r matches Err(SandboxError::EngineError(m))
                ==> "Initialization error: "@.is_prefix_of(m@)),
    {
        self.run_engine(code, &self.env)
    }

    /// Runs `code` in each of `environments`, in order, and compares the
    /// results; the runs are consistent when they all behaved the same: at
    /// most one returned text, at most one non-empty error text and at most
    /// one sequence of event types were seen. The first engine error stops
    /// the runs.
    pub fn execute_multi(&self, code: &str, environments: &[Environment]) -> (r: Result<
        MultiEnvironmentResult,
        SandboxError,
    >)
        requires
            !StaticAnalysis::scan_cuts_char(code@),
        ensures
            r matches Ok(m) ==> {
                &&& m.results@.len() == environments@.len()
                &&& m.variance.unique_return_values == distinct_returns(m.results@)
                &&& m.variance.unique_errors == distinct_errors(m.results@)
                &&& is_count_range(m.results@, m.variance.instruction_count_range)
                &&& m.variance.unique_log_patterns == distinct_shapes(m.results@)
                &&& m.consistent == (m.variance.unique_return_values <= 1
                    && m.variance.unique_errors <= 1 && m.variance.unique_log_patterns <= 1)
                &&& forall|i: int|
                    0 <= i < m.results@.len() ==> (#[trigger] m.results@[i]).env.is(
                        environments@[i].random_seed,
                        environments@[i].frozen_timestamp,
                        environments@[i].user_agent@,
                    )
            },
            environments@.len() == 0 ==> r is Ok,
            r matches Err(e) ==> e is EngineError,
            r matches Err(SandboxError::EngineError(m)) ==> exists|e: EngineError|
                #[trigger] engine_error_text(e) == m@,
            self.engine() is QuickJs ==> (r matches Ok(m) ==> forall|i: int|
                0 <= i < m.results@.len() ==> quickjs_result(code@, self.limits(), #[trigger] m.results@[i])),
            self.engine() is QuickJs ==> (r matches Err(SandboxError::EngineError(m))
                ==> "Initialization error: "@.is_prefix_of(m@)),
    {
        let mut results: Vec<ExecutionResult> = Vec::new();
        let mut i: usize = 0;
        while i < environments.len()
            invariant
                i <= environments@.len(),
                results@.len() == i,
                !StaticAnalysis::scan_cuts_char(code@),
                forall|k: int|
                    0 <= k < i ==> (#[trigger] results@[k]).env.is(
                        environments@[k].random_seed,
                        environments@[k].frozen_timestamp,
                        environments@[k].user_agent@,
                    ),
                self.engine() is QuickJs ==> forall|k: int|
                    0 <= k < i ==> quickjs_result(code@, self.limits(), #[trigger] results@[k]),
            decreases environments@.len() - i,
        {
            match self.run_engine(code, &environments[i]) {
                Ok(res) => results.push(res),
                Err(e) => {
                    return Err(e);
                },
            }
            i = i + 1;
        }
        let variance = calculate_variance(&results);
        let consistent = variance.unique_return_values <= 1 && variance.unique_errors <= 1
            && variance.unique_log_patterns <= 1;
        Ok(MultiEnvironmentResult { results, consistent, variance })
    }

    /// Runs `code` in several environments as `execute_multi` does, when its
    /// static scan can be reported; `None` when a context of the scan would
    /// have to be cut inside a character.
    pub fn try_execute_multi(&self, code: &str, environments: &[Environment]) -> (r: Option<
        Result<MultiEnvironmentResult, SandboxError>,
    >)
        ensures
            r is None <==> StaticAnalysis::scan_cuts_char(code@),
            r matches Some(Ok(m)) ==> {
                &&& m.results@.len() == environments@.len()
                &&& m.variance.unique_return_values == distinct_returns(m.results@)
                &&& m.variance.unique_errors == distinct_errors(m.results@)
                &&& is_count_range(m.results@, m.variance.instruction_count_range)
                &&& m.variance.unique_log_patterns == distinct_shapes(m.results@)
                &&& m.consistent == (m.variance.unique_return_values <= 1
                    && m.variance.unique_errors <= 1 && m.variance.unique_log_patterns <= 1)
                &&& forall|i: int|
                    0 <= i < m.results@.len() ==> (#[trigger] m.results@[i]).env.is(
                        environments@[i].random_seed,
                        environments@[i].frozen_timestamp,
                        environments@[i].user_agent@,
                    )
            },
            !StaticAnalysis::scan_cuts_char(code@) && environments@.len() == 0 ==> r matches Some(Ok(_)),
            r matches Some(Err(e)) ==> e is EngineError,
            self.engine() is QuickJs ==> (r matches Some(Ok(m)) ==> forall|i: int|
                0 <= i < m.results@.len() ==> quickjs_result(code@, self.limits(), #[trigger] m.results@[i])),
    {
        match StaticAnalysis::try_analyze(code) {
            None => None,
            Some(_) => Some(self.execute_multi(code, environments)),
        }
    }

    /// Runs `code` as `execute` does, when its static scan can be reported;
    /// `None` when a context of the scan would have to be cut inside a
    /// character.
    pub fn try_execute(&self, code: &str) -> (r: Option<Result<ExecutionResult, SandboxError>>)
        ensures
            r is None <==> StaticAnalysis::scan_cuts_char(code@),
            r matches Some(Ok(res)) ==> res.env.is(
                self.environment().random_seed,
                self.environment().frozen_timestamp,
                self.environment().user_agent@,
            ),
            r matches Some(Err(e)) ==> e is EngineError,
            self.engine() is QuickJs ==> (r matches Some(Ok(res)) ==> quickjs_result(code@, self.limits(), res)),
            self.engine() is QuickJs ==> (r matches Some(Err(SandboxError::EngineError(m)))
                ==> "Initialization error: "@.is_prefix_of(m@)),
    {
        match StaticAnalysis::try_analyze(code) {
            None => None,
            Some(_) => Some(self.execute(code)),
        }
    }
}

} // verus!
