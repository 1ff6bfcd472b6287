//! Script engines: the interface a sandbox runs scripts through, and the
//! QuickJS engine that implements it.

mod guard;
pub mod hooks;
pub mod native;
mod quickjs;
pub mod scripts;

use vstd::prelude::*;
use crate::environment::Environment;
use crate::limits::ExecutionLimits;
use crate::sandbox::ExecutionResult;
use crate::static_analysis::StaticAnalysis;
pub use native::RQuickJsEngine;

verus! {

/// Errors of an engine.
#[derive(Debug)]
pub enum EngineError {
    /// The engine could not be set up.
    Initialization(String),
    /// The engine failed while running.
    Execution(String),
    /// A resource limit was exceeded.
    LimitExceeded(String),
}

/// The message of an engine error.
pub open spec fn engine_error_text(e: EngineError) -> Seq<char> {
    match e {
        EngineError::Initialization(s) => "Initialization error: "@ + s@,
        EngineError::Execution(s) => "Execution error: "@ + s@,
        EngineError::LimitExceeded(s) => "Resource limit exceeded: "@ + s@,
    }
}

impl EngineError {
    /// The message of the error.
    pub fn to_string(&self) -> (r: String)
        ensures
            r@ == engine_error_text(*self),
    {
        let (prefix, detail) = match self {
            EngineError::Initialization(s) => ("Initialization error: ", s),
            EngineError::Execution(s) => ("Execution error: ", s),
            EngineError::LimitExceeded(s) => ("Resource limit exceeded: ", s),
        };
        let mut r = String::from_str(prefix);
        r.append(detail.as_str());
        r
    }
}

/// An engine that runs a script under limits in an environment.
pub trait SandboxEngine: Send + Sync {
    /// Runs `code` with `limits` in `env`; a result carries the environment
    /// it ran in.
    fn execute(&self, code: &str, limits: &ExecutionLimits, env: &Environment) -> (r: Result<
        ExecutionResult,
        EngineError,
    >)
        requires
            !StaticAnalysis::scan_cuts_char(code@),
        ensures
            r matches Ok(res) ==> res.env.is(env.random_seed, env.frozen_timestamp, env.user_agent@),
    ;
}


/// The engine for this platform: QuickJS.
pub fn get_default_engine() -> Box<dyn SandboxEngine> {
    Box::new(RQuickJsEngine::new())
}

} // verus!
