//! A sandbox harness for behavioural analysis of untrusted JavaScript.
//!
//! The library pairs a pattern scan of the source text with an instrumented
//! run of the script in an embedded QuickJS engine, bounded by resource limits.

pub mod engine;
pub mod environment;
pub mod features;
pub mod instrumentation;
pub mod limits;
mod pattern;
pub mod platform;
pub mod sandbox;
pub mod static_analysis;
pub mod text;

pub use engine::{get_default_engine, EngineError, SandboxEngine};
pub use features::Classification;
pub use limits::{ExecutionLimits, LimitTier};
pub use platform::{default_limits_tier, IS_WASM, PLATFORM};
pub use sandbox::{ExecutionResult, Sandbox, SandboxError};
