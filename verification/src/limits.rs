//! Resource limits for a sandboxed run: instruction budget, memory ceiling and
//! wall-clock budget.

use vstd::prelude::*;

verus! {

/// Which preset a set of limits was built from.
#[derive(Debug, Clone, Copy, PartialEq, Eq, Structural)]
pub enum LimitTier {
    /// Strict limits for fast triage at the edge.
    Edge,
    /// Relaxed limits for deep analysis on a backend.
    Backend,
    /// Limits chosen by the caller.
    Custom,
}

/// Resource limits for one run of a script.
#[derive(Debug, Clone)]
pub struct ExecutionLimits {
    /// Maximum number of interpreter interrupt checks before the run is stopped.
    pub max_instructions: u64,
    /// Maximum memory the engine may allocate, in bytes.
    pub max_memory_bytes: usize,
    /// Maximum wall-clock time of a run, in milliseconds.
    pub max_wall_time_ms: u64,
    /// The preset these limits come from.
    pub tier: LimitTier,
}

/// The text of the error that `validate` reports for a zero instruction budget.
pub open spec fn zero_instructions_message() -> Seq<char> {
    "max_instructions must be > 0"@
}

/// The text of the error that `validate` reports for a zero memory ceiling.
pub open spec fn zero_memory_message() -> Seq<char> {
    "max_memory_bytes must be > 0"@
}

/// The text of the error that `validate` reports for a zero time budget.
pub open spec fn zero_time_message() -> Seq<char> {
    "max_wall_time must be > 0"@
}

/// The edge preset.
pub open spec fn edge_limits() -> ExecutionLimits {
    ExecutionLimits {
        max_instructions: 10_000_000,
        max_memory_bytes: 16_777_216usize,
        max_wall_time_ms: 50,
        tier: LimitTier::Edge,
    }
}

/// The backend preset.
pub open spec fn backend_limits() -> ExecutionLimits {
    ExecutionLimits {
        max_instructions: 100_000_000,
        max_memory_bytes: 134_217_728usize,
        max_wall_time_ms: 5000,
        tier: LimitTier::Backend,
    }
}

impl ExecutionLimits {
    /// Whether every budget is positive.
    pub open spec fn is_valid(&self) -> bool {
        &&& self.max_instructions > 0
        &&& self.max_memory_bytes > 0
        &&& self.max_wall_time_ms > 0
    }

    /// Edge tier: 10M interrupt checks, 16 MiB of memory, 50 ms of wall time.
    pub fn edge() -> (limits: Self)
        ensures
            limits.max_instructions == 10_000_000,
            limits.max_memory_bytes == 16 * 1024 * 1024,
            limits.max_wall_time_ms == 50,
            limits.tier == LimitTier::Edge,
            limits == edge_limits(),
    {
        ExecutionLimits {
            max_instructions: 10_000_000,
            max_memory_bytes: 16 * 1024 * 1024,
            max_wall_time_ms: 50,
            tier: LimitTier::Edge,
        }
    }

    /// Backend tier: 100M interrupt checks, 128 MiB of memory, 5 s of wall time.
    pub fn backend() -> (limits: Self)
        ensures
            limits.max_instructions == 100_000_000,
            limits.max_memory_bytes == 128 * 1024 * 1024,
            limits.max_wall_time_ms == 5000,
            limits.tier == LimitTier::Backend,
            limits == backend_limits(),
    {
        ExecutionLimits {
            max_instructions: 100_000_000,
            max_memory_bytes: 128 * 1024 * 1024,
            max_wall_time_ms: 5000,
            tier: LimitTier::Backend,
        }
    }

    /// Limits chosen by the caller; the tier is `Custom`.
    pub fn custom(max_instructions: u64, max_memory_bytes: usize, max_wall_time_ms: u64) -> (limits:
        Self)
        ensures
            limits.max_instructions == max_instructions,
            limits.max_memory_bytes == max_memory_bytes,
            limits.max_wall_time_ms == max_wall_time_ms,
            limits.tier == LimitTier::Custom,
    {
        ExecutionLimits { max_instructions, max_memory_bytes, max_wall_time_ms, tier: LimitTier::Custom }
    }

    /// Checks that every budget is positive; the first zero budget, in the
    /// order instructions, memory, time, names the error.
    pub fn validate(&self) -> (r: Result<(), String>)
        ensures
            r is Ok <==> self.is_valid(),
            self.max_instructions == 0 ==> (r matches Err(m) && m@ == zero_instructions_message()),
            self.max_instructions > 0 && self.max_memory_bytes == 0 ==> (r matches Err(m)
                && m@ == zero_memory_message()),
            self.max_instructions > 0 && self.max_memory_bytes > 0 && self.max_wall_time_ms == 0
                ==> (r matches Err(m) && m@ == zero_time_message()),
    {
        if self.max_instructions == 0 {
            return Err(String::from_str("max_instructions must be > 0"));
        }
        if self.max_memory_bytes == 0 {
            return Err(String::from_str("max_memory_bytes must be > 0"));
        }
        if self.max_wall_time_ms == 0 {
            return Err(String::from_str("max_wall_time must be > 0"));
        }
        Ok(())
    }
}

impl Default for ExecutionLimits {
    /// The edge tier.
    fn default() -> (limits: Self)
        ensures
            limits.max_instructions == 10_000_000,
            limits.max_memory_bytes == 16 * 1024 * 1024,
            limits.max_wall_time_ms == 50,
            limits.tier == LimitTier::Edge,
            limits == edge_limits(),
    {
        Self::edge()
    }
}

/// Both presets pass validation, and the backend tier is at least as
/// generous as the edge tier in every budget.
pub proof fn law_presets_valid_and_ordered()
    ensures
        edge_limits().is_valid(),
        backend_limits().is_valid(),
        edge_limits().max_instructions <= backend_limits().max_instructions,
        edge_limits().max_memory_bytes <= backend_limits().max_memory_bytes,
        edge_limits().max_wall_time_ms <= backend_limits().max_wall_time_ms,
{
}

} // verus!
