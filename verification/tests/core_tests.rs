use jsnabber_core::limits::LimitTier;
use jsnabber_core::platform::{default_limits_tier, IS_WASM, PLATFORM};
use jsnabber_core::{ExecutionLimits, Sandbox};

#[test]
fn test_basic_execution() {
    let sandbox = Sandbox::new(ExecutionLimits::edge()).unwrap();
    // Use a loop to ensure we trigger the sampled instruction counter (every ~1000 inst)
    let result = sandbox
        .execute("let x = 0; for(let i=0; i<2000; i++) { x++; } x;")
        .unwrap();
    assert!(result.completed);
    // Note: instruction_count may be 0 due to rquickjs's sampled interrupt handler
}

#[test]
fn test_edge_limits() {
    let limits = ExecutionLimits::edge();
    assert_eq!(limits.max_instructions, 10_000_000);
    assert_eq!(limits.tier, LimitTier::Edge);
    assert!(limits.validate().is_ok());
}

#[test]
fn test_backend_limits() {
    let limits = ExecutionLimits::backend();
    assert_eq!(limits.max_instructions, 100_000_000);
    assert_eq!(limits.tier, LimitTier::Backend);
    assert!(limits.validate().is_ok());
}

#[test]
fn test_custom_limits() {
    let limits = ExecutionLimits::custom(1_000_000, 8 * 1024 * 1024, 100);
    assert_eq!(limits.tier, LimitTier::Custom);
    assert!(limits.validate().is_ok());
}

#[test]
fn test_invalid_limits() {
    let limits = ExecutionLimits::custom(0, 1024, 100);
    assert!(limits.validate().is_err());
}

#[test]
fn test_platform_detection() {
    if IS_WASM {
        assert_eq!(PLATFORM, "wasm32");
    } else {
        assert_eq!(PLATFORM, "native");
    }
}

#[test]
fn test_default_limits() {
    let tier = default_limits_tier();
    if IS_WASM {
        assert_eq!(tier, LimitTier::Edge);
    } else {
        assert_eq!(tier, LimitTier::Backend);
    }
}
