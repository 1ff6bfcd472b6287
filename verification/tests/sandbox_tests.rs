use jsnabber_core::environment::Environment;
use jsnabber_core::instrumentation::EventType;
use jsnabber_core::{EngineError, ExecutionLimits, Sandbox, SandboxError};

#[test]
fn sandbox_refuses_invalid_limits_with_the_validation_message() {
    match Sandbox::new(ExecutionLimits::custom(0, 1024, 100)) {
        Err(SandboxError::InvalidLimits(m)) => assert_eq!(m, "max_instructions must be > 0"),
        _ => panic!("expected InvalidLimits"),
    }
    match Sandbox::new(ExecutionLimits::custom(10, 0, 100)) {
        Err(SandboxError::InvalidLimits(m)) => assert_eq!(m, "max_memory_bytes must be > 0"),
        _ => panic!("expected InvalidLimits"),
    }
    match Sandbox::new(ExecutionLimits::custom(10, 1024, 0)) {
        Err(e) => assert_eq!(e.to_string(), "Invalid limits: max_wall_time must be > 0"),
        Ok(_) => panic!("expected InvalidLimits"),
    }
}

#[test]
fn atob_is_hooked_and_logged() {
    let sandbox = Sandbox::new(ExecutionLimits::backend()).unwrap();
    let code = "if (atob('aGVsbG8=') !== 'hello') { throw new Error('bad decode'); } 1";
    let result = sandbox.execute(code).unwrap();
    assert!(result.completed, "{:?}", result.error);
    assert!(result.logs.iter().any(|l| l.event_type == EventType::StringDecode));
}

#[test]
fn consistent_script_across_environments() {
    let sandbox = Sandbox::new(ExecutionLimits::backend()).unwrap();
    let envs = Environment::diverse_set();
    let multi = sandbox.execute_multi("1 + 1", &envs).unwrap();
    assert_eq!(multi.results.len(), 3);
    assert_eq!(multi.variance.unique_return_values, 1);
    assert_eq!(multi.variance.unique_errors, 0);
    assert!(multi.consistent);
    let (lo, hi) = multi.variance.instruction_count_range;
    assert!(lo <= hi);
}

#[test]
fn environment_dependent_script_is_inconsistent() {
    let sandbox = Sandbox::new(ExecutionLimits::backend()).unwrap();
    let envs = Environment::diverse_set();
    let multi = sandbox.execute_multi("navigator.userAgent", &envs).unwrap();
    assert_eq!(multi.variance.unique_return_values, 3);
    assert!(!multi.consistent);
}

#[test]
fn same_seed_gives_same_random_numbers() {
    let envs = vec![
        Environment::custom(7, 0, "agent"),
        Environment::custom(7, 0, "agent"),
    ];
    let sandbox = Sandbox::new(ExecutionLimits::backend()).unwrap();
    let multi = sandbox.execute_multi("Math.random()", &envs).unwrap();
    assert_eq!(multi.variance.unique_return_values, 1);
    assert!(multi.consistent);
}

#[test]
fn no_environments_no_runs() {
    let sandbox = Sandbox::new(ExecutionLimits::edge()).unwrap();
    let multi = sandbox.execute_multi("1", &[]).unwrap();
    assert_eq!(multi.results.len(), 0);
    assert_eq!(multi.variance.instruction_count_range, (0, 0));
    assert!(multi.consistent);
}

#[test]
fn scan_that_would_cut_a_character_is_refused() {
    let sandbox = Sandbox::new(ExecutionLimits::edge()).unwrap();
    let code = format!("eval({}é{})", "a".repeat(91), "b".repeat(20));
    assert!(sandbox.try_execute(&code).is_none());
    assert!(sandbox.try_execute_multi(&code, &Environment::diverse_set()).is_none());
    assert!(sandbox.try_execute("1").is_some());
}

#[test]
fn sandbox_in_another_environment() {
    let sandbox = Sandbox::new(ExecutionLimits::backend())
        .unwrap()
        .with_environment(Environment::firefox_linux());
    let result = sandbox
        .execute("if (!navigator.userAgent.includes('Firefox')) { throw new Error('x'); } 2")
        .unwrap();
    assert!(result.completed, "{:?}", result.error);
    assert_eq!(result.env.random_seed, 1337);
}

#[test]
fn engine_errors_are_reported_with_the_engine_message() {
    let out = Sandbox::from_engine(Err(EngineError::LimitExceeded("Memory limit".to_string())));
    match out {
        Err(SandboxError::EngineError(m)) => assert_eq!(m, "Resource limit exceeded: Memory limit"),
        _ => panic!("expected EngineError"),
    }
}
