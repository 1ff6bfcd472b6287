use jsnabber_core::engine::hooks::fraction_bits;
use jsnabber_core::engine::native::{
    environment_setup, hook_setup, outcome_of_evaluation, outcome_of_module, outcome_of_report, run_plan,
};
use jsnabber_core::engine::scripts::{INSTRUMENTATION_JS, WINDOW_STUBS_JS};
use jsnabber_core::engine::hooks::{new_shared_log, record_shared, take_shared_log};
use std::sync::Arc;
use jsnabber_core::environment::Environment;
use jsnabber_core::{ExecutionLimits, Sandbox};

#[test]
fn module_retry_reports_module_loaded() {
    let o = outcome_of_module(Ok(()));
    assert!(o.completed);
    assert_eq!(o.return_value.as_deref(), Some("Module Loaded"));
    assert_eq!(o.error, None);
    let o = outcome_of_module(Err("SyntaxError".to_string()));
    assert!(!o.completed);
    assert_eq!(o.error.as_deref(), Some("SyntaxError"));
    assert_eq!(o.return_value, None);
}

#[test]
fn evaluation_outcomes() {
    let o = outcome_of_evaluation(Ok("2".to_string()));
    assert!(o.completed);
    assert_eq!(o.return_value.as_deref(), Some("2"));
    let o = outcome_of_evaluation(Err("ReferenceError".to_string()));
    assert!(!o.completed);
    assert_eq!(o.error.as_deref(), Some("ReferenceError"));
}

#[test]
fn interrupted_runs_report_the_budget_they_exceeded() {
    let o = outcome_of_report("InternalError: interrupted".to_string(), "Exception", true, 50, 10_000_000);
    assert!(!o.completed);
    assert_eq!(o.error.as_deref(), Some("Wall-time limit of 50ms exceeded"));
    let o = outcome_of_report("InternalError: interrupted".to_string(), "Exception", false, 5000, 10_000_000);
    assert_eq!(o.error.as_deref(), Some("Instruction limit of 10000000 exceeded"));
    let o = outcome_of_report(String::new(), "Exception", true, 1500, 1);
    assert_eq!(o.error.as_deref(), Some("Wall-time limit of 1.5s exceeded"));
    let o = outcome_of_report("TypeError: x is not a function".to_string(), "Exception", true, 50, 1);
    assert_eq!(o.error.as_deref(), Some("TypeError: x is not a function"));
}

#[test]
fn run_plan_hands_each_budget_where_it_belongs() {
    let limits = ExecutionLimits::custom(7, 1024, 100);
    let env = Environment::firefox_linux();
    let p = run_plan("1 + 1", &limits, &env);
    assert_eq!(p.memory_limit, 1024);
    assert_eq!(p.wall_ms, 100);
    assert_eq!(p.instructions, 7);
    assert_eq!(p.code, "1 + 1");
    assert_eq!(p.env.random_seed, 1337);
    assert_eq!(p.env.user_agent, env.user_agent);
}

#[test]
fn environment_setup_values() {
    let env = Environment::custom(5, 99, "agent/1");
    let s = environment_setup(&env);
    assert_eq!(s.seed, 5);
    assert_eq!(s.now_ms, 99);
    assert_eq!(s.user_agent, "agent/1");
    assert_eq!(s.platform, "Win32");
    assert_eq!(s.screen_width, 1920);
}

#[test]
fn fraction_bits_keep_the_high_53_bits() {
    assert_eq!(fraction_bits(u64::MAX), (1u64 << 53) - 1);
    assert_eq!(fraction_bits(1 << 11), 1);
    assert_eq!(fraction_bits(2047), 0);
}

#[test]
fn frozen_clock_and_seeded_random_in_a_run() {
    let sandbox = Sandbox::new(ExecutionLimits::backend())
        .unwrap()
        .with_environment(Environment::custom(3, 1234, "agent"));
    let code = "if (Date.now() !== 1234) { throw new Error('clock'); } \
                var r = Math.random(); if (!(r >= 0 && r < 1)) { throw new Error('random'); } 1";
    let result = sandbox.execute(code).unwrap();
    assert!(result.completed, "{:?}", result.error);
}

#[test]
fn runs_with_different_events_are_inconsistent() {
    let sandbox = Sandbox::new(ExecutionLimits::backend()).unwrap();
    let code = "if (navigator.userAgent.includes('Firefox')) { eval('1'); } 0";
    let multi = sandbox.execute_multi(code, &Environment::diverse_set()).unwrap();
    assert_eq!(multi.variance.unique_return_values, 1);
    assert_eq!(multi.variance.unique_errors, 0);
    assert_eq!(multi.variance.unique_log_patterns, 2);
    assert!(!multi.consistent);
    for (r, e) in multi.results.iter().zip(Environment::diverse_set().iter()) {
        assert_eq!(r.env.user_agent, e.user_agent);
    }
}

#[test]
fn hook_setup_values() {
    let log = new_shared_log();
    let h = hook_setup(Arc::clone(&log));
    assert_eq!(h.log_global, "__jsnabber_log");
    assert_eq!(h.atob_global, "__js_atob");
    assert!(Arc::ptr_eq(&h.log, &log));
    assert_eq!(h.scripts, vec![WINDOW_STUBS_JS, INSTRUMENTATION_JS]);
}

#[test]
fn variance_does_not_depend_on_the_order_of_environments() {
    let sandbox = Sandbox::new(ExecutionLimits::backend()).unwrap();
    let code = "navigator.userAgent.length > 80 ? 1 : 2";
    let forward = Environment::diverse_set();
    let mut backward = Environment::diverse_set();
    backward.reverse();
    let a = sandbox.execute_multi(code, &forward).unwrap();
    let b = sandbox.execute_multi(code, &backward).unwrap();
    assert_eq!(a.variance.unique_return_values, b.variance.unique_return_values);
    assert_eq!(a.variance.unique_errors, b.variance.unique_errors);
    assert_eq!(a.variance.unique_log_patterns, b.variance.unique_log_patterns);
    assert_eq!(a.consistent, b.consistent);
}

#[test]
fn shared_log_keeps_its_last_1000_events() {
    let log = new_shared_log();
    for i in 0..1200 {
        record_shared(&log, "timer".to_string(), Some(i.to_string()));
    }
    let taken = take_shared_log(&log);
    assert_eq!(taken.entries().len(), 1000);
    assert_eq!(taken.dropped_count(), 200);
    assert_eq!(taken.capacity(), 1000);
    // Slot 0 was last written by event 1000.
    assert_eq!(taken.entries()[0].payload.as_deref(), Some("1000"));
    // The shared log is empty again.
    assert_eq!(take_shared_log(&log).entries().len(), 0);
}
