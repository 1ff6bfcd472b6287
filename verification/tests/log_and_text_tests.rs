use jsnabber_core::engine::hooks::{decode_for_atob, record_event};
use jsnabber_core::features::CallCounts;
use jsnabber_core::instrumentation::{EventType, InstrumentationLog};
use jsnabber_core::text::{decimal_string, duration_string};
use jsnabber_core::{EngineError, SandboxError};

fn payloads(log: &InstrumentationLog) -> Vec<String> {
    log.entries()
        .iter()
        .map(|e| e.payload.clone().unwrap_or_default())
        .collect()
}

#[test]
fn log_appends_until_full() {
    let mut log = InstrumentationLog::new(3);
    log.log(EventType::Eval, Some("a".to_string()));
    log.log(EventType::Timer, Some("b".to_string()));
    assert_eq!(log.entries().len(), 2);
    assert_eq!(log.dropped_count(), 0);
    assert_eq!(log.capacity(), 3);
    assert_eq!(payloads(&log), vec!["a", "b"]);
    assert_eq!(log.entries()[1].event_type, EventType::Timer);
}

#[test]
fn log_is_a_ring_buffer() {
    let mut log = InstrumentationLog::new(3);
    for p in ["0", "1", "2", "3", "4", "5", "6"] {
        log.log(EventType::Random, Some(p.to_string()));
    }
    // Seven entries in three slots: four overwrites, and slot i holds the
    // last entry whose position is i modulo 3.
    assert_eq!(log.entries().len(), 3);
    assert_eq!(log.dropped_count(), 4);
    assert_eq!(payloads(&log), vec!["6", "4", "5"]);
}

#[test]
fn log_clear_keeps_capacity() {
    let mut log = InstrumentationLog::new(2);
    for p in ["x", "y", "z"] {
        log.log(EventType::DOM, Some(p.to_string()));
    }
    assert_eq!(log.dropped_count(), 1);
    log.clear();
    assert_eq!(log.entries().len(), 0);
    assert_eq!(log.dropped_count(), 0);
    assert_eq!(log.capacity(), 2);
    log.log(EventType::DOM, None);
    assert_eq!(log.entries().len(), 1);
}

#[test]
fn default_log_has_1000_slots() {
    let log = InstrumentationLog::default();
    assert_eq!(log.capacity(), 1000);
    assert_eq!(log.into_entries().len(), 0);
}

#[test]
fn record_event_maps_names_and_skips_a_log_without_slots() {
    let mut log = InstrumentationLog::new(4);
    record_event(&mut log, "atob".to_string(), Some("aGk=".to_string()));
    record_event(&mut log, "network".to_string(), None);
    record_event(&mut log, "UnknownPlugin".to_string(), None);
    assert_eq!(log.entries()[0].event_type, EventType::StringDecode);
    assert_eq!(log.entries()[1].event_type, EventType::Network);
    assert_eq!(log.entries()[2].event_type, EventType::Other("UnknownPlugin".to_string()));

    let mut empty = InstrumentationLog::new(0);
    record_event(&mut empty, "eval".to_string(), None);
    assert_eq!(empty.entries().len(), 0);
}

#[test]
fn event_names_map_to_types() {
    assert_eq!(EventType::from_name("eval".to_string()), EventType::Eval);
    assert_eq!(EventType::from_name("FunctionConstructor".to_string()), EventType::FunctionConstructor);
    assert_eq!(EventType::from_name("btoa".to_string()), EventType::StringDecode);
    assert_eq!(EventType::from_name("fromCharCode".to_string()), EventType::StringDecode);
    assert_eq!(EventType::from_name("storage".to_string()), EventType::Storage);
    assert_eq!(EventType::from_name("dom".to_string()), EventType::DOM);
    assert_eq!(EventType::from_name("Eval".to_string()), EventType::Other("Eval".to_string()));
}

#[test]
fn call_counts_count_in_order_of_first_occurrence() {
    let mut counts = CallCounts::new();
    counts.increment("b".to_string());
    counts.increment("a".to_string());
    counts.increment("b".to_string());
    assert_eq!(counts.len(), 2);
    assert_eq!(counts.entry(0), ("b", 2));
    assert_eq!(counts.entry(1), ("a", 1));
    assert_eq!(counts.get("b"), Some(&2));
    assert_eq!(counts.get("c"), None);
    assert!(counts.contains_key("a"));
    assert!(!counts.contains_key("c"));
}

#[test]
fn atob_decodes_standard_base64() {
    assert_eq!(decode_for_atob("aGVsbG8=".to_string()), Some("hello".to_string()));
    assert_eq!(decode_for_atob("".to_string()), Some(String::new()));
    assert_eq!(decode_for_atob("not base64!".to_string()), None);
    // Invalid UTF-8 is replaced rather than refused.
    assert_eq!(decode_for_atob("/w==".to_string()), Some("\u{FFFD}".to_string()));
}

#[test]
fn numbers_and_durations_render_as_debug_does() {
    assert_eq!(decimal_string(0), "0");
    assert_eq!(decimal_string(1234567), "1234567");
    assert_eq!(duration_string(0), "0ns");
    assert_eq!(duration_string(50), "50ms");
    assert_eq!(duration_string(5000), "5s");
    assert_eq!(duration_string(1500), "1.5s");
    assert_eq!(duration_string(1234), "1.234s");
    assert_eq!(duration_string(1050), "1.05s");
    assert_eq!(format!("{:?}", std::time::Duration::from_millis(1050)), "1.05s");
}

#[test]
fn error_messages() {
    assert_eq!(
        SandboxError::InstructionLimitExceeded(1000).to_string(),
        "Execution exceeded instruction limit (1000 instructions)"
    );
    assert_eq!(
        SandboxError::TimeLimitExceeded(50).to_string(),
        "Execution exceeded time limit (50ms)"
    );
    assert_eq!(SandboxError::MemoryLimitExceeded.to_string(), "Execution exceeded memory limit");
    assert_eq!(SandboxError::ExecutionError("x".to_string()).to_string(), "JavaScript execution error: x");
    assert_eq!(SandboxError::InvalidLimits("y".to_string()).to_string(), "Invalid limits: y");
    assert_eq!(SandboxError::EngineError("z".to_string()).to_string(), "Engine error: z");
    assert_eq!(
        SandboxError::InitializationError("w".to_string()).to_string(),
        "Failed to initialize runtime: w"
    );
    assert_eq!(EngineError::Initialization("a".to_string()).to_string(), "Initialization error: a");
    assert_eq!(EngineError::Execution("b".to_string()).to_string(), "Execution error: b");
    assert_eq!(
        EngineError::LimitExceeded("c".to_string()).to_string(),
        "Resource limit exceeded: c"
    );
}
