use jsnabber_core::environment::Environment;
use jsnabber_core::features::{BehavioralFeatures, Classification, EntropyBand, ObfuscationLevel};
use jsnabber_core::instrumentation::{EventType, LogEntry};
use jsnabber_core::sandbox::{AnalysisMetadata, ExecutionResult};
use jsnabber_core::static_analysis::{Severity, StaticAnalysis};

#[test]
fn test_detect_eval() {
    let code = r#"
            function malicious() {
                eval("alert('xss')");
            }
        "#;

    let analysis = StaticAnalysis::analyze(code);
    assert_eq!(analysis.patterns_found.len(), 1);
    assert_eq!(analysis.patterns_found[0].name, "eval");
    assert_eq!(analysis.patterns_found[0].severity, Severity::High);
    assert!(analysis.risk_score > 0);
}

#[test]
fn test_detect_multiple_patterns() {
    let code = r#"
            eval(atob("base64"));
            fetch("https://evil.com");
        "#;

    let analysis = StaticAnalysis::analyze(code);
    assert!(analysis.patterns_found.len() >= 3); // eval, atob, fetch
    assert!(analysis.risk_score > 50);
}

#[test]
fn test_benign_code() {
    let code = r#"
            function add(a, b) {
                return a + b;
            }
        "#;

    let analysis = StaticAnalysis::analyze(code);
    assert_eq!(analysis.patterns_found.len(), 0);
    assert_eq!(analysis.risk_score, 0);
}

#[test]
fn test_line_numbers() {
    let code = "line 1\neval('x');\nline 3\neval('y');";

    let analysis = StaticAnalysis::analyze(code);
    let eval_pattern = analysis
        .patterns_found
        .iter()
        .find(|p| p.name == "eval")
        .expect("Should find eval");

    assert_eq!(eval_pattern.line_numbers, vec![2, 4]);
}

#[test]
fn static_scores_follow_severity_and_repeats() {
    // eval on three lines: 30 + 2 * 10; atob once: 15.
    let code = "eval(1)\neval(2)\neval(3)\natob('x')";
    let analysis = StaticAnalysis::analyze(code);
    assert_eq!(analysis.patterns_found.len(), 2);
    assert_eq!(analysis.patterns_found[0].name, "eval");
    assert_eq!(analysis.patterns_found[0].line_numbers, vec![1, 2, 3]);
    assert_eq!(analysis.patterns_found[0].context, "eval(1)");
    assert_eq!(analysis.patterns_found[1].name, "base64 decode");
    assert_eq!(analysis.patterns_found[1].severity, Severity::Medium);
    assert_eq!(analysis.risk_score, 65);
    assert_eq!(analysis.classification(), Classification::Malicious);
}

#[test]
fn static_score_is_capped_at_100() {
    let code = "eval(a)\nFunction('b')\ndocument.cookie\nlocalStorage.getItem('k')";
    let analysis = StaticAnalysis::analyze(code);
    assert_eq!(analysis.patterns_found.len(), 4);
    assert_eq!(analysis.risk_score, 100);
}

#[test]
fn static_classification_thresholds() {
    // A low-severity pattern alone: 5 points, benign.
    let low = StaticAnalysis::analyze("var r = Math.random();");
    assert_eq!(low.risk_score, 5);
    assert_eq!(low.classification(), Classification::Benign);
    // One high-severity pattern: 30 points, suspicious.
    let high = StaticAnalysis::analyze("eval(x)");
    assert_eq!(high.risk_score, 30);
    assert_eq!(high.classification(), Classification::Suspicious);
}

#[test]
fn static_context_is_trimmed_and_shortened() {
    let long_line = format!("    eval({})", "x".repeat(150));
    let analysis = StaticAnalysis::analyze(&long_line);
    let context = &analysis.patterns_found[0].context;
    assert_eq!(context.len(), 100);
    assert!(context.ends_with("..."));
    assert!(context.starts_with("eval(xxx"));
}

#[test]
fn static_scan_refuses_to_cut_a_character() {
    // Byte 97 of the trimmed line falls inside the two-byte 'é'.
    let line = format!("eval({}é{}", "a".repeat(91), "b".repeat(20));
    assert!(StaticAnalysis::try_analyze(&line).is_none());
    // With the character one byte later, the line is shortened cleanly.
    let line = format!("eval({}é{}", "a".repeat(92), "b".repeat(20));
    let analysis = StaticAnalysis::try_analyze(&line).expect("scan");
    assert_eq!(analysis.patterns_found[0].context.len(), 100);
}

fn run_with_logs(logs: Vec<LogEntry>) -> ExecutionResult {
    ExecutionResult {
        completed: true,
        instruction_count: 100,
        execution_time_ms: 10,
        peak_memory_bytes: None,
        error: None,
        return_value: None,
        logs,
        env: Environment::default(),
        features: BehavioralFeatures::default(),
        analysis: AnalysisMetadata::default(),
    }
}

/// Shannon entropy in bits per byte, and its band against three thresholds.
fn entropy(data: &str) -> f64 {
    if data.is_empty() {
        return 0.0;
    }
    let mut counts = [0usize; 256];
    for &b in data.as_bytes() {
        counts[b as usize] += 1;
    }
    let len = data.len() as f64;
    counts
        .iter()
        .filter(|&&c| c > 0)
        .map(|&c| {
            let p = c as f64 / len;
            -p * p.log2()
        })
        .sum()
}

fn band(e: f64, first: f64, second: f64, third: f64) -> EntropyBand {
    if e > third {
        EntropyBand::Extreme
    } else if e > second {
        EntropyBand::High
    } else if e > first {
        EntropyBand::Elevated
    } else {
        EntropyBand::Ordinary
    }
}

/// The source band of the sample and the payload band of the most random
/// payload of a run.
fn bands(source: &str, result: &ExecutionResult) -> (EntropyBand, EntropyBand) {
    let max = result
        .logs
        .iter()
        .filter_map(|l| l.payload.as_deref())
        .map(entropy)
        .fold(0.0, f64::max);
    (band(entropy(source), 4.8, 5.5, 6.5), band(max, 5.0, 6.5, 7.5))
}

const RANDOM_LOOKING: &str = "a1!@#$%^&*()_+QWERTYUIOP{}|ASDFGHJKL:\"ZXCVBNM<>?";

#[test]
fn test_obfuscation_detection() {
    let result = run_with_logs(vec![LogEntry {
        event_type: EventType::Eval,
        payload: Some(RANDOM_LOOKING.repeat(200)),
        timestamp_ms: 0,
    }]);

    let features = BehavioralFeatures::extract(&result);
    let (source, payload) = bands("", &result);
    let level = features.obfuscation_level(source, payload, 100);
    assert_eq!(level, ObfuscationLevel::High);
}

#[test]
fn test_behavioral_classification_upgrade() {
    let result = run_with_logs(vec![
        LogEntry {
            event_type: EventType::Eval,
            payload: Some(RANDOM_LOOKING.repeat(200)),
            timestamp_ms: 0,
        },
        LogEntry {
            event_type: EventType::Network,
            payload: Some("https://evil.com/leak".to_string()),
            timestamp_ms: 1,
        },
    ]);

    let features = BehavioralFeatures::extract(&result);
    let (source, payload) = bands("", &result);
    let assessment = features.assess(result.completed, source, payload, 100);

    // Should be upgraded to Malicious because of Network + (High Obfuscation)
    assert_eq!(assessment.classification, Classification::Malicious);
}

#[test]
fn features_count_events_by_name() {
    let result = run_with_logs(vec![
        LogEntry { event_type: EventType::Eval, payload: Some("1+1".to_string()), timestamp_ms: 0 },
        LogEntry { event_type: EventType::Network, payload: None, timestamp_ms: 1 },
        LogEntry { event_type: EventType::Eval, payload: Some("abcd".to_string()), timestamp_ms: 2 },
        LogEntry {
            event_type: EventType::Evasion,
            payload: Some("Accessed undefined global: main".to_string()),
            timestamp_ms: 3,
        },
        LogEntry { event_type: EventType::Evasion, payload: None, timestamp_ms: 4 },
        LogEntry {
            event_type: EventType::Other("UnknownPlugin".to_string()),
            payload: None,
            timestamp_ms: 5,
        },
        LogEntry {
            event_type: EventType::FunctionConstructor,
            payload: Some("é".to_string()),
            timestamp_ms: 6,
        },
    ]);
    let features = BehavioralFeatures::extract(&result);
    let counts = &features.api_call_counts;
    assert_eq!(counts.get("eval"), Some(&2));
    assert_eq!(counts.get("network"), Some(&1));
    // The probe of "main" is not counted as evasion; the bare one is.
    assert_eq!(counts.get("evasion"), Some(&1));
    assert_eq!(counts.get("unknownplugin"), Some(&1));
    assert_eq!(counts.get("functionconstructor"), Some(&1));
    assert_eq!(counts.get("timer"), None);
    assert_eq!(counts.get("UnknownPlugin"), None);
    assert_eq!(counts.len(), 5);
    // Six of the seven events are kept; the counts add up to them.
    let total: usize = (0..counts.len()).map(|i| counts.entry(i).1).sum();
    assert_eq!(total, 6);
    // Keys come in order of first occurrence.
    assert_eq!(counts.entry(0), ("eval", 2));
    assert_eq!(counts.entry(1), ("network", 1));
    // 3 + 4 bytes of eval code and 2 bytes for 'é'.
    assert_eq!(features.total_expansion_bytes, 9);
}

#[test]
fn obfuscation_levels_by_band_and_expansion() {
    let quiet = BehavioralFeatures::extract(&run_with_logs(vec![]));
    assert_eq!(
        quiet.obfuscation_level(EntropyBand::Ordinary, EntropyBand::Ordinary, 100),
        ObfuscationLevel::Plain
    );
    assert_eq!(
        quiet.obfuscation_level(EntropyBand::Elevated, EntropyBand::Ordinary, 100),
        ObfuscationLevel::Low
    );
    assert_eq!(
        quiet.obfuscation_level(EntropyBand::Ordinary, EntropyBand::High, 100),
        ObfuscationLevel::Medium
    );
    assert_eq!(
        quiet.obfuscation_level(EntropyBand::Extreme, EntropyBand::Ordinary, 100),
        ObfuscationLevel::High
    );
    // 400 bytes of eval code for a 100-byte input: more than three times.
    let grown = BehavioralFeatures::extract(&run_with_logs(vec![LogEntry {
        event_type: EventType::Eval,
        payload: Some("x".repeat(400)),
        timestamp_ms: 0,
    }]));
    assert_eq!(
        grown.obfuscation_level(EntropyBand::Ordinary, EntropyBand::Ordinary, 100),
        ObfuscationLevel::Medium
    );
    assert_eq!(
        grown.obfuscation_level(EntropyBand::Ordinary, EntropyBand::Ordinary, 1000),
        ObfuscationLevel::Low
    );
}

#[test]
fn classification_rules() {
    let quiet = BehavioralFeatures::extract(&run_with_logs(vec![]));
    assert_eq!(quiet.classify(true, ObfuscationLevel::Plain), Classification::Benign);
    assert_eq!(quiet.classify(false, ObfuscationLevel::Plain), Classification::Inconclusive);
    assert_eq!(quiet.classify(true, ObfuscationLevel::High), Classification::Suspicious);

    let evasive = BehavioralFeatures::extract(&run_with_logs(vec![
        LogEntry { event_type: EventType::Storage, payload: None, timestamp_ms: 0 },
        LogEntry { event_type: EventType::Evasion, payload: None, timestamp_ms: 1 },
    ]));
    assert_eq!(evasive.classify(true, ObfuscationLevel::Low), Classification::Suspicious);
    assert_eq!(evasive.classify(true, ObfuscationLevel::Medium), Classification::Malicious);
    assert_eq!(evasive.classify(false, ObfuscationLevel::High), Classification::Inconclusive);

    let evals = BehavioralFeatures::extract(&run_with_logs(vec![LogEntry {
        event_type: EventType::Eval,
        payload: Some("1".to_string()),
        timestamp_ms: 0,
    }]));
    assert_eq!(evals.classify(true, ObfuscationLevel::Plain), Classification::Benign);
    assert_eq!(evals.classify(true, ObfuscationLevel::Low), Classification::Suspicious);
}

#[test]
fn other_events_are_counted_under_their_lowercase_name() {
    let result = run_with_logs(vec![
        LogEntry { event_type: EventType::Other("ÀÉ_Hook".to_string()), payload: None, timestamp_ms: 0 },
        LogEntry { event_type: EventType::Other("àé_hook".to_string()), payload: None, timestamp_ms: 1 },
    ]);
    let features = BehavioralFeatures::extract(&result);
    assert_eq!(features.api_call_counts.len(), 1);
    assert_eq!(features.api_call_counts.get("àé_hook"), Some(&2));
}
