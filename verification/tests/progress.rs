//! The progress registry under repeated and interleaved reports.

use lecturecut::progress::{ProgressRegistry, ReportOutcome, padded_label};

#[test]
fn first_report_creates_an_indicator() {
    let mut registry = ProgressRegistry::new();
    let stage = "analyze".to_string();
    let outcome = registry.report(&stage, 0);
    assert!(matches!(outcome, ReportOutcome::Created));
    assert_eq!(registry.count(), 1);
    assert_eq!(registry.position_of(&stage), Some(0));
}

#[test]
fn repeated_report_only_updates() {
    let mut registry = ProgressRegistry::new();
    let stage = "transcode".to_string();
    let first = registry.report(&stage, 250);
    let second = registry.report(&stage, 750);
    assert!(matches!(first, ReportOutcome::Created));
    assert!(matches!(second, ReportOutcome::Updated));
    assert_eq!(registry.count(), 1);
    assert_eq!(registry.position_of(&stage), Some(750));
}

#[test]
fn distinct_stages_each_get_an_entry() {
    for n in [1usize, 8, 64] {
        let mut registry = ProgressRegistry::new();
        for k in 0..n {
            let stage = format!("stage-{}", k);
            let outcome = registry.report(&stage, k as u64);
            assert!(matches!(outcome, ReportOutcome::Created));
        }
        assert_eq!(registry.count(), n);
        for k in 0..n {
            let stage = format!("stage-{}", k);
            assert_eq!(registry.position_of(&stage), Some(k as u64));
        }
    }
}

#[test]
fn interleaved_schedules_lose_no_report() {
    // Two orders the lock could serialize the same three reports in.
    let forward = ["cut", "mux", "scan"];
    let backward = ["scan", "mux", "cut"];
    for order in [forward, backward] {
        let mut registry = ProgressRegistry::new();
        for (k, stage) in order.iter().enumerate() {
            registry.report(&stage.to_string(), 100 + k as u64);
        }
        assert_eq!(registry.count(), 3);
        for stage in order {
            assert!(registry.position_of(&stage.to_string()).is_some());
        }
    }
}

#[test]
fn unknown_stage_has_no_position() {
    let mut registry = ProgressRegistry::new();
    registry.report(&"known".to_string(), 10);
    assert_eq!(registry.position_of(&"unknown".to_string()), None);
}

#[test]
fn clear_empties_the_registry() {
    let mut registry = ProgressRegistry::new();
    registry.report(&"analyze".to_string(), 500);
    registry.report(&"transcode".to_string(), 900);
    registry.clear();
    assert_eq!(registry.count(), 0);
    assert_eq!(registry.position_of(&"analyze".to_string()), None);
}

#[test]
fn labels_are_left_padded_to_sixteen() {
    assert_eq!(padded_label(&"cut".to_string()), "             cut");
    assert_eq!(padded_label(&"".to_string()), "                ");
    assert_eq!(padded_label(&"sixteen-chars-xy".to_string()), "sixteen-chars-xy");
    assert_eq!(
        padded_label(&"a-rather-long-stage-name".to_string()),
        "a-rather-long-stage-name"
    );
}
