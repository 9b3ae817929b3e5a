use icy::execution::{advance, first_stage, Stage};

/// The stages a plan goes through when its steps have these outcomes.
fn stages(n: usize, writes_record: bool, outcomes: &[bool]) -> Vec<Stage> {
    let mut s = first_stage(n, writes_record);
    let mut seen = vec![s];
    for &ok in outcomes {
        s = advance(s, n, writes_record, ok);
        seen.push(s);
    }
    seen
}

#[test]
fn create_runs_command_then_record_then_log() {
    assert_eq!(
        stages(1, true, &[true, true, true]),
        vec![Stage::Command(0), Stage::Record, Stage::Log, Stage::Finished]
    );
}

#[test]
fn failed_command_writes_no_record_and_no_log() {
    assert_eq!(stages(1, true, &[false, true, true]),
        vec![Stage::Command(0), Stage::Stopped, Stage::Stopped, Stage::Stopped]);
    assert_eq!(stages(1, true, &[true, false, true]),
        vec![Stage::Command(0), Stage::Record, Stage::Stopped, Stage::Stopped]);
}

#[test]
fn rollback_stops_at_first_failed_command() {
    assert_eq!(
        stages(3, false, &[true, false, true, true]),
        vec![Stage::Command(0), Stage::Command(1), Stage::Stopped, Stage::Stopped, Stage::Stopped]
    );
    assert_eq!(
        stages(3, false, &[true, true, true, true]),
        vec![Stage::Command(0), Stage::Command(1), Stage::Command(2), Stage::Log, Stage::Finished]
    );
    assert_eq!(first_stage(0, false), Stage::Log);
    assert_eq!(first_stage(0, true), Stage::Record);
    assert_eq!(advance(Stage::Finished, 1, true, false), Stage::Finished);
}
