use hanabi_search::analysis::AnalyzePositionError;
use hanabi_search::control::{AnalysisControl, AnalysisStopped, CancellationToken};

#[test]
fn a_work_limit_admits_exactly_that_many_checkpoints() {
    let mut control = AnalysisControl::new(CancellationToken::default(), None, 2);
    assert_eq!(control.checkpoint(), Ok(()));
    assert_eq!(control.checkpoint(), Ok(()));
    assert_eq!(control.checkpoint(), Err(AnalysisStopped::WorkLimit));
    assert_eq!(control.used(), 2);
}

#[test]
fn cancellation_is_shared_and_wins_over_the_budget() {
    let token = CancellationToken::default();
    let mut control = AnalysisControl::new(token.clone(), None, 10);
    assert_eq!(control.checkpoint(), Ok(()));
    token.cancel();
    assert!(token.is_cancelled());
    assert_eq!(control.checkpoint(), Err(AnalysisStopped::Cancelled));
    assert_eq!(control.used(), 1);
    let mut unlimited = AnalysisControl::default();
    assert_eq!(unlimited.checkpoint_with(false, true), Err(AnalysisStopped::Deadline));
    assert_eq!(unlimited.checkpoint_with(false, false), Ok(()));
    assert_eq!(unlimited.used(), 1);
}

#[test]
fn stop_reasons_read_as_messages() {
    assert_eq!(AnalysisStopped::Cancelled.to_string(), "analysis cancelled");
    assert_eq!(
        AnalyzePositionError::Stopped(AnalysisStopped::WorkLimit).to_string(),
        "analysis work limit reached"
    );
    assert_eq!(
        AnalyzePositionError::Planner("no legal action".to_owned()).to_string(),
        "planner failed: no legal action"
    );
    assert_eq!(
        AnalyzePositionError::InformationSet("bad hand".to_owned()).to_string(),
        "invalid observation: bad hand"
    );
}
