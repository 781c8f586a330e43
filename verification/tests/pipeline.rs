use axionvera::interfaces::Address;
use axionvera::pipeline::{
    PipelineAction, PipelineContract, PipelineDefinition, PipelineError, PipelinePhase, PipelineStage, PipelineStatus,
    PipelineStep, PipelineReceipt,
};

fn action(function: &str) -> PipelineAction {
    PipelineAction { target: Address { high: 0, low: 7 }, function: function.to_string(), args: Vec::new() }
}

fn stage(id: &str, validation: Vec<PipelineAction>, execution: PipelineAction, post_hook: Vec<PipelineAction>) -> PipelineStage {
    PipelineStage { id: id.to_string(), validation, execution, post_hook }
}

/// Run a pipeline against a mock contract whose function "fail" fails and
/// every other function succeeds; returns the receipt and the functions called.
fn run(p: &PipelineDefinition) -> Result<(PipelineReceipt, Vec<String>), PipelineError> {
    let mut calls = Vec::new();
    let mut step = PipelineContract::execute_pipeline(p)?;
    loop {
        match step {
            PipelineStep::Invoke(c) => {
                let a = PipelineContract::action_at(p, c);
                calls.push(a.function.clone());
                let ok = a.function != "fail";
                step = PipelineContract::after_action(p, c, ok);
            }
            PipelineStep::Finished(r) => return Ok((r, calls)),
        }
    }
}

#[test]
fn test_successful_pipeline() {
    let p = PipelineDefinition {
        id: "test_pipe".to_string(),
        stages: vec![stage("stage1", vec![action("success")], action("success"), vec![action("success")])],
    };
    let (receipt, calls) = run(&p).unwrap();
    assert_eq!(receipt.status, PipelineStatus::Completed);
    assert_eq!(receipt.failed_stage, None);
    assert_eq!(receipt.error_code, None);
    assert_eq!(receipt.pipeline_id, "test_pipe");
    assert_eq!(calls.len(), 3);
}

#[test]
fn test_pipeline_validation_failure() {
    let p = PipelineDefinition {
        id: "test_pipe".to_string(),
        stages: vec![stage("stage1", vec![action("fail")], action("success"), vec![])],
    };
    let (receipt, calls) = run(&p).unwrap();
    assert_eq!(receipt.status, PipelineStatus::Failed);
    assert_eq!(receipt.failed_stage, Some("stage1".to_string()));
    assert_eq!(receipt.error_code, Some(PipelineError::StageValidationFailed.code()));
    assert_eq!(calls, vec!["fail".to_string()]);
}

#[test]
fn test_pipeline_execution_failure() {
    let p = PipelineDefinition {
        id: "test_pipe".to_string(),
        stages: vec![stage("stage1", vec![], action("fail"), vec![])],
    };
    let (receipt, _) = run(&p).unwrap();
    assert_eq!(receipt.status, PipelineStatus::Failed);
    assert_eq!(receipt.failed_stage, Some("stage1".to_string()));
    assert_eq!(receipt.error_code, Some(PipelineError::StageExecutionFailed.code()));
}

#[test]
fn test_pipeline_hook_failure() {
    let p = PipelineDefinition {
        id: "test_pipe".to_string(),
        stages: vec![stage("stage1", vec![], action("success"), vec![action("fail")])],
    };
    let (receipt, _) = run(&p).unwrap();
    assert_eq!(receipt.status, PipelineStatus::Failed);
    assert_eq!(receipt.failed_stage, Some("stage1".to_string()));
    assert_eq!(receipt.error_code, Some(PipelineError::PostHookFailed.code()));
}

#[test]
fn empty_pipeline_is_refused() {
    let p = PipelineDefinition { id: "p".to_string(), stages: vec![] };
    assert!(matches!(PipelineContract::execute_pipeline(&p), Err(PipelineError::EmptyPipeline)));
    assert_eq!(PipelineError::EmptyPipeline.code(), 1);
}

#[test]
fn stages_run_in_order_and_stop_at_the_first_failure() {
    let p = PipelineDefinition {
        id: "p".to_string(),
        stages: vec![
            stage("s1", vec![action("v1"), action("v2")], action("e1"), vec![action("h1")]),
            stage("s2", vec![], action("e2"), vec![]),
            stage("s3", vec![action("fail")], action("e3"), vec![action("h3")]),
            stage("s4", vec![], action("e4"), vec![]),
        ],
    };
    let (receipt, calls) = run(&p).unwrap();
    assert_eq!(calls, vec!["v1", "v2", "e1", "h1", "e2", "fail"]);
    assert_eq!(receipt.failed_stage, Some("s3".to_string()));
    assert_eq!(receipt.error_code, Some(2));
}

#[test]
fn first_action_is_the_execution_without_validation_hooks() {
    let p = PipelineDefinition { id: "p".to_string(), stages: vec![stage("s", vec![], action("e"), vec![])] };
    match PipelineContract::execute_pipeline(&p).unwrap() {
        PipelineStep::Invoke(c) => {
            assert_eq!(c.stage, 0);
            assert_eq!(c.phase, PipelinePhase::Execution);
        }
        PipelineStep::Finished(_) => panic!("a stage must run"),
    }
}
