use vstd::prelude::*;

use crate::interfaces::Address;

verus! {

/// A call of a function of another contract, with its arguments encoded.
pub struct PipelineAction {
    pub target: Address,
    pub function: String,
    pub args: Vec<Vec<u8>>,
}

/// A stage: validation hooks, then the execution, then post-processing hooks.
pub struct PipelineStage {
    pub id: String,
    pub validation: Vec<PipelineAction>,
    pub execution: PipelineAction,
    pub post_hook: Vec<PipelineAction>,
}

pub struct PipelineDefinition {
    pub id: String,
    pub stages: Vec<PipelineStage>,
}

#[derive(Clone, Copy, Debug, PartialEq, Eq, Structural)]
pub enum PipelineStatus {
    Completed,
    Failed,
}

#[derive(Clone, Copy, Debug, PartialEq, Eq, Structural)]
pub enum PipelineError {
    EmptyPipeline,
    StageValidationFailed,
    StageExecutionFailed,
    PostHookFailed,
}

impl PipelineError {
    /// The numeric code under which the error is reported to callers.
    pub fn code(&self) -> (c: u32)
        ensures
            c == spec_error_code(*self),
    {
        match self {
            PipelineError::EmptyPipeline => 1,
            PipelineError::StageValidationFailed => 2,
            PipelineError::StageExecutionFailed => 3,
            PipelineError::PostHookFailed => 4,
        }
    }
}

pub open spec fn spec_error_code(e: PipelineError) -> u32 {
    match e {
        PipelineError::EmptyPipeline => 1,
        PipelineError::StageValidationFailed => 2,
        PipelineError::StageExecutionFailed => 3,
        PipelineError::PostHookFailed => 4,
    }
}

/// How a run ended.
#[derive(Debug)]
pub struct PipelineReceipt {
    pub pipeline_id: String,
    pub status: PipelineStatus,
    pub failed_stage: Option<String>,
    pub error_code: Option<u32>,
}

/// Which part of a stage an action belongs to.
#[derive(Clone, Copy, Debug, PartialEq, Eq, Structural)]
pub enum PipelinePhase {
    Validation,
    Execution,
    PostHook,
}

/// The position of an action in a pipeline: its stage, the part of the
/// stage, and its place among the hooks of that part.
#[derive(Clone, Copy, Debug, PartialEq, Eq, Structural)]
pub struct PipelineCursor {
    pub stage: usize,
    pub phase: PipelinePhase,
    pub index: usize,
}

/// What the runner does next: invoke the action at a position, or stop
/// with a receipt.
#[derive(Debug)]
pub enum PipelineStep {
    Invoke(PipelineCursor),
    Finished(PipelineReceipt),
}

/// Whether `c` names an action of `p`.
pub open spec fn valid_cursor(p: &PipelineDefinition, c: PipelineCursor) -> bool {
    &&& c.stage < p.stages@.len()
    &&& match c.phase {
        PipelinePhase::Validation => c.index < p.stages@[c.stage as int].validation@.len(),
        PipelinePhase::Execution => c.index == 0,
        PipelinePhase::PostHook => c.index < p.stages@[c.stage as int].post_hook@.len(),
    }
}

/// The first action of stage `s`.
pub open spec fn stage_start(p: &PipelineDefinition, s: int) -> PipelineCursor {
    if p.stages@[s].validation@.len() > 0 {
        PipelineCursor { stage: s as usize, phase: PipelinePhase::Validation, index: 0 }
    } else {
        PipelineCursor { stage: s as usize, phase: PipelinePhase::Execution, index: 0 }
    }
}

/// The action after the last action of stage `s`, if any.
pub open spec fn after_stage(p: &PipelineDefinition, s: int) -> Option<PipelineCursor> {
    if s + 1 < p.stages@.len() {
        Some(stage_start(p, s + 1))
    } else {
        None
    }
}

/// The action run after the one at `c` succeeds: the remaining validation
/// hooks, the execution, the post hooks, then the next stage.
pub open spec fn spec_next(p: &PipelineDefinition, c: PipelineCursor) -> Option<PipelineCursor> {
    let st = p.stages@[c.stage as int];
    match c.phase {
        PipelinePhase::Validation => if c.index + 1 < st.validation@.len() {
            Some(PipelineCursor { index: (c.index + 1) as usize, ..c })
        } else {
            Some(PipelineCursor { stage: c.stage, phase: PipelinePhase::Execution, index: 0 })
        },
        PipelinePhase::Execution => if st.post_hook@.len() > 0 {
            Some(PipelineCursor { stage: c.stage, phase: PipelinePhase::PostHook, index: 0 })
        } else {
            after_stage(p, c.stage as int)
        },
        PipelinePhase::PostHook => if c.index + 1 < st.post_hook@.len() {
            Some(PipelineCursor { index: (c.index + 1) as usize, ..c })
        } else {
            after_stage(p, c.stage as int)
        },
    }
}

/// The error reported when the action at a position fails.
pub open spec fn phase_error(phase: PipelinePhase) -> PipelineError {
    match phase {
        PipelinePhase::Validation => PipelineError::StageValidationFailed,
        PipelinePhase::Execution => PipelineError::StageExecutionFailed,
        PipelinePhase::PostHook => PipelineError::PostHookFailed,
    }
}

/// The receipt is that of a completed run of `p`.
pub open spec fn completed(p: &PipelineDefinition, r: &PipelineReceipt) -> bool {
    &&& r.pipeline_id@ == p.id@
    &&& r.status == PipelineStatus::Completed
    &&& r.failed_stage is None
    &&& r.error_code is None
}

/// The receipt is that of a run of `p` that failed at the action at `c`.
pub open spec fn failed_at(p: &PipelineDefinition, c: PipelineCursor, r: &PipelineReceipt) -> bool {
    &&& r.pipeline_id@ == p.id@
    &&& r.status == PipelineStatus::Failed
    &&& r.failed_stage matches Some(id) && id@ == p.stages@[c.stage as int].id@
    &&& r.error_code == Some(spec_error_code(phase_error(c.phase)))
}


/// The actions of stage `s` in the order a run invokes them: the validation
/// hooks, the execution, the post hooks.
pub open spec fn stage_calls(p: &PipelineDefinition, s: int) -> Seq<PipelineCursor> {
    Seq::new(
        p.stages@[s].validation@.len(),
        |i: int| PipelineCursor { stage: s as usize, phase: PipelinePhase::Validation, index: i as usize },
    ) + seq![PipelineCursor { stage: s as usize, phase: PipelinePhase::Execution, index: 0 }] + Seq::new(
        p.stages@[s].post_hook@.len(),
        |i: int| PipelineCursor { stage: s as usize, phase: PipelinePhase::PostHook, index: i as usize },
    )
}

/// The actions of the stages from `s` on, in order.
pub open spec fn calls_from(p: &PipelineDefinition, s: int) -> Seq<PipelineCursor>
    decreases p.stages@.len() - s,
{
    if s < 0 || s >= p.stages@.len() {
        Seq::empty()
    } else {
        stage_calls(p, s) + calls_from(p, s + 1)
    }
}

pub open spec fn stage_call_at(p: &PipelineDefinition, s: int, k: int) -> PipelineCursor {
    let v = p.stages@[s].validation@.len();
    if k < v {
        PipelineCursor { stage: s as usize, phase: PipelinePhase::Validation, index: k as usize }
    } else if k == v {
        PipelineCursor { stage: s as usize, phase: PipelinePhase::Execution, index: 0 }
    } else {
        PipelineCursor { stage: s as usize, phase: PipelinePhase::PostHook, index: (k - v - 1) as usize }
    }
}

/// Every count in the pipeline fits a machine word.
pub open spec fn pipeline_fits(p: &PipelineDefinition) -> bool {
    &&& p.stages@.len() <= usize::MAX
    &&& forall|s: int|
        0 <= s < p.stages@.len() ==> #[trigger] p.stages@[s].validation@.len() + p.stages@[s].post_hook@.len() + 1
            <= usize::MAX
}

proof fn lemma_stage_call_step(p: &PipelineDefinition, s: int, k: int)
    requires
        0 <= s < p.stages@.len(),
        0 <= k <= p.stages@[s].validation@.len() + p.stages@[s].post_hook@.len(),
        pipeline_fits(p),
    ensures
        valid_cursor(p, stage_call_at(p, s, k)),
        k < p.stages@[s].validation@.len() + p.stages@[s].post_hook@.len() ==> spec_next(p, stage_call_at(p, s, k))
            == Some(stage_call_at(p, s, k + 1)),
        k == p.stages@[s].validation@.len() + p.stages@[s].post_hook@.len() ==> spec_next(p, stage_call_at(p, s, k))
            == after_stage(p, s),
{
    let v = p.stages@[s].validation@.len();
    let h = p.stages@[s].post_hook@.len();
    assert(v + h + 1 <= usize::MAX);
    let c = stage_call_at(p, s, k);
    assert(c.stage as int == s);
    if k < v {
        assert(c.index as int == k);
    } else if k > v {
        assert(c.index as int == k - v - 1);
    }
}

proof fn lemma_stage_calls(p: &PipelineDefinition, s: int)
    requires
        0 <= s < p.stages@.len(),
        pipeline_fits(p),
    ensures
        stage_calls(p, s).len() == p.stages@[s].validation@.len() + 1 + p.stages@[s].post_hook@.len(),
        forall|k: int| 0 <= k < stage_calls(p, s).len() ==> #[trigger] stage_calls(p, s)[k] == stage_call_at(p, s, k),
        stage_calls(p, s)[0] == stage_start(p, s),
        forall|k: int|
            0 <= k < stage_calls(p, s).len() - 1 ==> spec_next(p, #[trigger] stage_calls(p, s)[k]) == Some(
                stage_calls(p, s)[k + 1],
            ),
        spec_next(p, stage_calls(p, s).last()) == after_stage(p, s),
        forall|k: int| 0 <= k < stage_calls(p, s).len() ==> valid_cursor(p, #[trigger] stage_calls(p, s)[k]),
{
    let sc = stage_calls(p, s);
    let v = p.stages@[s].validation@.len();
    let h = p.stages@[s].post_hook@.len();
    let a = Seq::new(v, |i: int| PipelineCursor { stage: s as usize, phase: PipelinePhase::Validation, index: i as usize });
    let e = seq![PipelineCursor { stage: s as usize, phase: PipelinePhase::Execution, index: 0 }];
    let c = Seq::new(h, |i: int| PipelineCursor { stage: s as usize, phase: PipelinePhase::PostHook, index: i as usize });
    assert(sc == a + e + c);
    assert forall|k: int| 0 <= k < sc.len() implies #[trigger] sc[k] == stage_call_at(p, s, k) by {
        if k < v {
            assert((a + e)[k] == a[k]);
        } else if k == v {
            assert((a + e)[k] == e[0]);
        } else {
            assert(sc[k] == c[k - v - 1]);
        }
    }
    assert(sc[0] == stage_call_at(p, s, 0));
    assert(sc.last() == sc[sc.len() - 1]);
    assert(sc[sc.len() - 1] == stage_call_at(p, s, sc.len() - 1));
    assert forall|k: int| 0 <= k < sc.len() - 1 implies spec_next(p, #[trigger] sc[k]) == Some(sc[k + 1]) by {
        assert(sc[k] == stage_call_at(p, s, k));
        assert(sc[k + 1] == stage_call_at(p, s, k + 1));
        lemma_stage_call_step(p, s, k);
    }
    assert forall|k: int| 0 <= k < sc.len() implies valid_cursor(p, #[trigger] sc[k]) by {
        assert(sc[k] == stage_call_at(p, s, k));
        lemma_stage_call_step(p, s, k);
    }
    lemma_stage_call_step(p, s, sc.len() - 1);
}

#[verifier::rlimit(40)]
proof fn lemma_calls_from(p: &PipelineDefinition, s: int)
    requires
        0 <= s < p.stages@.len(),
        pipeline_fits(p),
    ensures
        calls_from(p, s).len() > 0,
        calls_from(p, s)[0] == stage_start(p, s),
        forall|k: int|
            0 <= k < calls_from(p, s).len() - 1 ==> spec_next(p, #[trigger] calls_from(p, s)[k]) == Some(
                calls_from(p, s)[k + 1],
            ),
        spec_next(p, calls_from(p, s).last()) is None,
        forall|k: int| 0 <= k < calls_from(p, s).len() ==> valid_cursor(p, #[trigger] calls_from(p, s)[k]),
    decreases p.stages@.len() - s,
{
    let sc = stage_calls(p, s);
    let rest = calls_from(p, s + 1);
    let all = calls_from(p, s);
    lemma_stage_calls(p, s);
    assert(all == sc + rest);
    if s + 1 < p.stages@.len() {
        lemma_calls_from(p, s + 1);
    } else {
        assert(rest.len() == 0);
    }
    assert forall|k: int| 0 <= k < all.len() - 1 implies spec_next(p, #[trigger] all[k]) == Some(all[k + 1]) by {
        if k < sc.len() - 1 {
            assert(all[k] == sc[k] && all[k + 1] == sc[k + 1]);
        } else if k == sc.len() - 1 {
            assert(all[k] == sc.last());
            assert(all[k + 1] == rest[0]);
        } else {
            assert(all[k] == rest[k - sc.len()] && all[k + 1] == rest[k - sc.len() + 1]);
        }
    }
    assert forall|k: int| 0 <= k < all.len() implies valid_cursor(p, #[trigger] all[k]) by {
        if k < sc.len() {
            assert(all[k] == sc[k]);
        } else {
            assert(all[k] == rest[k - sc.len()]);
        }
    }
    if rest.len() > 0 {
        assert(all.last() == rest.last());
    } else {
        assert(all.last() == sc.last());
    }
    assert(all[0] == sc[0]);
}

/// A run in which every action succeeds invokes, stage after stage, each
/// validation hook, then the execution, then each post hook, each once and
/// in that order, and then completes: the first action invoked is the first
/// of this list, each success moves to the next one, and the success of the
/// last one finishes the run.
pub proof fn lemma_successful_run_visits_every_action(p: &PipelineDefinition)
    requires
        p.stages@.len() > 0,
        pipeline_fits(p),
    ensures
        calls_from(p, 0)[0] == stage_start(p, 0),
        forall|k: int|
            0 <= k < calls_from(p, 0).len() - 1 ==> spec_next(p, #[trigger] calls_from(p, 0)[k]) == Some(calls_from(p, 0)[k + 1]),
        spec_next(p, calls_from(p, 0).last()) is None,
        forall|k: int| 0 <= k < calls_from(p, 0).len() ==> valid_cursor(p, #[trigger] calls_from(p, 0)[k]),
{
    lemma_calls_from(p, 0);
}

/// Runs pipelines of calls to other contracts; the host makes the calls and
/// reports whether each one succeeded.
pub struct PipelineContract;

impl PipelineContract {
    fn stage_start(p: &PipelineDefinition, s: usize) -> (c: PipelineCursor)
        requires
            s < p.stages@.len(),
        ensures
            c == stage_start(p, s as int),
            valid_cursor(p, c),
    {
        if p.stages[s].validation.len() > 0 {
            PipelineCursor { stage: s, phase: PipelinePhase::Validation, index: 0 }
        } else {
            PipelineCursor { stage: s, phase: PipelinePhase::Execution, index: 0 }
        }
    }

    fn completed_receipt(p: &PipelineDefinition) -> (r: PipelineReceipt)
        ensures
            completed(p, &r),
    {
        PipelineReceipt { pipeline_id: p.id.clone(), status: PipelineStatus::Completed, failed_stage: None, error_code: None }
    }

    /// Start a run: a pipeline without stages is refused; otherwise the first
    /// action of the first stage is invoked.
    pub fn execute_pipeline(pipeline: &PipelineDefinition) -> (r: Result<PipelineStep, PipelineError>)
        ensures
            pipeline.stages@.len() == 0 ==> r == Err::<PipelineStep, PipelineError>(PipelineError::EmptyPipeline),
            pipeline.stages@.len() > 0 ==> (r matches Ok(PipelineStep::Invoke(c)) && c == stage_start(pipeline, 0)),
    {
        if pipeline.stages.len() == 0 {
            return Err(PipelineError::EmptyPipeline);
        }
        Ok(PipelineStep::Invoke(Self::stage_start(pipeline, 0)))
    }

    /// The action at a position.
    pub fn action_at(pipeline: &PipelineDefinition, c: PipelineCursor) -> (a: &PipelineAction)
        requires
            valid_cursor(pipeline, c),
        ensures
            *a == match c.phase {
                PipelinePhase::Validation => pipeline.stages@[c.stage as int].validation@[c.index as int],
                PipelinePhase::Execution => pipeline.stages@[c.stage as int].execution,
                PipelinePhase::PostHook => pipeline.stages@[c.stage as int].post_hook@[c.index as int],
            },
    {
        let st = &pipeline.stages[c.stage];
        match c.phase {
            PipelinePhase::Validation => &st.validation[c.index],
            PipelinePhase::Execution => &st.execution,
            PipelinePhase::PostHook => &st.post_hook[c.index],
        }
    }

    /// What follows the action at `c`: a failure ends the run with a receipt
    /// naming the stage and the part that failed; a success moves on to the
    /// next action, or completes the run after the last one.
    pub fn after_action(pipeline: &PipelineDefinition, c: PipelineCursor, succeeded: bool) -> (r: PipelineStep)
        requires
            valid_cursor(pipeline, c),
        ensures
            !succeeded ==> (r matches PipelineStep::Finished(rc) && failed_at(pipeline, c, &rc)),
            succeeded ==> match spec_next(pipeline, c) {
                Some(n) => r == PipelineStep::Invoke(n) && valid_cursor(pipeline, n),
                None => (r matches PipelineStep::Finished(rc) && completed(pipeline, &rc)),
            },
    {
        let st = &pipeline.stages[c.stage];
        if !succeeded {
            let error = match c.phase {
                PipelinePhase::Validation => PipelineError::StageValidationFailed,
                PipelinePhase::Execution => PipelineError::StageExecutionFailed,
                PipelinePhase::PostHook => PipelineError::PostHookFailed,
            };
            return PipelineStep::Finished(
                PipelineReceipt {
                    pipeline_id: pipeline.id.clone(),
                    status: PipelineStatus::Failed,
                    failed_stage: Some(st.id.clone()),
                    error_code: Some(error.code()),
                },
            );
        }
        let next_stage = if c.stage < pipeline.stages.len() - 1 {
            PipelineStep::Invoke(Self::stage_start(pipeline, c.stage + 1))
        } else {
            PipelineStep::Finished(Self::completed_receipt(pipeline))
        };
        match c.phase {
            PipelinePhase::Validation => {
                if c.index < st.validation.len() - 1 {
                    PipelineStep::Invoke(PipelineCursor { index: c.index + 1, ..c })
                } else {
                    PipelineStep::Invoke(PipelineCursor { stage: c.stage, phase: PipelinePhase::Execution, index: 0 })
                }
            },
            PipelinePhase::Execution => {
                if st.post_hook.len() > 0 {
                    PipelineStep::Invoke(PipelineCursor { stage: c.stage, phase: PipelinePhase::PostHook, index: 0 })
                } else {
                    next_stage
                }
            },
            PipelinePhase::PostHook => {
                if c.index < st.post_hook.len() - 1 {
                    PipelineStep::Invoke(PipelineCursor { index: c.index + 1, ..c })
                } else {
                    next_stage
                }
            },
        }
    }
}

} // verus!
