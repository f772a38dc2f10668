use vstd::prelude::*;

verus! {

/// Timing of parameter learning relative to activity inference.
#[derive(Debug, Clone, Copy, PartialEq, Eq, Structural)]
pub enum PcLearningSchedule {
    /// Settle activities, then compute one local parameter update.
    Equilibrium,
    /// Compute local parameter updates after every activity update.
    Incremental,
}

impl Default for PcLearningSchedule {
    fn default() -> (r: Self)
        ensures
            r == PcLearningSchedule::Equilibrium,
    {
        PcLearningSchedule::Equilibrium
    }
}

#[derive(Debug, Clone, Copy, PartialEq, Eq, Structural)]
pub enum PcSchedulePhase {
    Initialize,
    Infer { step: usize },
    UpdateParameters { inference_step: usize },
    Complete,
}

#[derive(Debug, Clone, Copy, PartialEq, Eq, Structural)]
pub struct PcSchedulePlan {
    pub inference_steps: usize,
    pub learning: PcLearningSchedule,
}

/// Why a schedule plan was rejected.
#[derive(Debug, Clone, Copy, PartialEq, Eq, Structural)]
pub enum PcScheduleError {
    NoInferenceSteps,
}

/// The phases between `Initialize` and `Complete`: each inference step in
/// order, followed either by one update after the last step (equilibrium) or
/// by an update after every step (incremental).
pub open spec fn schedule_body(steps: nat, learning: PcLearningSchedule) -> Seq<PcSchedulePhase> {
    match learning {
        PcLearningSchedule::Equilibrium => Seq::new(
            steps,
            |i: int| PcSchedulePhase::Infer { step: i as usize },
        ).push(PcSchedulePhase::UpdateParameters { inference_step: (steps - 1) as usize }),
        PcLearningSchedule::Incremental => Seq::new(
            2 * steps,
            |j: int|
                if j % 2 == 0 {
                    PcSchedulePhase::Infer { step: (j / 2) as usize }
                } else {
                    PcSchedulePhase::UpdateParameters { inference_step: (j / 2) as usize }
                },
        ),
    }
}

/// The complete phase sequence of a plan.
pub open spec fn schedule_phases(plan: PcSchedulePlan) -> Seq<PcSchedulePhase> {
    seq![PcSchedulePhase::Initialize] + schedule_body(plan.inference_steps as nat, plan.learning)
        + seq![PcSchedulePhase::Complete]
}

/// How many phases a plan's sequence holds.
pub open spec fn schedule_len(plan: PcSchedulePlan) -> int {
    match plan.learning {
        PcLearningSchedule::Equilibrium => plan.inference_steps + 3,
        PcLearningSchedule::Incremental => 2 * plan.inference_steps + 2,
    }
}


/// Every plan's phases open with `Initialize`, close with `Complete`, and hold
/// `schedule_len` phases.
pub proof fn law_schedule_is_bracketed(plan: PcSchedulePlan)
    requires
        plan.inference_steps > 0,
    ensures
        schedule_phases(plan).len() == schedule_len(plan),
        schedule_phases(plan)[0] == (PcSchedulePhase::Initialize),
        schedule_phases(plan)[schedule_len(plan) - 1] == (PcSchedulePhase::Complete),
{
}

/// Equilibrium learning infers every step in order, then updates the
/// parameters exactly once, after the last inference step.
pub proof fn law_equilibrium_updates_once_after_inference(plan: PcSchedulePlan)
    requires
        plan.inference_steps > 0,
        plan.learning == PcLearningSchedule::Equilibrium,
    ensures
        forall|k: int|
            0 <= k < plan.inference_steps ==> #[trigger] schedule_phases(plan)[k + 1]
                == (PcSchedulePhase::Infer { step: k as usize }),
        schedule_phases(plan)[plan.inference_steps + 1] == (PcSchedulePhase::UpdateParameters {
            inference_step: (plan.inference_steps - 1) as usize,
        }),
        forall|j: int|
            0 <= j < schedule_phases(plan).len() && (#[trigger] schedule_phases(plan)[j] is UpdateParameters)
                ==> j == plan.inference_steps + 1,
{
    let phases = schedule_phases(plan);
    assert forall|j: int|
        0 <= j < phases.len() && #[trigger] phases[j] is UpdateParameters implies j
        == plan.inference_steps + 1 by {
        if 1 <= j <= plan.inference_steps {
            assert(phases[j] == (PcSchedulePhase::Infer { step: (j - 1) as usize }));
        }
    }
}

/// Incremental learning updates the parameters right after every inference
/// step, for that step.
pub proof fn law_incremental_updates_after_each_inference(plan: PcSchedulePlan)
    requires
        plan.inference_steps > 0,
        plan.learning == PcLearningSchedule::Incremental,
    ensures
        forall|k: int|
            0 <= k < plan.inference_steps ==> #[trigger] schedule_phases(plan)[2 * k + 1]
                == (PcSchedulePhase::Infer { step: k as usize }) && schedule_phases(plan)[2 * k + 2]
                == (PcSchedulePhase::UpdateParameters { inference_step: k as usize }),
{
    let phases = schedule_phases(plan);
    assert forall|k: int| 0 <= k < plan.inference_steps implies #[trigger] phases[2 * k + 1]
        == (PcSchedulePhase::Infer { step: k as usize }) && phases[2 * k + 2]
        == (PcSchedulePhase::UpdateParameters { inference_step: k as usize }) by {
        assert((2 * k) % 2 == 0 && (2 * k) / 2 == k);
        assert((2 * k + 1) % 2 == 1 && (2 * k + 1) / 2 == k);
    }
}

impl PcSchedulePlan {
    /// A plan is valid when it runs at least one inference step.
    pub fn validate(&self) -> (r: Result<(), PcScheduleError>)
        ensures
            r is Ok <==> self.inference_steps > 0,
            r is Err ==> r == Err::<(), PcScheduleError>(PcScheduleError::NoInferenceSteps),
    {
        if self.inference_steps == 0 {
            return Err(PcScheduleError::NoInferenceSteps);
        }
        Ok(())
    }

    /// The phases of this plan, from `Initialize` to `Complete`.
    pub fn phases(&self) -> (phases: Vec<PcSchedulePhase>)
        requires
            self.inference_steps > 0,
            schedule_len(*self) <= usize::MAX,
        ensures
            phases@ == schedule_phases(*self),
            phases@.len() == schedule_len(*self),
    {
        let steps = self.inference_steps;
        let ghost body = schedule_body(steps as nat, self.learning);
        let mut phases: Vec<PcSchedulePhase> = Vec::new();
        phases.push(PcSchedulePhase::Initialize);
        let mut step: usize = 0;
        while step < steps
            invariant
                step <= steps,
                steps == self.inference_steps,
                body == schedule_body(steps as nat, self.learning),
                schedule_len(*self) <= usize::MAX,
                match self.learning {
                    PcLearningSchedule::Equilibrium => phases@ =~= seq![PcSchedulePhase::Initialize]
                        + body.take(step as int),
                    PcLearningSchedule::Incremental => phases@ =~= seq![PcSchedulePhase::Initialize]
                        + body.take(2 * step),
                },
            decreases steps - step,
        {
            phases.push(PcSchedulePhase::Infer { step });
            match self.learning {
                PcLearningSchedule::Incremental => {
                    phases.push(PcSchedulePhase::UpdateParameters { inference_step: step });
                    proof {
                        assert(body[2 * step as int] == PcSchedulePhase::Infer { step });
                        assert(body[2 * step + 1] == PcSchedulePhase::UpdateParameters {
                            inference_step: step,
                        });
                        assert(body.take(2 * (step + 1)) =~= body.take(2 * step).push(
                            PcSchedulePhase::Infer { step },
                        ).push(PcSchedulePhase::UpdateParameters { inference_step: step }));
                    }
                },
                PcLearningSchedule::Equilibrium => {
                    proof {
                        assert(body.take(step + 1) =~= body.take(step as int).push(
                            PcSchedulePhase::Infer { step },
                        ));
                    }
                },
            }
            step += 1;
        }
        if let PcLearningSchedule::Equilibrium = self.learning {
            phases.push(PcSchedulePhase::UpdateParameters { inference_step: steps - 1 });
            proof {
                assert(body.take(steps as int).push(
                    PcSchedulePhase::UpdateParameters { inference_step: (steps - 1) as usize },
                ) =~= body);
            }
        } else {
            proof {
                assert(body.take(2 * steps) =~= body);
            }
        }
        phases.push(PcSchedulePhase::Complete);
        phases
    }
}

} // verus!
