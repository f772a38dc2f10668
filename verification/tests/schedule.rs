use burn_pc::schedule::{PcLearningSchedule, PcScheduleError, PcSchedulePhase, PcSchedulePlan};

#[test]
fn equilibrium_updates_once_after_inference() {
    let phases = PcSchedulePlan {
        inference_steps: 3,
        learning: PcLearningSchedule::Equilibrium,
    }
    .phases();
    assert_eq!(
        phases,
        vec![
            PcSchedulePhase::Initialize,
            PcSchedulePhase::Infer { step: 0 },
            PcSchedulePhase::Infer { step: 1 },
            PcSchedulePhase::Infer { step: 2 },
            PcSchedulePhase::UpdateParameters { inference_step: 2 },
            PcSchedulePhase::Complete,
        ]
    );
}

#[test]
fn incremental_updates_at_each_inference_step() {
    let phases = PcSchedulePlan {
        inference_steps: 2,
        learning: PcLearningSchedule::Incremental,
    }
    .phases();
    assert_eq!(
        phases,
        vec![
            PcSchedulePhase::Initialize,
            PcSchedulePhase::Infer { step: 0 },
            PcSchedulePhase::UpdateParameters { inference_step: 0 },
            PcSchedulePhase::Infer { step: 1 },
            PcSchedulePhase::UpdateParameters { inference_step: 1 },
            PcSchedulePhase::Complete,
        ]
    );
}

#[test]
fn empty_schedule_fails_validation() {
    let plan = PcSchedulePlan {
        inference_steps: 0,
        learning: PcLearningSchedule::Equilibrium,
    };
    assert!(plan.validate().is_err());
}

#[test]
fn schedule_validation_reports_missing_steps() {
    let plan = PcSchedulePlan {
        inference_steps: 0,
        learning: PcLearningSchedule::Incremental,
    };
    assert_eq!(plan.validate(), Err(PcScheduleError::NoInferenceSteps));
    let plan = PcSchedulePlan {
        inference_steps: 1,
        learning: PcLearningSchedule::Incremental,
    };
    assert_eq!(plan.validate(), Ok(()));
}

#[test]
fn single_step_plans_have_expected_lengths() {
    for (learning, len) in [
        (PcLearningSchedule::Equilibrium, 4),
        (PcLearningSchedule::Incremental, 4),
    ] {
        let phases = PcSchedulePlan {
            inference_steps: 1,
            learning,
        }
        .phases();
        assert_eq!(phases.len(), len);
        assert_eq!(phases[0], PcSchedulePhase::Initialize);
        assert_eq!(phases[len - 1], PcSchedulePhase::Complete);
        assert_eq!(phases[2], PcSchedulePhase::UpdateParameters { inference_step: 0 });
    }
    let long = PcSchedulePlan {
        inference_steps: 5,
        learning: PcLearningSchedule::Incremental,
    }
    .phases();
    assert_eq!(long.len(), 12);
    let updates = long
        .iter()
        .filter(|phase| matches!(phase, PcSchedulePhase::UpdateParameters { .. }))
        .count();
    assert_eq!(updates, 5);
}

#[test]
fn default_learning_is_equilibrium() {
    assert_eq!(PcLearningSchedule::default(), PcLearningSchedule::Equilibrium);
}
