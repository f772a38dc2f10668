use burn_pc::context::{
    allocate_context_index, route_predictive_context, PredictiveContextError,
    PredictiveContextEvidence, PredictiveContextGateError, PredictiveContextNoveltyGate,
    PredictiveContextVerdict,
};

#[test]
fn novelty_gate_requires_consecutive_evidence_and_roundtrips() {
    let mut gate = PredictiveContextNoveltyGate::new(3).expect("valid gate");
    assert!(!gate.observe(true));
    assert!(!gate.observe(false));
    assert_eq!(gate.consecutive_novel_observations(), 0);
    assert!(!gate.observe(true));
    assert!(!gate.observe(true));

    let encoded = serde_json::to_string(&(
        gate.required_consecutive_observations(),
        gate.consecutive_novel_observations(),
    ))
    .expect("serialize novelty gate");
    let (required, consecutive): (u64, u64) =
        serde_json::from_str(&encoded).expect("deserialize novelty gate");
    let mut decoded = PredictiveContextNoveltyGate::restore(required, consecutive);
    assert_eq!(decoded, gate);
    assert!(decoded.observe(true));
    assert_eq!(decoded.consecutive_novel_observations(), 0);
}

#[test]
fn novelty_gate_rejects_zero_confirmations() {
    assert_eq!(
        PredictiveContextNoveltyGate::new(0),
        Err(PredictiveContextGateError::ZeroConfirmations)
    );
    let gate = PredictiveContextNoveltyGate::new(2).expect("valid gate");
    assert_eq!(gate.required_consecutive_observations(), 2);
    assert_eq!(gate.consecutive_novel_observations(), 0);
}

#[test]
fn single_confirmation_gate_fires_on_every_novel_observation() {
    let mut gate = PredictiveContextNoveltyGate::new(1).expect("valid gate");
    assert!(gate.observe(true));
    assert!(gate.observe(true));
    assert!(!gate.observe(false));
    assert!(gate.observe(true));
}

#[test]
fn gate_confirms_exactly_at_the_requirement_and_resets() {
    let mut gate = PredictiveContextNoveltyGate::new(4).expect("valid gate");
    let outputs: Vec<bool> = (0..8).map(|_| gate.observe(true)).collect();
    assert_eq!(
        outputs,
        vec![false, false, false, true, false, false, false, true]
    );
    gate.observe(true);
    gate.observe(true);
    assert_eq!(gate.consecutive_novel_observations(), 2);
    gate.reset();
    assert_eq!(gate.consecutive_novel_observations(), 0);
    assert_eq!(gate.required_consecutive_observations(), 4);
}

#[test]
fn restored_gate_beyond_its_requirement_confirms_at_once() {
    let mut gate = PredictiveContextNoveltyGate::restore(2, 9);
    assert!(gate.observe(true));
    assert_eq!(gate.consecutive_novel_observations(), 0);
    let mut gate = PredictiveContextNoveltyGate::restore(3, u64::MAX);
    assert!(gate.observe(true));
    let mut gate = PredictiveContextNoveltyGate::restore(0, 0);
    assert!(gate.observe(true));
}

fn evidence(observations: u64, exceeds: bool, loss_key: i64) -> PredictiveContextEvidence {
    PredictiveContextEvidence {
        observations,
        exceeds_novelty_limit: exceeds,
        loss_key,
    }
}

#[test]
fn empty_bank_creates_first_context_only_when_allowed() {
    let route = route_predictive_context(&Vec::new(), 4, 2, true).expect("bootstrap");
    assert!(route.created);
    assert_eq!(route.context_index, 0);
    assert!(route.novel_evidence);
    assert!(!route.capacity_exhausted);
    assert!(route.verdicts.is_empty());
    assert_eq!(
        route_predictive_context(&Vec::new(), 4, 2, false),
        Err(PredictiveContextError::EmptyBankCreationDisabled)
    );
}

#[test]
fn familiar_observation_routes_to_existing_context() {
    let route = route_predictive_context(&vec![evidence(4, false, 11)], 4, 2, true)
        .expect("familiar selection");
    assert_eq!(route.context_index, 0);
    assert!(!route.created);
    assert!(!route.novel_evidence);
    assert_eq!(
        route.verdicts,
        vec![PredictiveContextVerdict {
            context_index: 0,
            mature: true,
            rejected_as_novel: false
        }]
    );
}

#[test]
fn novel_observation_creates_next_context_then_capacity_binds() {
    let route = route_predictive_context(&vec![evidence(4, true, 80)], 4, 2, true)
        .expect("novel selection");
    assert!(route.created);
    assert_eq!(route.context_index, 1);
    assert_eq!(allocate_context_index(1, 2), Ok(route.context_index));

    let exhausted = route_predictive_context(
        &vec![evidence(4, true, 90), evidence(4, true, 80)],
        4,
        2,
        true,
    )
    .expect("bounded novel selection");
    assert!(!exhausted.created);
    assert!(exhausted.capacity_exhausted);
    assert!(exhausted.novel_evidence);
    assert_eq!(exhausted.context_index, 1);
    assert_eq!(
        allocate_context_index(2, 2),
        Err(PredictiveContextError::CapacityExhausted { max_contexts: 2 })
    );
}

#[test]
fn immature_context_is_never_rejected_as_novel() {
    let route = route_predictive_context(&vec![evidence(1, true, 100)], 4, 2, true)
        .expect("immature bank selection");
    assert_eq!(route.context_index, 0);
    assert!(!route.created);
    assert!(!route.novel_evidence);
    assert!(!route.verdicts[0].mature);
    assert!(!route.verdicts[0].rejected_as_novel);
}

#[test]
fn routing_picks_the_first_smallest_loss() {
    let route = route_predictive_context(
        &vec![evidence(4, false, 30), evidence(4, false, 190)],
        4,
        2,
        false,
    )
    .expect("predictive selection");
    assert_eq!(route.context_index, 0);
    let route = route_predictive_context(
        &vec![evidence(4, false, 70), evidence(4, false, 13)],
        4,
        2,
        false,
    )
    .expect("second-context selection");
    assert_eq!(route.context_index, 1);
    let route = route_predictive_context(
        &vec![
            evidence(4, false, 5),
            evidence(0, false, -2),
            evidence(9, true, -2),
        ],
        4,
        8,
        true,
    )
    .expect("tie selection");
    assert_eq!(route.context_index, 1);
}

#[test]
fn novelty_without_creation_permission_is_reported_not_created() {
    let route = route_predictive_context(
        &vec![evidence(5, true, 9), evidence(6, true, 7)],
        4,
        8,
        false,
    )
    .expect("read-only selection");
    assert!(!route.created);
    assert!(!route.capacity_exhausted);
    assert!(route.novel_evidence);
    assert_eq!(route.context_index, 1);
}
