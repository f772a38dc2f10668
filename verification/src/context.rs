use vstd::prelude::*;

verus! {

/// Checkpointable sequential gate for predictive context creation.
///
/// A single transient loss spike must not allocate a permanent expert. The
/// gate confirms a distribution shift only after the configured number of
/// consecutive novel observations. It is separate from the context bank so
/// read-only evaluation can route without mutating discovery state.
#[derive(Debug, Clone, Copy, PartialEq, Eq, Structural)]
pub struct PredictiveContextNoveltyGate {
    required_consecutive_observations: u64,
    consecutive_novel_observations: u64,
}

/// The state of a novelty gate: how many consecutive novel observations
/// confirm a shift, and how many have been seen since the last confirmation
/// or reset.
#[derive(Debug, Clone, Copy, PartialEq, Eq, Structural)]
pub struct NoveltyGateState {
    pub required: u64,
    pub consecutive: u64,
}

impl View for PredictiveContextNoveltyGate {
    type V = NoveltyGateState;

    closed spec fn view(&self) -> NoveltyGateState {
        NoveltyGateState {
            required: self.required_consecutive_observations,
            consecutive: self.consecutive_novel_observations,
        }
    }
}

/// Why a gate configuration is refused.
#[derive(Debug, Clone, Copy, PartialEq, Eq, Structural)]
pub enum PredictiveContextGateError {
    ZeroConfirmations,
}

/// Steps a gate state by one decision and tells whether a shift is confirmed.
/// Novel evidence confirms when the count with it included meets the
/// requirement; a confirmation or familiar evidence clears the count.
pub open spec fn gate_observe(g: NoveltyGateState, novel: bool) -> (NoveltyGateState, bool) {
    if !novel {
        (NoveltyGateState { consecutive: 0, ..g }, false)
    } else if g.consecutive + 1 >= g.required {
        (NoveltyGateState { consecutive: 0, ..g }, true)
    } else {
        (NoveltyGateState { consecutive: (g.consecutive + 1) as u64, ..g }, false)
    }
}

/// Folds a sequence of decisions into a gate state, first to last.
pub open spec fn gate_after(g: NoveltyGateState, events: Seq<bool>) -> NoveltyGateState
    decreases events.len(),
{
    if events.len() == 0 {
        g
    } else {
        gate_observe(gate_after(g, events.drop_last()), events.last()).0
    }
}

/// Whether observation `i` of a run confirmed a shift.
pub open spec fn gate_confirms_at(g: NoveltyGateState, events: Seq<bool>, i: int) -> bool {
    gate_observe(gate_after(g, events.take(i)), events[i]).1
}


/// One gate observation, in terms of the counts: it confirms exactly when the
/// observation is novel and brings the count of consecutive novel
/// observations to the requirement; the count then grows by one on a novel
/// observation that does not confirm, and is cleared otherwise; the
/// requirement never changes.
pub proof fn law_gate_observation_counts(g: NoveltyGateState, novel: bool)
    ensures
        gate_observe(g, novel).1 == (novel && g.consecutive + 1 >= g.required),
        gate_observe(g, novel).0.required == g.required,
        gate_observe(g, novel).0.consecutive == (if novel && g.consecutive + 1 < g.required {
            g.consecutive + 1
        } else {
            0
        }),
        !novel ==> !gate_observe(g, novel).1,
{
}

/// The consecutive-novel count of a gate always stays below its requirement:
/// a well-formed gate (requirement positive, count below it) stays so after
/// any observation, with its requirement unchanged.
pub proof fn law_gate_count_stays_below_requirement(g: NoveltyGateState, novel: bool)
    requires
        g.required > 0,
        g.consecutive < g.required,
    ensures
        gate_observe(g, novel).0.required == g.required,
        gate_observe(g, novel).0.consecutive < g.required,
{
}

proof fn lemma_gate_run_tail(g: NoveltyGateState, events: Seq<bool>, n: int)
    requires
        g.required >= 1,
        g.consecutive == 0,
        0 <= n <= events.len(),
    ensures
        gate_after(g, events.take(n)).required == g.required,
        gate_after(g, events.take(n)).consecutive <= n,
        gate_after(g, events.take(n)).consecutive < g.required,
        forall|j: int|
            n - gate_after(g, events.take(n)).consecutive <= j < n ==> #[trigger] events[j],
    decreases n,
{
    if n > 0 {
        lemma_gate_run_tail(g, events, n - 1);
        assert(events.take(n).drop_last() =~= events.take(n - 1));
        assert(events.take(n).last() == events[n - 1]);
    } else {
        assert(events.take(0) =~= Seq::<bool>::empty());
    }
}

/// A gate confirms only after the configured number of consecutive novel
/// observations: from a cleared count, a confirmation at observation `i`
/// means that observation and the `required - 1` before it were all novel.
pub proof fn law_gate_confirms_only_after_required_novel_run(
    g: NoveltyGateState,
    events: Seq<bool>,
    i: int,
)
    requires
        g.required >= 1,
        g.consecutive == 0,
        0 <= i < events.len(),
        gate_confirms_at(g, events, i),
    ensures
        i + 1 >= g.required,
        forall|j: int| i + 1 - g.required <= j <= i ==> #[trigger] events[j],
{
    lemma_gate_run_tail(g, events, i);
}

/// A run of `k` novel observations.
pub open spec fn novel_run(k: nat) -> Seq<bool> {
    Seq::new(k, |j: int| true)
}

/// From a cleared count, a run of `k <= required` novel observations confirms
/// exactly at the `required`-th one, and the count is cleared after it.
pub proof fn law_gate_confirms_at_required_novel_run(g: NoveltyGateState, k: nat)
    requires
        g.required >= 1,
        g.consecutive == 0,
        k <= g.required,
    ensures
        forall|i: int|
            0 <= i < k ==> #[trigger] gate_confirms_at(g, novel_run(k), i) == (i + 1
                == g.required),
        gate_after(g, novel_run(k)).required == g.required,
        gate_after(g, novel_run(k)).consecutive == (if k == g.required {
            0
        } else {
            k
        }),
    decreases k,
{
    let events = novel_run(k);
    if k > 0 {
        law_gate_confirms_at_required_novel_run(g, (k - 1) as nat);
        assert(events.drop_last() =~= novel_run((k - 1) as nat));
        assert forall|i: int| 0 <= i < k implies #[trigger] gate_confirms_at(g, events, i) == (i + 1
            == g.required) by {
            assert(events.take(i) =~= novel_run((k - 1) as nat).take(i));
            if i < k - 1 {
                assert(gate_confirms_at(g, novel_run((k - 1) as nat), i) == (i + 1
                    == g.required));
            } else {
                assert(events.take(i) =~= novel_run((k - 1) as nat));
            }
        }
    } else {
        assert(events =~= Seq::<bool>::empty());
    }
}

impl PredictiveContextNoveltyGate {
    /// A fresh gate that confirms after `required_consecutive_observations`
    /// consecutive novel observations; zero is refused.
    pub fn new(required_consecutive_observations: u64) -> (r: Result<
        Self,
        PredictiveContextGateError,
    >)
        ensures
            required_consecutive_observations == 0 <==> r is Err,
            r is Err ==> r == Err::<Self, PredictiveContextGateError>(
                PredictiveContextGateError::ZeroConfirmations,
            ),
            r matches Ok(g) ==> g@ == (NoveltyGateState {
                required: required_consecutive_observations,
                consecutive: 0,
            }),
    {
        if required_consecutive_observations == 0 {
            return Err(PredictiveContextGateError::ZeroConfirmations);
        }
        Ok(PredictiveContextNoveltyGate {
            required_consecutive_observations,
            consecutive_novel_observations: 0,
        })
    }

    /// A gate in exactly the given state, as a checkpoint recorded it.
    pub fn restore(
        required_consecutive_observations: u64,
        consecutive_novel_observations: u64,
    ) -> (g: Self)
        ensures
            g@ == (NoveltyGateState {
                required: required_consecutive_observations,
                consecutive: consecutive_novel_observations,
            }),
    {
        PredictiveContextNoveltyGate { required_consecutive_observations, consecutive_novel_observations }
    }

    pub fn required_consecutive_observations(self) -> (r: u64)
        ensures
            r == self@.required,
    {
        self.required_consecutive_observations
    }

    pub fn consecutive_novel_observations(self) -> (r: u64)
        ensures
            r == self@.consecutive,
    {
        self.consecutive_novel_observations
    }

    /// Observe one mutable training-stream decision. Returns `true` exactly
    /// when a new context should be allocated and resets after confirmation.
    pub fn observe(&mut self, novel_evidence: bool) -> (confirmed: bool)
        ensures
            (final(self)@, confirmed) == gate_observe(old(self)@, novel_evidence),
            confirmed == (novel_evidence && old(self)@.consecutive + 1 >= old(self)@.required),
            final(self)@.required == old(self)@.required,
            final(self)@.consecutive == (if novel_evidence && old(self)@.consecutive + 1
                < old(self)@.required {
                old(self)@.consecutive + 1
            } else {
                0
            }),
    {
        if !novel_evidence {
            self.consecutive_novel_observations = 0;
            return false;
        }
        let bumped = self.consecutive_novel_observations.saturating_add(1);
        self.consecutive_novel_observations = if bumped < self.required_consecutive_observations {
            bumped
        } else {
            self.required_consecutive_observations
        };
        if self.consecutive_novel_observations < self.required_consecutive_observations {
            return false;
        }
        self.consecutive_novel_observations = 0;
        true
    }

    /// Clears the count of consecutive novel observations.
    pub fn reset(&mut self)
        ensures
            final(self)@ == (NoveltyGateState { consecutive: 0, ..old(self)@ }),
    {
        self.consecutive_novel_observations = 0;
    }
}


/// What the bank knows of one existing context when routing one observation:
/// how many observations calibrated it, whether the observed loss lies above
/// its calibrated novelty limit, and the loss as a key whose integer order is
/// the total order of the losses.
#[derive(Debug, Clone, Copy, PartialEq, Eq, Structural)]
pub struct PredictiveContextEvidence {
    pub observations: u64,
    pub exceeds_novelty_limit: bool,
    pub loss_key: i64,
}

/// The routing verdict for one existing context.
#[derive(Debug, Clone, Copy, PartialEq, Eq, Structural)]
pub struct PredictiveContextVerdict {
    pub context_index: usize,
    pub mature: bool,
    pub rejected_as_novel: bool,
}

/// Where one observation is routed.
#[derive(Debug, Clone, PartialEq, Eq)]
pub struct PredictiveContextRoute {
    pub context_index: usize,
    pub created: bool,
    pub capacity_exhausted: bool,
    /// Every mature expert rejected the observation under its calibrated
    /// predictive-loss envelope. Callers may feed this into a sequential
    /// novelty gate before allocating a context.
    pub novel_evidence: bool,
    pub verdicts: Vec<PredictiveContextVerdict>,
}

/// Why a context could not be routed to or allocated.
#[derive(Debug, Clone, Copy, PartialEq, Eq, Structural)]
pub enum PredictiveContextError {
    EmptyBankCreationDisabled,
    CapacityExhausted { max_contexts: usize },
}

/// A context is mature once it has seen the minimum number of observations.
pub open spec fn context_mature(e: PredictiveContextEvidence, minimum_observations: u64) -> bool {
    e.observations >= minimum_observations
}

/// A mature context rejects an observation whose loss exceeds its limit.
pub open spec fn context_rejects(e: PredictiveContextEvidence, minimum_observations: u64) -> bool {
    context_mature(e, minimum_observations) && e.exceeds_novelty_limit
}

/// Every existing context is mature and rejects the observation.
pub open spec fn evidence_is_novel(
    evidence: Seq<PredictiveContextEvidence>,
    minimum_observations: u64,
) -> bool {
    &&& forall|i: int|
        0 <= i < evidence.len() ==> #[trigger] context_mature(evidence[i], minimum_observations)
    &&& forall|i: int|
        0 <= i < evidence.len() ==> #[trigger] context_rejects(evidence[i], minimum_observations)
}

/// `k` is the first context with the smallest loss.
pub open spec fn first_least_loss(evidence: Seq<PredictiveContextEvidence>, k: int) -> bool {
    &&& 0 <= k < evidence.len()
    &&& forall|j: int| 0 <= j < evidence.len() ==> evidence[k].loss_key <= #[trigger] evidence[j].loss_key
    &&& forall|j: int| 0 <= j < k ==> evidence[k].loss_key < #[trigger] evidence[j].loss_key
}

/// Whether routing allocates a new context.
pub open spec fn route_creates(
    evidence: Seq<PredictiveContextEvidence>,
    minimum_observations: u64,
    max_contexts: usize,
    allow_create: bool,
) -> bool {
    allow_create && (evidence.len() == 0 || (evidence_is_novel(evidence, minimum_observations)
        && evidence.len() < max_contexts))
}

/// What allocating one more context answers when `known` exist.
pub open spec fn allocation_result(known: int, max_contexts: usize) -> Result<usize, PredictiveContextError> {
    if known < max_contexts {
        Ok(known as usize)
    } else {
        Err(PredictiveContextError::CapacityExhausted { max_contexts })
    }
}

/// The route chosen for one observation, given the evidence of every known
/// context (one entry per context, in order).
pub open spec fn route_matches(
    evidence: Seq<PredictiveContextEvidence>,
    minimum_observations: u64,
    max_contexts: usize,
    allow_create: bool,
    route: PredictiveContextRoute,
) -> bool {
    let novel = evidence.len() == 0 || evidence_is_novel(evidence, minimum_observations);
    &&& route.created == route_creates(evidence, minimum_observations, max_contexts, allow_create)
    &&& route.created ==> route.context_index == evidence.len()
    &&& !route.created ==> first_least_loss(evidence, route.context_index as int)
    &&& route.novel_evidence == novel
    &&& route.capacity_exhausted == (evidence.len() > 0 && allow_create && novel && evidence.len()
        >= max_contexts)
    &&& route.verdicts@.len() == evidence.len()
    &&& forall|i: int|
        0 <= i < evidence.len() ==> #[trigger] route.verdicts@[i] == (PredictiveContextVerdict {
            context_index: i as usize,
            mature: context_mature(evidence[i], minimum_observations),
            rejected_as_novel: context_rejects(evidence[i], minimum_observations),
        })
}

/// Routes one observation among the known contexts.
///
/// An empty bank can only create its first context. Otherwise a new context is
/// created when creation is allowed, every context is mature and rejects the
/// observation, and capacity remains; in every other case the observation goes
/// to the context with the smallest predictive loss (the first such one).
/// Calibration is used only for novelty detection, never for the choice among
/// existing contexts.
pub fn route_predictive_context(
    evidence: &Vec<PredictiveContextEvidence>,
    minimum_observations: u64,
    max_contexts: usize,
    allow_create: bool,
) -> (r: Result<PredictiveContextRoute, PredictiveContextError>)
    ensures
        r is Err <==> evidence@.len() == 0 && !allow_create,
        r is Err ==> r == Err::<PredictiveContextRoute, PredictiveContextError>(
            PredictiveContextError::EmptyBankCreationDisabled,
        ),
        r matches Ok(route) ==> route_matches(
            evidence@,
            minimum_observations,
            max_contexts,
            allow_create,
            route,
        ),
{
    let known = evidence.len();
    if known == 0 {
        if !allow_create {
            return Err(PredictiveContextError::EmptyBankCreationDisabled);
        }
        return Ok(
            PredictiveContextRoute {
                context_index: 0,
                created: true,
                capacity_exhausted: false,
                novel_evidence: true,
                verdicts: Vec::new(),
            },
        );
    }
    let mut verdicts: Vec<PredictiveContextVerdict> = Vec::new();
    let mut all_mature = true;
    let mut all_rejected = true;
    let mut best: usize = 0;
    let mut i: usize = 0;
    while i < known
        invariant
            known == evidence@.len(),
            known > 0,
            0 <= i <= known,
            verdicts@.len() == i,
            forall|k: int|
                0 <= k < i ==> #[trigger] verdicts@[k] == (PredictiveContextVerdict {
                    context_index: k as usize,
                    mature: context_mature(evidence@[k], minimum_observations),
                    rejected_as_novel: context_rejects(evidence@[k], minimum_observations),
                }),
            all_mature == (forall|k: int|
                0 <= k < i ==> #[trigger] context_mature(evidence@[k], minimum_observations)),
            all_rejected == (forall|k: int|
                0 <= k < i ==> #[trigger] context_rejects(evidence@[k], minimum_observations)),
            i > 0 ==> best < i,
            i > 0 ==> forall|j: int|
                0 <= j < i ==> evidence@[best as int].loss_key <= #[trigger] evidence@[j].loss_key,
            i > 0 ==> forall|j: int|
                0 <= j < best ==> evidence@[best as int].loss_key < #[trigger] evidence@[j].loss_key,
        decreases known - i,
    {
        let e = evidence[i];
        let mature = e.observations >= minimum_observations;
        let rejected = mature && e.exceeds_novelty_limit;
        verdicts.push(PredictiveContextVerdict { context_index: i, mature, rejected_as_novel: rejected });
        proof {
            assert(context_mature(evidence@[i as int], minimum_observations) == mature);
            assert(context_rejects(evidence@[i as int], minimum_observations) == rejected);
        }
        if !mature {
            all_mature = false;
        }
        if !rejected {
            all_rejected = false;
        }
        if i == 0 || e.loss_key < evidence[best].loss_key {
            best = i;
        }
        i += 1;
    }
    let novel = all_mature && all_rejected;
    if allow_create && novel && known < max_contexts {
        return Ok(
            PredictiveContextRoute {
                context_index: known,
                created: true,
                capacity_exhausted: false,
                novel_evidence: true,
                verdicts,
            },
        );
    }
    Ok(
        PredictiveContextRoute {
            context_index: best,
            created: false,
            capacity_exhausted: allow_create && novel && known >= max_contexts,
            novel_evidence: novel,
            verdicts,
        },
    )
}

/// Allocates the index of one more context when `known` exist: the next
/// index, unless the capacity is exhausted.
pub fn allocate_context_index(known: usize, max_contexts: usize) -> (r: Result<
    usize,
    PredictiveContextError,
>)
    ensures
        r == allocation_result(known as int, max_contexts),
        known >= max_contexts ==> r == Err::<usize, PredictiveContextError>(
            PredictiveContextError::CapacityExhausted { max_contexts },
        ),
        r matches Ok(k) ==> k == known && k < max_contexts,
{
    if known >= max_contexts {
        return Err(PredictiveContextError::CapacityExhausted { max_contexts });
    }
    Ok(known)
}

/// When routing decides to create a context, allocating one succeeds and
/// yields exactly the index the route announced (for any bank whose capacity
/// is positive).
pub proof fn law_created_route_index_is_next_allocation(
    evidence: Seq<PredictiveContextEvidence>,
    minimum_observations: u64,
    max_contexts: usize,
    allow_create: bool,
    route: PredictiveContextRoute,
)
    requires
        max_contexts > 0,
        route_matches(evidence, minimum_observations, max_contexts, allow_create, route),
        route.created,
    ensures
        allocation_result(evidence.len() as int, max_contexts) == Ok::<usize, PredictiveContextError>(
            route.context_index,
        ),
{
}

/// Routing never both creates and reports exhausted capacity, and it creates
/// or reports exhaustion only on novel evidence with creation allowed.
pub proof fn law_route_flags_are_consistent(
    evidence: Seq<PredictiveContextEvidence>,
    minimum_observations: u64,
    max_contexts: usize,
    allow_create: bool,
    route: PredictiveContextRoute,
)
    requires
        route_matches(evidence, minimum_observations, max_contexts, allow_create, route),
    ensures
        !(route.created && route.capacity_exhausted),
        route.created ==> allow_create && route.novel_evidence,
        route.capacity_exhausted ==> allow_create && route.novel_evidence,
{
}

/// Routing among existing contexts compares predictive losses alone: two
/// observations whose losses order the same way are routed to the same
/// existing context, whatever the contexts' calibration says.
pub proof fn law_routing_choice_ignores_calibration(
    evidence_a: Seq<PredictiveContextEvidence>,
    evidence_b: Seq<PredictiveContextEvidence>,
    minimum_observations_a: u64,
    minimum_observations_b: u64,
    max_contexts_a: usize,
    max_contexts_b: usize,
    allow_create_a: bool,
    allow_create_b: bool,
    route_a: PredictiveContextRoute,
    route_b: PredictiveContextRoute,
)
    requires
        evidence_a.len() == evidence_b.len(),
        forall|i: int|
            0 <= i < evidence_a.len() ==> #[trigger] evidence_a[i].loss_key == evidence_b[i].loss_key,
        route_matches(evidence_a, minimum_observations_a, max_contexts_a, allow_create_a, route_a),
        route_matches(evidence_b, minimum_observations_b, max_contexts_b, allow_create_b, route_b),
        !route_a.created,
        !route_b.created,
    ensures
        route_a.context_index == route_b.context_index,
{
    let a = route_a.context_index as int;
    let b = route_b.context_index as int;
    assert(evidence_a[b].loss_key == evidence_b[b].loss_key);
    assert(evidence_a[a].loss_key == evidence_b[a].loss_key);
    if a < b {
        assert(evidence_b[b].loss_key < evidence_b[a].loss_key);
    } else if b < a {
        assert(evidence_a[a].loss_key < evidence_a[b].loss_key);
    }
}

/// A context that has not yet matured can never be outvoted into creating a
/// duplicate: while any existing context is immature, routing does not create
/// and reports no novel evidence.
pub proof fn law_immature_context_blocks_creation(
    evidence: Seq<PredictiveContextEvidence>,
    minimum_observations: u64,
    max_contexts: usize,
    allow_create: bool,
    route: PredictiveContextRoute,
    i: int,
)
    requires
        0 <= i < evidence.len(),
        !context_mature(evidence[i], minimum_observations),
        route_matches(evidence, minimum_observations, max_contexts, allow_create, route),
    ensures
        !route.created,
        !route.novel_evidence,
        !route.capacity_exhausted,
{
}

/// Allocation never hands out an index at or beyond the capacity: with `known`
/// contexts it yields exactly `known` when `known < max_contexts`, and is
/// refused with the capacity otherwise.
pub proof fn law_allocation_respects_capacity(
    known: int,
    max_contexts: usize,
    r: Result<usize, PredictiveContextError>,
)
    requires
        0 <= known <= usize::MAX,
        r == allocation_result(known, max_contexts),
    ensures
        known >= max_contexts ==> r == Err::<usize, PredictiveContextError>(
            PredictiveContextError::CapacityExhausted { max_contexts },
        ),
        known < max_contexts ==> r == Ok::<usize, PredictiveContextError>(known as usize),
        r matches Ok(k) ==> k < max_contexts,
{
}

/// What routing answers, in terms of the evidence alone. Each verdict is mature
/// exactly when its context has at least `minimum_observations` observations,
/// and rejects exactly when it is mature and the loss exceeds its limit. The
/// evidence is novel only when every known context rejects the observation
/// (an empty bank counts as novel); a context is created only on novel
/// evidence with creation allowed and capacity left, and then gets the next
/// index; otherwise the observation goes to the first context with the least
/// loss, and exhausted capacity is reported exactly when creation was blocked
/// by the capacity alone.
pub proof fn law_route_follows_the_evidence(
    evidence: Seq<PredictiveContextEvidence>,
    minimum_observations: u64,
    max_contexts: usize,
    allow_create: bool,
    route: PredictiveContextRoute,
)
    requires
        route_matches(evidence, minimum_observations, max_contexts, allow_create, route),
    ensures
        route.verdicts@.len() == evidence.len(),
        forall|i: int|
            0 <= i < evidence.len() ==> (#[trigger] route.verdicts@[i]).context_index == i
                && route.verdicts@[i].mature == (evidence[i].observations >= minimum_observations)
                && route.verdicts@[i].rejected_as_novel == (evidence[i].observations
                >= minimum_observations && evidence[i].exceeds_novelty_limit),
        route.novel_evidence <==> (evidence.len() == 0 || forall|i: int|
            0 <= i < evidence.len() ==> (#[trigger] evidence[i]).observations >= minimum_observations
                && evidence[i].exceeds_novelty_limit),
        forall|i: int|
            0 <= i < evidence.len() && !(#[trigger] route.verdicts@[i]).rejected_as_novel
                ==> !route.created && !route.novel_evidence,
        route.created <==> allow_create && (evidence.len() == 0 || (route.novel_evidence
            && evidence.len() < max_contexts)),
        route.created ==> route.context_index == evidence.len(),
        !route.created ==> route.context_index < evidence.len(),
        !route.created ==> forall|j: int|
            0 <= j < evidence.len() ==> evidence[route.context_index as int].loss_key
                <= (#[trigger] evidence[j]).loss_key,
        !route.created ==> forall|j: int|
            0 <= j < route.context_index ==> evidence[route.context_index as int].loss_key
                < (#[trigger] evidence[j]).loss_key,
        route.capacity_exhausted <==> evidence.len() > 0 && allow_create && route.novel_evidence
            && evidence.len() >= max_contexts,
{
    assert(route.verdicts@.len() == route.verdicts.len());
    assert forall|i: int|
        0 <= i < evidence.len() implies (#[trigger] route.verdicts@[i]).context_index == i
            && route.verdicts@[i].mature == (evidence[i].observations >= minimum_observations)
            && route.verdicts@[i].rejected_as_novel == (evidence[i].observations
            >= minimum_observations && evidence[i].exceeds_novelty_limit) by {
        assert(route.verdicts@[i] == (PredictiveContextVerdict {
            context_index: i as usize,
            mature: context_mature(evidence[i], minimum_observations),
            rejected_as_novel: context_rejects(evidence[i], minimum_observations),
        }));
    }
    assert forall|i: int|
        0 <= i < evidence.len() && !(#[trigger] route.verdicts@[i]).rejected_as_novel
            implies !route.created && !route.novel_evidence by {
        assert(!context_rejects(evidence[i], minimum_observations));
    }
    if evidence.len() > 0 {
        if route.novel_evidence {
            assert forall|i: int| 0 <= i < evidence.len() implies (#[trigger] evidence[i]).observations
                >= minimum_observations && evidence[i].exceeds_novelty_limit by {
                assert(context_rejects(evidence[i], minimum_observations));
            }
        } else {
            if forall|i: int|
                0 <= i < evidence.len() ==> (#[trigger] evidence[i]).observations
                    >= minimum_observations && evidence[i].exceeds_novelty_limit {
                assert forall|i: int| 0 <= i < evidence.len() implies #[trigger] context_rejects(
                    evidence[i],
                    minimum_observations,
                ) by {
                    assert(evidence[i].observations >= minimum_observations);
                }
                assert forall|i: int| 0 <= i < evidence.len() implies #[trigger] context_mature(
                    evidence[i],
                    minimum_observations,
                ) by {
                    assert(evidence[i].observations >= minimum_observations);
                }
            }
        }
    }
}

} // verus!
