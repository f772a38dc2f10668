use std::collections::BTreeSet;
use vstd::prelude::*;

verus! {

broadcast use vstd::std_specs::btree::group_btree_axioms, vstd::laws_cmp::group_laws_cmp;

/// Stable identifier for an activity node in a predictive-coding graph.
#[derive(Debug, Clone, Copy, PartialEq, Eq, Structural, PartialOrd, Ord, Hash)]
pub struct PcNodeId(pub u32);

/// Stable identifier for a local prediction factor.
#[derive(Debug, Clone, Copy, PartialEq, Eq, Structural, PartialOrd, Ord, Hash)]
pub struct PcFactorId(pub u32);

/// Static metadata for one inferred or clamped activity.
#[derive(Debug, Clone, PartialEq, Eq)]
pub struct PcNodeSpec {
    pub id: PcNodeId,
    pub name: String,
    pub clamped: bool,
}

/// Static metadata for one directed local prediction.
///
/// The factor predicts `target` from the activities in `parents`. Cyclic graphs
/// are valid; inference scheduling, rather than graph topology, resolves them.
#[derive(Debug, Clone, PartialEq, Eq)]
pub struct PcFactorSpec {
    pub id: PcFactorId,
    pub name: String,
    pub parents: Vec<PcNodeId>,
    pub target: PcNodeId,
}

/// Backend-independent predictive-coding graph description.
#[derive(Debug, Clone, PartialEq, Eq)]
pub struct PcGraphSpec {
    pub version: u32,
    pub nodes: Vec<PcNodeSpec>,
    pub factors: Vec<PcFactorSpec>,
}

/// Why a graph description was rejected. Each variant names the first
/// violation met when nodes, then factors, then each factor's parents are
/// scanned in order.
#[derive(Debug, Clone, PartialEq, Eq)]
pub enum PcGraphError {
    UnsupportedVersion { found: u32 },
    NoNodes,
    NoFactors,
    DuplicateNodeId { id: u32 },
    InvalidNodeName { name: String },
    DuplicateFactorId { id: u32 },
    InvalidFactorName { name: String },
    FactorWithoutParent { factor: String },
    MissingTarget { factor: String, target: u32 },
    MissingParent { factor: String, parent: u32 },
    RepeatedParent { factor: String, parent: u32 },
}

/// Name for what `char::is_whitespace` answers: whether the character has the
/// Unicode `White_Space` property.
pub uninterp spec fn unicode_white_space(c: char) -> bool;

/// Calls `char::is_whitespace`. Claimed: the answer is the Unicode
/// `White_Space` property of `c`, a function of `c` alone.
#[verifier::external_body]
fn char_is_whitespace(c: char) -> (r: bool)
    ensures
        r == unicode_white_space(c),
{
    c.is_whitespace()
}

/// A name is blank when trimming its Unicode white space leaves nothing,
/// that is, when every character of it is white space.
pub open spec fn is_blank_name(name: Seq<char>) -> bool {
    forall|i: int| 0 <= i < name.len() ==> #[trigger] unicode_white_space(name[i])
}

pub open spec fn node_id_seen(nodes: Seq<PcNodeSpec>, i: int) -> bool {
    exists|k: int| 0 <= k < i && #[trigger] nodes[k].id == nodes[i].id
}

pub open spec fn node_name_seen(nodes: Seq<PcNodeSpec>, i: int) -> bool {
    exists|k: int| 0 <= k < i && #[trigger] nodes[k].name@ == nodes[i].name@
}

pub open spec fn factor_id_seen(factors: Seq<PcFactorSpec>, j: int) -> bool {
    exists|k: int| 0 <= k < j && #[trigger] factors[k].id == factors[j].id
}

pub open spec fn factor_name_seen(factors: Seq<PcFactorSpec>, j: int) -> bool {
    exists|k: int| 0 <= k < j && #[trigger] factors[k].name@ == factors[j].name@
}

pub open spec fn has_node(nodes: Seq<PcNodeSpec>, id: PcNodeId) -> bool {
    exists|k: int| 0 <= k < nodes.len() && #[trigger] nodes[k].id == id
}

/// The violation of node `i`, judged against the nodes before it.
pub open spec fn node_error(nodes: Seq<PcNodeSpec>, i: int) -> Option<PcGraphError> {
    if node_id_seen(nodes, i) {
        Some(PcGraphError::DuplicateNodeId { id: nodes[i].id.0 })
    } else if is_blank_name(nodes[i].name@) || node_name_seen(nodes, i) {
        Some(PcGraphError::InvalidNodeName { name: nodes[i].name })
    } else {
        None
    }
}

/// The first node violation at index `i` or later.
pub open spec fn first_node_error(nodes: Seq<PcNodeSpec>, i: int) -> Option<PcGraphError>
    decreases nodes.len() - i,
{
    if i < 0 || i >= nodes.len() {
        None
    } else if node_error(nodes, i) is Some {
        node_error(nodes, i)
    } else {
        first_node_error(nodes, i + 1)
    }
}

/// The violation of parent `p` of `factor`.
pub open spec fn parent_error(nodes: Seq<PcNodeSpec>, factor: PcFactorSpec, p: int) -> Option<
    PcGraphError,
> {
    let parent = factor.parents@[p];
    if !has_node(nodes, parent) {
        Some(PcGraphError::MissingParent { factor: factor.name, parent: parent.0 })
    } else if exists|q: int| 0 <= q < p && #[trigger] factor.parents@[q] == parent {
        Some(PcGraphError::RepeatedParent { factor: factor.name, parent: parent.0 })
    } else {
        None
    }
}

/// The first parent violation of `factor` at index `p` or later.
pub open spec fn first_parent_error(nodes: Seq<PcNodeSpec>, factor: PcFactorSpec, p: int) -> Option<
    PcGraphError,
>
    decreases factor.parents@.len() - p,
{
    if p < 0 || p >= factor.parents@.len() {
        None
    } else if parent_error(nodes, factor, p) is Some {
        parent_error(nodes, factor, p)
    } else {
        first_parent_error(nodes, factor, p + 1)
    }
}

/// The violation of factor `j`, judged against all nodes and the factors
/// before it.
pub open spec fn factor_error(
    nodes: Seq<PcNodeSpec>,
    factors: Seq<PcFactorSpec>,
    j: int,
) -> Option<PcGraphError> {
    let factor = factors[j];
    if factor_id_seen(factors, j) {
        Some(PcGraphError::DuplicateFactorId { id: factor.id.0 })
    } else if is_blank_name(factor.name@) || factor_name_seen(factors, j) {
        Some(PcGraphError::InvalidFactorName { name: factor.name })
    } else if factor.parents@.len() == 0 {
        Some(PcGraphError::FactorWithoutParent { factor: factor.name })
    } else if !has_node(nodes, factor.target) {
        Some(PcGraphError::MissingTarget { factor: factor.name, target: factor.target.0 })
    } else {
        first_parent_error(nodes, factor, 0)
    }
}

/// The first factor violation at index `j` or later.
pub open spec fn first_factor_error(
    nodes: Seq<PcNodeSpec>,
    factors: Seq<PcFactorSpec>,
    j: int,
) -> Option<PcGraphError>
    decreases factors.len() - j,
{
    if j < 0 || j >= factors.len() {
        None
    } else if factor_error(nodes, factors, j) is Some {
        factor_error(nodes, factors, j)
    } else {
        first_factor_error(nodes, factors, j + 1)
    }
}

/// What validating `graph` answers.
pub open spec fn graph_validation(graph: PcGraphSpec) -> Result<(), PcGraphError> {
    if graph.version != PcGraphSpec::CURRENT_VERSION {
        Err(PcGraphError::UnsupportedVersion { found: graph.version })
    } else if graph.nodes@.len() == 0 {
        Err(PcGraphError::NoNodes)
    } else if graph.factors@.len() == 0 {
        Err(PcGraphError::NoFactors)
    } else if first_node_error(graph.nodes@, 0) is Some {
        Err(first_node_error(graph.nodes@, 0)->0)
    } else if first_factor_error(graph.nodes@, graph.factors@, 0) is Some {
        Err(first_factor_error(graph.nodes@, graph.factors@, 0)->0)
    } else {
        Ok(())
    }
}

/// A graph is well formed when no check rejects it: its nodes and factors
/// have unique ids and unique non-blank names, and every factor has at least
/// one parent, no repeated parent, and only endpoints that are nodes.
pub open spec fn graph_well_formed(graph: PcGraphSpec) -> bool {
    &&& graph.version == PcGraphSpec::CURRENT_VERSION
    &&& graph.nodes@.len() > 0
    &&& graph.factors@.len() > 0
    &&& forall|i: int| 0 <= i < graph.nodes@.len() ==> #[trigger] node_error(graph.nodes@, i) is None
    &&& forall|j: int|
        0 <= j < graph.factors@.len() ==> #[trigger] factor_error(
            graph.nodes@,
            graph.factors@,
            j,
        ) is None
}

proof fn lemma_first_node_error_skips(nodes: Seq<PcNodeSpec>, i: int)
    requires
        0 <= i <= nodes.len(),
        forall|k: int| 0 <= k < i ==> #[trigger] node_error(nodes, k) is None,
    ensures
        first_node_error(nodes, 0) == first_node_error(nodes, i),
    decreases i,
{
    if i > 0 {
        lemma_first_node_error_skips(nodes, i - 1);
    }
}

proof fn lemma_first_node_error_none(nodes: Seq<PcNodeSpec>, i: int)
    requires
        0 <= i <= nodes.len(),
    ensures
        first_node_error(nodes, i) is None <==> forall|k: int|
            i <= k < nodes.len() ==> #[trigger] node_error(nodes, k) is None,
    decreases nodes.len() - i,
{
    if i < nodes.len() {
        lemma_first_node_error_none(nodes, i + 1);
    }
}

proof fn lemma_first_factor_error_skips(
    nodes: Seq<PcNodeSpec>,
    factors: Seq<PcFactorSpec>,
    j: int,
)
    requires
        0 <= j <= factors.len(),
        forall|k: int| 0 <= k < j ==> #[trigger] factor_error(nodes, factors, k) is None,
    ensures
        first_factor_error(nodes, factors, 0) == first_factor_error(nodes, factors, j),
    decreases j,
{
    if j > 0 {
        lemma_first_factor_error_skips(nodes, factors, j - 1);
    }
}

proof fn lemma_first_factor_error_none(
    nodes: Seq<PcNodeSpec>,
    factors: Seq<PcFactorSpec>,
    j: int,
)
    requires
        0 <= j <= factors.len(),
    ensures
        first_factor_error(nodes, factors, j) is None <==> forall|k: int|
            j <= k < factors.len() ==> #[trigger] factor_error(nodes, factors, k) is None,
    decreases factors.len() - j,
{
    if j < factors.len() {
        lemma_first_factor_error_none(nodes, factors, j + 1);
    }
}

proof fn lemma_first_parent_error_skips(nodes: Seq<PcNodeSpec>, factor: PcFactorSpec, p: int)
    requires
        0 <= p <= factor.parents@.len(),
        forall|k: int| 0 <= k < p ==> #[trigger] parent_error(nodes, factor, k) is None,
    ensures
        first_parent_error(nodes, factor, 0) == first_parent_error(nodes, factor, p),
    decreases p,
{
    if p > 0 {
        lemma_first_parent_error_skips(nodes, factor, p - 1);
    }
}

proof fn lemma_first_parent_error_none(nodes: Seq<PcNodeSpec>, factor: PcFactorSpec, p: int)
    requires
        0 <= p <= factor.parents@.len(),
        forall|k: int|
            p <= k < factor.parents@.len() ==> #[trigger] parent_error(nodes, factor, k) is None,
    ensures
        first_parent_error(nodes, factor, p) is None,
    decreases factor.parents@.len() - p,
{
    if p < factor.parents@.len() {
        lemma_first_parent_error_none(nodes, factor, p + 1);
    }
}

proof fn lemma_first_parent_error_none_iff(nodes: Seq<PcNodeSpec>, factor: PcFactorSpec, p: int)
    requires
        0 <= p <= factor.parents@.len(),
    ensures
        first_parent_error(nodes, factor, p) is None <==> forall|k: int|
            p <= k < factor.parents@.len() ==> #[trigger] parent_error(nodes, factor, k) is None,
    decreases factor.parents@.len() - p,
{
    if p < factor.parents@.len() {
        lemma_first_parent_error_none_iff(nodes, factor, p + 1);
    }
}

/// Validation accepts exactly the well-formed graphs, stated over the graph
/// itself: the current version; at least one node and one factor; node ids
/// pairwise distinct and node names pairwise distinct and not blank; factor
/// ids pairwise distinct and factor names pairwise distinct and not blank;
/// every factor with at least one parent, pairwise distinct parents, and a
/// target and parents that are ids of nodes.
pub proof fn law_validation_accepts_exactly_well_formed_graphs(graph: PcGraphSpec)
    ensures
        graph_validation(graph) is Ok <==> {
            let nodes = graph.nodes@;
            let factors = graph.factors@;
            &&& graph.version == PcGraphSpec::CURRENT_VERSION
            &&& nodes.len() > 0
            &&& factors.len() > 0
            &&& forall|i: int, j: int|
                0 <= i < j < nodes.len() ==> (#[trigger] nodes[i]).id != (#[trigger] nodes[j]).id
            &&& forall|i: int, j: int|
                0 <= i < j < nodes.len() ==> (#[trigger] nodes[i]).name@ != (
                #[trigger] nodes[j]).name@
            &&& forall|i: int|
                0 <= i < nodes.len() ==> !is_blank_name((#[trigger] nodes[i]).name@)
            &&& forall|i: int, j: int|
                0 <= i < j < factors.len() ==> (#[trigger] factors[i]).id != (
                #[trigger] factors[j]).id
            &&& forall|i: int, j: int|
                0 <= i < j < factors.len() ==> (#[trigger] factors[i]).name@ != (
                #[trigger] factors[j]).name@
            &&& forall|i: int|
                0 <= i < factors.len() ==> !is_blank_name((#[trigger] factors[i]).name@)
            &&& forall|i: int| 0 <= i < factors.len() ==> (#[trigger] factors[i]).parents@.len() > 0
            &&& forall|i: int|
                0 <= i < factors.len() ==> exists|k: int|
                    0 <= k < nodes.len() && nodes[k].id == (#[trigger] factors[i]).target
            &&& forall|i: int, p: int|
                0 <= i < factors.len() && 0 <= p < (#[trigger] factors[i]).parents@.len()
                    ==> exists|k: int|
                    0 <= k < nodes.len() && nodes[k].id == #[trigger] factors[i].parents@[p]
            &&& forall|i: int, p: int, q: int|
                #![trigger factors[i].parents@[p], factors[i].parents@[q]]
                0 <= i < factors.len() && 0 <= p < q < factors[i].parents@.len()
                    ==> factors[i].parents@[p] != factors[i].parents@[q]
        },
{
    let nodes = graph.nodes@;
    let factors = graph.factors@;
    lemma_first_node_error_none(nodes, 0);
    lemma_first_factor_error_none(nodes, factors, 0);
    assert forall|j: int| 0 <= j < factors.len() implies #[trigger] first_parent_error(
        nodes,
        factors[j],
        0,
    ) is None <==> forall|k: int|
        0 <= k < factors[j].parents@.len() ==> #[trigger] parent_error(nodes, factors[j], k) is None by {
        lemma_first_parent_error_none_iff(nodes, factors[j], 0);
    }
    let ok = graph_validation(graph) is Ok;
    let nodes_ok = forall|i: int| 0 <= i < nodes.len() ==> #[trigger] node_error(nodes, i) is None;
    let factors_ok = forall|j: int|
        0 <= j < factors.len() ==> #[trigger] factor_error(nodes, factors, j) is None;
    // node conditions
    let node_ids_distinct = forall|i: int, j: int|
        0 <= i < j < nodes.len() ==> (#[trigger] nodes[i]).id != (#[trigger] nodes[j]).id;
    let node_names_distinct = forall|i: int, j: int|
        0 <= i < j < nodes.len() ==> (#[trigger] nodes[i]).name@ != (#[trigger] nodes[j]).name@;
    let node_names_filled = forall|i: int|
        0 <= i < nodes.len() ==> !is_blank_name((#[trigger] nodes[i]).name@);
    if nodes_ok {
        assert forall|i: int, j: int| 0 <= i < j < nodes.len() implies (#[trigger] nodes[i]).id
            != (#[trigger] nodes[j]).id && nodes[i].name@ != nodes[j].name@ by {
            assert(node_error(nodes, j) is None);
            assert(!node_id_seen(nodes, j));
            assert(!node_name_seen(nodes, j));
        }
        assert(node_names_filled) by {
            assert forall|i: int| 0 <= i < nodes.len() implies !is_blank_name((#[trigger] nodes[i]).name@) by {
                assert(node_error(nodes, i) is None);
                assert(!is_blank_name(nodes[i].name@));
            }
        }
    }
    if node_ids_distinct && node_names_distinct && node_names_filled {
        assert forall|i: int| 0 <= i < nodes.len() implies #[trigger] node_error(nodes, i) is None by {
            if node_id_seen(nodes, i) {
                let k = choose|k: int| 0 <= k < i && #[trigger] nodes[k].id == nodes[i].id;
                assert(nodes[k].id != nodes[i].id);
            }
            if node_name_seen(nodes, i) {
                let k = choose|k: int| 0 <= k < i && #[trigger] nodes[k].name@ == nodes[i].name@;
                assert(nodes[k].name@ != nodes[i].name@);
            }
            assert(!is_blank_name(nodes[i].name@));
        }
    }
    // factor conditions
    let factor_ids_distinct = forall|i: int, j: int|
        0 <= i < j < factors.len() ==> (#[trigger] factors[i]).id != (#[trigger] factors[j]).id;
    let factor_names_distinct = forall|i: int, j: int|
        0 <= i < j < factors.len() ==> (#[trigger] factors[i]).name@ != (
        #[trigger] factors[j]).name@;
    let factor_names_filled = forall|i: int|
        0 <= i < factors.len() ==> !is_blank_name((#[trigger] factors[i]).name@);
    let parents_present = forall|i: int|
        0 <= i < factors.len() ==> (#[trigger] factors[i]).parents@.len() > 0;
    let targets_known = forall|i: int|
        0 <= i < factors.len() ==> exists|k: int|
            0 <= k < nodes.len() && nodes[k].id == (#[trigger] factors[i]).target;
    let parents_known = forall|i: int, p: int|
        0 <= i < factors.len() && 0 <= p < (#[trigger] factors[i]).parents@.len() ==> exists|k: int|
            0 <= k < nodes.len() && nodes[k].id == #[trigger] factors[i].parents@[p];
    let parents_distinct = forall|i: int, p: int, q: int|
                #![trigger factors[i].parents@[p], factors[i].parents@[q]]
        0 <= i < factors.len() && 0 <= p < q < factors[i].parents@.len()
            ==> factors[i].parents@[p] != factors[i].parents@[q];
    if factors_ok {
        assert forall|i: int, j: int| 0 <= i < j < factors.len() implies (
        #[trigger] factors[i]).id != (#[trigger] factors[j]).id && factors[i].name@
            != factors[j].name@ by {
            assert(factor_error(nodes, factors, j) is None);
            assert(!factor_id_seen(factors, j));
            assert(!factor_name_seen(factors, j));
        }
        assert forall|i: int| 0 <= i < factors.len() implies !is_blank_name((#[trigger] factors[i]).name@) && factors[i].parents@.len() > 0 && (exists|k: int|
            0 <= k < nodes.len() && nodes[k].id == factors[i].target) by {
            assert(factor_error(nodes, factors, i) is None);
            assert(!is_blank_name(factors[i].name@));
            assert(has_node(nodes, factors[i].target));
            let k = choose|k: int| 0 <= k < nodes.len() && #[trigger] nodes[k].id == factors[i].target;
            assert(nodes[k].id == factors[i].target);
        }
        assert forall|i: int, p: int|
            0 <= i < factors.len() && 0 <= p < (#[trigger] factors[i]).parents@.len() implies exists|
            k: int,
        | 0 <= k < nodes.len() && nodes[k].id == #[trigger] factors[i].parents@[p] by {
            assert(factor_error(nodes, factors, i) is None);
            assert(first_parent_error(nodes, factors[i], 0) is None);
            assert(parent_error(nodes, factors[i], p) is None);
            assert(has_node(nodes, factors[i].parents@[p]));
        }
        assert forall|i: int, p: int, q: int|
                #![trigger factors[i].parents@[p], factors[i].parents@[q]]
            0 <= i < factors.len() && 0 <= p < q < factors[i].parents@.len() implies factors[i].parents@[p]
            != factors[i].parents@[q] by {
            assert(factor_error(nodes, factors, i) is None);
            assert(first_parent_error(nodes, factors[i], 0) is None);
            assert(parent_error(nodes, factors[i], q) is None);
        }
    }
    if factor_ids_distinct && factor_names_distinct && factor_names_filled && parents_present
        && targets_known && parents_known && parents_distinct {
        assert forall|j: int| 0 <= j < factors.len() implies #[trigger] factor_error(
            nodes,
            factors,
            j,
        ) is None by {
            let factor = factors[j];
            if factor_id_seen(factors, j) {
                let k = choose|k: int| 0 <= k < j && #[trigger] factors[k].id == factors[j].id;
                assert(factors[k].id != factors[j].id);
            }
            if factor_name_seen(factors, j) {
                let k = choose|k: int| 0 <= k < j && #[trigger] factors[k].name@ == factors[j].name@;
                assert(factors[k].name@ != factors[j].name@);
            }
            assert(!is_blank_name(factor.name@));
            assert(factors[j].parents@.len() > 0);
            let kt = choose|k: int| 0 <= k < nodes.len() && nodes[k].id == factors[j].target;
            assert(has_node(nodes, factor.target));
            assert forall|p: int| 0 <= p < factor.parents@.len() implies #[trigger] parent_error(
                nodes,
                factor,
                p,
            ) is None by {
                let kp = choose|k: int|
                    0 <= k < nodes.len() && nodes[k].id == factors[j].parents@[p];
                assert(nodes[kp].id == factor.parents@[p]);
                assert(has_node(nodes, factor.parents@[p]));
                if exists|q: int| 0 <= q < p && #[trigger] factor.parents@[q] == factor.parents@[p] {
                    let q = choose|q: int|
                        0 <= q < p && #[trigger] factor.parents@[q] == factor.parents@[p];
                    assert(factors[j].parents@[q] != factors[j].parents@[p]);
                }
            }
            lemma_first_parent_error_none_iff(nodes, factor, 0);
        }
    }
    assert(nodes_ok ==> node_ids_distinct);
    assert(nodes_ok ==> node_names_distinct);
    assert(nodes_ok ==> node_names_filled);
    assert((node_ids_distinct && node_names_distinct && node_names_filled) ==> nodes_ok);
    assert(factors_ok ==> (factor_ids_distinct && factor_names_distinct));
    assert(factors_ok ==> (factor_names_filled && parents_present && targets_known));
    assert(factors_ok ==> (parents_known && parents_distinct));
    assert((factor_ids_distinct && factor_names_distinct && factor_names_filled
        && parents_present && targets_known && parents_known && parents_distinct) ==> factors_ok);
    assert(ok <==> (graph.version == PcGraphSpec::CURRENT_VERSION && nodes.len() > 0
        && factors.len() > 0 && nodes_ok && factors_ok));
}
/// Whether every character of `name` is white space.
fn name_is_blank(name: &String) -> (r: bool)
    ensures
        r == is_blank_name(name@),
{
    let s = name.as_str();
    let mut all_space = true;
    for c in it: s.chars()
        invariant
            it.seq() == s@,
            all_space == (forall|k: int|
                0 <= k < it.index() ==> #[trigger] unicode_white_space(s@[k])),
    {
        if !char_is_whitespace(c) {
            all_space = false;
        }
    }
    all_space
}

/// Whether an earlier node carries the name of node `i`.
fn node_name_seen_before(nodes: &Vec<PcNodeSpec>, i: usize) -> (r: bool)
    requires
        i < nodes@.len(),
    ensures
        r == node_name_seen(nodes@, i as int),
{
    let mut k: usize = 0;
    while k < i
        invariant
            i < nodes@.len(),
            0 <= k <= i,
            forall|q: int| 0 <= q < k ==> #[trigger] nodes@[q].name@ != nodes@[i as int].name@,
        decreases i - k,
    {
        if nodes[k].name == nodes[i].name {
            return true;
        }
        k += 1;
    }
    false
}

/// Whether an earlier factor carries the name of factor `j`.
fn factor_name_seen_before(factors: &Vec<PcFactorSpec>, j: usize) -> (r: bool)
    requires
        j < factors@.len(),
    ensures
        r == factor_name_seen(factors@, j as int),
{
    let mut k: usize = 0;
    while k < j
        invariant
            j < factors@.len(),
            0 <= k <= j,
            forall|q: int| 0 <= q < k ==> #[trigger] factors@[q].name@ != factors@[j as int].name@,
        decreases j - k,
    {
        if factors[k].name == factors[j].name {
            return true;
        }
        k += 1;
    }
    false
}

/// Checks the parents of `factor` against the node ids, in order.
fn check_parents(
    node_ids: &BTreeSet<u32>,
    factor: &PcFactorSpec,
    Ghost(nodes): Ghost<Seq<PcNodeSpec>>,
) -> (r: Result<(), PcGraphError>)
    requires
        forall|id: u32|
            node_ids@.contains(id) <==> exists|k: int|
                0 <= k < nodes.len() && #[trigger] nodes[k].id.0 == id,
    ensures
        r is Ok ==> first_parent_error(nodes, *factor, 0) is None,
        r is Err ==> Some(r->Err_0) == first_parent_error(nodes, *factor, 0),
{
    let mut seen: BTreeSet<u32> = BTreeSet::new();
    let mut p: usize = 0;
    while p < factor.parents.len()
        invariant
            forall|id: u32|
                node_ids@.contains(id) <==> exists|k: int|
                    0 <= k < nodes.len() && #[trigger] nodes[k].id.0 == id,
            0 <= p <= factor.parents@.len(),
            forall|k: int| 0 <= k < p ==> #[trigger] parent_error(nodes, *factor, k) is None,
            forall|id: u32|
                seen@.contains(id) <==> exists|q: int|
                    0 <= q < p && #[trigger] factor.parents@[q].0 == id,
        decreases factor.parents@.len() - p,
    {
        let parent = factor.parents[p];
        if !node_ids.contains(&parent.0) {
            proof {
                lemma_first_parent_error_skips(nodes, *factor, p as int);
                if has_node(nodes, parent) {
                    let k = choose|k: int| 0 <= k < nodes.len() && #[trigger] nodes[k].id == parent;
                    assert(nodes[k].id.0 == parent.0);
                }
            }
            return Err(PcGraphError::MissingParent { factor: factor.name.clone(), parent: parent.0 });
        }
        proof {
            let k = choose|k: int| 0 <= k < nodes.len() && #[trigger] nodes[k].id.0 == parent.0;
            assert(nodes[k].id == parent);
        }
        if seen.contains(&parent.0) {
            proof {
                lemma_first_parent_error_skips(nodes, *factor, p as int);
                let q = choose|q: int| 0 <= q < p && #[trigger] factor.parents@[q].0 == parent.0;
                assert(factor.parents@[q] == parent);
            }
            return Err(
                PcGraphError::RepeatedParent { factor: factor.name.clone(), parent: parent.0 },
            );
        }
        seen.insert(parent.0);
        p += 1;
    }
    proof {
        lemma_first_parent_error_none(nodes, *factor, 0);
    }
    Ok(())
}

impl Default for PcGraphSpec {
    /// An empty graph of format version zero, which validation rejects.
    fn default() -> (graph: Self)
        ensures
            graph.version == 0,
            graph.nodes@.len() == 0,
            graph.factors@.len() == 0,
    {
        PcGraphSpec { version: 0, nodes: Vec::new(), factors: Vec::new() }
    }
}

impl PcGraphSpec {
    /// The graph format version that `new` writes and `validate` accepts.
    pub const CURRENT_VERSION: u32 = 1;

    /// A graph of the current format version over the given metadata.
    pub fn new(nodes: Vec<PcNodeSpec>, factors: Vec<PcFactorSpec>) -> (graph: Self)
        ensures
            graph.version == PcGraphSpec::CURRENT_VERSION,
            graph.nodes == nodes,
            graph.factors == factors,
    {
        PcGraphSpec { version: PcGraphSpec::CURRENT_VERSION, nodes, factors }
    }

    /// Checks the metadata and reports the first violation, scanning nodes,
    /// then factors, then each factor's parents in order.
    pub fn validate(&self) -> (r: Result<(), PcGraphError>)
        ensures
            r == graph_validation(*self),
            r is Ok <==> graph_well_formed(*self),
    {
        if self.version != PcGraphSpec::CURRENT_VERSION {
            return Err(PcGraphError::UnsupportedVersion { found: self.version });
        }
        if self.nodes.len() == 0 {
            return Err(PcGraphError::NoNodes);
        }
        if self.factors.len() == 0 {
            return Err(PcGraphError::NoFactors);
        }
        let ghost nodes = self.nodes@;
        let ghost factors = self.factors@;
        let mut node_ids: BTreeSet<u32> = BTreeSet::new();
        let mut i: usize = 0;
        while i < self.nodes.len()
            invariant
                nodes == self.nodes@,
                self.version == PcGraphSpec::CURRENT_VERSION,
                self.factors@.len() > 0,
                0 <= i <= nodes.len(),
                forall|k: int| 0 <= k < i ==> #[trigger] node_error(nodes, k) is None,
                forall|id: u32|
                    node_ids@.contains(id) <==> exists|k: int|
                        0 <= k < i && #[trigger] nodes[k].id.0 == id,
            decreases nodes.len() - i,
        {
            let node = &self.nodes[i];
            if node_ids.contains(&node.id.0) {
                proof {
                    lemma_first_node_error_skips(nodes, i as int);
                    let k = choose|k: int| 0 <= k < i && #[trigger] nodes[k].id.0 == node.id.0;
                    assert(nodes[k].id == nodes[i as int].id);
                }
                return Err(PcGraphError::DuplicateNodeId { id: node.id.0 });
            }
            node_ids.insert(node.id.0);
            let blank = name_is_blank(&node.name);
            let seen = node_name_seen_before(&self.nodes, i);
            if blank || seen {
                proof {
                    lemma_first_node_error_skips(nodes, i as int);
                }
                return Err(PcGraphError::InvalidNodeName { name: node.name.clone() });
            }
            i += 1;
        }
        proof {
            lemma_first_node_error_none(nodes, 0);
        }
        let mut factor_ids: BTreeSet<u32> = BTreeSet::new();
        let mut j: usize = 0;
        while j < self.factors.len()
            invariant
                nodes == self.nodes@,
                factors == self.factors@,
                self.version == PcGraphSpec::CURRENT_VERSION,
                nodes.len() > 0,
                factors.len() > 0,
                first_node_error(nodes, 0) is None,
                forall|k: int| 0 <= k < nodes.len() ==> #[trigger] node_error(nodes, k) is None,
                forall|id: u32|
                    node_ids@.contains(id) <==> exists|k: int|
                        0 <= k < nodes.len() && #[trigger] nodes[k].id.0 == id,
                0 <= j <= factors.len(),
                forall|k: int| 0 <= k < j ==> #[trigger] factor_error(nodes, factors, k) is None,
                forall|id: u32|
                    factor_ids@.contains(id) <==> exists|k: int|
                        0 <= k < j && #[trigger] factors[k].id.0 == id,
            decreases factors.len() - j,
        {
            let factor = &self.factors[j];
            if factor_ids.contains(&factor.id.0) {
                proof {
                    lemma_first_factor_error_skips(nodes, factors, j as int);
                    let k = choose|k: int| 0 <= k < j && #[trigger] factors[k].id.0 == factor.id.0;
                    assert(factors[k].id == factors[j as int].id);
                }
                return Err(PcGraphError::DuplicateFactorId { id: factor.id.0 });
            }
            factor_ids.insert(factor.id.0);
            let blank = name_is_blank(&factor.name);
            let seen = factor_name_seen_before(&self.factors, j);
            if blank || seen {
                proof {
                    lemma_first_factor_error_skips(nodes, factors, j as int);
                }
                return Err(PcGraphError::InvalidFactorName { name: factor.name.clone() });
            }
            if factor.parents.len() == 0 {
                proof {
                    lemma_first_factor_error_skips(nodes, factors, j as int);
                }
                return Err(PcGraphError::FactorWithoutParent { factor: factor.name.clone() });
            }
            if !node_ids.contains(&factor.target.0) {
                proof {
                    lemma_first_factor_error_skips(nodes, factors, j as int);
                    if has_node(nodes, factor.target) {
                        let k = choose|k: int|
                            0 <= k < nodes.len() && #[trigger] nodes[k].id == factor.target;
                        assert(nodes[k].id.0 == factor.target.0);
                    }
                }
                return Err(
                    PcGraphError::MissingTarget {
                        factor: factor.name.clone(),
                        target: factor.target.0,
                    },
                );
            }
            proof {
                let k = choose|k: int|
                    0 <= k < nodes.len() && #[trigger] nodes[k].id.0 == factor.target.0;
                assert(nodes[k].id == factor.target);
            }
            let parent_check = check_parents(&node_ids, factor, Ghost(nodes));
            if let Err(e) = parent_check {
                proof {
                    lemma_first_factor_error_skips(nodes, factors, j as int);
                }
                return Err(e);
            }
            j += 1;
        }
        proof {
            lemma_first_factor_error_none(nodes, factors, 0);
        }
        Ok(())
    }
}

} // verus!
