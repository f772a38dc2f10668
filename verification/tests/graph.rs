use burn_pc::graph::{PcFactorId, PcFactorSpec, PcGraphError, PcGraphSpec, PcNodeId, PcNodeSpec};

fn node(id: u32, name: &str, clamped: bool) -> PcNodeSpec {
    PcNodeSpec {
        id: PcNodeId(id),
        name: name.into(),
        clamped,
    }
}

fn factor(id: u32, name: &str, parents: Vec<u32>, target: u32) -> PcFactorSpec {
    PcFactorSpec {
        id: PcFactorId(id),
        name: name.into(),
        parents: parents.into_iter().map(PcNodeId).collect(),
        target: PcNodeId(target),
    }
}

fn valid_graph() -> PcGraphSpec {
    PcGraphSpec::new(
        vec![
            PcNodeSpec {
                id: PcNodeId(0),
                name: "input".into(),
                clamped: true,
            },
            PcNodeSpec {
                id: PcNodeId(1),
                name: "hidden".into(),
                clamped: false,
            },
        ],
        vec![PcFactorSpec {
            id: PcFactorId(0),
            name: "transition".into(),
            parents: vec![PcNodeId(0)],
            target: PcNodeId(1),
        }],
    )
}

#[test]
fn graph_accepts_well_formed_metadata() {
    valid_graph().validate().expect("valid graph");
}

#[test]
fn graph_rejects_unknown_endpoint() {
    let mut graph = valid_graph();
    graph.factors[0].target = PcNodeId(7);
    assert!(graph.validate().is_err());
}

#[test]
fn graph_allows_cycles() {
    let mut graph = valid_graph();
    graph.factors.push(PcFactorSpec {
        id: PcFactorId(1),
        name: "feedback".into(),
        parents: vec![PcNodeId(1)],
        target: PcNodeId(0),
    });
    graph.validate().expect("cyclic graph is valid");
}

#[test]
fn new_graph_carries_the_current_version() {
    let graph = valid_graph();
    assert_eq!(graph.version, PcGraphSpec::CURRENT_VERSION);
    assert_eq!(PcGraphSpec::CURRENT_VERSION, 1);
    assert_eq!(graph.nodes.len(), 2);
    assert_eq!(graph.factors.len(), 1);
}

#[test]
fn default_graph_is_rejected_for_its_version() {
    let graph = PcGraphSpec::default();
    assert_eq!(graph.version, 0);
    assert_eq!(
        graph.validate(),
        Err(PcGraphError::UnsupportedVersion { found: 0 })
    );
}

#[test]
fn graph_rejects_empty_node_and_factor_lists() {
    let graph = PcGraphSpec::new(Vec::new(), vec![factor(0, "f", vec![0], 0)]);
    assert_eq!(graph.validate(), Err(PcGraphError::NoNodes));
    let graph = PcGraphSpec::new(vec![node(0, "a", true)], Vec::new());
    assert_eq!(graph.validate(), Err(PcGraphError::NoFactors));
}

#[test]
fn graph_rejects_duplicate_node_id() {
    let mut graph = valid_graph();
    graph.nodes.push(node(1, "other", false));
    assert_eq!(
        graph.validate(),
        Err(PcGraphError::DuplicateNodeId { id: 1 })
    );
}

#[test]
fn graph_rejects_blank_and_repeated_node_names() {
    let mut graph = valid_graph();
    graph.nodes.push(node(2, " \t\n", false));
    assert_eq!(
        graph.validate(),
        Err(PcGraphError::InvalidNodeName {
            name: " \t\n".into()
        })
    );
    let mut graph = valid_graph();
    graph.nodes.push(node(2, "\u{3000}\u{a0}", false));
    assert!(matches!(
        graph.validate(),
        Err(PcGraphError::InvalidNodeName { .. })
    ));
    let mut graph = valid_graph();
    graph.nodes.push(node(2, "hidden", false));
    assert_eq!(
        graph.validate(),
        Err(PcGraphError::InvalidNodeName {
            name: "hidden".into()
        })
    );
    let mut graph = valid_graph();
    graph.nodes.push(node(2, " hidden ", false));
    graph.validate().expect("names with surrounding spaces are distinct");
}

#[test]
fn graph_rejects_duplicate_factor_id_and_names() {
    let mut graph = valid_graph();
    graph.factors.push(factor(0, "second", vec![0], 1));
    assert_eq!(
        graph.validate(),
        Err(PcGraphError::DuplicateFactorId { id: 0 })
    );
    let mut graph = valid_graph();
    graph.factors.push(factor(1, "transition", vec![0], 1));
    assert_eq!(
        graph.validate(),
        Err(PcGraphError::InvalidFactorName {
            name: "transition".into()
        })
    );
    let mut graph = valid_graph();
    graph.factors.push(factor(1, "", vec![0], 1));
    assert_eq!(
        graph.validate(),
        Err(PcGraphError::InvalidFactorName { name: "".into() })
    );
}

#[test]
fn graph_rejects_factor_parent_problems() {
    let mut graph = valid_graph();
    graph.factors.push(factor(1, "orphan", vec![], 1));
    assert_eq!(
        graph.validate(),
        Err(PcGraphError::FactorWithoutParent {
            factor: "orphan".into()
        })
    );
    let mut graph = valid_graph();
    graph.factors[0].target = PcNodeId(7);
    assert_eq!(
        graph.validate(),
        Err(PcGraphError::MissingTarget {
            factor: "transition".into(),
            target: 7
        })
    );
    let mut graph = valid_graph();
    graph.factors.push(factor(1, "wide", vec![0, 9], 1));
    assert_eq!(
        graph.validate(),
        Err(PcGraphError::MissingParent {
            factor: "wide".into(),
            parent: 9
        })
    );
    let mut graph = valid_graph();
    graph.factors.push(factor(1, "twice", vec![0, 1, 0], 1));
    assert_eq!(
        graph.validate(),
        Err(PcGraphError::RepeatedParent {
            factor: "twice".into(),
            parent: 0
        })
    );
}

#[test]
fn graph_reports_the_first_violation() {
    let graph = PcGraphSpec::new(
        vec![node(0, "a", true), node(0, "a", false)],
        vec![factor(0, "", vec![], 5)],
    );
    assert_eq!(
        graph.validate(),
        Err(PcGraphError::DuplicateNodeId { id: 0 })
    );
    let graph = PcGraphSpec::new(
        vec![node(0, "a", true)],
        vec![factor(0, "f", vec![3, 3], 4)],
    );
    assert_eq!(
        graph.validate(),
        Err(PcGraphError::MissingTarget {
            factor: "f".into(),
            target: 4
        })
    );
}
