//! The graph substrate and the entangled system around it.

use fractal_algebra::ai::{EntangledSystem, ParticleResonance};
use fractal_algebra::complex::Complex;
use fractal_algebra::graph::{EdgeType, FractalGraph, GraphError, NodeId};
use fractal_algebra::time::{Evolvable, FractalSpacetime, SpacetimeCoordinate};

#[test]
fn nodes_get_fresh_ids_and_payloads() {
    let mut g: FractalGraph<u32> = FractalGraph::new();
    assert_eq!(g.node_count(), 0);
    let a = g.add_node(10);
    let b = g.add_node(20);
    assert_ne!(a, b);
    assert_eq!(g.node_count(), 2);
    assert_eq!(g.get_node(a).unwrap().payload, 10);
    assert_eq!(g.get_node(b).unwrap().payload, 20);
    assert!(g.get_node(NodeId(999)).is_none());
}

#[test]
fn add_edge_validates_endpoints_and_duplicates() {
    let mut g: FractalGraph<u32> = FractalGraph::new();
    let a = g.add_node(1);
    let b = g.add_node(2);
    let w = Complex::new(100, 0);
    assert_eq!(g.add_edge(a, b, EdgeType::Excitatory, w), Ok(()));
    assert_eq!(
        g.add_edge(a, b, EdgeType::Excitatory, w),
        Err(GraphError::DuplicateEdge(a, b, EdgeType::Excitatory)),
    );
    // A different edge type between the same nodes is a new edge.
    assert_eq!(g.add_edge(a, b, EdgeType::Inhibitory, w), Ok(()));
    assert_eq!(
        g.add_edge(NodeId(77), b, EdgeType::Resonant, w),
        Err(GraphError::NodeNotFound(NodeId(77))),
    );
    assert_eq!(
        g.add_edge(a, NodeId(77), EdgeType::Resonant, w),
        Err(GraphError::NodeNotFound(NodeId(77))),
    );
    assert_eq!(g.edge_count(), 2);
    assert_eq!(g.get_edges_for_node(a).unwrap().len(), 2);
}

#[test]
fn remove_node_drops_incoming_edges() {
    let mut g: FractalGraph<u32> = FractalGraph::new();
    let a = g.add_node(1);
    let b = g.add_node(2);
    let c = g.add_node(3);
    let w = Complex::new(100, 0);
    g.add_edge(a, b, EdgeType::Excitatory, w).unwrap();
    g.add_edge(c, b, EdgeType::Excitatory, w).unwrap();
    g.add_edge(a, c, EdgeType::Resonant, w).unwrap();
    let removed = g.remove_node(b).expect("node exists");
    assert_eq!(removed.payload, 2);
    assert_eq!(g.node_count(), 2);
    assert!(g.get_node(b).is_none());
    // The edge from a to c survives; both edges into b are gone.
    assert_eq!(g.get_edges_for_node(a).unwrap().len(), 1);
    assert_eq!(g.get_edges_for_node(c).unwrap().len(), 0);
    match g.remove_node(b) {
        Err(e) => assert_eq!(e, GraphError::NodeNotFound(b)),
        Ok(_) => panic!("removing a missing node must fail"),
    }
}

#[test]
fn graph_error_messages_are_short_descriptions() {
    let e = GraphError::NodeNotFound(NodeId(4));
    assert_eq!(e.message(), "node not found");
    let d = GraphError::DuplicateEdge(NodeId(1), NodeId(2), EdgeType::Resonant);
    assert_eq!(d.message(), "edge already exists");
}

#[test]
fn entangled_system_wires_graph_and_particles() {
    let mut g: FractalGraph<Complex> = FractalGraph::new();
    let core = g.add_node(Complex::new(100, 0));
    let other = g.add_node(Complex::new(0, 100));
    let pa = ParticleResonance {
        pattern_nodes: vec![core],
        core_node: core,
        state_edges: vec![core],
    };
    let pb = ParticleResonance {
        pattern_nodes: vec![other],
        core_node: other,
        state_edges: vec![other],
    };
    let system = EntangledSystem::new(g, pa, pb);
    assert_eq!(system.particles.0.core_node, core);
    assert_eq!(system.particles.1.core_node, other);
    assert_eq!(system.graph.node_count(), 2);
}

#[test]
fn acyclicity_is_detected_both_ways() {
    let w = Complex::new(100, 0);
    let mut dag: FractalGraph<u32> = FractalGraph::new();
    let a = dag.add_node(1);
    let b = dag.add_node(2);
    let c = dag.add_node(3);
    dag.add_edge(a, b, EdgeType::Excitatory, w).unwrap();
    dag.add_edge(b, c, EdgeType::Excitatory, w).unwrap();
    dag.add_edge(a, c, EdgeType::Resonant, w).unwrap();
    assert!(dag.is_acyclic());

    let mut cyclic: FractalGraph<u32> = FractalGraph::new();
    let x = cyclic.add_node(1);
    let y = cyclic.add_node(2);
    cyclic.add_edge(x, y, EdgeType::Excitatory, w).unwrap();
    cyclic.add_edge(y, x, EdgeType::Excitatory, w).unwrap();
    assert!(!cyclic.is_acyclic());

    let mut self_loop: FractalGraph<u32> = FractalGraph::new();
    let s = self_loop.add_node(1);
    self_loop.add_edge(s, s, EdgeType::Resonant, w).unwrap();
    assert!(!self_loop.is_acyclic());

    let empty: FractalGraph<u32> = FractalGraph::new();
    assert!(empty.is_acyclic());
}

#[test]
fn spacetime_transitions_once_and_ticks() {
    let mut universe = FractalSpacetime {
        coordinate: SpacetimeCoordinate::Sequential(700),
    };
    universe.tick();
    assert_eq!(universe.coordinate, SpacetimeCoordinate::Sequential(800));
    let wave = universe.transition_to_4d();
    assert_eq!(wave, vec![800, -800]);
    assert_eq!(universe.coordinate, SpacetimeCoordinate::Minkowski(0, 0, 0, 0));
    let nothing = universe.transition_to_4d();
    assert!(nothing.is_empty());
    universe.tick();
    assert_eq!(universe.coordinate, SpacetimeCoordinate::Minkowski(100, 0, 0, 0));
}
