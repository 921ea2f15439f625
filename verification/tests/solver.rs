use consensus::solver::{grounded_labelling, Graph, Label, NodeId};

const A: NodeId = NodeId(0);
const B: NodeId = NodeId(1);
const C: NodeId = NodeId(2);
const D: NodeId = NodeId(3);

fn graph_with_attacks(node_count: u32, attacks: &[(NodeId, NodeId)]) -> Graph {
    let mut builder = Graph::builder(node_count);
    for &(src, tgt) in attacks {
        builder.attack(src, tgt);
    }
    builder.build()
}

#[test]
fn empty_graph() {
    let graph = Graph::builder(0).build();
    let labels = grounded_labelling(&graph);
    assert!(labels.is_empty());
}

#[test]
fn single_unattacked_node_is_in() {
    let graph = Graph::builder(1).build();
    let labels = grounded_labelling(&graph);
    assert_eq!(labels[A.0 as usize], Label::In);
}

#[test]
fn two_unattacked_nodes_both_in() {
    let graph = Graph::builder(2).build();
    let labels = grounded_labelling(&graph);
    assert_eq!(labels[A.0 as usize], Label::In);
    assert_eq!(labels[B.0 as usize], Label::In);
}

#[test]
fn a_attacks_b() {
    let graph = graph_with_attacks(2, &[(A, B)]);
    let labels = grounded_labelling(&graph);
    assert_eq!(labels[A.0 as usize], Label::In);
    assert_eq!(labels[B.0 as usize], Label::Out);
}

#[test]
fn reinstatement_a_attacks_b_attacks_c() {
    let graph = graph_with_attacks(3, &[(A, B), (B, C)]);
    let labels = grounded_labelling(&graph);
    assert_eq!(labels[A.0 as usize], Label::In);
    assert_eq!(labels[B.0 as usize], Label::Out);
    assert_eq!(labels[C.0 as usize], Label::In);
}

#[test]
fn chain_of_four() {
    let graph = graph_with_attacks(4, &[(A, B), (B, C), (C, D)]);
    let labels = grounded_labelling(&graph);
    assert_eq!(labels[A.0 as usize], Label::In);
    assert_eq!(labels[B.0 as usize], Label::Out);
    assert_eq!(labels[C.0 as usize], Label::In);
    assert_eq!(labels[D.0 as usize], Label::Out);
}

#[test]
fn mutual_attack_both_undec() {
    let graph = graph_with_attacks(2, &[(A, B), (B, A)]);
    let labels = grounded_labelling(&graph);
    assert_eq!(labels[A.0 as usize], Label::Undec);
    assert_eq!(labels[B.0 as usize], Label::Undec);
}

#[test]
fn self_attack_is_undec() {
    let graph = graph_with_attacks(1, &[(A, A)]);
    let labels = grounded_labelling(&graph);
    assert_eq!(labels[A.0 as usize], Label::Undec);
}

#[test]
fn odd_cycle_all_undec() {
    let graph = graph_with_attacks(3, &[(A, B), (B, C), (C, A)]);
    let labels = grounded_labelling(&graph);
    assert_eq!(labels[A.0 as usize], Label::Undec);
    assert_eq!(labels[B.0 as usize], Label::Undec);
    assert_eq!(labels[C.0 as usize], Label::Undec);
}

#[test]
fn grounded_node_defeats_into_cycle() {
    let graph = graph_with_attacks(3, &[(A, B), (B, A), (C, A)]);
    let labels = grounded_labelling(&graph);
    assert_eq!(labels[C.0 as usize], Label::In);
    assert_eq!(labels[A.0 as usize], Label::Out);
    assert_eq!(labels[B.0 as usize], Label::In);
}

#[test]
fn disconnected_components() {
    let graph = graph_with_attacks(4, &[(A, B), (C, D)]);
    let labels = grounded_labelling(&graph);
    assert_eq!(labels[A.0 as usize], Label::In);
    assert_eq!(labels[B.0 as usize], Label::Out);
    assert_eq!(labels[C.0 as usize], Label::In);
    assert_eq!(labels[D.0 as usize], Label::Out);
}

#[test]
fn multiple_attackers_all_must_be_out_for_in() {
    let graph = graph_with_attacks(3, &[(A, C), (B, C)]);
    let labels = grounded_labelling(&graph);
    assert_eq!(labels[A.0 as usize], Label::In);
    assert_eq!(labels[B.0 as usize], Label::In);
    assert_eq!(labels[C.0 as usize], Label::Out);
}

#[test]
fn multiple_attackers_one_undec_prevents_in() {
    let graph = graph_with_attacks(3, &[(A, B), (B, A), (A, C)]);
    let labels = grounded_labelling(&graph);
    assert_eq!(labels[A.0 as usize], Label::Undec);
    assert_eq!(labels[B.0 as usize], Label::Undec);
    assert_eq!(labels[C.0 as usize], Label::Undec);
}

#[test]
fn duplicate_attack_edge_same_result() {
    let graph = graph_with_attacks(2, &[(A, B), (A, B)]);
    let labels = grounded_labelling(&graph);
    assert_eq!(labels[A.0 as usize], Label::In);
    assert_eq!(labels[B.0 as usize], Label::Out);
}

#[test]
fn attackers_lists_incoming_edges_in_order() {
    let mut builder = Graph::builder(3);
    builder.attack(C, A).attack(B, A).support(C, B);
    let graph = builder.build();
    assert_eq!(graph.node_count(), 3);
    assert_eq!(graph.attackers(A), &[C, B]);
    assert!(graph.attackers(B).is_empty());
}

#[test]
fn isolated_node_addition_keeps_labels_on_example() {
    let graph = graph_with_attacks(3, &[(A, B), (B, C)]);
    let extended = graph_with_attacks(4, &[(A, B), (B, C)]);
    let labels = grounded_labelling(&graph);
    let extended_labels = grounded_labelling(&extended);
    assert_eq!(&extended_labels[..3], &labels[..]);
    assert_eq!(extended_labels[3], Label::In);
}

#[test]
fn labelling_is_deterministic_on_example() {
    let graph = graph_with_attacks(4, &[(A, B), (B, A), (C, A), (D, D)]);
    assert_eq!(grounded_labelling(&graph), grounded_labelling(&graph));
}
