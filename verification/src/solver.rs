//! Grounded semantics for abstract argumentation frameworks.
//!
//! The solver sees only graph structure: node identifiers and directed
//! attack edges. Support edges are recorded for future use and ignored by
//! the labelling.
use vstd::prelude::*;

verus! {

/// A node in the argumentation graph.
#[derive(Debug, Clone, Copy, PartialEq, Eq, Structural, Hash, PartialOrd, Ord)]
pub struct NodeId(pub u32);

/// The label the solver assigns to a node.
#[derive(Debug, Clone, Copy, PartialEq, Eq, Structural)]
pub enum Label {
    /// Every attacker is `Out` (vacuously so when there are none).
    In,
    /// At least one attacker is `In`.
    Out,
    /// Neither of the above can be established.
    Undec,
}

// ---------------------------------------------------------------------------
// Mathematical model
// ---------------------------------------------------------------------------

/// The attackers of `target` among `edges`, in insertion order.
pub open spec fn incoming(edges: Seq<(NodeId, NodeId)>, target: int) -> Seq<NodeId>
    decreases edges.len(),
{
    if edges.len() == 0 {
        Seq::empty()
    } else {
        let prev = incoming(edges.drop_last(), target);
        if edges.last().1.0 as int == target {
            prev.push(edges.last().0)
        } else {
            prev
        }
    }
}

/// Every attacker named in `att` is itself a node of the graph.
pub open spec fn sources_in_range(att: Seq<Seq<NodeId>>) -> bool {
    forall|v: int, j: int|
        0 <= v < att.len() && 0 <= j < att[v].len() ==> (#[trigger] att[v][j]).0 < att.len()
}

/// Every node in `attackers` is labelled `Out`.
pub open spec fn all_out(labels: Seq<Label>, attackers: Seq<NodeId>) -> bool {
    forall|j: int| 0 <= j < attackers.len() ==> labels[(#[trigger] attackers[j]).0 as int] == Label::Out
}

/// Some node in `attackers` is labelled `In`.
pub open spec fn some_in(labels: Seq<Label>, attackers: Seq<NodeId>) -> bool {
    exists|j: int| 0 <= j < attackers.len() && labels[(#[trigger] attackers[j]).0 as int] == Label::In
}

/// A complete labelling: a node is `In` exactly when all its attackers are
/// `Out`, and `Out` exactly when one of its attackers is `In`.
pub open spec fn is_complete_labelling(att: Seq<Seq<NodeId>>, labels: Seq<Label>) -> bool {
    &&& labels.len() == att.len()
    &&& forall|v: int|
        0 <= v < att.len() ==> ((#[trigger] labels[v] == Label::In) <==> all_out(labels, att[v]))
    &&& forall|v: int|
        0 <= v < att.len() ==> ((#[trigger] labels[v] == Label::Out) <==> some_in(labels, att[v]))
}

/// Every `In` and every `Out` of `a` is also in `b`.
pub open spec fn labels_below(a: Seq<Label>, b: Seq<Label>) -> bool {
    forall|v: int|
        0 <= v < a.len() ==> (#[trigger] a[v] == Label::In ==> b[v] == Label::In) && (a[v]
            == Label::Out ==> b[v] == Label::Out)
}

/// The grounded labelling: the complete labelling whose `In` and `Out`
/// sets are contained in those of every complete labelling.
pub open spec fn is_grounded_labelling(att: Seq<Seq<NodeId>>, labels: Seq<Label>) -> bool {
    &&& is_complete_labelling(att, labels)
    &&& forall|other: Seq<Label>|
        #[trigger] is_complete_labelling(att, other) ==> labels_below(labels, other)
}

/// Number of `Undec` labels.
pub open spec fn undec_count(s: Seq<Label>) -> nat
    decreases s.len(),
{
    if s.len() == 0 {
        0
    } else {
        undec_count(s.drop_last()) + if s.last() == Label::Undec {
            1nat
        } else {
            0nat
        }
    }
}

// ---------------------------------------------------------------------------
// Graph and builder
// ---------------------------------------------------------------------------

/// An argumentation graph: nodes `0..node_count` and, per node, the nodes
/// that attack it.
#[derive(Debug)]
pub struct Graph {
    node_count: u32,
    attacked_by: Vec<Vec<NodeId>>,
    supported_by: Vec<Vec<NodeId>>,
}

impl Graph {
    #[verifier::type_invariant]
    spec fn wf(self) -> bool {
        &&& self.attacked_by.len() == self.node_count
        &&& self.supported_by.len() == self.node_count
    }

    pub closed spec fn spec_node_count(self) -> nat {
        self.node_count as nat
    }

    /// `attack_lists()[t]` is the list of attackers of node `t`.
    pub closed spec fn attack_lists(self) -> Seq<Seq<NodeId>> {
        Seq::new(self.node_count as nat, |i: int| self.attacked_by@[i]@)
    }

    /// `support_lists()[t]` is the list of supporters of node `t`.
    pub closed spec fn support_lists(self) -> Seq<Seq<NodeId>> {
        Seq::new(self.node_count as nat, |i: int| self.supported_by@[i]@)
    }

    /// There is one attacker list and one supporter list per node.
    pub proof fn lemma_one_list_per_node(self)
        ensures
            self.attack_lists().len() == self.spec_node_count(),
            self.support_lists().len() == self.spec_node_count(),
    {
    }

    pub fn builder(node_count: u32) -> (builder: GraphBuilder)
        ensures
            builder.spec_node_count() == node_count,
            builder.spec_attacks() == Seq::<(NodeId, NodeId)>::empty(),
            builder.spec_supports() == Seq::<(NodeId, NodeId)>::empty(),
    {
        GraphBuilder { node_count, attacks: Vec::new(), supports: Vec::new() }
    }

    pub fn node_count(&self) -> (n: u32)
        ensures
            n == self.spec_node_count(),
    {
        self.node_count
    }

    pub fn attackers(&self, target: NodeId) -> (attackers: &[NodeId])
        requires
            target.0 < self.spec_node_count(),
        ensures
            attackers@ == self.attack_lists()[target.0 as int],
    {
        proof {
            use_type_invariant(self);
        }
        self.attacked_by[target.0 as usize].as_slice()
    }
}

/// Incremental builder for argumentation graphs.
pub struct GraphBuilder {
    node_count: u32,
    attacks: Vec<(NodeId, NodeId)>,
    supports: Vec<(NodeId, NodeId)>,
}

impl GraphBuilder {
    pub closed spec fn spec_node_count(self) -> u32 {
        self.node_count
    }

    /// The attack edges `(source, target)` added so far, in order.
    pub closed spec fn spec_attacks(self) -> Seq<(NodeId, NodeId)> {
        self.attacks@
    }

    /// The support edges `(source, target)` added so far, in order.
    pub closed spec fn spec_supports(self) -> Seq<(NodeId, NodeId)> {
        self.supports@
    }

    /// Add an attack edge: `source` attacks `target`.
    pub fn attack(&mut self, source: NodeId, target: NodeId) -> (builder: &mut Self)
        ensures
            builder.spec_node_count() == old(self).spec_node_count(),
            builder.spec_attacks() == old(self).spec_attacks().push((source, target)),
            builder.spec_supports() == old(self).spec_supports(),
            *final(self) == *final(builder),
    {
        self.attacks.push((source, target));
        self
    }

    /// Add a support edge: `source` supports `target`.
    pub fn support(&mut self, source: NodeId, target: NodeId) -> (builder: &mut Self)
        ensures
            builder.spec_node_count() == old(self).spec_node_count(),
            builder.spec_attacks() == old(self).spec_attacks(),
            builder.spec_supports() == old(self).spec_supports().push((source, target)),
            *final(self) == *final(builder),
    {
        self.supports.push((source, target));
        self
    }

    /// Build the graph; every edge's target must be a node of the graph.
    pub fn build(self) -> (graph: Graph)
        requires
            forall|i: int|
                0 <= i < self.spec_attacks().len() ==> (#[trigger] self.spec_attacks()[i]).1.0
                    < self.spec_node_count(),
            forall|i: int|
                0 <= i < self.spec_supports().len() ==> (#[trigger] self.spec_supports()[i]).1.0
                    < self.spec_node_count(),
        ensures
            graph.spec_node_count() == self.spec_node_count(),
            graph.attack_lists().len() == self.spec_node_count(),
            graph.support_lists().len() == self.spec_node_count(),
            forall|t: int|
                0 <= t < self.spec_node_count() ==> #[trigger] graph.attack_lists()[t] == incoming(
                    self.spec_attacks(),
                    t,
                ),
            forall|t: int|
                0 <= t < self.spec_node_count() ==> #[trigger] graph.support_lists()[t]
                    == incoming(self.spec_supports(), t),
    {
        let n = self.node_count as usize;
        let mut attacked_by: Vec<Vec<NodeId>> = Vec::new();
        let mut supported_by: Vec<Vec<NodeId>> = Vec::new();
        let mut i: usize = 0;
        while i < n
            invariant
                i <= n,
                attacked_by.len() == i,
                supported_by.len() == i,
                forall|j: int| 0 <= j < i ==> (#[trigger] attacked_by@[j])@ == incoming(
                    self.attacks@.take(0),
                    j,
                ),
                forall|j: int| 0 <= j < i ==> (#[trigger] supported_by@[j])@ == incoming(
                    self.supports@.take(0),
                    j,
                ),
            decreases n - i,
        {
            attacked_by.push(Vec::new());
            supported_by.push(Vec::new());
            i += 1;
        }
        let attacks = &self.attacks;
        let mut k: usize = 0;
        while k < attacks.len()
            invariant
                k <= attacks.len(),
                attacks == &self.attacks,
                n == self.node_count,
                attacked_by.len() == n,
                forall|i: int|
                    0 <= i < self.spec_attacks().len() ==> (#[trigger] self.spec_attacks()[i]).1.0
                        < self.spec_node_count(),
                forall|t: int| 0 <= t < n ==> (#[trigger] attacked_by@[t])@ == incoming(
                    self.attacks@.take(k as int),
                    t,
                ),
            decreases attacks.len() - k,
        {
            let (source, target) = attacks[k];
            assert(self.spec_attacks()[k as int] == (source, target));
            let t = target.0 as usize;
            attacked_by[t].push(source);
            assert(self.attacks@.take(k + 1).drop_last() =~= self.attacks@.take(k as int));
            k += 1;
        }
        assert(self.attacks@.take(attacks.len() as int) =~= self.attacks@);
        let supports = &self.supports;
        let mut k: usize = 0;
        while k < supports.len()
            invariant
                k <= supports.len(),
                supports == &self.supports,
                n == self.node_count,
                supported_by.len() == n,
                forall|i: int|
                    0 <= i < self.spec_supports().len() ==> (#[trigger] self.spec_supports()[i]).1.0
                        < self.spec_node_count(),
                forall|t: int| 0 <= t < n ==> (#[trigger] supported_by@[t])@ == incoming(
                    self.supports@.take(k as int),
                    t,
                ),
            decreases supports.len() - k,
        {
            let (source, target) = supports[k];
            assert(self.spec_supports()[k as int] == (source, target));
            let t = target.0 as usize;
            supported_by[t].push(source);
            assert(self.supports@.take(k + 1).drop_last() =~= self.supports@.take(k as int));
            k += 1;
        }
        assert(self.supports@.take(supports.len() as int) =~= self.supports@);
        Graph { node_count: self.node_count, attacked_by, supported_by }
    }
}

// ---------------------------------------------------------------------------
// Solver
// ---------------------------------------------------------------------------

/// Labels that never contradict the rule that put them there.
spec fn justified(att: Seq<Seq<NodeId>>, labels: Seq<Label>) -> bool {
    forall|v: int|
        0 <= v < att.len() ==> (#[trigger] labels[v] == Label::In ==> all_out(labels, att[v])) && (
        labels[v] == Label::Out ==> some_in(labels, att[v]))
}

/// Every decided label is forced: it agrees with every complete labelling.
spec fn forced(att: Seq<Seq<NodeId>>, labels: Seq<Label>) -> bool {
    forall|other: Seq<Label>| #[trigger] is_complete_labelling(att, other) ==> labels_below(labels, other)
}

/// `new` keeps every decided label of `old`.
spec fn extends(old: Seq<Label>, new: Seq<Label>) -> bool {
    &&& new.len() == old.len()
    &&& forall|w: int| 0 <= w < old.len() && #[trigger] old[w] != Label::Undec ==> new[w] == old[w]
}

proof fn lemma_undec_count_update(s: Seq<Label>, i: int, x: Label)
    requires
        0 <= i < s.len(),
        s[i] == Label::Undec,
        x != Label::Undec,
    ensures
        undec_count(s.update(i, x)) + 1 == undec_count(s),
    decreases s.len(),
{
    let t = s.update(i, x);
    if i == s.len() - 1 {
        assert(t.drop_last() =~= s.drop_last());
    } else {
        assert(t.drop_last() =~= s.drop_last().update(i, x));
        lemma_undec_count_update(s.drop_last(), i, x);
    }
}

proof fn lemma_extends_keeps_decisions(att: Seq<Seq<NodeId>>, old: Seq<Label>, new: Seq<Label>)
    requires
        extends(old, new),
        old.len() == att.len(),
        sources_in_range(att),
    ensures
        forall|v: int| 0 <= v < att.len() && all_out(old, att[v]) ==> #[trigger] all_out(new, att[v]),
        forall|v: int| 0 <= v < att.len() && some_in(old, att[v]) ==> #[trigger] some_in(new, att[v]),
{
    assert forall|v: int| 0 <= v < att.len() && all_out(old, att[v]) implies #[trigger] all_out(
        new,
        att[v],
    ) by {
        assert forall|j: int| 0 <= j < att[v].len() implies new[(#[trigger] att[v][j]).0 as int]
            == Label::Out by {
            assert(old[att[v][j].0 as int] == Label::Out);
        }
    }
    assert forall|v: int| 0 <= v < att.len() && some_in(old, att[v]) implies #[trigger] some_in(
        new,
        att[v],
    ) by {
        let j = choose|j: int| 0 <= j < att[v].len() && old[(#[trigger] att[v][j]).0 as int] == Label::In;
        assert(new[att[v][j].0 as int] == Label::In);
    }
}

/// Whether every listed attacker is labelled `Out`.
fn all_attackers_out(labels: &Vec<Label>, attackers: &Vec<NodeId>) -> (b: bool)
    requires
        forall|j: int| 0 <= j < attackers.len() ==> (#[trigger] attackers@[j]).0 < labels.len(),
    ensures
        b == all_out(labels@, attackers@),
{
    let mut j: usize = 0;
    while j < attackers.len()
        invariant
            j <= attackers.len(),
            forall|j: int| 0 <= j < attackers.len() ==> (#[trigger] attackers@[j]).0 < labels.len(),
            forall|i: int| 0 <= i < j ==> labels@[(#[trigger] attackers@[i]).0 as int] == Label::Out,
        decreases attackers.len() - j,
    {
        if labels[attackers[j].0 as usize] != Label::Out {
            return false;
        }
        j += 1;
    }
    true
}

/// Whether some listed attacker is labelled `In`.
fn any_attacker_in(labels: &Vec<Label>, attackers: &Vec<NodeId>) -> (b: bool)
    requires
        forall|j: int| 0 <= j < attackers.len() ==> (#[trigger] attackers@[j]).0 < labels.len(),
    ensures
        b == some_in(labels@, attackers@),
{
    let mut j: usize = 0;
    while j < attackers.len()
        invariant
            j <= attackers.len(),
            forall|j: int| 0 <= j < attackers.len() ==> (#[trigger] attackers@[j]).0 < labels.len(),
            forall|i: int| 0 <= i < j ==> labels@[(#[trigger] attackers@[i]).0 as int] != Label::In,
        decreases attackers.len() - j,
    {
        if labels[attackers[j].0 as usize] == Label::In {
            return true;
        }
        j += 1;
    }
    false
}

/// Compute the grounded labelling of `graph`.
///
/// Starting from all `Undec`, repeatedly label a node `In` when all its
/// attackers are `Out` and `Out` when one of its attackers is `In`, until a
/// full pass changes nothing. Every node that attacks must be a node of the
/// graph.
pub fn grounded_labelling(graph: &Graph) -> (labels: Vec<Label>)
    requires
        sources_in_range(graph.attack_lists()),
    ensures
        is_grounded_labelling(graph.attack_lists(), labels@),
        labels@.len() == graph.spec_node_count(),
{
    proof {
        use_type_invariant(graph);
    }
    let n = graph.node_count as usize;
    let ghost att = graph.attack_lists();
    let mut labels: Vec<Label> = Vec::new();
    let mut i: usize = 0;
    while i < n
        invariant
            i <= n,
            labels.len() == i,
            forall|j: int| 0 <= j < i ==> labels@[j] == Label::Undec,
        decreases n - i,
    {
        labels.push(Label::Undec);
        i += 1;
    }
    assert(justified(att, labels@));
    assert(forced(att, labels@));
    loop
        invariant
            n == att.len(),
            n == graph.attacked_by.len(),
            att == graph.attack_lists(),
            forall|v: int| 0 <= v < n ==> (#[trigger] graph.attacked_by@[v])@ == att[v],
            sources_in_range(att),
            labels.len() == n,
            justified(att, labels@),
            forced(att, labels@),
        ensures
            labels.len() == n,
            justified(att, labels@),
            forced(att, labels@),
            forall|u: int|
                0 <= u < n && #[trigger] labels@[u] == Label::Undec ==> !all_out(labels@, att[u])
                    && !some_in(labels@, att[u]),
        decreases undec_count(labels@),
    {
        let ghost start = labels@;
        let mut changed = false;
        let mut node: usize = 0;
        while node < n
            invariant
                n == att.len(),
                n == graph.attacked_by.len(),
                forall|v: int| 0 <= v < n ==> (#[trigger] graph.attacked_by@[v])@ == att[v],
                sources_in_range(att),
                start.len() == n,
                node <= n,
                labels.len() == n,
                justified(att, labels@),
                forced(att, labels@),
                extends(start, labels@),
                changed ==> undec_count(labels@) < undec_count(start),
                !changed ==> labels@ == start,
                !changed ==> forall|u: int|
                    0 <= u < node && #[trigger] labels@[u] == Label::Undec ==> !all_out(
                        labels@,
                        att[u],
                    ) && !some_in(labels@, att[u]),
            decreases n - node,
        {
            if labels[node] != Label::Undec {
                node += 1;
                continue;
            }
            let attackers = &graph.attacked_by[node];
            assert(attackers@ == att[node as int]);
            assert forall|j: int| 0 <= j < attackers.len() implies (#[trigger] attackers@[j]).0
                < labels.len() by {
                assert(att[node as int][j] == attackers@[j]);
            }
            let all_out_now = all_attackers_out(&labels, attackers);
            let any_in_now = if all_out_now {
                false
            } else {
                any_attacker_in(&labels, attackers)
            };
            if all_out_now || any_in_now {
                let ghost before = labels@;
                let new_label = if all_out_now {
                    Label::In
                } else {
                    Label::Out
                };
                labels.set(node, new_label);
                proof {
                    let after = labels@;
                    assert(after == before.update(node as int, new_label));
                    lemma_undec_count_update(before, node as int, new_label);
                    assert(extends(before, after));
                    lemma_extends_keeps_decisions(att, before, after);
                    assert(extends(start, after));
                    assert forall|v: int| 0 <= v < att.len() implies (#[trigger] after[v]
                        == Label::In ==> all_out(after, att[v])) && (after[v] == Label::Out
                        ==> some_in(after, att[v])) by {
                        if v != node {
                            assert(after[v] == before[v]);
                        } else {
                            assert(all_out_now ==> all_out(before, att[v]));
                            assert(!all_out_now ==> some_in(before, att[v]));
                        }
                    }
                    assert forall|other: Seq<Label>| #[trigger]
                        is_complete_labelling(att, other) implies labels_below(after, other) by {
                        assert(labels_below(before, other));
                        assert forall|v: int| 0 <= v < after.len() implies (#[trigger] after[v]
                            == Label::In ==> other[v] == Label::In) && (after[v] == Label::Out
                            ==> other[v] == Label::Out) by {
                            if v == node {
                                let a = att[v];
                                if all_out_now {
                                    assert forall|j: int| 0 <= j < a.len() implies other[(
                                    #[trigger] a[j]).0 as int] == Label::Out by {
                                        assert(before[a[j].0 as int] == Label::Out);
                                    }
                                    assert(all_out(other, a));
                                } else {
                                    let j = choose|j: int|
                                        0 <= j < a.len() && before[(#[trigger] a[j]).0 as int]
                                            == Label::In;
                                    assert(other[a[j].0 as int] == Label::In);
                                    assert(some_in(other, a));
                                }
                            } else {
                                assert(after[v] == before[v]);
                            }
                        }
                    }
                }
                changed = true;
            }
            node += 1;
        }
        if !changed {
            break;
        }
    }
    proof {
        let l = labels@;
        assert forall|v: int| 0 <= v < att.len() implies ((#[trigger] l[v] == Label::In) <==> all_out(
            l,
            att[v],
        )) && ((l[v] == Label::Out) <==> some_in(l, att[v])) by {
            if l[v] == Label::Out && all_out(l, att[v]) {
                let j = choose|j: int| 0 <= j < att[v].len() && l[(#[trigger] att[v][j]).0 as int] == Label::In;
                assert(l[att[v][j].0 as int] == Label::Out);
            }
            if l[v] == Label::In && some_in(l, att[v]) {
                let j = choose|j: int| 0 <= j < att[v].len() && l[(#[trigger] att[v][j]).0 as int] == Label::In;
                assert(l[att[v][j].0 as int] == Label::Out);
            }
        }
    }
    labels
}

// ---------------------------------------------------------------------------
// Laws
// ---------------------------------------------------------------------------

/// Two labellings that are each below the other are equal.
proof fn lemma_below_antisymmetric(a: Seq<Label>, b: Seq<Label>)
    requires
        a.len() == b.len(),
        labels_below(a, b),
        labels_below(b, a),
    ensures
        a == b,
{
    assert forall|v: int| 0 <= v < a.len() implies a[v] == b[v] by {
        if a[v] == Label::Undec {
            if b[v] == Label::In {
                assert(b[v] == Label::In ==> a[v] == Label::In);
            }
            if b[v] == Label::Out {
                assert(b[v] == Label::Out ==> a[v] == Label::Out);
            }
        }
    }
    assert(a =~= b);
}

/// A graph has at most one grounded labelling, so the solver gives the same
/// labels on every run.
pub proof fn lemma_grounded_labelling_unique(
    att: Seq<Seq<NodeId>>,
    a: Seq<Label>,
    b: Seq<Label>,
)
    requires
        is_grounded_labelling(att, a),
        is_grounded_labelling(att, b),
    ensures
        a == b,
{
    assert(is_complete_labelling(att, b));
    assert(is_complete_labelling(att, a));
    lemma_below_antisymmetric(a, b);
}

/// In the grounded labelling: an unattacked node is `In`; a node with an
/// `In` attacker is `Out`; an `In` node has only `Out` attackers; and every
/// `Out` or `Undec` node has at least one attacker.
pub proof fn lemma_grounded_labelling_properties(att: Seq<Seq<NodeId>>, labels: Seq<Label>)
    requires
        is_grounded_labelling(att, labels),
    ensures
        forall|v: int| 0 <= v < att.len() && att[v].len() == 0 ==> #[trigger] labels[v] == Label::In,
        forall|v: int|
            0 <= v < att.len() && some_in(labels, att[v]) ==> #[trigger] labels[v] == Label::Out,
        forall|v: int, j: int|
            0 <= v < att.len() && #[trigger] labels[v] == Label::In && 0 <= j < att[v].len()
                ==> labels[(#[trigger] att[v][j]).0 as int] == Label::Out,
        forall|v: int| 0 <= v < att.len() && #[trigger] labels[v] != Label::In ==> att[v].len() > 0,
{
    assert forall|v: int| 0 <= v < att.len() && att[v].len() == 0 implies #[trigger] labels[v]
        == Label::In by {
        assert(all_out(labels, att[v]));
    }
    assert forall|v: int, j: int|
        0 <= v < att.len() && #[trigger] labels[v] == Label::In && 0 <= j < att[v].len() implies labels[(
    #[trigger] att[v][j]).0 as int] == Label::Out by {
        assert(all_out(labels, att[v]));
    }
    assert forall|v: int| 0 <= v < att.len() && #[trigger] labels[v] != Label::In implies att[v].len()
        > 0 by {
        if att[v].len() == 0 {
            assert(all_out(labels, att[v]));
        }
    }
}

/// Adding a node that attacks nothing and is attacked by nothing leaves the
/// labels of the existing nodes unchanged, and the new node is `In`.
pub proof fn lemma_isolated_node_preserves_labels(
    att: Seq<Seq<NodeId>>,
    labels: Seq<Label>,
    extended_labels: Seq<Label>,
)
    requires
        sources_in_range(att),
        is_grounded_labelling(att, labels),
        is_grounded_labelling(att.push(Seq::empty()), extended_labels),
    ensures
        extended_labels.len() == labels.len() + 1,
        extended_labels.take(labels.len() as int) == labels,
        extended_labels[labels.len() as int] == Label::In,
{
    let n = att.len() as int;
    let ext = att.push(Seq::<NodeId>::empty());
    let restricted = extended_labels.take(n);
    // The restriction of the extended labelling is complete for the original graph.
    assert forall|v: int| 0 <= v < n implies #[trigger] ext[v] == att[v] by {}
    assert forall|v: int| 0 <= v < n implies (all_out(restricted, att[v]) == all_out(
        extended_labels,
        ext[v],
    )) && (some_in(restricted, att[v]) == some_in(extended_labels, ext[v])) by {
        assert(ext[v] == att[v]);
        assert forall|j: int| 0 <= j < att[v].len() implies restricted[(#[trigger] att[v][j]).0 as int]
            == extended_labels[att[v][j].0 as int] by {}
        if some_in(extended_labels, ext[v]) {
            let j = choose|j: int| 0 <= j < ext[v].len() && extended_labels[(#[trigger] ext[v][j]).0 as int] == Label::In;
            assert(restricted[att[v][j].0 as int] == Label::In);
        }
        if some_in(restricted, att[v]) {
            let j = choose|j: int| 0 <= j < att[v].len() && restricted[(#[trigger] att[v][j]).0 as int] == Label::In;
            assert(extended_labels[ext[v][j].0 as int] == Label::In);
        }
    }
    assert forall|v: int| 0 <= v < n implies ((#[trigger] restricted[v] == Label::In) <==> all_out(
        restricted,
        att[v],
    )) && ((restricted[v] == Label::Out) <==> some_in(restricted, att[v])) by {
        assert(restricted[v] == extended_labels[v]);
    }
    assert(is_complete_labelling(att, restricted));
    assert(labels_below(labels, restricted));
    // The original labelling with the new node `In` is complete for the extended graph.
    let grown = labels.push(Label::In);
    assert forall|v: int| 0 <= v < n implies (all_out(grown, ext[v]) == all_out(labels, att[v])) && (
    some_in(grown, ext[v]) == some_in(labels, att[v])) by {
        assert(ext[v] == att[v]);
        assert forall|j: int| 0 <= j < att[v].len() implies grown[(#[trigger] att[v][j]).0 as int]
            == labels[att[v][j].0 as int] by {}
        if some_in(grown, ext[v]) {
            let j = choose|j: int| 0 <= j < ext[v].len() && grown[(#[trigger] ext[v][j]).0 as int] == Label::In;
            assert(labels[att[v][j].0 as int] == Label::In);
        }
        if some_in(labels, att[v]) {
            let j = choose|j: int| 0 <= j < att[v].len() && labels[(#[trigger] att[v][j]).0 as int] == Label::In;
            assert(grown[ext[v][j].0 as int] == Label::In);
        }
    }
    assert(all_out(grown, ext[n]));
    assert(!some_in(grown, ext[n]));
    assert forall|v: int| 0 <= v < ext.len() implies ((#[trigger] grown[v] == Label::In) <==> all_out(
        grown,
        ext[v],
    )) && ((grown[v] == Label::Out) <==> some_in(grown, ext[v])) by {
        if v < n {
            assert(grown[v] == labels[v]);
        }
    }
    assert(is_complete_labelling(ext, grown));
    assert(labels_below(extended_labels, grown));
    assert(labels_below(restricted, labels)) by {
        assert forall|v: int| 0 <= v < restricted.len() implies (#[trigger] restricted[v] == Label::In
            ==> labels[v] == Label::In) && (restricted[v] == Label::Out ==> labels[v] == Label::Out) by {
            assert(restricted[v] == extended_labels[v]);
            assert(grown[v] == labels[v]);
        }
    }
    lemma_below_antisymmetric(labels, restricted);
    assert(extended_labels[n] == Label::In) by {
        assert(all_out(extended_labels, ext[n]));
    }
}

} // verus!
