//! The graph that a run remembers in, and the transactions that edit it.
//!
//! Edits are atomic ops. [`Graph::apply_ops`] takes a list of them all or not at
//! all and returns a journal; [`Graph::undo_ops`] replays a journal backwards.
//!
//! A merge is proposed with the latent that is merged; the node takes the average of what
//! it held and that latent. How the two are averaged is a matter of floating-point numbers,
//! and a [`GraphBackend`] is asked for it. Which edits are refused, and in which words, are
//! rules of this library.

use vstd::prelude::*;

use crate::backend::GraphBackend;
use crate::scalar::Real;
use crate::text::{decimal, join2, join5};

verus! {

/// A node: its identity and the latent it stands for.
#[derive(Clone, Debug)]
pub struct Node {
    pub id: u64,
    pub embedding: Vec<Real>,
}

/// The graph: nodes, directed edges between their ids, and the first id not taken.
#[derive(Clone, Debug)]
pub struct Graph {
    nodes: Vec<Node>,
    edges: Vec<(u64, u64)>,
    next: u64,
}

/// An atomic edit.
#[derive(Clone, Debug)]
pub enum GraphOp {
    /// Appends a node under an id that was never taken.
    AddNode { id: u64, embedding: Vec<Real> },
    /// Appends an edge between two nodes that are there.
    AddEdge { from: u64, to: u64 },
    /// Averages a latent into the embedding of a node.
    MergeNodes { into: u64, embedding: Vec<Real> },
}

/// What takes one edit back.
#[derive(Clone, Debug)]
pub enum UndoOp {
    /// Drops the last node and frees the ids from `next` on.
    PopNode { next: u64 },
    /// Drops the last edge.
    PopEdge,
    /// Gives the node at a position its former embedding.
    Restore { index: usize, embedding: Vec<Real> },
}

/// A node as a mathematical value.
#[verifier::ext_equal]
pub struct NodeView {
    pub id: u64,
    pub embedding: Seq<Real>,
}

/// A graph as a mathematical value.
#[verifier::ext_equal]
pub struct GraphView {
    pub nodes: Seq<NodeView>,
    pub edges: Seq<(u64, u64)>,
    pub next: u64,
}

/// An edit as a mathematical value.
#[verifier::ext_equal]
pub enum OpView {
    AddNode { id: u64, embedding: Seq<Real> },
    AddEdge { from: u64, to: u64 },
    MergeNodes { into: u64, embedding: Seq<Real> },
}

/// An undo record as a mathematical value.
#[verifier::ext_equal]
pub enum UndoView {
    PopNode { next: u64 },
    PopEdge,
    Restore { index: int, embedding: Seq<Real> },
}

impl View for Node {
    type V = NodeView;

    open spec fn view(&self) -> NodeView {
        NodeView { id: self.id, embedding: self.embedding@ }
    }
}

impl View for Graph {
    type V = GraphView;

    closed spec fn view(&self) -> GraphView {
        GraphView {
            nodes: self.nodes@.map_values(|n: Node| n@),
            edges: self.edges@,
            next: self.next,
        }
    }
}

impl View for GraphOp {
    type V = OpView;

    open spec fn view(&self) -> OpView {
        match *self {
            GraphOp::AddNode { id, embedding } => OpView::AddNode { id, embedding: embedding@ },
            GraphOp::AddEdge { from, to } => OpView::AddEdge { from, to },
            GraphOp::MergeNodes { into, embedding } => OpView::MergeNodes {
                into,
                embedding: embedding@,
            },
        }
    }
}

impl View for UndoOp {
    type V = UndoView;

    open spec fn view(&self) -> UndoView {
        match *self {
            UndoOp::PopNode { next } => UndoView::PopNode { next },
            UndoOp::PopEdge => UndoView::PopEdge,
            UndoOp::Restore { index, embedding } => UndoView::Restore {
                index: index as int,
                embedding: embedding@,
            },
        }
    }
}

/// The graph without nodes, as a mathematical value.
pub open spec fn empty_graph() -> GraphView {
    GraphView { nodes: Seq::empty(), edges: Seq::empty(), next: 0 }
}

/// A list of edits as mathematical values.
pub open spec fn ops_view(ops: Seq<GraphOp>) -> Seq<OpView> {
    ops.map_values(|op: GraphOp| op@)
}

/// A journal as mathematical values.
pub open spec fn journal_view(journal: Seq<UndoOp>) -> Seq<UndoView> {
    journal.map_values(|u: UndoOp| u@)
}

/// Where the first node of an id stands.
pub open spec fn locate(nodes: Seq<NodeView>, id: u64) -> Option<int>
    decreases nodes.len(),
{
    if nodes.len() == 0 {
        None
    } else {
        match locate(nodes.drop_last(), id) {
            Some(i) => Some(i),
            None => if nodes.last().id == id {
                Some(nodes.len() - 1)
            } else {
                None
            },
        }
    }
}

/// The complaint about an embedding of the wrong length.
pub open spec fn wrong_dim(id: u64, found: nat, latent_dim: usize) -> Seq<char> {
    "embedding of node "@ + crate::text::numeral(id as nat) + " has dim "@ + crate::text::numeral(
        found,
    ) + (", expected "@ + crate::text::numeral(latent_dim as nat))
}

/// The complaint about a node that is not there.
pub open spec fn no_node(id: u64) -> Seq<char> {
    "no node "@ + crate::text::numeral(id as nat)
}

impl GraphView {
    /// The size |V| + |E|.
    pub open spec fn size(self) -> nat {
        self.nodes.len() + self.edges.len()
    }

    /// The size as a machine number; one beyond the machine's range is shown as the
    /// largest number in it.
    pub open spec fn shown_size(self) -> usize {
        if self.size() > usize::MAX {
            usize::MAX
        } else {
            self.size() as usize
        }
    }

    /// Whether no id stands twice, every id is below the first free one, and every edge
    /// joins nodes that are there.
    pub open spec fn wf(self) -> bool {
        &&& forall|i: int| 0 <= i < self.nodes.len() ==> (#[trigger] self.nodes[i]).id < self.next
        &&& forall|i: int, j: int|
            0 <= i < j < self.nodes.len() ==> (#[trigger] self.nodes[i]).id != (
            #[trigger] self.nodes[j]).id
        &&& forall|i: int|
            0 <= i < self.edges.len() ==> locate(self.nodes, (#[trigger] self.edges[i]).0) is Some
                && locate(self.nodes, self.edges[i].1) is Some
    }

    /// What one edit makes of the graph, or why it is refused. Merges are averaged by `by`.
    pub open spec fn after<B: GraphBackend>(self, op: OpView, latent_dim: usize, by: B) -> Result<
        GraphView,
        Seq<char>,
    > {
        match op {
            OpView::AddNode { id, embedding } => if embedding.len() != latent_dim {
                Err(wrong_dim(id, embedding.len(), latent_dim))
            } else if id < self.next || id == u64::MAX {
                Err("node id "@ + crate::text::numeral(id as nat) + " is not free"@)
            } else {
                Ok(
                    GraphView {
                        nodes: self.nodes.push(NodeView { id, embedding }),
                        next: (id + 1) as u64,
                        ..self
                    },
                )
            },
            OpView::AddEdge { from, to } => if locate(self.nodes, from) is None {
                Err(no_node(from))
            } else if locate(self.nodes, to) is None {
                Err(no_node(to))
            } else {
                Ok(GraphView { edges: self.edges.push((from, to)), ..self })
            },
            OpView::MergeNodes { into, embedding } => if embedding.len() != latent_dim {
                Err(wrong_dim(into, embedding.len(), latent_dim))
            } else {
                match locate(self.nodes, into) {
                    None => Err(no_node(into)),
                    Some(i) => Ok(
                        GraphView {
                            nodes: self.nodes.update(
                                i,
                                NodeView {
                                    id: into,
                                    embedding: by.averaged(self.nodes[i].embedding, embedding),
                                },
                            ),
                            ..self
                        },
                    ),
                }
            },
        }
    }

    /// The record that takes one edit back.
    pub open spec fn undo_of(self, op: OpView) -> UndoView {
        match op {
            OpView::AddNode { .. } => UndoView::PopNode { next: self.next },
            OpView::AddEdge { .. } => UndoView::PopEdge,
            OpView::MergeNodes { into, .. } => {
                let i = locate(self.nodes, into)->0;
                UndoView::Restore { index: i, embedding: self.nodes[i].embedding }
            },
        }
    }

    /// What a list of edits leads to, with its journal, or why the first edit that
    /// cannot be made is refused.
    pub open spec fn edited<B: GraphBackend>(
        self,
        ops: Seq<OpView>,
        latent_dim: usize,
        by: B,
    ) -> Result<
        (GraphView, Seq<UndoView>),
        Seq<char>,
    >
        decreases ops.len(),
    {
        if ops.len() == 0 {
            Ok((self, Seq::empty()))
        } else {
            match self.edited(ops.drop_last(), latent_dim, by) {
                Err(why) => Err(why),
                Ok((g, journal)) => match g.after(ops.last(), latent_dim, by) {
                    Err(why) => Err(why),
                    Ok(h) => Ok((h, journal.push(g.undo_of(ops.last())))),
                },
            }
        }
    }

    /// What one undo record makes of the graph; a record that does not fit is skipped.
    pub open spec fn before(self, undo: UndoView) -> GraphView {
        match undo {
            UndoView::PopNode { next } => if self.nodes.len() == 0 {
                self
            } else {
                GraphView { nodes: self.nodes.drop_last(), next, ..self }
            },
            UndoView::PopEdge => if self.edges.len() == 0 {
                self
            } else {
                GraphView { edges: self.edges.drop_last(), ..self }
            },
            UndoView::Restore { index, embedding } => if 0 <= index < self.nodes.len() {
                GraphView {
                    nodes: self.nodes.update(
                        index,
                        NodeView { id: self.nodes[index].id, embedding },
                    ),
                    ..self
                }
            } else {
                self
            },
        }
    }

    /// What is left of the graph when a journal is replayed from its end.
    pub open spec fn undone(self, journal: Seq<UndoView>) -> GraphView
        decreases journal.len(),
    {
        if journal.len() == 0 {
            self
        } else {
            self.before(journal.last()).undone(journal.drop_last())
        }
    }

    /// A node that is located stands where it is said to, and has the id.
    pub proof fn located(self, id: u64)
        ensures
            locate(self.nodes, id) matches Some(i) ==> 0 <= i < self.nodes.len()
                && self.nodes[i].id == id,
        decreases self.nodes.len(),
    {
        if self.nodes.len() > 0 {
            GraphView { nodes: self.nodes.drop_last(), ..self }.located(id);
        }
    }

    /// One edit and its undo record cancel out.
    proof fn one_edit_cancels<B: GraphBackend>(self, op: OpView, latent_dim: usize, by: B)
        requires
            self.after(op, latent_dim, by) is Ok,
        ensures
            self.after(op, latent_dim, by)->Ok_0.before(self.undo_of(op)) == self,
    {
        let g = self.after(op, latent_dim, by)->Ok_0;
        match op {
            OpView::AddNode { .. } => {
                assert(g.nodes.drop_last() =~= self.nodes);
            },
            OpView::AddEdge { .. } => {
                assert(g.edges.drop_last() =~= self.edges);
            },
            OpView::MergeNodes { into, .. } => {
                self.located(into);
                assert(g.before(self.undo_of(op)).nodes =~= self.nodes);
            },
        }
    }

    /// Replaying the journal of a transaction gives back the graph it started from.
    pub proof fn journals_restore<B: GraphBackend>(self, ops: Seq<OpView>, latent_dim: usize, by: B)
        ensures
            self.edited(ops, latent_dim, by) matches Ok((g, journal)) ==> g.undone(journal) == self,
        decreases ops.len(),
    {
        if ops.len() > 0 {
            self.journals_restore(ops.drop_last(), latent_dim, by);
            if self.edited(ops, latent_dim, by) is Ok {
                let (g, journal) = self.edited(ops.drop_last(), latent_dim, by)->Ok_0;
                g.one_edit_cancels(ops.last(), latent_dim, by);
                let (_, longer) = self.edited(ops, latent_dim, by)->Ok_0;
                assert(longer.drop_last() =~= journal);
            }
        }
    }

    /// Appending to the nodes or changing embeddings loses no id.
    proof fn ids_stay(old_nodes: Seq<NodeView>, new_nodes: Seq<NodeView>, id: u64)
        requires
            old_nodes.len() <= new_nodes.len(),
            forall|i: int|
                0 <= i < old_nodes.len() ==> (#[trigger] new_nodes[i]).id == old_nodes[i].id,
        ensures
            locate(old_nodes, id) is Some ==> locate(new_nodes, id) is Some,
        decreases new_nodes.len(),
    {
        if old_nodes.len() > 0 {
            if old_nodes.len() == new_nodes.len() {
                let n = old_nodes.len() - 1;
                assert(new_nodes[n].id == old_nodes[n].id);
                assert forall|i: int| 0 <= i < n implies (#[trigger] new_nodes.drop_last()[i]).id
                    == old_nodes.drop_last()[i].id by {
                    assert(new_nodes[i].id == old_nodes[i].id);
                }
                Self::ids_stay(old_nodes.drop_last(), new_nodes.drop_last(), id);
            } else {
                assert forall|i: int| 0 <= i < old_nodes.len() implies (
                #[trigger] new_nodes.drop_last()[i]).id == old_nodes[i].id by {
                    assert(new_nodes[i].id == old_nodes[i].id);
                }
                Self::ids_stay(old_nodes, new_nodes.drop_last(), id);
            }
        }
    }

    /// One edit keeps the graph well-formed.
    proof fn one_edit_keeps_wf<B: GraphBackend>(self, op: OpView, latent_dim: usize, by: B)
        requires
            self.wf(),
            self.after(op, latent_dim, by) is Ok,
        ensures
            self.after(op, latent_dim, by)->Ok_0.wf(),
    {
        let g = self.after(op, latent_dim, by)->Ok_0;
        if op is MergeNodes {
            self.located(op->into);
        }
        assert forall|i: int| 0 <= i < self.nodes.len() implies (#[trigger] g.nodes[i]).id
            == self.nodes[i].id by {}
        assert forall|i: int, j: int| 0 <= i < j < g.nodes.len() implies (#[trigger] g.nodes[i]).id
            != (#[trigger] g.nodes[j]).id by {
            assert(self.nodes[i].id < self.next);
            if j < self.nodes.len() {
                assert(self.nodes[i].id != self.nodes[j].id);
            }
        }
        assert forall|i: int| 0 <= i < g.edges.len() implies locate(
            g.nodes,
            (#[trigger] g.edges[i]).0,
        ) is Some && locate(g.nodes, g.edges[i].1) is Some by {
            if i < self.edges.len() {
                assert(g.edges[i] == self.edges[i]);
            }
            Self::ids_stay(self.nodes, g.nodes, g.edges[i].0);
            Self::ids_stay(self.nodes, g.nodes, g.edges[i].1);
        }
    }

    /// A transaction keeps the graph well-formed.
    pub proof fn edits_keep_wf<B: GraphBackend>(self, ops: Seq<OpView>, latent_dim: usize, by: B)
        requires
            self.wf(),
        ensures
            self.edited(ops, latent_dim, by) matches Ok((g, _)) ==> g.wf(),
        decreases ops.len(),
    {
        if ops.len() > 0 {
            self.edits_keep_wf(ops.drop_last(), latent_dim, by);
            if self.edited(ops, latent_dim, by) is Ok {
                let (g, _) = self.edited(ops.drop_last(), latent_dim, by)->Ok_0;
                g.one_edit_keeps_wf(ops.last(), latent_dim, by);
            }
        }
    }

    /// A list of edits fails as soon as a beginning of it does, and for that reason.
    proof fn failures_stick<B: GraphBackend>(
        self,
        ops: Seq<OpView>,
        k: int,
        latent_dim: usize,
        by: B,
    )
        requires
            0 <= k <= ops.len(),
            self.edited(ops.take(k), latent_dim, by) is Err,
        ensures
            self.edited(ops, latent_dim, by) == self.edited(ops.take(k), latent_dim, by),
        decreases ops.len(),
    {
        if k < ops.len() {
            assert(ops.drop_last().take(k) =~= ops.take(k));
            self.failures_stick(ops.drop_last(), k, latent_dim, by);
        } else {
            assert(ops.take(k) =~= ops);
        }
    }
}

impl Graph {
    /// The graph without nodes.
    pub fn empty() -> (r: Graph)
        ensures
            r@ == empty_graph(),
            r@.wf(),
    {
        let r = Graph { nodes: Vec::new(), edges: Vec::new(), next: 0 };
        assert(r@.nodes =~= Seq::empty());
        r
    }

    /// A copy of the graph.
    pub fn copied(&self) -> (r: Graph)
        ensures
            r@ == self@,
    {
        let mut nodes: Vec<Node> = Vec::new();
        let mut i: usize = 0;
        while i < self.nodes.len()
            invariant
                i <= self.nodes@.len(),
                nodes@.len() == i,
                forall|j: int| 0 <= j < i ==> (#[trigger] nodes@[j])@ == self.nodes@[j]@,
            decreases self.nodes@.len() - i,
        {
            let node = &self.nodes[i];
            nodes.push(Node { id: node.id, embedding: copied(&node.embedding) });
            i += 1;
        }
        let r = Graph { nodes, edges: copied(&self.edges), next: self.next };
        assert(r@.nodes =~= self@.nodes);
        r
    }

    /// The first id not taken.
    pub fn next_id(&self) -> (r: u64)
        ensures
            r == self@.next,
    {
        self.next
    }

    /// The number of nodes.
    pub fn node_count(&self) -> (r: usize)
        ensures
            r == self@.nodes.len(),
    {
        self.nodes.len()
    }

    /// The number of edges.
    pub fn edge_count(&self) -> (r: usize)
        ensures
            r == self@.edges.len(),
    {
        self.edges.len()
    }

    /// The node at a position.
    pub fn node(&self, i: usize) -> (r: Option<&Node>)
        ensures
            match r {
                Some(n) => i < self@.nodes.len() && n@ == self@.nodes[i as int],
                None => i >= self@.nodes.len(),
            },
    {
        if i < self.nodes.len() {
            Some(&self.nodes[i])
        } else {
            None
        }
    }

    /// The edge at a position.
    pub fn edge(&self, i: usize) -> (r: Option<(u64, u64)>)
        ensures
            r == (if i < self@.edges.len() {
                Some(self@.edges[i as int])
            } else {
                None
            }),
    {
        if i < self.edges.len() {
            Some(self.edges[i])
        } else {
            None
        }
    }

    /// Whether the size |V| + |E| is above a bound.
    pub fn larger_than(&self, bound: usize) -> (r: bool)
        ensures
            r == (self@.size() > bound),
    {
        self.nodes.len() > bound || self.edges.len() > bound - self.nodes.len()
    }

    /// The size |V| + |E|.
    pub fn size(&self) -> (r: usize)
        ensures
            r == self@.shown_size(),
    {
        if self.larger_than(usize::MAX) {
            usize::MAX
        } else {
            self.nodes.len() + self.edges.len()
        }
    }

    /// Where the first node of an id stands.
    fn find(&self, id: u64) -> (r: Option<usize>)
        ensures
            match r {
                Some(i) => locate(self@.nodes, id) == Some(i as int) && i < self.nodes@.len(),
                None => locate(self@.nodes, id) is None,
            },
    {
        let mut i: usize = 0;
        while i < self.nodes.len()
            invariant
                i <= self.nodes@.len(),
                locate(self@.nodes.take(i as int), id) is None,
            decreases self.nodes@.len() - i,
        {
            assert(self@.nodes.take(i + 1).drop_last() =~= self@.nodes.take(i as int));
            if self.nodes[i].id == id {
                proof {
                    located_early(self@.nodes, id, i + 1);
                }
                return Some(i);
            }
            i += 1;
        }
        assert(self@.nodes.take(i as int) =~= self@.nodes);
        None
    }

    /// Makes one edit, or says why it cannot be made.
    fn apply_op<B: GraphBackend>(&mut self, op: &GraphOp, latent_dim: usize, by: &B) -> (r: Result<
        UndoOp,
        String,
    >)
        ensures
            match old(self)@.after(op@, latent_dim, *by) {
                Ok(g) => r matches Ok(u) && final(self)@ == g && u@ == old(self)@.undo_of(op@),
                Err(why) => r matches Err(e) && e@ == why && final(self)@ == old(self)@,
            },
    {
        let ghost was = self@;
        match op {
            GraphOp::AddNode { id, embedding } => {
                if embedding.len() != latent_dim {
                    return Err(dim_complaint(*id, embedding.len(), latent_dim));
                }
                if *id < self.next || *id == u64::MAX {
                    return Err(
                        crate::text::join3("node id ", decimal(*id).as_str(), " is not free"),
                    );
                }
                let undo = UndoOp::PopNode { next: self.next };
                let node = Node { id: *id, embedding: copied(embedding) };
                self.nodes.push(node);
                self.next = *id + 1;
                assert(self@.nodes =~= was.nodes.push(node@));
                Ok(undo)
            },
            GraphOp::AddEdge { from, to } => {
                if self.find(*from).is_none() {
                    return Err(join2("no node ", decimal(*from).as_str()));
                }
                if self.find(*to).is_none() {
                    return Err(join2("no node ", decimal(*to).as_str()));
                }
                self.edges.push((*from, *to));
                Ok(UndoOp::PopEdge)
            },
            GraphOp::MergeNodes { into, embedding } => {
                if embedding.len() != latent_dim {
                    return Err(dim_complaint(*into, embedding.len(), latent_dim));
                }
                match self.find(*into) {
                    None => Err(join2("no node ", decimal(*into).as_str())),
                    Some(i) => {
                        let former = copied(&self.nodes[i].embedding);
                        let node = Node { id: *into, embedding: by.average(&former, embedding) };
                        self.nodes.set(i, node);
                        assert(self@.nodes =~= was.nodes.update(i as int, node@));
                        Ok(UndoOp::Restore { index: i, embedding: former })
                    },
                }
            },
        }
    }

    /// Replays one undo record.
    fn undo_op(&mut self, undo: &UndoOp)
        ensures
            final(self)@ == old(self)@.before(undo@),
    {
        let ghost was = self@;
        match undo {
            UndoOp::PopNode { next } => {
                if self.nodes.len() > 0 {
                    let _ = self.nodes.pop();
                    self.next = *next;
                    assert(self@.nodes =~= was.nodes.drop_last());
                }
            },
            UndoOp::PopEdge => {
                if self.edges.len() > 0 {
                    let _ = self.edges.pop();
                    assert(self@.edges =~= was.edges.drop_last());
                }
            },
            UndoOp::Restore { index, embedding } => {
                if *index < self.nodes.len() {
                    let node = Node {
                        id: self.nodes[*index].id,
                        embedding: copied(embedding),
                    };
                    self.nodes.set(*index, node);
                    assert(self@.nodes =~= was.nodes.update(*index as int, node@));
                }
            },
        }
    }

    /// Applies edits, all of them or none, and returns the journal that takes them back.
    /// Merges are averaged by `by`.
    pub fn apply_ops<B: GraphBackend>(&mut self, ops: &Vec<GraphOp>, latent_dim: usize, by: &B) -> (r: Result<
        Vec<UndoOp>,
        String,
    >)
        ensures
            match old(self)@.edited(ops_view(ops@), latent_dim, *by) {
                Ok((g, journal)) => r matches Ok(j) && journal_view(j@) == journal && final(self)@
                    == g,
                Err(why) => r matches Err(e) && e@ == why && final(self)@ == old(self)@,
            },
    {
        let ghost all = ops_view(ops@);
        let ghost was = self@;
        let mut journal: Vec<UndoOp> = Vec::new();
        let mut i: usize = 0;
        assert(journal_view(journal@) =~= Seq::empty());
        while i < ops.len()
            invariant
                i <= ops@.len(),
                all == ops_view(ops@),
                was == old(self)@,
                was.edited(all.take(i as int), latent_dim, *by) == Ok::<_, Seq<char>>(
                    (self@, journal_view(journal@)),
                ),
            decreases ops@.len() - i,
        {
            assert(all.take(i + 1).drop_last() =~= all.take(i as int));
            assert(all.take(i + 1).last() == ops@[i as int]@);
            let ghost so_far = journal_view(journal@);
            match self.apply_op(&ops[i], latent_dim, by) {
                Ok(undo) => {
                    journal.push(undo);
                    assert(journal_view(journal@) =~= so_far.push(undo@));
                },
                Err(why) => {
                    proof {
                        was.failures_stick(all, i + 1, latent_dim, *by);
                        was.journals_restore(all.take(i as int), latent_dim, *by);
                    }
                    self.undo_ops(&journal);
                    return Err(why);
                },
            }
            i += 1;
        }
        assert(all.take(i as int) =~= all);
        Ok(journal)
    }

    /// Replays a journal, last record first.
    pub fn undo_ops(&mut self, journal: &Vec<UndoOp>)
        ensures
            final(self)@ == old(self)@.undone(journal_view(journal@)),
    {
        let ghost all = journal_view(journal@);
        let ghost was = self@;
        let mut i: usize = journal.len();
        assert(all.take(i as int) =~= all);
        while i > 0
            invariant
                i <= journal@.len(),
                all == journal_view(journal@),
                was.undone(all) == self@.undone(all.take(i as int)),
            decreases i,
        {
            assert(all.take(i as int).drop_last() =~= all.take(i - 1));
            assert(all.take(i as int).last() == journal@[i - 1]@);
            i -= 1;
            self.undo_op(&journal[i]);
        }
        assert(all.take(0).len() == 0);
    }
}

/// What is located in a beginning of the nodes is located in all of them.
proof fn located_early(nodes: Seq<NodeView>, id: u64, k: int)
    requires
        0 <= k <= nodes.len(),
        locate(nodes.take(k), id) is Some,
    ensures
        locate(nodes, id) == locate(nodes.take(k), id),
    decreases nodes.len(),
{
    if k < nodes.len() {
        assert(nodes.drop_last().take(k) =~= nodes.take(k));
        located_early(nodes.drop_last(), id, k);
    } else {
        assert(nodes.take(k) =~= nodes);
    }
}

/// A copy of a list.
pub fn copied<T: Copy>(v: &Vec<T>) -> (r: Vec<T>)
    ensures
        r@ == v@,
{
    let mut r: Vec<T> = Vec::new();
    let mut i: usize = 0;
    while i < v.len()
        invariant
            i <= v@.len(),
            r@ == v@.take(i as int),
        decreases v@.len() - i,
    {
        r.push(v[i]);
        i += 1;
        assert(r@ =~= v@.take(i as int));
    }
    assert(r@ =~= v@);
    r
}

fn dim_complaint(id: u64, found: usize, latent_dim: usize) -> (r: String)
    ensures
        r@ == wrong_dim(id, found as nat, latent_dim),
{
    let tail = join2(", expected ", decimal(latent_dim as u64).as_str());
    join5(
        "embedding of node ",
        decimal(id).as_str(),
        " has dim ",
        decimal(found as u64).as_str(),
        tail.as_str(),
    )
}

} // verus!
