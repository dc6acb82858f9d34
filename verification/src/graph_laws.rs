//! What the edits of a graph are for.

use vstd::prelude::*;

use crate::backend::GraphBackend;
use crate::graph::{
    journal_view, locate, ops_view, Graph, GraphOp, GraphView, NodeView, OpView, UndoOp, UndoView,
};
use crate::scalar::Real;
use crate::text::numeral;

verus! {

/// Looking for an id finds the first node that has it, and finds nothing only where no node
/// has it.
pub proof fn the_first_node_is_found(nodes: Seq<NodeView>, id: u64)
    ensures
        locate(nodes, id) matches Some(i) ==> {
            &&& 0 <= i < nodes.len()
            &&& nodes[i].id == id
            &&& forall|j: int| 0 <= j < i ==> (#[trigger] nodes[j]).id != id
        },
        locate(nodes, id) is None ==> forall|j: int|
            0 <= j < nodes.len() ==> (#[trigger] nodes[j]).id != id,
    decreases nodes.len(),
{
    if nodes.len() > 0 {
        let fewer = nodes.drop_last();
        the_first_node_is_found(fewer, id);
        assert forall|j: int| 0 <= j < fewer.len() implies #[trigger] nodes[j] == fewer[j] by {}
    }
}

/// Edits are made in their order: what a list leads to is what the rest of it leads to from
/// where its first edit led, and the record of the first edit stands first in the journal.
pub proof fn edits_are_made_in_order<B: GraphBackend>(
    g: GraphView,
    op: OpView,
    rest: Seq<OpView>,
    latent_dim: usize,
    by: B,
)
    ensures
        ({
            let all = g.edited(seq![op] + rest, latent_dim, by);
            match g.edited(seq![op], latent_dim, by) {
                Err(why) => all == Err::<(GraphView, Seq<UndoView>), Seq<char>>(why),
                Ok((h, first)) => match h.edited(rest, latent_dim, by) {
                    Err(why) => all == Err::<(GraphView, Seq<UndoView>), Seq<char>>(why),
                    Ok((k, journal)) => all == Ok::<(GraphView, Seq<UndoView>), Seq<char>>(
                        (k, first + journal),
                    ),
                },
            }
        }),
    decreases rest.len(),
{
    reveal_with_fuel(GraphView::edited, 2);
    let ops = seq![op] + rest;
    if rest.len() == 0 {
        assert(ops =~= seq![op]);
        if g.edited(seq![op], latent_dim, by) is Ok {
            let (h, first) = g.edited(seq![op], latent_dim, by)->Ok_0;
            assert(first + Seq::<UndoView>::empty() =~= first);
        }
    } else {
        assert(ops.drop_last() =~= seq![op] + rest.drop_last());
        edits_are_made_in_order(g, op, rest.drop_last(), latent_dim, by);
        if g.edited(seq![op], latent_dim, by) is Ok {
            let (h, first) = g.edited(seq![op], latent_dim, by)->Ok_0;
            if h.edited(rest, latent_dim, by) is Ok {
                let (m, journal) = h.edited(rest.drop_last(), latent_dim, by)->Ok_0;
                assert((first + journal).push(m.undo_of(rest.last())) =~= first + journal.push(
                    m.undo_of(rest.last()),
                ));
            }
        }
    }
}

/// A node is added where, and only where, its embedding has the latent dimension and its id
/// is not below the first free one, nor the last id of all; the complaint says which. It
/// comes last, with its own id and embedding; no other node and no edge changes, and the next
/// free id follows it.
pub proof fn nodes_are_appended<B: GraphBackend>(
    g: GraphView,
    id: u64,
    embedding: Seq<Real>,
    latent_dim: usize,
    by: B,
)
    ensures
        ({
            let r = g.edited(seq![OpView::AddNode { id, embedding }], latent_dim, by);
            &&& r is Ok <==> embedding.len() == latent_dim && g.next <= id < u64::MAX
            &&& r matches Err(why) ==> why == if embedding.len() != latent_dim {
                "embedding of node "@ + numeral(id as nat) + " has dim "@ + numeral(
                    embedding.len(),
                ) + (", expected "@ + numeral(latent_dim as nat))
            } else {
                "node id "@ + numeral(id as nat) + " is not free"@
            }
            &&& r matches Ok((h, _)) ==> {
                &&& h.nodes.len() == g.nodes.len() + 1
                &&& h.nodes.last().id == id
                &&& h.nodes.last().embedding == embedding
                &&& forall|i: int| 0 <= i < g.nodes.len() ==> #[trigger] h.nodes[i] == g.nodes[i]
                &&& h.edges == g.edges
                &&& h.next == id + 1
            }
        }),
{
    let ops = seq![OpView::AddNode { id, embedding }];
    reveal_with_fuel(GraphView::edited, 2);
    assert(ops.drop_last().len() == 0);
}

/// An edge is added where, and only where, both its ends are nodes of the graph. It comes
/// last, from the one to the other; no node, no other edge and no free id changes.
pub proof fn edges_join_what_is_there<B: GraphBackend>(
    g: GraphView,
    from: u64,
    to: u64,
    latent_dim: usize,
    by: B,
)
    ensures
        ({
            let r = g.edited(seq![OpView::AddEdge { from, to }], latent_dim, by);
            let has_from = exists|i: int| 0 <= i < g.nodes.len() && (#[trigger] g.nodes[i]).id
                == from;
            let has_to = exists|i: int| 0 <= i < g.nodes.len() && (#[trigger] g.nodes[i]).id == to;
            &&& r is Ok <==> has_from && has_to
            &&& r matches Err(why) ==> why == "no node "@ + numeral(
                if has_from {
                    to as nat
                } else {
                    from as nat
                },
            )
            &&& r matches Ok((h, _)) ==> {
                &&& h.edges.len() == g.edges.len() + 1
                &&& h.edges.last() == (from, to)
                &&& forall|i: int| 0 <= i < g.edges.len() ==> #[trigger] h.edges[i] == g.edges[i]
                &&& h.nodes == g.nodes
                &&& h.next == g.next
            }
        }),
{
    let ops = seq![OpView::AddEdge { from, to }];
    reveal_with_fuel(GraphView::edited, 2);
    assert(ops.drop_last().len() == 0);
    the_first_node_is_found(g.nodes, from);
    the_first_node_is_found(g.nodes, to);
}

/// A latent is merged where, and only where, it has the latent dimension and the node is
/// there. The first node of that id takes the average of what it held, first, and the
/// latent, second. It keeps its id and its place; nothing else changes, and no node is
/// added.
pub proof fn merges_average_what_was_held<B: GraphBackend>(
    g: GraphView,
    into: u64,
    embedding: Seq<Real>,
    latent_dim: usize,
    by: B,
)
    ensures
        ({
            let r = g.edited(seq![OpView::MergeNodes { into, embedding }], latent_dim, by);
            let there = exists|i: int| 0 <= i < g.nodes.len() && (#[trigger] g.nodes[i]).id
                == into;
            &&& r is Ok <==> embedding.len() == latent_dim && there
            &&& r matches Err(why) ==> why == if embedding.len() != latent_dim {
                "embedding of node "@ + numeral(into as nat) + " has dim "@ + numeral(
                    embedding.len(),
                ) + (", expected "@ + numeral(latent_dim as nat))
            } else {
                "no node "@ + numeral(into as nat)
            }
            &&& r matches Ok((h, _)) ==> {
                &&& h.nodes.len() == g.nodes.len()
                &&& h.edges == g.edges
                &&& h.next == g.next
                &&& forall|i: int|
                    0 <= i < g.nodes.len() ==> {
                        let first = g.nodes[i].id == into && forall|j: int|
                            0 <= j < i ==> (#[trigger] g.nodes[j]).id != into;
                        let node = #[trigger] h.nodes[i];
                        &&& node.id == g.nodes[i].id
                        &&& node.embedding == if first {
                            by.averaged(g.nodes[i].embedding, embedding)
                        } else {
                            g.nodes[i].embedding
                        }
                    }
            }
        }),
{
    let ops = seq![OpView::MergeNodes { into, embedding }];
    reveal_with_fuel(GraphView::edited, 2);
    assert(ops.drop_last().len() == 0);
    the_first_node_is_found(g.nodes, into);
}

/// A transaction is made all or not at all: it leaves the graph that its edits lead to, or,
/// where one of them is refused, the graph as it was. Its journal, replayed on what it left,
/// gives back the graph it started from.
pub proof fn transactions_are_all_or_nothing<B: GraphBackend>(
    g: &mut Graph,
    ops: Vec<GraphOp>,
    latent_dim: usize,
    by: B,
    r: Result<Vec<UndoOp>, String>,
)
    requires
        call_ensures(Graph::apply_ops::<B>, (g, &ops, latent_dim, &by), r),
    ensures
        match r {
            Err(_) => final(g)@ == old(g)@ && old(g)@.edited(ops_view(ops@), latent_dim, by) is Err,
            Ok(journal) => {
                &&& old(g)@.edited(ops_view(ops@), latent_dim, by) is Ok
                &&& final(g)@ == old(g)@.edited(ops_view(ops@), latent_dim, by)->Ok_0.0
                &&& journal@.len() == ops@.len()
                &&& final(g)@.undone(journal_view(journal@)) == old(g)@
                &&& final(g)@.nodes.len() >= old(g)@.nodes.len()
                &&& final(g)@.edges.len() >= old(g)@.edges.len()
                &&& final(g)@.nodes.len() + final(g)@.edges.len() <= old(g)@.nodes.len()
                    + old(g)@.edges.len() + ops@.len()
            },
        },
{
    old(g)@.journals_restore(ops_view(ops@), latent_dim, by);
    edits_only_add(old(g)@, ops_view(ops@), latent_dim, by);
    if r is Ok {
        assert(journal_view(r->Ok_0@).len() == r->Ok_0@.len());
    }
}

/// A transaction on its own undoes itself: replaying its journal gives back the graph.
pub proof fn undoing_restores<B: GraphBackend>(
    g: &mut Graph,
    ops: Vec<GraphOp>,
    latent_dim: usize,
    by: B,
    journal: Vec<UndoOp>,
    h: &mut Graph,
)
    requires
        call_ensures(
            Graph::apply_ops::<B>,
            (g, &ops, latent_dim, &by),
            Ok::<Vec<UndoOp>, String>(journal),
        ),
        old(h)@ == final(g)@,
        call_ensures(Graph::undo_ops, (h, &journal), ()),
    ensures
        final(h)@ == old(g)@,
{
    old(g)@.journals_restore(ops_view(ops@), latent_dim, by);
}

/// No edit takes a node or an edge away, and none adds more than one of them.
pub proof fn edits_only_add<B: GraphBackend>(
    g: GraphView,
    ops: Seq<OpView>,
    latent_dim: usize,
    by: B,
)
    ensures
        g.edited(ops, latent_dim, by) matches Ok((h, journal)) ==> {
            &&& journal.len() == ops.len()
            &&& g.nodes.len() <= h.nodes.len()
            &&& g.edges.len() <= h.edges.len()
            &&& h.nodes.len() + h.edges.len() <= g.nodes.len() + g.edges.len() + ops.len()
        },
    decreases ops.len(),
{
    if ops.len() > 0 {
        edits_only_add(g, ops.drop_last(), latent_dim, by);
        if g.edited(ops, latent_dim, by) is Ok && ops.last() is MergeNodes {
            let (m, _) = g.edited(ops.drop_last(), latent_dim, by)->Ok_0;
            m.located(ops.last()->into);
        }
    }
}

/// The counts of a graph are those of its nodes and edges; their sum is its size, and it is
/// larger than a bound exactly where the sum is.
pub proof fn sizes_are_sums(
    g: Graph,
    bound: usize,
    nodes: usize,
    edges: usize,
    size: usize,
    larger: bool,
)
    requires
        call_ensures(Graph::node_count, (&g,), nodes),
        call_ensures(Graph::edge_count, (&g,), edges),
        call_ensures(Graph::size, (&g,), size),
        call_ensures(Graph::larger_than, (&g, bound), larger),
    ensures
        nodes == g@.nodes.len(),
        edges == g@.edges.len(),
        nodes + edges <= usize::MAX ==> size == nodes + edges,
        nodes + edges > usize::MAX ==> size == usize::MAX,
        larger <==> nodes + edges > bound,
{
}

/// Edits keep a graph in order: where no id stands twice, all are below the first free one
/// and every edge joins nodes that are there, the same holds of what the edits lead to.
pub proof fn edits_keep_the_order<B: GraphBackend>(
    g: GraphView,
    ops: Seq<OpView>,
    latent_dim: usize,
    by: B,
)
    requires
        in_order(g),
    ensures
        g.edited(ops, latent_dim, by) matches Ok((h, _)) ==> in_order(h),
{
    assert forall|i: int| 0 <= i < g.edges.len() implies locate(
        g.nodes,
        (#[trigger] g.edges[i]).0,
    ) is Some && locate(g.nodes, g.edges[i].1) is Some by {
        the_first_node_is_found(g.nodes, g.edges[i].0);
        the_first_node_is_found(g.nodes, g.edges[i].1);
        assert(stands(g, g.edges[i].0) && stands(g, g.edges[i].1));
    }
    assert(g.wf());
    g.edits_keep_wf(ops, latent_dim, by);
    if g.edited(ops, latent_dim, by) is Ok {
        let (h, _) = g.edited(ops, latent_dim, by)->Ok_0;
        assert forall|i: int| 0 <= i < h.edges.len() implies stands(h, (#[trigger] h.edges[i]).0)
            && stands(h, h.edges[i].1) by {
            the_first_node_is_found(h.nodes, h.edges[i].0);
            the_first_node_is_found(h.nodes, h.edges[i].1);
        }
    }
}

/// Whether a node of the graph has an id.
pub open spec fn stands(g: GraphView, id: u64) -> bool {
    exists|i: int| 0 <= i < g.nodes.len() && (#[trigger] g.nodes[i]).id == id
}

/// Whether no id stands twice, all are below the first free one, and every edge joins nodes
/// that are there.
pub open spec fn in_order(g: GraphView) -> bool {
    &&& forall|i: int, j: int|
        0 <= i < j < g.nodes.len() ==> (#[trigger] g.nodes[i]).id != (#[trigger] g.nodes[j]).id
    &&& forall|i: int| 0 <= i < g.nodes.len() ==> (#[trigger] g.nodes[i]).id < g.next
    &&& forall|i: int|
        0 <= i < g.edges.len() ==> stands(g, (#[trigger] g.edges[i]).0) && stands(
            g,
            g.edges[i].1,
        )
}

/// The graph that a run may start from has no node, no edge, and every id free.
pub proof fn empty_graphs_hold_nothing(g: Graph)
    requires
        call_ensures(Graph::empty, (), g),
    ensures
        g@.nodes.len() == 0,
        g@.edges.len() == 0,
        g@.next == 0,
        in_order(g@),
{
}

/// A single undo record takes off the last node and frees the ids from the one it names, or
/// takes off the last edge, or gives a node its former embedding; it touches nothing else,
/// and nothing at all where it does not fit.
pub proof fn records_undo_one_thing(g: GraphView, next: u64, index: int, embedding: Seq<Real>)
    ensures
        ({
            let popped = g.undone(seq![UndoView::PopNode { next }]);
            let cut = g.undone(seq![UndoView::PopEdge]);
            let restored = g.undone(seq![UndoView::Restore { index, embedding }]);
            &&& g.nodes.len() == 0 ==> popped == g
            &&& g.nodes.len() > 0 ==> popped.nodes == g.nodes.drop_last() && popped.edges
                == g.edges && popped.next == next
            &&& g.edges.len() == 0 ==> cut == g
            &&& g.edges.len() > 0 ==> cut.edges == g.edges.drop_last() && cut.nodes == g.nodes
                && cut.next == g.next
            &&& !(0 <= index < g.nodes.len()) ==> restored == g
            &&& 0 <= index < g.nodes.len() ==> {
                &&& restored.edges == g.edges
                &&& restored.next == g.next
                &&& restored.nodes.len() == g.nodes.len()
                &&& restored.nodes[index].id == g.nodes[index].id
                &&& restored.nodes[index].embedding == embedding
                &&& forall|j: int|
                    0 <= j < g.nodes.len() && j != index ==> #[trigger] restored.nodes[j]
                        == g.nodes[j]
            }
        }),
{
    reveal_with_fuel(GraphView::undone, 2);
}

} // verus!
