//! The data model of a graph editor: the nodes that are shown, by
//! identifier, and the nodes that are selected among them.

use vstd::prelude::*;
use vstd::std_specs::hash::spec_keys_iter;
use vstd::std_specs::iter::IteratorSpec;
use std::collections::HashMap;

verus! {

broadcast use vstd::std_specs::hash::group_hash_axioms;

/// The identifier of a node.
#[derive(Clone, Copy, Debug, Default, PartialEq, Eq, Structural, Hash)]
pub struct NodeId(pub usize);

/// The identifier of an edge.
#[derive(Clone, Copy, Debug, Default, PartialEq, Eq, Structural, Hash)]
pub struct EdgeId(pub usize);

/// What the model reads of the view of a node: its identifier.
#[derive(Clone, Copy, Debug, PartialEq, Eq, Structural)]
pub struct NodeView {
    pub id: usize,
}

/// A reference to the view of a node which does not keep the node alive.
#[derive(Clone, Copy, Debug, PartialEq, Eq, Structural)]
pub struct WeakNodeView {
    pub id: usize,
}

impl NodeView {
    /// A reference to this view which does not keep the node alive.
    pub fn downgrade(&self) -> (r: WeakNodeView)
        ensures
            r.id == self.id,
    {
        WeakNodeView { id: self.id }
    }
}

/// A node of the graph with the edges that end and begin at it.
#[derive(Debug)]
pub struct Node {
    pub view: NodeView,
    pub in_edges: Vec<EdgeId>,
    pub out_edges: Vec<EdgeId>,
}

impl Node {
    /// A node without edges.
    pub fn new(view: NodeView) -> (r: Self)
        ensures
            r.view == view,
            r.in_edges@.len() == 0,
            r.out_edges@.len() == 0,
    {
        Node { view, in_edges: Vec::new(), out_edges: Vec::new() }
    }

    /// The identifier of the node, which is that of its view.
    pub fn id(&self) -> (r: NodeId)
        ensures
            r == NodeId(self.view.id),
    {
        NodeId(self.view.id)
    }
}

/// One end of an edge: a port of a node.
#[derive(Debug)]
pub struct EdgeTarget {
    pub node_id: NodeId,
    pub port_crumb: Vec<usize>,
}

impl EdgeTarget {
    /// Constructor.
    pub fn new(node_id: NodeId, port_crumb: Vec<usize>) -> (r: Self)
        ensures
            r.node_id == node_id,
            r.port_crumb == port_crumb,
    {
        EdgeTarget { node_id, port_crumb }
    }
}

/// The nodes of the graph, by identifier. The set owns its nodes: a node is
/// alive as long as it is in the set.
pub struct NodeSet {
    data: HashMap<usize, Node>,
}

impl View for NodeSet {
    type V = Map<usize, Node>;

    closed spec fn view(&self) -> Map<usize, Node> {
        self.data@
    }
}

impl NodeSet {
    /// A set without nodes.
    pub fn new() -> (r: Self)
        ensures
            r@ == Map::<usize, Node>::empty(),
    {
        NodeSet { data: HashMap::new() }
    }

    /// Puts a node into the set under the given identifier, in place of the
    /// node that had the identifier before, if there was one.
    pub fn insert(&mut self, id: NodeId, node_model: Node)
        ensures
            final(self)@ == old(self)@.insert(id.0, node_model),
    {
        self.data.insert(id.0, node_model);
    }

    /// Takes the node with the given identifier out of the set.
    pub fn remove(&mut self, id: &NodeId)
        ensures
            final(self)@ == old(self)@.remove(id.0),
    {
        self.data.remove(&id.0);
    }

    /// The node with the given identifier.
    pub fn get(&self, id: &NodeId) -> (r: Option<&Node>)
        ensures
            match r {
                Some(node) => self@.contains_key(id.0) && *node == self@[id.0],
                None => !self@.contains_key(id.0),
            },
    {
        self.data.get(&id.0)
    }

    /// Takes every node out of the set.
    pub fn clear(&mut self)
        ensures
            final(self)@ == Map::<usize, Node>::empty(),
    {
        self.data.clear();
    }
}

/// A set of references to nodes that does not keep the nodes alive. Whether
/// a node of the set is still alive is decided by the set that owns the
/// nodes.
pub struct WeakNodeSet {
    data: HashMap<usize, WeakNodeView>,
}

impl View for WeakNodeSet {
    type V = Map<usize, WeakNodeView>;

    closed spec fn view(&self) -> Map<usize, WeakNodeView> {
        self.data@
    }
}

/// The identifiers of the references of `weak` whose nodes are alive in
/// `live`.
pub open spec fn alive(weak: Map<usize, WeakNodeView>, live: Map<usize, Node>) -> Set<usize> {
    Set::new(|id: usize| weak.contains_key(id) && live.contains_key(weak[id].id))
}

impl WeakNodeSet {
    /// A set without references.
    pub fn new() -> (r: Self)
        ensures
            r@ == Map::<usize, WeakNodeView>::empty(),
    {
        WeakNodeSet { data: HashMap::new() }
    }

    /// The references of the set, by identifier.
    pub fn borrow(&self) -> (r: &HashMap<usize, WeakNodeView>)
        ensures
            r@ == self@,
    {
        &self.data
    }

    /// Hands out the references of the set and leaves the set empty.
    pub fn take(&mut self) -> (r: HashMap<usize, WeakNodeView>)
        ensures
            r@ == old(self)@,
            final(self)@ == Map::<usize, WeakNodeView>::empty(),
    {
        let mut taken: HashMap<usize, WeakNodeView> = HashMap::new();
        std::mem::swap(&mut self.data, &mut taken);
        taken
    }

    /// Puts a reference to the given node into the set.
    pub fn insert(&mut self, node: &NodeView)
        ensures
            final(self)@ == old(self)@.insert(node.id, WeakNodeView { id: node.id }),
    {
        self.data.insert(node.id, node.downgrade());
    }

    /// The node that the reference with the given identifier refers to, if
    /// the set has the reference and the node is alive.
    pub fn get<'a>(&self, id: usize, live: &'a NodeSet) -> (r: Option<&'a Node>)
        ensures
            match r {
                Some(node) => alive(self@, live@).contains(id) && *node == live@[self@[id].id],
                None => !alive(self@, live@).contains(id),
            },
    {
        match self.data.get(&id) {
            Some(weak) => live.get(&NodeId(weak.id)),
            None => None,
        }
    }

    /// Whether the set has a reference to the given node and the node is
    /// alive.
    pub fn contains(&self, node: &NodeView, live: &NodeSet) -> (r: bool)
        ensures
            r == alive(self@, live@).contains(node.id),
    {
        self.get(node.id, live).is_some()
    }

    /// Calls `f` on every node of the set that is alive, once, and returns
    /// the identifiers of the references through which the nodes were
    /// reached. The order is not fixed.
    pub fn for_each<F: Fn(&Node)>(&self, live: &NodeSet, f: F) -> (visited: Vec<usize>)
        requires
            forall|node: &Node| call_requires(f, (node,)),
        ensures
            visited@.no_duplicates(),
            visited@.to_set() == alive(self@, live@),
    {
        visit_alive(&self.data, live, f)
    }

    /// Empties the set and calls `f` on every node that was in it and is
    /// alive, once. Returns the identifiers of the references through which
    /// the nodes were reached.
    pub fn for_each_taken<F: Fn(&Node)>(&mut self, live: &NodeSet, f: F) -> (visited: Vec<usize>)
        requires
            forall|node: &Node| call_requires(f, (node,)),
        ensures
            final(self)@ == Map::<usize, WeakNodeView>::empty(),
            visited@.no_duplicates(),
            visited@.to_set() == alive(old(self)@, live@),
    {
        let taken = self.take();
        visit_alive(&taken, live, f)
    }
}

/// Calls `f` on every node that a reference of `data` refers to and that is
/// alive.
fn visit_alive<F: Fn(&Node)>(data: &HashMap<usize, WeakNodeView>, live: &NodeSet, f: F) -> (visited: Vec<
    usize,
>)
    requires
        forall|node: &Node| call_requires(f, (node,)),
    ensures
        visited@.no_duplicates(),
        visited@.to_set() == alive(data@, live@),
{
    let mut visited: Vec<usize> = Vec::new();
    let keys = data.keys();
    proof {
        vstd::std_specs::hash::axiom_spec_keys_iter(data);
    }
    let ghost all = spec_keys_iter(data).remaining().unref();
    let ghost mut places: Seq<int> = Seq::empty();
    for k in it: keys
        invariant
            forall|node: &Node| call_requires(f, (node,)),
            it.seq() == spec_keys_iter(data).remaining(),
            all == spec_keys_iter(data).remaining().unref(),
            all.no_duplicates(),
            all.to_set() == data@.dom(),
            visited@.no_duplicates(),
            places.len() == visited@.len(),
            forall|j: int| 0 <= j < visited@.len() ==> alive(data@, live@).contains(#[trigger] visited@[j]),
            forall|j: int|
                0 <= j < visited@.len() ==> 0 <= #[trigger] places[j] < it.index() && all[places[j]]
                    == visited@[j],
            forall|i: int|
                0 <= i < it.index() && alive(data@, live@).contains(#[trigger] all[i]) ==> visited@.contains(
                    all[i],
                ),
    {
        let ghost pos = it.index();
        let ghost before = visited@;
        assert(all[pos] == *k);
        assert(all.to_set().contains(*k));
        assert(!before.contains(*k)) by {
            if before.contains(*k) {
                let j = choose|j: int| 0 <= j < before.len() && before[j] == *k;
                assert(all[places[j]] == all[pos]);
            }
        }
        match data.get(k) {
            Some(weak) => match live.get(&NodeId(weak.id)) {
                Some(node) => {
                    f(node);
                    visited.push(*k);
                    proof {
                        places = places.push(pos);
                    }
                },
                None => {},
            },
            None => {},
        }
        proof {
            assert forall|i: int|
                0 <= i < pos + 1 && alive(data@, live@).contains(#[trigger] all[i]) implies visited@.contains(
                all[i],
            ) by {
                if i < pos {
                    let j = choose|j: int| 0 <= j < before.len() && before[j] == all[i];
                    assert(visited@[j] == all[i]);
                } else {
                    assert(visited@[before.len() as int] == all[i]);
                }
            }
        }
    }
    proof {
        assert forall|id: usize| visited@.to_set().contains(id) <==> alive(data@, live@).contains(id) by {
            if alive(data@, live@).contains(id) {
                assert(all.to_set().contains(id));
                let i = choose|i: int| 0 <= i < all.len() && all[i] == id;
                assert(visited@.contains(all[i]));
            }
        }
        assert(visited@.to_set() =~= alive(data@, live@));
    }
    visited
}

/// The nodes that are selected.
pub struct WeakNodeSelectionSet {
    data: WeakNodeSet,
}

impl View for WeakNodeSelectionSet {
    type V = Map<usize, WeakNodeView>;

    closed spec fn view(&self) -> Map<usize, WeakNodeView> {
        self.data@
    }
}

impl WeakNodeSelectionSet {
    /// A selection without nodes.
    pub fn new() -> (r: Self)
        ensures
            r@ == Map::<usize, WeakNodeView>::empty(),
    {
        WeakNodeSelectionSet { data: WeakNodeSet::new() }
    }

    /// Selects the given node.
    pub fn insert(&mut self, node: &NodeView)
        ensures
            final(self)@ == old(self)@.insert(node.id, WeakNodeView { id: node.id }),
    {
        self.data.insert(node);
    }

    /// Whether the given node is selected and alive.
    pub fn contains(&self, node: &NodeView, live: &NodeSet) -> (r: bool)
        ensures
            r == alive(self@, live@).contains(node.id),
    {
        self.data.contains(node, live)
    }

    /// Empties the selection and returns the nodes that were selected and
    /// are alive: the nodes that have to be told that they are no longer
    /// selected.
    pub fn clear(&mut self, live: &NodeSet) -> (deselected: Vec<NodeId>)
        ensures
            final(self)@ == Map::<usize, WeakNodeView>::empty(),
            deselected@.no_duplicates(),
            deselected@.to_set() == alive(old(self)@, live@).map(|id: usize| NodeId(id)),
    {
        let visited = self.data.for_each_taken(live, |node: &Node| {  });
        let mut deselected: Vec<NodeId> = Vec::new();
        let mut i: usize = 0;
        while i < visited.len()
            invariant
                i <= visited.len(),
                deselected@.len() == i,
                forall|j: int| 0 <= j < i ==> (#[trigger] deselected@[j]) == NodeId(visited@[j]),
            decreases visited.len() - i,
        {
            deselected.push(NodeId(visited[i]));
            i = i + 1;
        }
        proof {
            let wrap = |id: usize| NodeId(id);
            assert forall|j: int, k: int| 0 <= j < k < deselected@.len() implies deselected@[j]
                != deselected@[k] by {
                assert(visited@[j] != visited@[k]);
            }
            assert forall|n: NodeId| deselected@.to_set().contains(n) <==> visited@.to_set().map(wrap).contains(
                n,
            ) by {
                if deselected@.to_set().contains(n) {
                    let j = choose|j: int| 0 <= j < deselected@.len() && deselected@[j] == n;
                    assert(visited@.to_set().contains(visited@[j]));
                    assert(wrap(visited@[j]) == n);
                }
                if visited@.to_set().map(wrap).contains(n) {
                    let id = choose|id: usize| visited@.to_set().contains(id) && wrap(id) == n;
                    let j = choose|j: int| 0 <= j < visited@.len() && visited@[j] == id;
                    assert(deselected@[j] == n);
                }
            }
            assert(deselected@.to_set() =~= visited@.to_set().map(wrap));
        }
        deselected
    }
}

/// The nodes of a graph editor: all of them, and those that are selected.
pub struct Nodes {
    pub set: NodeSet,
    pub selected: WeakNodeSelectionSet,
}

impl Nodes {
    /// No nodes, none selected.
    pub fn new() -> (r: Self)
        ensures
            r.set@ == Map::<usize, Node>::empty(),
            r.selected@ == Map::<usize, WeakNodeView>::empty(),
    {
        Nodes { set: NodeSet::new(), selected: WeakNodeSelectionSet::new() }
    }
}

} // verus!
