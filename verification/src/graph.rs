//! Graph definition.

use crate::id::Identify;
use vstd::laws_eq::obeys_concrete_eq;
use vstd::prelude::*;

verus! {

/// A read-only view over a set of identified nodes.
pub trait Source {
    type Node: Identify + Clone;

    /// The node the source holds under the given id, if any.
    spec fn lookup(&self, id: <Self::Node as Identify>::Id) -> Option<Self::Node>;

    /// Returns a copy of the node with the given id, if any.
    fn get(&self, id: &<Self::Node as Identify>::Id) -> (node: Option<Self::Node>)
        ensures
            copy_of(self.lookup(*id), node),
    ;

    /// Returns true if, and only if, the source holds a node with the given id.
    fn contains(&self, id: &<Self::Node as Identify>::Id) -> (found: bool)
        ensures
            found == self.lookup(*id).is_some(),
    ;
}

/// Whether `copy` is what cloning the content of `held` may give: nothing
/// for nothing, and a clone of the node for a node.
pub open spec fn copy_of<T: Clone>(held: Option<T>, copy: Option<T>) -> bool {
    match held {
        Some(node) => copy.is_some() && cloned(node, copy.unwrap()),
        None => copy.is_none(),
    }
}

/// The canonical collection of nodes, in which no two share an id.
pub struct Graph<T: Identify> {
    nodes: Vec<T>,
}

impl<T: Identify> Graph<T> {
    #[verifier::type_invariant]
    closed spec fn well_formed(&self) -> bool {
        &&& obeys_concrete_eq::<T::Id>()
        &&& forall|i: int, j: int|
            0 <= i < j < self.nodes@.len() ==> self.nodes@[i].spec_id() != self.nodes@[j].spec_id()
    }

    /// Whether `i` is a position of the graph that holds a node with the given id.
    closed spec fn holds_at(&self, id: T::Id, i: int) -> bool {
        0 <= i < self.nodes@.len() && self.nodes@[i].spec_id() == id
    }

    /// The content of the graph: each id that is present, with its node.
    pub closed spec fn view(&self) -> Map<T::Id, T> {
        Map::new(
            |id: T::Id| exists|i: int| self.holds_at(id, i),
            |id: T::Id| self.nodes@[choose|i: int| self.holds_at(id, i)],
        )
    }

    /// Creates an empty graph.
    pub fn new() -> (graph: Self)
        requires
            obeys_concrete_eq::<T::Id>(),
        ensures
            graph@ == Map::<T::Id, T>::empty(),
    {
        let graph = Graph { nodes: Vec::new() };
        assert(graph@ =~= Map::<T::Id, T>::empty());
        graph
    }

    /// Shows that ids of nodes compare with `==` as contracts compare them:
    /// no graph exists for a type of ids that do not.
    pub(crate) fn exact_ids(&self)
        ensures
            obeys_concrete_eq::<T::Id>(),
    {
        proof {
            use_type_invariant(self);
        }
    }

    /// Returns the position of the node with the given id, if any.
    fn position(&self, id: &T::Id) -> (found: Option<usize>)
        ensures
            match found {
                Some(i) => self.holds_at(*id, i as int),
                None => forall|i: int| !self.holds_at(*id, i),
            },
    {
        proof {
            use_type_invariant(self);
            reveal(obeys_concrete_eq);
        }
        let mut i: usize = 0;
        while i < self.nodes.len()
            invariant
                i <= self.nodes@.len(),
                obeys_concrete_eq::<T::Id>(),
                forall|j: int| 0 <= j < i ==> !self.holds_at(*id, j),
            decreases self.nodes@.len() - i,
        {
            proof {
                reveal(obeys_concrete_eq);
            }
            if *self.nodes[i].id() == *id {
                return Some(i);
            }
            i += 1;
        }
        None
    }

    /// Inserts the node, replacing the one that had its id. Returns the node
    /// that was replaced, if any.
    pub fn insert(&mut self, node: T) -> (previous: Option<T>)
        ensures
            final(self)@ == old(self)@.insert(node.spec_id(), node),
            previous == lookup_in(old(self)@, node.spec_id()),
    {
        let previous = self.remove(node.id());
        proof {
            use_type_invariant(&*self);
        }
        let ghost mid = *self;
        let ghost id = node.spec_id();
        let ghost n = mid.nodes@.len() as int;
        assert forall|i: int| 0 <= i < n implies mid.nodes@[i].spec_id() != id by {
            assert(!mid@.contains_key(id));
            assert(!mid.holds_at(id, i));
        }
        let mut nodes: Vec<T> = Vec::new();
        core::mem::swap(&mut self.nodes, &mut nodes);
        nodes.push(node);
        core::mem::swap(&mut self.nodes, &mut nodes);
        proof {
            let target = old(self)@.insert(id, node);
            assert(self.nodes@ == mid.nodes@.push(node));
            assert(self.holds_at(id, n));
            assert forall|k: T::Id| self@.contains_key(k) <==> #[trigger] target.contains_key(k) by {
                if self@.contains_key(k) && k != id {
                    let i = choose|i: int| self.holds_at(k, i);
                    assert(mid.holds_at(k, i));
                    assert(mid@.contains_key(k));
                }
                if target.contains_key(k) && k != id {
                    assert(mid@.contains_key(k));
                    let i = choose|i: int| mid.holds_at(k, i);
                    assert(self.holds_at(k, i));
                }
            }
            assert forall|k: T::Id| #[trigger] self@.contains_key(k) implies self@[k] == target[k] by {
                let i = choose|i: int| self.holds_at(k, i);
                if k != id {
                    assert(mid.holds_at(k, i));
                    let j = choose|j: int| mid.holds_at(k, j);
                    assert(j == i);
                    assert(mid@[k] == mid.nodes@[i]);
                } else {
                    assert(i == n);
                }
            }
            assert(self@ =~= target);
        }
        previous
    }

    /// Removes the node with the given id. Returns the node that was
    /// removed, if any.
    pub fn remove(&mut self, id: &T::Id) -> (removed: Option<T>)
        ensures
            final(self)@ == old(self)@.remove(*id),
            removed == lookup_in(old(self)@, *id),
    {
        proof {
            use_type_invariant(&*self);
        }
        match self.position(id) {
            Some(i) => {
                let ghost before = self.nodes@;
                let mut nodes: Vec<T> = Vec::new();
                core::mem::swap(&mut self.nodes, &mut nodes);
                let removed = nodes.remove(i);
                core::mem::swap(&mut self.nodes, &mut nodes);
                proof {
                    let after = self.nodes@;
                    assert(forall|j: int| 0 <= j < i ==> after[j] == before[j]);
                    assert(forall|j: int| i <= j < after.len() ==> after[j] == before[j + 1]);
                    assert(old(self).holds_at(*id, i as int));
                    assert forall|k: T::Id| #[trigger]
                        self@.contains_key(k) <==> old(self)@.remove(*id).contains_key(k) by {
                        if exists|j: int| self.holds_at(k, j) {
                            let j = choose|j: int| self.holds_at(k, j);
                            if j < i {
                                assert(old(self).holds_at(k, j));
                            } else {
                                assert(old(self).holds_at(k, j + 1));
                            }
                        }
                        if old(self)@.remove(*id).contains_key(k) {
                            let j = choose|j: int| old(self).holds_at(k, j);
                            if j < i {
                                assert(self.holds_at(k, j));
                            } else {
                                assert(self.holds_at(k, j - 1));
                            }
                        }
                    }
                    assert forall|k: T::Id| #[trigger]
                        self@.contains_key(k) implies self@[k] == old(self)@.remove(*id)[k] by {
                        let j = choose|j: int| self.holds_at(k, j);
                        let m = choose|m: int| old(self).holds_at(k, m);
                        if j < i {
                            assert(old(self).holds_at(k, j));
                        } else {
                            assert(old(self).holds_at(k, j + 1));
                        }
                    }
                    assert(self@ =~= old(self)@.remove(*id));
                    let m = choose|m: int| old(self).holds_at(*id, m);
                    assert(m == i);
                }
                Some(removed)
            },
            None => {
                proof {
                    assert(!self@.contains_key(*id));
                    assert(self@ =~= old(self)@.remove(*id));
                }
                None
            },
        }
    }
}

impl<T: Identify + Clone> Source for Graph<T> {
    type Node = T;

    open spec fn lookup(&self, id: T::Id) -> Option<T> {
        lookup_in(self@, id)
    }

    fn get(&self, id: &T::Id) -> (node: Option<T>) {
        proof {
            use_type_invariant(self);
        }
        match self.position(id) {
            Some(i) => {
                proof {
                    let m = choose|m: int| self.holds_at(*id, m);
                    assert(m == i);
                }
                Some(self.nodes[i].clone())
            },
            None => None,
        }
    }

    fn contains(&self, id: &T::Id) -> (found: bool) {
        self.position(id).is_some()
    }
}

/// The node that a map from ids to nodes holds under the given id, if any.
pub open spec fn lookup_in<T: Identify>(nodes: Map<T::Id, T>, id: T::Id) -> Option<T> {
    if nodes.contains_key(id) {
        Some(nodes[id])
    } else {
        None
    }
}

/// A node of a source, fetched when it is first asked for and kept from then on.
pub struct NodeProxy<'a, S: Source> {
    source: &'a S,
    node_id: <S::Node as Identify>::Id,
    node: Option<Option<S::Node>>,
}

impl<'a, S: Source> NodeProxy<'a, S> {
    /// The source that the proxy fetches from.
    pub closed spec fn source(&self) -> S {
        *self.source
    }

    /// The id of the node that the proxy stands for.
    pub closed spec fn node_id(&self) -> <S::Node as Identify>::Id {
        self.node_id
    }

    /// What the proxy has fetched: nothing yet, or the answer of the source,
    /// which is a node or none.
    pub closed spec fn fetched(&self) -> Option<Option<S::Node>> {
        self.node
    }

    /// Whether `fetched` is what a proxy holds after it was asked for its
    /// node: what it held before, if it had fetched already, and else a copy
    /// of what the source holds under the id.
    pub open spec fn holds(&self, fetched: Option<S::Node>) -> bool {
        match self.fetched() {
            Some(node) => fetched == node,
            None => copy_of(self.source().lookup(self.node_id()), fetched),
        }
    }

    /// Creates the proxy of the node with the given id. Nothing is fetched yet.
    pub fn new(source: &'a S, node_id: <S::Node as Identify>::Id) -> (proxy: Self)
        ensures
            proxy.source() == *source,
            proxy.node_id() == node_id,
            proxy.fetched().is_none(),
    {
        NodeProxy { source, node_id, node: None }
    }

    /// Fetches the node unless that was done before.
    fn fetch(&mut self)
        ensures
            final(self).fetched().is_some(),
            old(self).holds(final(self).fetched().unwrap()),
            final(self).source() == old(self).source(),
            final(self).node_id() == old(self).node_id(),
    {
        if self.node.is_none() {
            self.node = Some(self.source.get(&self.node_id));
        }
    }

    /// Returns a reference to the node, if the source holds one. The first
    /// call asks the source, and the later ones answer as the first did.
    pub fn try_deref(&mut self) -> (node: Option<&S::Node>)
        ensures
            final(self).source() == old(self).source(),
            final(self).node_id() == old(self).node_id(),
            final(self).fetched().is_some(),
            old(self).holds(final(self).fetched().unwrap()),
            node.is_some() == final(self).fetched().unwrap().is_some(),
            node.is_some() ==> *node.unwrap() == final(self).fetched().unwrap().unwrap(),
    {
        self.fetch();
        match &self.node {
            Some(node) => node.as_ref(),
            None => None,
        }
    }

    /// Returns a mutable reference to the node, if the source holds one. The
    /// first call asks the source. What is written through the reference
    /// stays in the proxy and never reaches the source.
    pub fn try_deref_mut(&mut self) -> (node: Option<&mut S::Node>)
        ensures
            final(self).source() == old(self).source(),
            final(self).node_id() == old(self).node_id(),
            match node {
                Some(value) => old(self).holds(Some(*value)) && final(self).fetched() == Some(
                    Some(*final(value)),
                ),
                None => old(self).holds(None) && final(self).fetched() == Some(None::<S::Node>),
            },
    {
        self.fetch();
        match self.node.as_mut() {
            Some(node) => node.as_mut(),
            None => None,
        }
    }
}

} // verus!
