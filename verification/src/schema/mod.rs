//! Schema definition.

pub mod transaction;

use crate::graph::Graph;
use crate::id::Identify;
use core::marker::PhantomData;
use vstd::laws_eq::obeys_concrete_eq;
use vstd::prelude::*;

verus! {

/// The resources attached to a schema. Transactions hand it on untouched.
pub struct ResourceSet {}

/// The triggers attached to a schema. Transactions hand it on untouched.
pub struct TriggerSet<T> {
    node: PhantomData<T>,
}

/// A graph of nodes along with the resources and triggers that belong to it.
///
/// The graph is written through a unique borrow of the schema. Whoever holds
/// that borrow is the single writer, and nobody else reads or writes the
/// schema until the borrow ends.
pub struct Schema<T: Identify> {
    graph: Graph<T>,
    resources: ResourceSet,
    triggers: TriggerSet<T>,
}

impl<T: Identify> Schema<T> {
    /// The content of the schema's graph.
    pub closed spec fn view(&self) -> Map<T::Id, T> {
        self.graph@
    }

    /// The resources of the schema, as contracts speak of them.
    pub closed spec fn spec_resources(&self) -> ResourceSet {
        self.resources
    }

    /// The triggers of the schema, as contracts speak of them.
    pub closed spec fn spec_triggers(&self) -> TriggerSet<T> {
        self.triggers
    }

    /// The graph of the schema, as contracts speak of it.
    pub closed spec fn spec_graph(&self) -> Graph<T> {
        self.graph
    }

    /// Creates a schema with an empty graph.
    pub fn new() -> (schema: Self)
        requires
            obeys_concrete_eq::<T::Id>(),
        ensures
            schema@ == Map::<T::Id, T>::empty(),
    {
        Schema { graph: Graph::new(), resources: ResourceSet {}, triggers: TriggerSet { node: PhantomData } }
    }

    /// Returns a reference to the schema's graph.
    pub fn graph(&self) -> (graph: &Graph<T>)
        ensures
            *graph == self.spec_graph(),
            graph@ == self@,
            obeys_concrete_eq::<T::Id>(),
    {
        self.graph.exact_ids();
        &self.graph
    }

    /// Returns a reference to the schema's [`ResourceSet`].
    pub fn resources(&self) -> (resources: &ResourceSet)
        ensures
            *resources == self.spec_resources(),
    {
        &self.resources
    }

    /// Returns a reference to the schema's [`TriggerSet`].
    pub fn triggers(&self) -> (triggers: &TriggerSet<T>)
        ensures
            *triggers == self.spec_triggers(),
    {
        &self.triggers
    }

    /// Grants write access to the schema's graph, for as long as the
    /// returned borrow lives.
    pub fn write(&mut self) -> (graph: &mut Graph<T>)
        ensures
            *graph == old(self).spec_graph(),
            final(self).spec_graph() == *final(graph),
            final(self).spec_resources() == old(self).spec_resources(),
            final(self).spec_triggers() == old(self).spec_triggers(),
    {
        &mut self.graph
    }
}

} // verus!
