//! Transaction definition.

use crate::deref::{TryDeref, TryDerefMut};
use crate::graph::{lookup_in, Graph, NodeProxy, Source};
use crate::id::Identify;
use crate::schema::{ResourceSet, Schema, TriggerSet};
use vstd::laws_eq::obeys_concrete_eq;
use vstd::prelude::*;

verus! {

/// Represents a set of operations that must be perfomed as a whole.
pub trait Transaction {
    type Target: Identify;

    /// The operations pending in the transaction, oldest first.
    spec fn log(&self) -> Seq<Operation<Self::Target>>;

    /// The schema that the contexts of the transaction read.
    spec fn schema(&self) -> Schema<Self::Target>;

    /// Begins the transaction.
    ///
    /// The context sees the schema and the operations that are pending, and
    /// whatever it appends is pending in the transaction once it is gone.
    fn begin(&mut self) -> (context: Context<'_, Self::Target>)
        ensures
            *context.schema == old(self).schema(),
            context.operations@ == old(self).log(),
            context.target.is_none(),
            final(self).log() == final(context.operations)@,
            final(self).schema() == old(self).schema(),
    ;

    /// Commits the transaction.
    fn commit(self);
}

/// Represents an operation into the schema.
pub enum Operation<T: Identify> {
    Save(T),
    Delete(T::Id),
}

impl<T: Identify> Identify for Operation<T> {
    type Id = T::Id;

    open spec fn spec_id(&self) -> T::Id {
        match self {
            Operation::Save(node) => node.spec_id(),
            Operation::Delete(node_id) => *node_id,
        }
    }

    fn id(&self) -> (id: &T::Id) {
        match self {
            Operation::Save(node) => node.id(),
            Operation::Delete(node_id) => node_id,
        }
    }
}

/// The most recent operation of the log on the given id, if any.
pub open spec fn latest<T: Identify>(log: Seq<Operation<T>>, id: T::Id) -> Option<Operation<T>>
    decreases log.len(),
{
    if log.len() == 0 {
        None
    } else if log.last().spec_id() == id {
        Some(log.last())
    } else {
        latest(log.drop_last(), id)
    }
}

/// What a read of the given id gives through a log of pending operations
/// laid over a graph: the log's most recent word on the id, and the graph's
/// node where the log is silent.
pub open spec fn overlay<T: Identify>(log: Seq<Operation<T>>, graph: Map<T::Id, T>, id: T::Id) -> Option<T> {
    match latest(log, id) {
        Some(Operation::Save(node)) => Some(node),
        Some(Operation::Delete(_)) => None,
        None => lookup_in(graph, id),
    }
}

/// The graph after the operation has been applied to it.
pub open spec fn apply_one<T: Identify>(graph: Map<T::Id, T>, operation: Operation<T>) -> Map<T::Id, T> {
    match operation {
        Operation::Save(node) => graph.insert(node.spec_id(), node),
        Operation::Delete(node_id) => graph.remove(node_id),
    }
}

/// The graph after the operations of the log have been applied to it, oldest first.
pub open spec fn replay<T: Identify>(graph: Map<T::Id, T>, log: Seq<Operation<T>>) -> Map<T::Id, T>
    decreases log.len(),
{
    if log.len() == 0 {
        graph
    } else {
        apply_one(replay(graph, log.drop_last()), log.last())
    }
}

/// Applies the operations to the graph, oldest first: a save inserts its
/// node, a delete removes the node of its id. What an insert replaces or a
/// removal finds is not reported.
pub fn apply<T: Identify>(graph: &mut Graph<T>, operations: Vec<Operation<T>>)
    ensures
        final(graph)@ == replay(old(graph)@, operations@),
{
    let ghost log = operations@;
    assert(log.take(0) =~= Seq::<Operation<T>>::empty());
    for operation in iter: operations
        invariant
            iter.seq() == log,
            graph@ == replay(old(graph)@, log.take(iter.index())),
    {
        proof {
            let done = iter.index();
            assert(log.take(done + 1).drop_last() =~= log.take(done));
            assert(log.take(done + 1).last() == operation);
        }
        match operation {
            Operation::Save(node) => {
                graph.insert(node);
            },
            Operation::Delete(node_id) => {
                graph.remove(&node_id);
            },
        }
    }
    assert(log.take(log.len() as int) =~= log);
}

/// Represents a subset of operations from a transaction.
///
/// A context reads the schema and writes to the log of the transaction that
/// it began in. It borrows that log for as long as it lives, so a transaction
/// is committed only when its contexts are gone.
///
/// In contracts, `context.operations@` is the log as the context sees it
/// now, and `final(context.operations)@` the log as the context leaves it
/// to its transaction.
pub struct Context<'a, T: Identify> {
    pub schema: &'a Schema<T>,
    pub operations: &'a mut Vec<Operation<T>>,
    pub target: Option<T>,
}

impl<T: Identify> TryDeref for Context<'_, T> {
    type Target = T;

    open spec fn spec_try_deref(&self) -> Option<T> {
        self.target
    }

    fn try_deref(&self) -> (target: Option<&T>) {
        self.target.as_ref()
    }
}

impl<T: Identify> TryDerefMut for Context<'_, T> {
    fn try_deref_mut(&mut self) -> (target: Option<&mut T>)
        ensures
            final(self).schema == old(self).schema,
            final(self).operations == old(self).operations,
    {
        self.target.as_mut()
    }
}

impl<T: Identify + Clone> Source for Context<'_, T> {
    type Node = T;

    open spec fn lookup(&self, id: T::Id) -> Option<T> {
        overlay(self.operations@, self.schema@, id)
    }

    fn get(&self, id: &T::Id) -> (node: Option<T>) {
        let graph = self.schema.graph();
        match find_latest(self.operations, id) {
            Some(Operation::Save(node)) => Some(node.clone()),
            Some(Operation::Delete(_)) => None,
            None => graph.get(id),
        }
    }

    fn contains(&self, id: &T::Id) -> (found: bool) {
        let graph = self.schema.graph();
        match find_latest(self.operations, id) {
            Some(Operation::Save(_)) => true,
            Some(Operation::Delete(_)) => false,
            None => graph.contains(id),
        }
    }
}

/// Scans the log from its most recent operation to its oldest and returns
/// the first one on the given id.
fn find_latest<'a, T: Identify>(log: &'a Vec<Operation<T>>, id: &T::Id) -> (found: Option<&'a Operation<T>>)
    requires
        obeys_concrete_eq::<T::Id>(),
    ensures
        match found {
            Some(operation) => latest(log@, *id) == Some(*operation),
            None => latest(log@, *id).is_none(),
        },
{
    let mut i: usize = log.len();
    assert(log@.subrange(0, i as int) =~= log@);
    while i > 0
        invariant
            i <= log@.len(),
            obeys_concrete_eq::<T::Id>(),
            latest(log@, *id) == latest(log@.subrange(0, i as int), *id),
        decreases i,
    {
        i -= 1;
        let operation = &log[i];
        proof {
            reveal(obeys_concrete_eq);
            let head = log@.subrange(0, i + 1);
            assert(head.last() == log@[i as int]);
            assert(head.drop_last() =~= log@.subrange(0, i as int));
        }
        if *operation.id() == *id {
            return Some(operation);
        }
    }
    None
}

impl<T: Identify + Clone> Context<'_, T> {
    /// Returns the [`NodeProxy`] for the given id.
    pub fn node(&self, node_id: T::Id) -> (proxy: NodeProxy<'_, Self>)
        ensures
            proxy.source() == *self,
            proxy.node_id() == node_id,
            proxy.fetched().is_none(),
    {
        NodeProxy::new(self, node_id)
    }
}

impl<'a, T: Identify> Context<'a, T> {
    /// Assigns a target to this context.
    pub fn with_target(self, target: T) -> (context: Self)
        ensures
            context.target == Some(target),
            context.schema == self.schema,
            context.operations == self.operations,
    {
        let mut context = self;
        context.target = Some(target);
        context
    }

    /// Registers the save operation as part of the transaction.
    pub fn save(&mut self, node: T)
        ensures
            final(self).operations@ == old(self).operations@.push(Operation::Save(node)),
            *final(final(self).operations) == *final(old(self).operations),
            final(self).schema == old(self).schema,
            final(self).target == old(self).target,
    {
        self.operations.push(Operation::Save(node));
    }

    /// Registers the delete operation as part of the transaction.
    pub fn delete(&mut self, node_id: T::Id)
        ensures
            final(self).operations@ == old(self).operations@.push(Operation::Delete(node_id)),
            *final(final(self).operations) == *final(old(self).operations),
            final(self).schema == old(self).schema,
            final(self).target == old(self).target,
    {
        self.operations.push(Operation::Delete(node_id));
    }

    /// Returns a new transaction holded by this context.
    pub fn transaction(&mut self) -> (transaction: Foreground<'_, 'a, T>)
        ensures
            *transaction.context == *old(self),
            *final(transaction.context) == *final(self),
            transaction.operations@ == Seq::<Operation<T>>::empty(),
    {
        self.into()
    }

    /// Returns a reference to the underlying schema's [`ResourceSet`].
    pub fn resources(&self) -> (resources: &ResourceSet)
        ensures
            *resources == self.schema.spec_resources(),
    {
        self.schema.resources()
    }

    /// Returns a reference to the underlying schema's [`TriggerSet`].
    pub fn triggers(&self) -> (triggers: &TriggerSet<T>)
        ensures
            *triggers == self.schema.spec_triggers(),
    {
        self.schema.triggers()
    }
}

/// Represents a set of operations that must be completed transactionally.
///
/// It holds the schema by a unique borrow from the day it is made to the day
/// it is committed or dropped: it is the single writer of the graph for that
/// time. Dropping it discards what is pending and leaves the graph as it was.
pub struct Background<'a, T: Identify> {
    pub schema: &'a mut Schema<T>,
    pub begun: bool,
    pub operations: Vec<Operation<T>>,
}

impl<'a, T: Identify> Background<'a, T> {
    /// Creates a transaction over the schema, with nothing pending.
    pub fn new(schema: &'a mut Schema<T>) -> (transaction: Self)
        ensures
            *transaction.schema == *old(schema),
            *final(transaction.schema) == *final(schema),
            !transaction.begun,
            transaction.operations@ == Seq::<Operation<T>>::empty(),
    {
        Background { schema, begun: false, operations: Vec::new() }
    }
}

impl<'a, T: Identify> From<&'a mut Schema<T>> for Background<'a, T> {
    /// Creates a transaction over the schema, with nothing pending.
    fn from(schema: &'a mut Schema<T>) -> (transaction: Self)
        ensures
            *transaction.schema == *old(schema),
            *final(transaction.schema) == *final(schema),
            !transaction.begun,
            transaction.operations@ == Seq::<Operation<T>>::empty(),
    {
        Background::new(schema)
    }
}

/// The conversion is described by the contract of `from` alone: a
/// transaction holds a vector, which no spec function can make.
impl<'a, T: Identify> vstd::std_specs::convert::FromSpecImpl<&'a mut Schema<T>> for Background<'a, T> {
    open spec fn obeys_from_spec() -> bool {
        false
    }

    open spec fn from_spec(schema: &'a mut Schema<T>) -> Self {
        arbitrary()
    }
}

impl<T: Identify> Transaction for Background<'_, T> {
    type Target = T;

    open spec fn log(&self) -> Seq<Operation<T>> {
        self.operations@
    }

    open spec fn schema(&self) -> Schema<T> {
        *self.schema
    }

    fn begin(&mut self) -> (context: Context<'_, T>)
        ensures
            final(self).begun,
            *final(final(self).schema) == *final(old(self).schema),
    {
        self.begun = true;
        Context { schema: &*self.schema, operations: &mut self.operations, target: None }
    }

    /// Commits the transaction: applies the pending operations to the graph,
    /// oldest first, if the transaction was ever begun, and nothing otherwise.
    fn commit(self)
        ensures
            final(self.schema)@ == if self.begun {
                replay(old(self.schema)@, self.operations@)
            } else {
                old(self.schema)@
            },
            final(self.schema).spec_resources() == old(self.schema).spec_resources(),
            final(self.schema).spec_triggers() == old(self.schema).spec_triggers(),
    {
        if !self.begun {
            return ;
        }
        let graph = self.schema.write();
        apply(graph, self.operations);
    }
}

/// Represents a subset of operations that must be completed transactionally.
///
/// It borrows the context that it was opened in, and nothing reaches that
/// context until the commit: dropping the transaction discards what is
/// pending in it.
pub struct Foreground<'b, 'a, T: Identify> {
    pub context: &'b mut Context<'a, T>,
    pub operations: Vec<Operation<T>>,
}

impl<'b, 'a, T: Identify> Foreground<'b, 'a, T> {
    /// Creates a transaction in the given context, with nothing pending.
    pub fn new(context: &'b mut Context<'a, T>) -> (transaction: Self)
        ensures
            *transaction.context == *old(context),
            *final(transaction.context) == *final(context),
            transaction.operations@ == Seq::<Operation<T>>::empty(),
    {
        Foreground { context, operations: Vec::new() }
    }
}

impl<'b, 'a, T: Identify> From<&'b mut Context<'a, T>> for Foreground<'b, 'a, T> {
    /// Creates a transaction in the given context, with nothing pending.
    fn from(context: &'b mut Context<'a, T>) -> (transaction: Self)
        ensures
            *transaction.context == *old(context),
            *final(transaction.context) == *final(context),
            transaction.operations@ == Seq::<Operation<T>>::empty(),
    {
        Foreground::new(context)
    }
}

/// The conversion is described by the contract of `from` alone: a
/// transaction holds a vector, which no spec function can make.
impl<'b, 'a, T: Identify> vstd::std_specs::convert::FromSpecImpl<&'b mut Context<'a, T>> for Foreground<'b, 'a, T> {
    open spec fn obeys_from_spec() -> bool {
        false
    }

    open spec fn from_spec(context: &'b mut Context<'a, T>) -> Self {
        arbitrary()
    }
}

impl<T: Identify> Transaction for Foreground<'_, '_, T> {
    type Target = T;

    open spec fn log(&self) -> Seq<Operation<T>> {
        self.operations@
    }

    open spec fn schema(&self) -> Schema<T> {
        *self.context.schema
    }

    fn begin(&mut self) -> (context: Context<'_, T>)
        ensures
            final(self).context == old(self).context,
    {
        Context { schema: self.context.schema, operations: &mut self.operations, target: None }
    }

    /// Commits the transaction: appends the pending operations, in their
    /// order, to the log of the context that the transaction was opened in.
    fn commit(self)
        ensures
            final(self.context).operations@ == old(self.context).operations@ + self.operations@,
            *final(final(self.context).operations) == *final(old(self.context).operations),
            final(self.context).schema == old(self.context).schema,
            final(self.context).target == old(self.context).target,
    {
        let mut operations = self.operations;
        self.context.operations.append(&mut operations);
    }
}

/// What an operation leaves under its id: the node of a save, nothing after a delete.
pub open spec fn left_by<T: Identify>(operation: Operation<T>) -> Option<T> {
    match operation {
        Operation::Save(node) => Some(node),
        Operation::Delete(_) => None,
    }
}

/// The last write wins: where the log holds an operation on the id and none
/// after it is on the same id, a read gives what that operation leaves,
/// whatever the graph holds.
pub proof fn lemma_read_gives_last_write<T: Identify>(
    log: Seq<Operation<T>>,
    graph: Map<T::Id, T>,
    id: T::Id,
    at: int,
)
    requires
        0 <= at < log.len(),
        log[at].spec_id() == id,
        forall|later: int| at < later < log.len() ==> log[later].spec_id() != id,
    ensures
        latest(log, id) == Some(log[at]),
        overlay(log, graph, id) == left_by(log[at]),
    decreases log.len(),
{
    if at < log.len() - 1 {
        lemma_read_gives_last_write(log.drop_last(), graph, id, at);
    }
}

/// Where no operation of the log is on the id, a read gives what the graph holds.
pub proof fn lemma_read_falls_through<T: Identify>(log: Seq<Operation<T>>, graph: Map<T::Id, T>, id: T::Id)
    requires
        forall|at: int| 0 <= at < log.len() ==> log[at].spec_id() != id,
    ensures
        latest(log, id).is_none(),
        overlay(log, graph, id) == lookup_in(graph, id),
    decreases log.len(),
{
    if log.len() > 0 {
        lemma_read_falls_through(log.drop_last(), graph, id);
    }
}

/// A read after one more operation: what the operation leaves, under its
/// own id, and what was read before under any other.
pub proof fn lemma_read_after_write<T: Identify>(
    log: Seq<Operation<T>>,
    graph: Map<T::Id, T>,
    operation: Operation<T>,
    id: T::Id,
)
    ensures
        overlay(log.push(operation), graph, id) == if operation.spec_id() == id {
            left_by(operation)
        } else {
            overlay(log, graph, id)
        },
{
    assert(log.push(operation).drop_last() =~= log);
}

/// A node that was saved and then deleted in the same log is not read any
/// more, though the graph is as it was.
pub proof fn lemma_delete_hides_save<T: Identify>(log: Seq<Operation<T>>, graph: Map<T::Id, T>, node: T)
    ensures
        overlay(log.push(Operation::Save(node)), graph, node.spec_id()) == Some(node),
        overlay(
            log.push(Operation::Save(node)).push(Operation::Delete(node.spec_id())),
            graph,
            node.spec_id(),
        ).is_none(),
{
    lemma_read_after_write(log, graph, Operation::Save(node), node.spec_id());
    lemma_read_after_write(
        log.push(Operation::Save(node)),
        graph,
        Operation::Delete(node.spec_id()),
        node.spec_id(),
    );
}

/// Applying a log that ends in one more operation is applying the log and
/// then the operation.
pub proof fn lemma_replay_push<T: Identify>(graph: Map<T::Id, T>, log: Seq<Operation<T>>, operation: Operation<T>)
    ensures
        replay(graph, log.push(operation)) == apply_one(replay(graph, log), operation),
{
    assert(log.push(operation).drop_last() =~= log);
}

/// Applying two logs one after the other is applying the first followed by the second.
pub proof fn lemma_replay_concat<T: Identify>(
    graph: Map<T::Id, T>,
    first: Seq<Operation<T>>,
    second: Seq<Operation<T>>,
)
    ensures
        replay(graph, first + second) == replay(replay(graph, first), second),
    decreases second.len(),
{
    if second.len() == 0 {
        assert(first + second =~= first);
    } else {
        assert((first + second).drop_last() =~= first + second.drop_last());
        lemma_replay_concat(graph, first, second.drop_last());
    }
}

/// A read through pending operations gives what the graph holds once they
/// have been applied to it.
pub proof fn lemma_read_foresees_commit<T: Identify>(log: Seq<Operation<T>>, graph: Map<T::Id, T>, id: T::Id)
    ensures
        overlay(log, graph, id) == lookup_in(replay(graph, log), id),
    decreases log.len(),
{
    if log.len() > 0 {
        lemma_read_foresees_commit(log.drop_last(), graph, id);
    }
}

/// What a context reads once a nested transaction has been committed into
/// it: the nested log's most recent word on the id, and else what the
/// context read before.
pub proof fn lemma_read_after_merge<T: Identify>(
    outer: Seq<Operation<T>>,
    nested: Seq<Operation<T>>,
    graph: Map<T::Id, T>,
    id: T::Id,
)
    ensures
        overlay(outer + nested, graph, id) == match latest(nested, id) {
            Some(operation) => left_by(operation),
            None => overlay(outer, graph, id),
        },
    decreases nested.len(),
{
    if nested.len() == 0 {
        assert(outer + nested =~= outer);
    } else {
        assert((outer + nested).drop_last() =~= outer + nested.drop_last());
        lemma_read_after_merge(outer, nested.drop_last(), graph, id);
    }
}

} // verus!
