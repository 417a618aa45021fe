use plotline::deref::{TryDeref, TryDerefMut};
use plotline::graph::Source;
use plotline::id::Identify;
use plotline::schema::transaction::{apply, Background, Operation, Transaction};
use plotline::schema::Schema;

#[derive(Clone, Debug, PartialEq)]
struct Note {
    id: u64,
    text: String,
}

impl Identify for Note {
    type Id = u64;

    fn spec_id(&self) -> u64 {
        self.id
    }

    fn id(&self) -> &u64 {
        &self.id
    }
}

fn note(id: u64, text: &str) -> Note {
    Note { id, text: text.to_string() }
}

fn schema_with(notes: Vec<Note>) -> Schema<Note> {
    let mut schema = Schema::new();
    let mut transaction = Background::new(&mut schema);
    let mut context = transaction.begin();
    for each in notes {
        context.save(each);
    }
    transaction.commit();
    schema
}

#[test]
fn operation_has_the_id_of_what_it_carries() {
    assert_eq!(*Operation::Save(note(4, "d")).id(), 4);
    assert_eq!(*Operation::<Note>::Delete(9).id(), 9);
}

#[test]
fn saved_node_is_read_before_commit_and_stored_after() {
    let mut schema: Schema<Note> = Schema::new();
    let mut transaction = Background::new(&mut schema);
    let mut context = transaction.begin();
    context.save(note(1, "a"));
    assert_eq!(context.get(&1), Some(note(1, "a")));
    assert!(context.contains(&1));
    assert_eq!(context.schema.graph().get(&1), None);
    transaction.commit();
    assert_eq!(schema.graph().get(&1), Some(note(1, "a")));
}

#[test]
fn nested_commit_reaches_the_outer_context_and_then_the_graph() {
    let mut schema: Schema<Note> = Schema::new();
    let mut transaction = Background::new(&mut schema);
    let mut context = transaction.begin();
    context.save(note(1, "a"));
    let mut nested_transaction = context.transaction();
    let mut nested = nested_transaction.begin();
    nested.save(note(2, "b"));
    assert_eq!(nested.get(&2), Some(note(2, "b")));
    assert_eq!(nested.get(&1), None);
    nested_transaction.commit();
    assert_eq!(context.get(&2), Some(note(2, "b")));
    assert_eq!(context.get(&1), Some(note(1, "a")));
    assert_eq!(context.operations.len(), 2);
    assert_eq!(*context.operations[0].id(), 1);
    assert_eq!(*context.operations[1].id(), 2);
    transaction.commit();
    assert_eq!(schema.graph().get(&1), Some(note(1, "a")));
    assert_eq!(schema.graph().get(&2), Some(note(2, "b")));
}

#[test]
fn second_transaction_starts_where_the_first_ended() {
    let mut schema: Schema<Note> = Schema::new();
    let mut first = Background::new(&mut schema);
    first.begin().save(note(1, "a"));
    first.commit();
    let mut second = Background::new(&mut schema);
    let mut context = second.begin();
    assert_eq!(context.get(&1), Some(note(1, "a")));
    context.delete(1);
    second.commit();
    assert_eq!(schema.graph().get(&1), None);
}

#[test]
fn read_gives_the_last_write_on_the_id() {
    let mut schema = schema_with(vec![note(1, "stored")]);
    let mut transaction = Background::new(&mut schema);
    let mut context = transaction.begin();
    context.save(note(1, "first"));
    context.save(note(2, "other"));
    context.save(note(1, "second"));
    assert_eq!(context.get(&1), Some(note(1, "second")));
    assert_eq!(context.get(&2), Some(note(2, "other")));
}

#[test]
fn read_falls_through_to_the_graph() {
    let mut schema = schema_with(vec![note(1, "stored")]);
    let mut transaction = Background::new(&mut schema);
    let mut context = transaction.begin();
    context.save(note(2, "other"));
    assert_eq!(context.get(&1), Some(note(1, "stored")));
    assert!(context.contains(&1));
    assert_eq!(context.get(&3), None);
    assert!(!context.contains(&3));
}

#[test]
fn contains_agrees_with_get() {
    let mut schema = schema_with(vec![note(1, "stored"), note(2, "stored")]);
    let mut transaction = Background::new(&mut schema);
    let mut context = transaction.begin();
    context.delete(1);
    context.save(note(3, "new"));
    context.save(note(4, "new"));
    context.delete(4);
    for id in 0..6u64 {
        assert_eq!(context.contains(&id), context.get(&id).is_some());
    }
    assert!(!context.contains(&1));
    assert!(context.contains(&2));
    assert!(context.contains(&3));
    assert!(!context.contains(&4));
}

#[test]
fn delete_after_save_hides_the_node() {
    let mut schema: Schema<Note> = Schema::new();
    let mut transaction = Background::new(&mut schema);
    let mut context = transaction.begin();
    context.save(note(1, "a"));
    context.delete(1);
    assert_eq!(context.get(&1), None);
    assert!(!context.contains(&1));
    assert_eq!(context.schema.graph().get(&1), None);
}

#[test]
fn delete_hides_a_stored_node_and_leaves_the_graph() {
    let mut schema = schema_with(vec![note(1, "stored")]);
    let mut transaction = Background::new(&mut schema);
    let mut context = transaction.begin();
    context.delete(1);
    assert_eq!(context.get(&1), None);
    assert_eq!(context.schema.graph().get(&1), Some(note(1, "stored")));
}

#[test]
fn save_after_delete_brings_the_node_back() {
    let mut schema = schema_with(vec![note(1, "stored")]);
    let mut transaction = Background::new(&mut schema);
    let mut context = transaction.begin();
    context.delete(1);
    context.save(note(1, "again"));
    assert_eq!(context.get(&1), Some(note(1, "again")));
    transaction.commit();
    assert_eq!(schema.graph().get(&1), Some(note(1, "again")));
}

#[test]
fn dropped_nested_transaction_leaves_the_outer_log() {
    let mut schema: Schema<Note> = Schema::new();
    let mut transaction = Background::new(&mut schema);
    let mut context = transaction.begin();
    context.save(note(1, "a"));
    {
        let mut nested_transaction = context.transaction();
        let mut nested = nested_transaction.begin();
        nested.save(note(2, "b"));
        nested.delete(1);
    }
    assert_eq!(context.operations.len(), 1);
    assert_eq!(context.get(&1), Some(note(1, "a")));
    assert_eq!(context.get(&2), None);
    transaction.commit();
    assert_eq!(schema.graph().get(&1), Some(note(1, "a")));
    assert_eq!(schema.graph().get(&2), None);
}

#[test]
fn nested_log_goes_after_what_the_outer_context_holds() {
    let mut schema: Schema<Note> = Schema::new();
    let mut transaction = Background::new(&mut schema);
    let mut context = transaction.begin();
    context.save(note(1, "outer"));
    context.save(note(2, "outer"));
    let mut nested_transaction = context.transaction();
    let mut nested = nested_transaction.begin();
    nested.save(note(1, "nested"));
    nested.delete(2);
    nested.save(note(3, "nested"));
    nested_transaction.commit();
    let ids: Vec<u64> = context.operations.iter().map(|operation| *operation.id()).collect();
    assert_eq!(ids, vec![1, 2, 1, 2, 3]);
    assert!(matches!(context.operations[0], Operation::Save(_)));
    assert!(matches!(context.operations[3], Operation::Delete(2)));
    assert_eq!(context.get(&1), Some(note(1, "nested")));
    assert_eq!(context.get(&2), None);
    assert_eq!(context.get(&3), Some(note(3, "nested")));
}

#[test]
fn empty_nested_commit_changes_nothing() {
    let mut schema: Schema<Note> = Schema::new();
    let mut transaction = Background::new(&mut schema);
    let mut context = transaction.begin();
    context.save(note(1, "a"));
    context.transaction().commit();
    assert_eq!(context.operations.len(), 1);
}

#[test]
fn dropped_transaction_leaves_the_graph() {
    let mut schema = schema_with(vec![note(1, "stored")]);
    {
        let mut transaction = Background::new(&mut schema);
        let mut context = transaction.begin();
        context.save(note(2, "lost"));
        context.delete(1);
    }
    assert_eq!(schema.graph().get(&1), Some(note(1, "stored")));
    assert_eq!(schema.graph().get(&2), None);
}

#[test]
fn commit_of_a_transaction_that_never_began_does_nothing() {
    let mut schema = schema_with(vec![note(1, "stored")]);
    let mut transaction = Background::new(&mut schema);
    transaction.operations.push(Operation::Delete(1));
    assert!(!transaction.begun);
    transaction.commit();
    assert_eq!(schema.graph().get(&1), Some(note(1, "stored")));
}

#[test]
fn contexts_of_one_transaction_share_its_log() {
    let mut schema: Schema<Note> = Schema::new();
    let mut transaction = Background::new(&mut schema);
    transaction.begin().save(note(1, "a"));
    assert!(transaction.begun);
    let mut context = transaction.begin();
    assert_eq!(context.get(&1), Some(note(1, "a")));
    context.save(note(2, "b"));
    transaction.commit();
    assert_eq!(schema.graph().get(&1), Some(note(1, "a")));
    assert_eq!(schema.graph().get(&2), Some(note(2, "b")));
}

#[test]
fn commit_applies_the_log_in_order() {
    let mut schema: Schema<Note> = Schema::new();
    let mut transaction = Background::new(&mut schema);
    let mut context = transaction.begin();
    context.save(note(1, "first"));
    context.save(note(2, "kept"));
    context.delete(1);
    context.save(note(1, "last"));
    context.save(note(3, "gone"));
    context.delete(3);
    transaction.commit();
    assert_eq!(schema.graph().get(&1), Some(note(1, "last")));
    assert_eq!(schema.graph().get(&2), Some(note(2, "kept")));
    assert_eq!(schema.graph().get(&3), None);
}

#[test]
fn apply_runs_saves_and_deletes_on_a_graph() {
    let mut schema = schema_with(vec![note(1, "stored"), note(2, "stored")]);
    let graph = schema.write();
    apply(graph, vec![Operation::Delete(2), Operation::Save(note(1, "new")), Operation::Delete(5)]);
    assert_eq!(schema.graph().get(&1), Some(note(1, "new")));
    assert_eq!(schema.graph().get(&2), None);
    assert_eq!(schema.graph().get(&5), None);
}

#[test]
fn read_gives_what_commit_stores() {
    let mut schema = schema_with(vec![note(1, "stored"), note(2, "stored")]);
    let mut transaction = Background::new(&mut schema);
    let mut context = transaction.begin();
    context.delete(2);
    context.save(note(3, "new"));
    context.save(note(1, "new"));
    let seen: Vec<Option<Note>> = (0..5u64).map(|id| context.get(&id)).collect();
    transaction.commit();
    let stored: Vec<Option<Note>> = (0..5u64).map(|id| schema.graph().get(&id)).collect();
    assert_eq!(seen, stored);
}

#[test]
fn target_is_what_was_assigned() {
    let mut schema: Schema<Note> = Schema::new();
    let mut transaction = Background::new(&mut schema);
    let context = transaction.begin();
    assert_eq!(context.try_deref(), None);
    let mut context = context.with_target(note(1, "a"));
    assert_eq!(context.try_deref(), Some(&note(1, "a")));
    context.try_deref_mut().unwrap().text = "b".to_string();
    assert_eq!(context.try_deref(), Some(&note(1, "b")));
    assert_eq!(context.get(&1), None);
}

#[test]
fn context_without_target_has_nothing_to_change() {
    let mut schema: Schema<Note> = Schema::new();
    let mut transaction = Background::new(&mut schema);
    let mut context = transaction.begin();
    assert!(context.try_deref_mut().is_none());
}

#[test]
fn proxy_reads_through_the_context() {
    let mut schema = schema_with(vec![note(1, "stored"), note(2, "stored")]);
    let mut transaction = Background::new(&mut schema);
    let mut context = transaction.begin();
    context.save(note(1, "pending"));
    context.delete(2);
    let mut first = context.node(1);
    assert_eq!(first.try_deref(), Some(&note(1, "pending")));
    let mut second = context.node(2);
    assert_eq!(second.try_deref(), None);
    let mut third = context.node(3);
    assert_eq!(third.try_deref(), None);
}

#[test]
fn context_hands_on_the_registries_of_the_schema() {
    let mut schema: Schema<Note> = Schema::new();
    let mut transaction = Background::new(&mut schema);
    let context = transaction.begin();
    let _resources = context.resources();
    let _triggers = context.triggers();
}

#[test]
fn foreground_made_by_hand_behaves_as_the_one_of_the_context() {
    let mut schema: Schema<Note> = Schema::new();
    let mut transaction = Background::new(&mut schema);
    let mut context = transaction.begin();
    let mut nested_transaction = plotline::schema::transaction::Foreground::new(&mut context);
    nested_transaction.begin().save(note(1, "a"));
    nested_transaction.begin().delete(2);
    assert_eq!(nested_transaction.operations.len(), 2);
    nested_transaction.commit();
    assert_eq!(context.operations.len(), 2);
    assert_eq!(context.get(&1), Some(note(1, "a")));
}

#[test]
fn nested_transaction_in_a_nested_context() {
    let mut schema = schema_with(vec![note(1, "stored")]);
    let mut transaction = Background::new(&mut schema);
    let mut context = transaction.begin();
    let mut second = context.transaction();
    let mut second_context = second.begin();
    second_context.save(note(2, "second"));
    let mut third = second_context.transaction();
    let mut third_context = third.begin();
    assert_eq!(third_context.get(&1), Some(note(1, "stored")));
    assert_eq!(third_context.get(&2), None);
    third_context.delete(1);
    third.commit();
    assert_eq!(second_context.get(&1), None);
    second.commit();
    assert_eq!(context.get(&1), None);
    assert_eq!(context.get(&2), Some(note(2, "second")));
    transaction.commit();
    assert_eq!(schema.graph().get(&1), None);
    assert_eq!(schema.graph().get(&2), Some(note(2, "second")));
}

#[test]
fn transactions_come_from_what_they_work_on() {
    let mut schema: Schema<Note> = Schema::new();
    let mut transaction = Background::from(&mut schema);
    assert!(!transaction.begun);
    assert!(transaction.operations.is_empty());
    let mut context = transaction.begin();
    context.save(note(1, "a"));
    let mut nested_transaction = plotline::schema::transaction::Foreground::from(&mut context);
    assert!(nested_transaction.operations.is_empty());
    nested_transaction.begin().save(note(2, "b"));
    nested_transaction.commit();
    transaction.commit();
    assert_eq!(schema.graph().get(&1), Some(note(1, "a")));
    assert_eq!(schema.graph().get(&2), Some(note(2, "b")));
}
