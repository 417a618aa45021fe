use plotline::graph::{Graph, NodeProxy, Source};
use plotline::id::Identify;

#[derive(Clone, Debug, PartialEq)]
struct Page {
    number: u32,
    text: String,
}

impl Identify for Page {
    type Id = u32;

    fn spec_id(&self) -> u32 {
        self.number
    }

    fn id(&self) -> &u32 {
        &self.number
    }
}

fn page(number: u32, text: &str) -> Page {
    Page { number, text: text.to_string() }
}

#[test]
fn new_graph_holds_nothing() {
    let graph: Graph<Page> = Graph::new();
    assert_eq!(graph.get(&1), None);
    assert!(!graph.contains(&1));
}

#[test]
fn insert_returns_nothing_for_a_new_id() {
    let mut graph = Graph::new();
    assert_eq!(graph.insert(page(1, "one")), None);
    assert_eq!(graph.get(&1), Some(page(1, "one")));
    assert!(graph.contains(&1));
}

#[test]
fn insert_replaces_the_node_of_the_same_id() {
    let mut graph = Graph::new();
    graph.insert(page(1, "one"));
    graph.insert(page(2, "two"));
    assert_eq!(graph.insert(page(1, "uno")), Some(page(1, "one")));
    assert_eq!(graph.get(&1), Some(page(1, "uno")));
    assert_eq!(graph.get(&2), Some(page(2, "two")));
}

#[test]
fn remove_returns_the_node_and_keeps_the_others() {
    let mut graph = Graph::new();
    graph.insert(page(1, "one"));
    graph.insert(page(2, "two"));
    graph.insert(page(3, "three"));
    assert_eq!(graph.remove(&2), Some(page(2, "two")));
    assert_eq!(graph.get(&2), None);
    assert!(!graph.contains(&2));
    assert_eq!(graph.get(&1), Some(page(1, "one")));
    assert_eq!(graph.get(&3), Some(page(3, "three")));
}

#[test]
fn remove_of_a_missing_id_changes_nothing() {
    let mut graph = Graph::new();
    graph.insert(page(1, "one"));
    assert_eq!(graph.remove(&7), None);
    assert_eq!(graph.get(&1), Some(page(1, "one")));
}

#[test]
fn get_hands_out_a_copy() {
    let mut graph = Graph::new();
    graph.insert(page(1, "one"));
    let mut copy = graph.get(&1).unwrap();
    copy.text.push_str(" more");
    assert_eq!(graph.get(&1), Some(page(1, "one")));
}

#[test]
fn proxy_reaches_the_node_of_its_id() {
    let mut graph = Graph::new();
    graph.insert(page(1, "one"));
    let mut proxy = NodeProxy::new(&graph, 1);
    assert_eq!(proxy.try_deref(), Some(&page(1, "one")));
    assert_eq!(proxy.try_deref(), Some(&page(1, "one")));
}

#[test]
fn proxy_of_a_missing_id_reaches_nothing() {
    let graph: Graph<Page> = Graph::new();
    let mut proxy = NodeProxy::new(&graph, 1);
    assert_eq!(proxy.try_deref(), None);
    assert!(proxy.try_deref_mut().is_none());
}

#[test]
fn proxy_keeps_what_is_written_through_it() {
    let mut graph = Graph::new();
    graph.insert(page(1, "one"));
    let mut proxy = NodeProxy::new(&graph, 1);
    proxy.try_deref_mut().unwrap().text = "changed".to_string();
    assert_eq!(proxy.try_deref(), Some(&page(1, "changed")));
    assert_eq!(graph.get(&1), Some(page(1, "one")));
}
