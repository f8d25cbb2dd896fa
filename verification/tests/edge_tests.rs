use property_graph::Edge;
use property_graph::EdgeSetter;
use property_graph::EdgeType;
use property_graph::Graph;
use property_graph::NodeType;

#[test]
fn fresh_edge_reports_absent_optionals() {
    let edge = Edge::new("a_b_undirected".to_string(), "a".to_string(), "b".to_string());
    assert!(edge.get_weight().is_none());
    assert!(edge.get_label().is_none());
    assert!(!edge.is_blocked());
    assert!(matches!(edge.get_type(), EdgeType::Undirected));
    assert_eq!(edge.get_id(), "a_b_undirected");
    assert_eq!(edge.get_start_node_id(), "a");
    assert_eq!(edge.get_end_node_id(), "b");
    assert_eq!(edge.get_creation_time(), edge.get_modification_time());
}

#[test]
fn setters_round_trip_through_getters() {
    let mut edge = Edge::new("x_y_undirected".to_string(), "x".to_string(), "y".to_string());

    edge.set_type(EdgeType::Directed);
    assert!(matches!(edge.get_type(), EdgeType::Directed));

    edge.set_weight(7);
    assert_eq!(edge.get_weight(), Some(7));
    edge.set_weight(-3);
    assert_eq!(edge.get_weight(), Some(-3));

    edge.set_label("first");
    assert_eq!(edge.get_label(), Some("first"));
    edge.set_label("second");
    assert_eq!(edge.get_label(), Some("second"));

    edge.set_blocked(true);
    assert!(edge.is_blocked());
    edge.set_blocked(false);
    assert!(!edge.is_blocked());

    // the other fields came through the whole sequence untouched
    assert_eq!(edge.get_id(), "x_y_undirected");
    assert_eq!(edge.get_start_node_id(), "x");
    assert_eq!(edge.get_end_node_id(), "y");

    edge.set_id("renamed");
    assert_eq!(edge.get_id(), "renamed");
    edge.set_start_node_id("s");
    edge.set_end_node_id("t");
    assert_eq!(edge.get_start_node_id(), "s");
    assert_eq!(edge.get_end_node_id(), "t");
}

#[test]
fn apply_performs_one_field_setter() {
    let mut edge = Edge::new("x_y_undirected".to_string(), "x".to_string(), "y".to_string());
    edge.apply(EdgeSetter::Weight(11));
    assert_eq!(edge.get_weight(), Some(11));
    edge.apply(EdgeSetter::Label("tagged".to_string()));
    assert_eq!(edge.get_label(), Some("tagged"));
    edge.apply(EdgeSetter::Blocked(true));
    assert!(edge.is_blocked());
    edge.apply(EdgeSetter::Kind(EdgeType::Directed));
    assert!(matches!(edge.get_type(), EdgeType::Directed));
    assert_eq!(edge.get_weight(), Some(11));
    assert_eq!(edge.get_label(), Some("tagged"));
}

#[test]
fn reverse_swaps_endpoints_and_keeps_the_rest() {
    let mut edge = Edge::new("a_b_undirected".to_string(), "a".to_string(), "b".to_string());
    edge.set_weight(5);
    edge.set_label("w");
    edge.set_blocked(true);
    let mirror = edge.reverse();
    assert_eq!(mirror.get_id(), "a_b_undirected");
    assert_eq!(mirror.get_start_node_id(), "b");
    assert_eq!(mirror.get_end_node_id(), "a");
    assert_eq!(mirror.get_weight(), Some(5));
    assert_eq!(mirror.get_label(), Some("w"));
    assert!(mirror.is_blocked());
    assert_eq!(mirror.get_creation_time(), edge.get_creation_time());
    assert_eq!(mirror.get_modification_time(), edge.get_modification_time());
}

#[test]
fn graph_edge_setters_update_one_stored_record() {
    let mut graph = Graph::new();
    let (a, a_id) = graph.create_node(NodeType::Primary);
    let (b, b_id) = graph.create_node(NodeType::Primary);
    graph.add_node(a);
    graph.add_node(b);
    graph.add_directed_edge(a_id.as_str(), b_id.as_str());
    let edge_id = format!("{}_{}_directed", a_id, b_id);

    graph.set_edge_weight(edge_id.as_str(), 42);
    graph.set_ege_label(edge_id.as_str(), "road");
    graph.set_edge_blocked(edge_id.as_str(), true);
    graph.set_edge_type(edge_id.as_str(), EdgeType::Undirected);

    let e = graph.get_edge_by_id(edge_id.as_str()).unwrap();
    assert_eq!(e.get_weight(), Some(42));
    assert_eq!(e.get_label(), Some("road"));
    assert!(e.is_blocked());
    assert!(matches!(e.get_type(), EdgeType::Undirected));

    // setters aimed at an unknown identifier change nothing
    graph.set_edge_weight("missing_edge", 1);
    assert!(graph.get_edge_by_id("missing_edge").is_none());
}

#[test]
fn modification_time_is_only_refreshed_on_demand() {
    let mut edge = Edge::new("a_b_undirected".to_string(), "a".to_string(), "b".to_string());
    let before = edge.get_modification_time();
    edge.set_weight(1);
    edge.set_label("l");
    edge.set_blocked(true);
    assert_eq!(edge.get_modification_time(), before);
    edge.set_modification_time();
    assert!(edge.get_modification_time() >= before);
}
