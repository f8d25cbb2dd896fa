use property_graph::DataError;
use property_graph::EdgeType;
use property_graph::Graph;
use property_graph::NodeData;
use property_graph::NodeType;

#[test]
fn test_add_and_get_node_and_remove() {
    let mut graph = Graph::new();

    let node1 = graph.create_node(NodeType::Primary);
    let node2 = graph.create_node(NodeType::Primary);

    let node1_id = &node1.1;
    let node2_id = &node2.1;

    graph.add_node(node1.0);
    graph.add_node(node2.0);

    let retrieved_node = graph.get_node_by_id(node1_id);
    let retrieved_node2 = graph.get_node_by_id(node2_id);
    assert!(retrieved_node.is_some());
    assert_eq!(retrieved_node.unwrap().get_id(), node1_id);
    assert!(retrieved_node2.is_some());
    assert_eq!(retrieved_node2.unwrap().get_id(), node2_id);

    graph.delete_node(node1_id);

    let retrieved_node = graph.get_node_by_id(node1_id);
    let retrieved_node2 = graph.get_node_by_id(node2_id);
    assert!(retrieved_node.is_none());
    assert!(retrieved_node2.is_some());
    assert_eq!(retrieved_node2.unwrap().get_id(), node2_id);
}

#[test]
fn test_add_and_get_edge_and_remove() {
    let mut graph = Graph::new();
    let node1 = graph.create_node(NodeType::Primary);
    let node2 = graph.create_node(NodeType::Primary);
    let node3 = graph.create_node(NodeType::Primary);

    let node1_id = &node1.1;
    let node2_id = &node2.1;
    let node3_id = &node3.1;

    graph.add_node(node1.0);
    graph.add_node(node2.0);
    graph.add_node(node3.0);

    graph.add_undirected_edge(node1_id, node2_id);
    graph.add_directed_edge(node1_id, node3_id);

    let edge1_id = format!("{}_{}_undirected", node1_id, node2_id);
    let edge2_id = format!("{}_{}_directed", node1_id, node3_id);

    let retrieved_undirected_edge = graph.get_edge_by_id(edge1_id.as_str());
    let retrieved_directed_edge = graph.get_edge_by_id(edge2_id.as_str());

    assert!(retrieved_undirected_edge.is_some());
    assert!(retrieved_directed_edge.is_some());
    assert_eq!(retrieved_undirected_edge.unwrap().get_id(), edge1_id);
    assert_eq!(retrieved_directed_edge.unwrap().get_id(), edge2_id);

    graph.delete_edge(edge1_id.as_str());
    graph.delete_edge(edge2_id.as_str());

    let retrieved_undirected_edge = graph.get_edge_by_id(edge1_id.as_str());
    let retrieved_directed_edge = graph.get_edge_by_id(edge2_id.as_str());
    let retrieved_undirected_edge2 =
        graph.get_node_by_id(node2_id).unwrap().get_edge(edge1_id.as_str());

    assert!(retrieved_undirected_edge.is_none());
    assert!(retrieved_directed_edge.is_none());
    assert!(retrieved_undirected_edge2.is_none());
}

#[test]
fn minted_nodes_retrievable_for_every_type() {
    let types = [
        NodeType::Primary,
        NodeType::Data,
        NodeType::Text,
        NodeType::Binary,
        NodeType::NoType,
    ];
    let mut graph = Graph::new();
    let mut ids: Vec<String> = Vec::new();
    for t in types {
        let (node, id) = graph.create_node(t);
        graph.add_node(node);
        assert!(graph.get_node_by_id(id.as_str()).is_some());
        assert_eq!(graph.get_node_by_id(id.as_str()).unwrap().get_id(), id.as_str());
        ids.push(id);
    }
    // no identifier is ever handed out twice
    for i in 0..ids.len() {
        for j in 0..ids.len() {
            if i != j {
                assert_ne!(ids[i], ids[j]);
            }
        }
    }
    assert_eq!(ids[0], "1_Primary");
    assert_eq!(ids[1], "2_Data");
    assert_eq!(ids[2], "3_Text");
    assert_eq!(ids[3], "4_Binary");
    assert_eq!(ids[4], "5_None");
}

#[test]
fn minted_identifiers_carry_multi_digit_counters() {
    let mut graph = Graph::new();
    let mut last_id = String::new();
    for _ in 0..12 {
        let (node, id) = graph.create_node(NodeType::Primary);
        graph.add_node(node);
        last_id = id;
    }
    assert_eq!(last_id, "12_Primary");
    assert!(graph.get_node_by_id("10_Primary").is_some());
    assert!(graph.get_node_by_id("11_Primary").is_some());
}

#[test]
fn skipped_counter_values_are_not_reused() {
    let mut graph = Graph::new();
    let (_, id1) = graph.create_node(NodeType::Primary);
    // the minted node is dropped without being stored
    let (node2, id2) = graph.create_node(NodeType::Primary);
    assert_ne!(id1, id2);
    assert_eq!(id2, "2_Primary");
    graph.add_node(node2);
    assert!(graph.get_node_by_id(id1.as_str()).is_none());
    assert!(graph.get_node_by_id(id2.as_str()).is_some());
}

#[test]
fn undirected_edge_makes_two_mirrored_records() {
    let mut graph = Graph::new();
    let (a, a_id) = graph.create_node(NodeType::Primary);
    let (b, b_id) = graph.create_node(NodeType::Data);
    graph.add_node(a);
    graph.add_node(b);

    graph.add_undirected_edge(a_id.as_str(), b_id.as_str());
    let edge_id = format!("{}_{}_undirected", a_id, b_id);

    let on_a = graph.get_node_by_id(a_id.as_str()).unwrap().get_edge(edge_id.as_str());
    let on_b = graph.get_node_by_id(b_id.as_str()).unwrap().get_edge(edge_id.as_str());
    assert!(on_a.is_some());
    assert!(on_b.is_some());

    let ea = on_a.unwrap();
    let eb = on_b.unwrap();
    assert_eq!(ea.get_id(), edge_id);
    assert_eq!(eb.get_id(), edge_id);
    assert_eq!(ea.get_start_node_id(), a_id);
    assert_eq!(ea.get_end_node_id(), b_id);
    assert_eq!(eb.get_start_node_id(), b_id);
    assert_eq!(eb.get_end_node_id(), a_id);
    assert!(matches!(ea.get_type(), EdgeType::Undirected));
    assert!(matches!(eb.get_type(), EdgeType::Undirected));

    // exactly one record per endpoint
    assert_eq!(graph.get_all_edges_of_node(a_id.as_str()).unwrap().len(), 1);
    assert_eq!(graph.get_all_edges_of_node(b_id.as_str()).unwrap().len(), 1);
}

#[test]
fn directed_edge_makes_one_record_on_the_source() {
    let mut graph = Graph::new();
    let (a, a_id) = graph.create_node(NodeType::Primary);
    let (b, b_id) = graph.create_node(NodeType::Primary);
    graph.add_node(a);
    graph.add_node(b);

    graph.add_directed_edge(a_id.as_str(), b_id.as_str());
    let edge_id = format!("{}_{}_directed", a_id, b_id);

    let on_a = graph.get_node_by_id(a_id.as_str()).unwrap().get_edge(edge_id.as_str());
    assert!(on_a.is_some());
    let ea = on_a.unwrap();
    assert_eq!(ea.get_id(), edge_id);
    assert_eq!(ea.get_start_node_id(), a_id);
    assert_eq!(ea.get_end_node_id(), b_id);
    assert!(matches!(ea.get_type(), EdgeType::Directed));

    // the target node has no record of the connection
    let on_b = graph.get_node_by_id(b_id.as_str()).unwrap().get_edge(edge_id.as_str());
    assert!(on_b.is_none());
    assert!(graph.get_all_edges_of_node(b_id.as_str()).is_none());
}

#[test]
fn deleting_undirected_edge_cleans_both_endpoints() {
    let mut graph = Graph::new();
    let (a, a_id) = graph.create_node(NodeType::Primary);
    let (b, b_id) = graph.create_node(NodeType::Primary);
    graph.add_node(a);
    graph.add_node(b);
    graph.add_undirected_edge(a_id.as_str(), b_id.as_str());
    let edge_id = format!("{}_{}_undirected", a_id, b_id);

    graph.delete_edge(edge_id.as_str());
    assert!(graph.get_node_by_id(a_id.as_str()).unwrap().get_edge(edge_id.as_str()).is_none());
    assert!(graph.get_node_by_id(b_id.as_str()).unwrap().get_edge(edge_id.as_str()).is_none());
    assert!(graph.get_edge_by_id(edge_id.as_str()).is_none());
}

#[test]
fn deleting_directed_edge_cleans_only_the_source() {
    let mut graph = Graph::new();
    let (a, a_id) = graph.create_node(NodeType::Primary);
    let (b, b_id) = graph.create_node(NodeType::Primary);
    graph.add_node(a);
    graph.add_node(b);
    graph.add_directed_edge(a_id.as_str(), b_id.as_str());
    // an unrelated record on b stays in place
    graph.add_directed_edge(b_id.as_str(), a_id.as_str());
    let ab_id = format!("{}_{}_directed", a_id, b_id);
    let ba_id = format!("{}_{}_directed", b_id, a_id);

    graph.delete_edge(ab_id.as_str());
    assert!(graph.get_node_by_id(a_id.as_str()).unwrap().get_edge(ab_id.as_str()).is_none());
    assert!(graph.get_node_by_id(b_id.as_str()).unwrap().get_edge(ba_id.as_str()).is_some());
}

#[test]
fn deleting_a_record_without_a_type_is_a_no_op() {
    let mut graph = Graph::new();
    let (a, a_id) = graph.create_node(NodeType::Primary);
    let (b, b_id) = graph.create_node(NodeType::Primary);
    graph.add_node(a);
    graph.add_node(b);
    graph.add_directed_edge(a_id.as_str(), b_id.as_str());
    let edge_id = format!("{}_{}_directed", a_id, b_id);

    graph.set_edge_type(edge_id.as_str(), EdgeType::NoType);
    graph.delete_edge(edge_id.as_str());
    assert!(graph.get_edge_by_id(edge_id.as_str()).is_some());
}

#[test]
fn all_edges_of_a_node_are_collected() {
    let mut graph = Graph::new();
    let (a, a_id) = graph.create_node(NodeType::Primary);
    let (b, b_id) = graph.create_node(NodeType::Primary);
    let (c, c_id) = graph.create_node(NodeType::Primary);
    graph.add_node(a);
    graph.add_node(b);
    graph.add_node(c);
    assert!(graph.get_all_edges_of_node(a_id.as_str()).is_none());
    assert!(graph.get_all_edges_of_node("7_Primary").is_none());

    graph.add_directed_edge(a_id.as_str(), b_id.as_str());
    graph.add_undirected_edge(a_id.as_str(), c_id.as_str());
    let collected = graph.get_all_edges_of_node(a_id.as_str()).unwrap();
    assert_eq!(collected.len(), 2);
    let mut ids: Vec<&str> = collected.iter().map(|e| e.get_id()).collect();
    ids.sort();
    let directed = format!("{}_{}_directed", a_id, b_id);
    let undirected = format!("{}_{}_undirected", a_id, c_id);
    let mut expected = vec![directed.as_str(), undirected.as_str()];
    expected.sort();
    assert_eq!(ids, expected);
}

#[test]
fn text_appends_grow_the_matching_payload() {
    let mut graph = Graph::new();
    let (text_node, text_id) = graph.create_node(NodeType::Text);
    let (data_node, data_id) = graph.create_node(NodeType::Data);
    graph.add_node(text_node);
    graph.add_node(data_node);

    assert!(graph.add_text_data(text_id.as_str(), "alpha").is_ok());
    assert!(graph.add_text_data(text_id.as_str(), "beta").is_ok());
    match graph.get_node_by_id(text_id.as_str()).unwrap().get_data() {
        NodeData::Text(entries) => {
            assert_eq!(entries.len(), 2);
            assert_eq!(entries[0], "alpha");
            assert_eq!(entries[1], "beta");
        }
        _ => panic!("a text node must keep a text payload"),
    }

    assert!(graph.add_text_data(data_id.as_str(), "gamma").is_ok());
    assert!(graph.add_binary_data(data_id.as_str(), vec![1, 2, 3]).is_ok());
    match graph.get_node_by_id(data_id.as_str()).unwrap().get_data() {
        NodeData::Composite { text, binary } => {
            assert_eq!(text.len(), 1);
            assert_eq!(text[0], "gamma");
            assert_eq!(binary.len(), 1);
            assert_eq!(binary[0], vec![1, 2, 3]);
        }
        _ => panic!("a data node must keep a composite payload"),
    }
}

#[test]
fn mismatched_appends_are_rejected_and_change_nothing() {
    let mut graph = Graph::new();
    let (binary_node, binary_id) = graph.create_node(NodeType::Binary);
    let (primary_node, primary_id) = graph.create_node(NodeType::Primary);
    graph.add_node(binary_node);
    graph.add_node(primary_node);

    // a text value does not fit a binary-only payload
    assert_eq!(graph.add_text_data(binary_id.as_str(), "nope"), Err(DataError::WrongKind));
    match graph.get_node_by_id(binary_id.as_str()).unwrap().get_data() {
        NodeData::Binary(entries) => assert_eq!(entries.len(), 0),
        _ => panic!("a binary node must keep a binary payload"),
    }

    // a binary value does not fit a text-only payload either
    let (text_node, text_id) = graph.create_node(NodeType::Text);
    graph.add_node(text_node);
    assert_eq!(graph.add_binary_data(text_id.as_str(), vec![9]), Err(DataError::WrongKind));

    // a primary node has no payload at all
    assert_eq!(graph.add_text_data(primary_id.as_str(), "nope"), Err(DataError::NoPayload));
    assert_eq!(graph.add_binary_data(primary_id.as_str(), vec![9]), Err(DataError::NoPayload));

    // an unknown node identifier is reported as such
    assert_eq!(graph.add_text_data("42_Text", "nope"), Err(DataError::NoSuchNode));
    assert_eq!(graph.add_binary_data("42_Binary", vec![9]), Err(DataError::NoSuchNode));
}

#[test]
fn scenario_dangling_mirror_survives_node_deletion() {
    let mut graph = Graph::new();
    let (a, a_id) = graph.create_node(NodeType::Primary);
    let (b, b_id) = graph.create_node(NodeType::Data);
    graph.add_node(a);
    graph.add_node(b);
    graph.add_undirected_edge(a_id.as_str(), b_id.as_str());
    let edge_id = format!("{}_{}_undirected", a_id, b_id);

    let on_a = graph.get_node_by_id(a_id.as_str()).unwrap().get_edge(edge_id.as_str());
    let on_b = graph.get_node_by_id(b_id.as_str()).unwrap().get_edge(edge_id.as_str());
    assert!(on_a.is_some());
    assert!(on_b.is_some());
    assert_eq!(on_a.unwrap().get_id(), on_b.unwrap().get_id());
    assert_eq!(on_a.unwrap().get_start_node_id(), on_b.unwrap().get_end_node_id());
    assert_eq!(on_a.unwrap().get_end_node_id(), on_b.unwrap().get_start_node_id());

    graph.delete_node(a_id.as_str());
    assert!(graph.get_node_by_id(a_id.as_str()).is_none());

    // b's mirror record dangles but stays findable and keeps its endpoints
    let dangling = graph.get_edge_by_id(edge_id.as_str());
    assert!(dangling.is_some());
    let e = dangling.unwrap();
    assert_eq!(e.get_start_node_id(), b_id);
    assert_eq!(e.get_end_node_id(), a_id);
    let on_b = graph.get_node_by_id(b_id.as_str()).unwrap().get_edge(edge_id.as_str());
    assert!(on_b.is_some());
}
