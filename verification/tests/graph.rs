use uuid::Uuid;

use amr_backend::map_manager::pathfinding::graph::{Graph, RoadmapLink, SearchStart};

#[test]
fn test_graph_basic_operations() {
    let mut graph = Graph::<f64>::new();
    let a = Uuid::new_v4().as_u128();
    let b = Uuid::new_v4().as_u128();
    let c = Uuid::new_v4().as_u128();

    graph.add_node(a);
    graph.add_node(b);
    graph.add_node(c);
    graph.add_edge(a, b, 1.0);
    graph.add_edge(b, c, 2.0);

    assert_eq!(graph.neighbors(a).len(), 1);
    assert_eq!(graph.neighbors(b).len(), 1);
    assert_eq!(graph.neighbors(c).len(), 0);
}

#[test]
fn add_node_keeps_existing_edges() {
    let mut graph = Graph::<u32>::new();
    graph.add_edge(1, 2, 7);
    graph.add_node(1);
    assert_eq!(graph.neighbors(1), &[(2, 7)]);
    assert!(graph.contains_node(1));
    assert!(!graph.contains_node(2));
}

#[test]
fn edges_keep_insertion_order() {
    let mut graph = Graph::<u32>::new();
    graph.add_edge(1, 3, 5);
    graph.add_edge(1, 2, 4);
    graph.add_edge(1, 3, 6);
    assert_eq!(graph.neighbors(1), &[(3, 5), (2, 4), (3, 6)]);
    assert!(graph.neighbors(9).is_empty());
}

#[test]
fn bidirectional_links_are_added_both_ways() {
    let links = vec![
        RoadmapLink { source_node_id: 1, target_node_id: 2, cost: 3.0, direction: "bi".to_string() },
        RoadmapLink { source_node_id: 2, target_node_id: 3, cost: 1.5, direction: "uni".to_string() },
    ];
    let graph = Graph::<f64>::build_from_records(&[1, 2, 3, 4], &links);
    assert_eq!(graph.neighbors(1), &[(2, 3.0)]);
    assert_eq!(graph.neighbors(2), &[(1, 3.0), (3, 1.5)]);
    assert!(graph.neighbors(3).is_empty());
    assert!(graph.contains_node(4));
    assert!(graph.neighbors(4).is_empty());
}

#[test]
fn links_may_name_unlisted_nodes() {
    let links = vec![RoadmapLink { source_node_id: 8, target_node_id: 9, cost: 2u32, direction: "bi".to_string() }];
    let graph = Graph::build_from_records(&[], &links);
    assert_eq!(graph.neighbors(8), &[(9, 2)]);
    assert_eq!(graph.neighbors(9), &[(8, 2)]);
}

#[test]
fn search_start_decides_the_trivial_cases() {
    let mut graph = Graph::<f64>::new();
    graph.add_node(1);
    graph.add_node(2);
    assert_eq!(graph.search_start(1, 3), SearchStart::Unreachable);
    assert_eq!(graph.search_start(3, 1), SearchStart::Unreachable);
    assert_eq!(graph.search_start(3, 3), SearchStart::Unreachable);
    assert_eq!(graph.search_start(2, 2), SearchStart::AtGoal);
    assert_eq!(graph.search_start(1, 2), SearchStart::Search);
}
