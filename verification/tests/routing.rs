use std::collections::HashMap;

use amr_backend::map_manager::pathfinding::route::{reconstruct_path, route_is_finite};

#[test]
fn route_follows_predecessors_from_start_to_goal() {
    let mut came_from = HashMap::new();
    came_from.insert(2u128, 1u128);
    came_from.insert(3, 2);
    came_from.insert(4, 2);
    assert_eq!(reconstruct_path(&came_from, 3), vec![1, 2, 3]);
    assert_eq!(reconstruct_path(&came_from, 4), vec![1, 2, 4]);
    assert_eq!(reconstruct_path(&came_from, 1), vec![1]);
    assert_eq!(reconstruct_path(&came_from, 9), vec![9]);
}

#[test]
fn long_route() {
    let mut came_from = HashMap::new();
    for i in 1..100u128 {
        came_from.insert(i, i - 1);
    }
    let p = reconstruct_path(&came_from, 99);
    assert_eq!(p.len(), 100);
    assert_eq!(p, (0..100u128).collect::<Vec<_>>());
}

#[test]
fn cyclic_links_are_detected() {
    let mut came_from = HashMap::new();
    came_from.insert(1u128, 2u128);
    came_from.insert(2, 1);
    came_from.insert(3, 1);
    assert!(!route_is_finite(&came_from, 3));
    assert!(route_is_finite(&came_from, 7));
    let mut chain = HashMap::new();
    chain.insert(2u128, 1u128);
    chain.insert(3, 2);
    assert!(route_is_finite(&chain, 3));
}
