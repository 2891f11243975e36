use gossip::topology::{clone_names, same_names};
use gossip::Topology;

fn names(list: &[&str]) -> Vec<String> {
    list.iter().map(|name| name.to_string()).collect()
}

#[test]
fn new_topology_names_nobody() {
    let topology = Topology::new();
    assert!(!topology.contains(&"a".to_string()));
    assert_eq!(topology.get(&"a".to_string()), None);
    assert!(topology.nodes().is_empty());
}

#[test]
fn insert_then_get() {
    let mut topology = Topology::new();
    topology.insert("a".to_string(), names(&["b", "c"]));
    topology.insert("b".to_string(), names(&["a"]));
    assert_eq!(topology.get(&"a".to_string()), Some(&names(&["b", "c"])));
    assert_eq!(topology.get(&"b".to_string()), Some(&names(&["a"])));
    assert_eq!(topology.get(&"c".to_string()), None);
    assert!(topology.contains(&"a".to_string()));
    assert!(!topology.contains(&"c".to_string()));
}

#[test]
fn insert_replaces_the_earlier_list() {
    let mut topology = Topology::new();
    topology.insert("a".to_string(), names(&["b"]));
    topology.insert("x".to_string(), names(&["y"]));
    topology.insert("a".to_string(), names(&["c"]));
    assert_eq!(topology.get(&"a".to_string()), Some(&names(&["c"])));
    assert_eq!(topology.get(&"x".to_string()), Some(&names(&["y"])));
    assert_eq!(topology.nodes().len(), 2);
}

#[test]
fn neighbours_keep_their_order() {
    let mut topology = Topology::new();
    topology.insert("a".to_string(), names(&["z", "b", "m", "b"]));
    assert_eq!(topology.get(&"a".to_string()), Some(&names(&["z", "b", "m", "b"])));
}

#[test]
fn a_node_may_have_no_neighbours() {
    let mut topology = Topology::new();
    topology.insert("a".to_string(), Vec::new());
    assert!(topology.contains(&"a".to_string()));
    assert_eq!(topology.get(&"a".to_string()), Some(&Vec::new()));
}

#[test]
fn nodes_lists_each_node_once() {
    let mut topology = Topology::new();
    topology.insert("a".to_string(), names(&["b"]));
    topology.insert("b".to_string(), names(&["a"]));
    topology.insert("a".to_string(), names(&["c"]));
    let mut nodes = topology.nodes();
    nodes.sort();
    assert_eq!(nodes, names(&["a", "b"]));
}

#[test]
fn equality_does_not_depend_on_the_order_of_insertion() {
    let mut one = Topology::new();
    one.insert("a".to_string(), names(&["b"]));
    one.insert("b".to_string(), names(&["a"]));
    let mut other = Topology::new();
    other.insert("b".to_string(), names(&["a"]));
    other.insert("a".to_string(), names(&["b"]));
    assert_eq!(one, other);
}

#[test]
fn equality_depends_on_the_neighbours() {
    let mut one = Topology::new();
    one.insert("a".to_string(), names(&["b", "c"]));
    let mut other = Topology::new();
    other.insert("a".to_string(), names(&["c", "b"]));
    assert_ne!(one, other);
    let mut third = Topology::new();
    third.insert("a".to_string(), names(&["b", "c"]));
    third.insert("b".to_string(), Vec::new());
    assert_ne!(one, third);
    assert_ne!(third, one);
    assert_ne!(one, Topology::new());
}

#[test]
fn clone_is_equal_and_independent() {
    let mut topology = Topology::new();
    topology.insert("a".to_string(), names(&["b"]));
    let copy = topology.clone();
    assert_eq!(copy, topology);
    topology.insert("a".to_string(), names(&["c"]));
    assert_eq!(copy.get(&"a".to_string()), Some(&names(&["b"])));
    assert_ne!(copy, topology);
}

#[test]
fn clone_names_copies_the_list() {
    let list = names(&["a", "", "b-1"]);
    assert_eq!(clone_names(&list), list);
    assert_eq!(clone_names(&Vec::new()), Vec::<String>::new());
}

#[test]
fn same_names_compares_in_order() {
    assert!(same_names(&names(&["a", "b"]), &names(&["a", "b"])));
    assert!(!same_names(&names(&["a", "b"]), &names(&["b", "a"])));
    assert!(!same_names(&names(&["a"]), &names(&["a", "b"])));
    assert!(same_names(&Vec::new(), &Vec::new()));
}
