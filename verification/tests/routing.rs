use mqbroker::routing::exchange::Exchange;
use mqbroker::routing::key::RoutingKey;

fn key(s0: &str, s1: &str, s2: &str, s3: &str) -> RoutingKey {
    RoutingKey::Direct(vec![s0.to_string(), s1.to_string(), s2.to_string(), s3.to_string()])
}

#[test]
fn stop_marker_resolves_to_current_node() {
    let root = Exchange::new("mq-root".to_string());
    for marker in ["", "\0", "!stop"] {
        let paths = root.walk(&key(marker, "x", "y", "q"), 0).unwrap();
        assert_eq!(paths.len(), 1);
        assert!(paths[0].is_empty());
    }
}

#[test]
fn named_segments_descend_and_missing_children_fail() {
    let mut root = Exchange::new("mq-root".to_string());
    root.add_exchange("eu".to_string());
    let eu = root.get_exchange(&"eu".to_string()).unwrap();
    assert_eq!(eu.name(), "eu");
    // a path through an absent child resolves to nothing
    assert!(root.walk(&key("us", "", "", "q"), 0).is_none());
    let paths = root.walk(&key("eu", "", "", "q"), 0).unwrap();
    assert_eq!(paths, vec![vec!["eu".to_string()]]);
}

#[test]
fn wildcard_returns_every_child_exactly() {
    let mut root = Exchange::new("mq-root".to_string());
    root.add_exchange("alpha".to_string());
    root.add_exchange("beta".to_string());
    root.add_exchange("gamma".to_string());
    let paths = root.walk(&key("*", "", "", "q"), 0).unwrap();
    // fan-out cardinality equals the child count, whatever the names
    assert_eq!(paths.len(), 3);
    let mut names: Vec<String> = paths.into_iter().map(|p| p[0].clone()).collect();
    names.sort();
    assert_eq!(names, vec!["alpha", "beta", "gamma"]);
}

#[test]
fn wildcard_on_childless_node_fans_out_to_nothing() {
    let root = Exchange::new("mq-root".to_string());
    let paths = root.walk(&key("*", "", "", "q"), 0).unwrap();
    assert!(paths.is_empty());
}

#[test]
fn walk_past_the_last_hop_resolves_nothing() {
    let root = Exchange::new("mq-root".to_string());
    assert!(root.walk(&key("", "", "", "q"), 3).is_none());
}

#[test]
fn hop_two_always_stops() {
    let mut root = Exchange::new("mq-root".to_string());
    root.add_exchange("a".to_string());
    // segment 2 would name a child, but hop 2 is the last resolved hop
    let paths = root.walk(&key("a", "", "a", "q"), 0);
    assert_eq!(paths.unwrap(), vec![vec!["a".to_string()]]);
}

#[test]
fn add_exchange_is_idempotent_by_name() {
    let mut root = Exchange::new("mq-root".to_string());
    root.add_exchange("a".to_string());
    root.apply_at(
        &vec!["a".to_string()],
        0,
        mqbroker::routing::exchange::NodeOp::AddExchange("kept".to_string()),
    );
    // a second add under the same name must not overwrite the child
    root.add_exchange("a".to_string());
    let paths = root.walk(&key("*", "", "", "q"), 0).unwrap();
    assert_eq!(paths.len(), 1);
    assert!(root.walk(&key("a", "kept", "", "q"), 0).is_some());
}

#[test]
fn remove_exchange_removes_whole_subtree() {
    // a node with child "A" that itself has grandchildren
    let mut root = Exchange::new("mq-root".to_string());
    root.add_exchange("A".to_string());
    root.add_exchange("B".to_string());
    root.apply_at(
        &vec!["A".to_string()],
        0,
        mqbroker::routing::exchange::NodeOp::AddExchange("inner".to_string()),
    );
    root.apply_at(
        &vec!["A".to_string(), "inner".to_string()],
        0,
        mqbroker::routing::exchange::NodeOp::AddQueue("deep-queue".to_string()),
    );
    // the grandchild is reachable before the removal
    assert!(root.walk(&key("A", "inner", "", "q"), 0).is_some());

    let removed = root.remove_exchange("A".to_string()).unwrap();
    assert_eq!(removed.name(), "A");

    // the child map no longer holds "A" ...
    assert!(root.get_exchange(&"A".to_string()).is_none());
    let fanout = root.walk(&key("*", "", "", "q"), 0).unwrap();
    assert_eq!(fanout.len(), 1);
    assert_eq!(fanout[0], vec!["B".to_string()]);
    // ... and no path through "A" resolves to any node
    assert!(root.walk(&key("A", "", "", "q"), 0).is_none());
    assert!(root.walk(&key("A", "inner", "", "q"), 0).is_none());
    // removing an absent child removes nothing
    assert!(root.remove_exchange("A".to_string()).is_none());
}

#[test]
fn remove_all_exchanges_clears_children() {
    let mut root = Exchange::new("mq-root".to_string());
    root.add_exchange("x".to_string());
    root.add_exchange("y".to_string());
    root.remove_all_exchanges();
    assert!(root.walk(&key("*", "", "", "q"), 0).unwrap().is_empty());
}

#[test]
fn node_queue_registry_delegates() {
    let mut root = Exchange::new("mq-root".to_string());
    root.add_queue(&"orders".to_string());
    root.add_queue(&"orders".to_string());
    assert_eq!(root.get_all_queues().len(), 1);
    assert!(root.get_queue(&"orders".to_string()).is_some());
    root.clear_queue("orders".to_string());
    // clearing a missing queue is a safe no-op
    root.clear_queue("missing".to_string());
    let removed = root.remove_queue("orders".to_string());
    assert!(removed.is_some());
    assert!(root.get_queue(&"orders".to_string()).is_none());
}
