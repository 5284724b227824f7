use star::neural::network::forward_order;

#[test]
fn chain_runs_in_order() {
    // a -> b -> c
    assert_eq!(forward_order(3, &[(0, 1), (1, 2)]), vec![0, 1, 2]);
}

#[test]
fn ready_neurons_are_taken_last_in_first_out() {
    // 0 and 1 are ready; 1 was queued last, so it runs first
    assert_eq!(forward_order(3, &[(0, 2), (1, 2)]), vec![1, 0, 2]);
    assert_eq!(forward_order(3, &[]), vec![2, 1, 0]);
}

#[test]
fn cycle_holds_its_neurons_back() {
    // 0 -> 1 <-> 2 -> 3, and 4 alone
    let order = forward_order(5, &[(0, 1), (1, 2), (2, 1), (2, 3)]);
    assert_eq!(order, vec![4, 0]);
}

#[test]
fn repeated_connections_count_each_time() {
    assert_eq!(forward_order(2, &[(0, 1), (0, 1)]), vec![0, 1]);
    // a self-loop keeps a neuron from running
    assert_eq!(forward_order(2, &[(1, 1)]), vec![0]);
}

#[test]
fn diamond_runs_sources_first() {
    // 0 -> 1, 0 -> 2, 1 -> 3, 2 -> 3
    let order = forward_order(4, &[(0, 1), (0, 2), (1, 3), (2, 3)]);
    assert_eq!(order, vec![0, 2, 1, 3]);
}
