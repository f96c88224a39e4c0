use castaway_pipeline::ice_ports::PortPool;

#[test]
fn ports_come_out_lowest_first_and_go_back() {
    let mut pool = PortPool::new(41032, 41034);
    assert_eq!(pool.take(), Some(41032));
    assert_eq!(pool.take(), Some(41033));
    assert_eq!(pool.in_use(), 2);
    pool.give_back(41032);
    assert_eq!(pool.take(), Some(41032), "the freed one is reused");
}

#[test]
fn an_exhausted_pool_says_so_rather_than_wrapping() {
    let mut pool = PortPool::new(41032, 41033);
    assert!(pool.take().is_some());
    assert!(pool.take().is_some());
    assert_eq!(pool.take(), None);
}

#[test]
fn returning_a_port_twice_is_harmless() {
    let mut pool = PortPool::new(41032, 41033);
    let port = pool.take().unwrap();
    pool.give_back(port);
    pool.give_back(port);
    assert_eq!(pool.in_use(), 0);
    assert_eq!(pool.take(), Some(port));
}

#[test]
fn returning_a_port_that_was_never_taken_is_harmless() {
    let mut pool = PortPool::new(41032, 41033);
    pool.give_back(9999);
    assert_eq!(pool.in_use(), 0);
}

#[test]
fn a_reversed_range_is_empty_rather_than_a_panic() {
    let mut pool = PortPool::new(41063, 41032);
    assert_eq!(pool.take(), None);
}

#[test]
fn a_single_port_range_holds_one_peer() {
    let mut pool = PortPool::new(41032, 41032);
    assert_eq!(pool.take(), Some(41032));
    assert_eq!(pool.take(), None);
}

#[test]
fn the_last_port_there_is_comes_out_and_no_further() {
    let mut pool = PortPool::new(65535, 65535);
    assert_eq!(pool.take(), Some(65535));
    assert_eq!(pool.take(), None);
    pool.give_back(65535);
    assert_eq!(pool.take(), Some(65535));
}
