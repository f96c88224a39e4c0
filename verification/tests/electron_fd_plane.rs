use castaway_pipeline::electron_fd_plane::{
    accept_within, rights_in, socket_path, Accepting, Assembly, Claim, FdTable, Look, Received,
    ACCEPT_POLL, MAX_UNCLAIMED,
};
use castaway_pipeline::span::Span;

const NONE: Span = Span { nanos: 0 };

fn taken<F>(claim: Claim<F>) -> Option<Vec<F>> {
    match claim {
        Claim::Taken(fds) => Some(fds),
        _ => None,
    }
}

#[test]
fn unclaimed_deliveries_are_bounded_oldest_first() {
    let mut table = FdTable::new();
    for id in 0..(MAX_UNCLAIMED as u64 + 5) {
        let stale = table.insert(id, vec![id]);
        assert_eq!(
            stale,
            (id >= MAX_UNCLAIMED as u64).then(|| id - MAX_UNCLAIMED as u64)
        );
    }
    assert_eq!(table.unclaimed(), MAX_UNCLAIMED);
    assert!(
        taken(table.take(0, NONE, NONE)).is_none(),
        "oldest went first"
    );
    assert!(taken(table.take(MAX_UNCLAIMED as u64 + 4, NONE, NONE)).is_some());
}

#[test]
fn the_table_pairs_ids_and_waits_out_a_late_delivery() {
    let mut table = FdTable::new();
    let deadline = Span { nanos: 50_000_000 };
    // Missing id: wait out what is left, then report the miss.
    match table.take(7, Span { nanos: 20_000_000 }, deadline) {
        Claim::Wait(more) => assert_eq!(more, Span { nanos: 30_000_000 }),
        other => panic!("{other:?}"),
    }
    assert!(matches!(table.take(7, deadline, deadline), Claim::Missed));
    // Late delivery: the next look finds it, and only once.
    assert_eq!(table.insert(8, vec!["fd"]), None);
    assert_eq!(taken(table.take(8, NONE, deadline)), Some(vec!["fd"]));
    assert!(matches!(table.take(8, deadline, deadline), Claim::Missed));
}

#[test]
fn a_second_delivery_for_one_paint_takes_the_place_of_the_first() {
    let mut table = FdTable::new();
    for id in [5u64, 1, 3] {
        table.insert(id, vec![id]);
    }
    table.insert(3, vec![33, 34]);
    assert_eq!(table.unclaimed(), 3);
    assert_eq!(taken(table.take(3, NONE, NONE)), Some(vec![33, 34]));
    assert_eq!(taken(table.take(5, NONE, NONE)), Some(vec![5]));
    assert_eq!(taken(table.take(1, NONE, NONE)), Some(vec![1]));
}

#[test]
fn a_delivery_round_trips_with_its_descriptors() {
    let mut assembly = Assembly::new();
    match assembly.receive(&42u64.to_le_bytes(), vec![9], false) {
        Received::Delivery { id, fds } => {
            assert_eq!(id, 42);
            assert_eq!(fds, vec![9]);
        }
        other => panic!("{other:?}"),
    }
    match assembly.receive(&0xfedc_ba98_7654_3210u64.to_le_bytes(), vec![1, 2], false) {
        Received::Delivery { id, fds } => {
            assert_eq!(id, 0xfedc_ba98_7654_3210);
            assert_eq!(fds, vec![1, 2], "nothing of the last message is left");
        }
        other => panic!("{other:?}"),
    }
}

#[test]
fn two_deliveries_do_not_bleed_into_each_other() {
    let mut assembly = Assembly::new();
    // The second message in two reads, its descriptors with the first of them.
    let second = 2u64.to_le_bytes();
    match assembly.receive(&1u64.to_le_bytes(), vec!["a"], false) {
        Received::Delivery { id, fds } => assert_eq!((id, fds), (1, vec!["a"])),
        other => panic!("{other:?}"),
    }
    assert!(matches!(
        assembly.receive(&second[..3], vec!["b", "a"], false),
        Received::More(5)
    ));
    match assembly.receive(&second[3..], vec![], false) {
        Received::Delivery { id, fds } => assert_eq!((id, fds), (2, vec!["b", "a"])),
        other => panic!("{other:?}"),
    }
}

#[test]
fn a_closed_peer_is_a_clean_end_not_an_error() {
    let mut assembly: Assembly<u8> = Assembly::new();
    assert!(matches!(
        assembly.receive(&[], vec![], false),
        Received::End
    ));
}

#[test]
fn a_peer_speaking_bytes_without_rights_is_an_eof_or_a_delivery_never_a_panic() {
    let mut assembly: Assembly<u8> = Assembly::new();
    match assembly.receive(&[1, 0, 0, 0, 0, 0, 0, 0], vec![], false) {
        Received::Delivery { id, fds } => assert_eq!((id, fds.len()), (1, 0)),
        other => panic!("{other:?}"),
    }
    match assembly.receive(&[9, 9, 9], vec![], false) {
        Received::More(more) => assert_eq!(more, 5),
        other => panic!("{other:?}"),
    }
    assert_eq!(assembly.wants(), 5);
    assert!(matches!(
        assembly.receive(&[], vec![], false),
        Received::Broken
    ));
    // Descriptors with no bytes behind them are no clean end either.
    let mut assembly = Assembly::new();
    assert!(matches!(
        assembly.receive(&[], vec![1u8], false),
        Received::Broken
    ));
    let mut assembly = Assembly::new();
    assert!(matches!(
        assembly.receive(&[1], vec![1u8], true),
        Received::Truncated
    ));
}

#[test]
fn a_message_in_pieces_keeps_every_descriptor() {
    let mut assembly = Assembly::new();
    assert!(matches!(
        assembly.receive(&[2, 1], vec!['a'], false),
        Received::More(6)
    ));
    match assembly.receive(&[0; 6], vec!['b', 'c'], false) {
        Received::Delivery { id, fds } => {
            assert_eq!(id, 258);
            assert_eq!(fds, vec!['a', 'b', 'c']);
        }
        other => panic!("{other:?}"),
    }
}

#[test]
fn a_peer_that_never_connects_is_given_up_on() {
    let give_up = Span { nanos: 1000 };
    assert_eq!(
        accept_within(Look::WouldBlock, NONE, give_up),
        Accepting::Again(Span { nanos: ACCEPT_POLL })
    );
    assert_eq!(
        accept_within(Look::WouldBlock, give_up, give_up),
        Accepting::GaveUp
    );
    assert_eq!(
        accept_within(Look::Connected { blocking: true }, give_up, NONE),
        Accepting::Accepted
    );
    assert_eq!(
        accept_within(Look::Connected { blocking: false }, NONE, give_up),
        Accepting::GaveUp
    );
    assert_eq!(
        accept_within(Look::Failed, NONE, give_up),
        Accepting::GaveUp
    );
}

#[test]
fn the_socket_stands_beside_the_control_socket() {
    assert_eq!(socket_path("/run/castaway/ctl"), "/run/castaway/ctl-fd");
    assert_eq!(rights_in(28, 16), 3);
    assert_eq!(rights_in(27, 16), 2);
    assert_eq!(rights_in(8, 16), 0);
}
