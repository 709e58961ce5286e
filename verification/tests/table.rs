use chess_lobby::table::{PairingTable, Registration};

#[test]
fn first_registration_waits() {
    let mut table: PairingTable<&str> = PairingTable::new();
    assert_eq!(table.waiting_count(), 0);
    assert!(!table.is_waiting(42));
    assert_eq!(table.register(42, "a"), Registration::Waiting);
    assert!(table.is_waiting(42));
    assert_eq!(table.waiting_count(), 1);
}

#[test]
fn second_registration_pairs_in_arrival_order() {
    let mut table: PairingTable<&str> = PairingTable::new();
    assert_eq!(table.register(42, "a"), Registration::Waiting);
    assert_eq!(table.register(42, "b"), Registration::Paired { first: "a", second: "b" });
    assert!(!table.is_waiting(42));
    assert_eq!(table.waiting_count(), 0);
}

#[test]
fn third_registration_waits_again() {
    let mut table: PairingTable<u64> = PairingTable::new();
    assert_eq!(table.register(7, 1), Registration::Waiting);
    assert_eq!(table.register(7, 2), Registration::Paired { first: 1, second: 2 });
    assert_eq!(table.register(7, 3), Registration::Waiting);
    assert!(table.is_waiting(7));
    assert_eq!(table.register(7, 4), Registration::Paired { first: 3, second: 4 });
    assert!(!table.is_waiting(7));
}

#[test]
fn different_identifiers_never_pair() {
    let mut table: PairingTable<&str> = PairingTable::new();
    assert_eq!(table.register(1, "x"), Registration::Waiting);
    assert_eq!(table.register(2, "y"), Registration::Waiting);
    assert_eq!(table.waiting_count(), 2);
    assert!(table.is_waiting(1));
    assert!(table.is_waiting(2));
    assert_eq!(table.register(2, "y2"), Registration::Paired { first: "y", second: "y2" });
    assert!(table.is_waiting(1));
    assert!(!table.is_waiting(2));
    assert_eq!(table.register(1, "x2"), Registration::Paired { first: "x", second: "x2" });
    assert_eq!(table.waiting_count(), 0);
}

#[test]
fn interleaved_arrivals_pair_within_their_identifier() {
    let arrivals: [(u32, u64); 6] = [(10, 100), (20, 200), (30, 300), (20, 201), (30, 301), (10, 101)];
    let mut table: PairingTable<u64> = PairingTable::new();
    let mut pairs: Vec<(u64, u64)> = Vec::new();
    for (id, conn) in arrivals {
        if let Registration::Paired { first, second } = table.register(id, conn) {
            pairs.push((first, second));
        }
    }
    assert_eq!(pairs, vec![(200, 201), (300, 301), (100, 101)]);
    for (first, second) in pairs {
        assert_eq!(first / 10, second / 10);
    }
    assert_eq!(table.waiting_count(), 0);
}

#[test]
fn even_number_of_arrivals_leaves_nobody_waiting() {
    let mut table: PairingTable<usize> = PairingTable::new();
    let mut pairs: Vec<(usize, usize)> = Vec::new();
    let n: usize = 10;
    for conn in 0..n {
        if let Registration::Paired { first, second } = table.register(5, conn) {
            pairs.push((first, second));
        }
    }
    assert_eq!(pairs.len(), n / 2);
    assert_eq!(pairs, vec![(0, 1), (2, 3), (4, 5), (6, 7), (8, 9)]);
    assert!(!table.is_waiting(5));
}

#[test]
fn odd_number_of_arrivals_leaves_the_last_waiting() {
    let mut table: PairingTable<usize> = PairingTable::new();
    let mut pairs: Vec<(usize, usize)> = Vec::new();
    let n: usize = 7;
    for conn in 0..n {
        if let Registration::Paired { first, second } = table.register(5, conn) {
            pairs.push((first, second));
        }
    }
    assert_eq!(pairs.len(), 3);
    assert_eq!(pairs, vec![(0, 1), (2, 3), (4, 5)]);
    assert!(table.is_waiting(5));
    assert_eq!(table.waiting_count(), 1);
    assert_eq!(table.register(5, 99), Registration::Paired { first: 6, second: 99 });
}

#[test]
fn table_holds_connections_it_does_not_copy() {
    let mut table: PairingTable<String> = PairingTable::new();
    assert_eq!(table.register(0, String::from("left")), Registration::Waiting);
    assert_eq!(
        table.register(0, String::from("right")),
        Registration::Paired { first: String::from("left"), second: String::from("right") }
    );
}

#[test]
fn extreme_identifiers_are_ordinary_keys() {
    let mut table: PairingTable<u8> = PairingTable::new();
    assert_eq!(table.register(0, 1), Registration::Waiting);
    assert_eq!(table.register(u32::MAX, 2), Registration::Waiting);
    assert_eq!(table.register(u32::MAX, 3), Registration::Paired { first: 2, second: 3 });
    assert_eq!(table.register(0, 4), Registration::Paired { first: 1, second: 4 });
}
