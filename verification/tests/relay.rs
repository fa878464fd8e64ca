use tribalcraft::relay::Server;

#[test]
fn relay_numbers_connections_from_one() {
    let mut s = Server::new();
    assert_eq!(s.ids(), 0);
    s.add(500);
    s.add(501);
    assert_eq!(s.ids(), 2);
    assert_eq!(*s.players.get(&1).unwrap(), 500);
    assert_eq!(*s.players.get(&2).unwrap(), 501);
    assert!(s.players.get(&0).is_none());
}

#[test]
fn relay_update_counts_ticks() {
    let mut s = Server::new();
    assert_eq!(s.update(), 1);
    assert_eq!(s.update(), 2);
    assert_eq!(s.tick(), 2);
    assert_eq!(s.players.len(), 0);
}
