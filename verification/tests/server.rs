use tribalcraft::server::config::{ClientConfig, Config, GameConfig, ServerConfig};
use tribalcraft::server::conn::{handle_message, step, ConnAction, ConnEvent, ConnState};
use tribalcraft::server::packets::{
    IncomingPackets, MovePacket, OutgoingPackets, SetInitPacket, SpawnPacket, UpdatePlayersPacket,
};
use tribalcraft::server::player::Player;
use tribalcraft::server::state::{Dispatch, Recipient, Server};

fn bits(v: f32) -> u32 {
    v.to_bits()
}

fn sorted(mut rs: Vec<Recipient>) -> Vec<(u64, u64)> {
    rs.sort_by_key(|r| r.id);
    rs.into_iter().map(|r| (r.id, r.conn)).collect()
}

fn set_init(is_mine: bool, id: u64, x: f32, y: f32, name: &str) -> OutgoingPackets {
    OutgoingPackets::SetInit(SetInitPacket { is_mine, id, x: bits(x), y: bits(y), name: name.to_string() })
}

#[test]
fn new_server_is_empty_in_us_east() {
    let s = Server::new();
    assert_eq!(s.region, "US East");
    assert!(s.players.is_empty());
    assert_eq!(s.player_ws.len(), 0);
    assert_eq!(s.tick(), 0);
}

#[test]
fn first_player_gets_id_zero_and_is_told_it_is_theirs() {
    let mut s = Server::new();
    let out = s.add(7, "alice".to_string(), bits(100.0), bits(200.5));
    assert_eq!(out.len(), 2);
    assert_eq!(out[0].packet, set_init(false, 0, 100.0, 200.5, "alice"));
    assert!(out[0].recipients.is_empty());
    assert_eq!(out[1].packet, set_init(true, 0, 100.0, 200.5, "alice"));
    assert_eq!(out[1].recipients, vec![Recipient { id: 0, conn: 7 }]);
    assert_eq!(s.players.len(), 1);
    assert_eq!(s.players[0].id, 0);
    assert_eq!(s.players[0].name, "alice");
    assert_eq!(s.players[0].x, bits(100.0));
    assert_eq!(s.players[0].y, bits(200.5));
    assert_eq!(s.players[0].move_dir, None);
    assert_eq!(s.players[0].x_vel, bits(0.0));
    assert_eq!(*s.player_ws.get(&0).unwrap(), 7);
}

#[test]
fn later_players_are_announced_to_everyone_else() {
    let mut s = Server::new();
    s.add(10, "a".to_string(), bits(1.0), bits(1.0));
    s.add(11, "b".to_string(), bits(2.0), bits(2.0));
    let out = s.add(12, "c".to_string(), bits(3.0), bits(4.0));
    assert_eq!(out[0].packet, set_init(false, 2, 3.0, 4.0, "c"));
    assert_eq!(sorted(out[0].recipients.clone()), vec![(0, 10), (1, 11)]);
    assert_eq!(out[1].packet, set_init(true, 2, 3.0, 4.0, "c"));
    assert_eq!(out[1].recipients, vec![Recipient { id: 2, conn: 12 }]);
    let ids: Vec<u64> = s.players.iter().map(|p| p.id).collect();
    assert_eq!(ids, vec![0, 1, 2]);
}

#[test]
fn send_to_client_reaches_only_that_connection() {
    let mut s = Server::new();
    s.add(40, "a".to_string(), 0, 0);
    s.add(41, "b".to_string(), 0, 0);
    let d = s.send_to_client(OutgoingPackets::AddBuilding, 1);
    assert_eq!(d.packet, OutgoingPackets::AddBuilding);
    assert_eq!(d.recipients, vec![Recipient { id: 1, conn: 41 }]);
}

#[test]
fn send_to_client_without_connection_reaches_nobody() {
    let mut s = Server::new();
    s.add(40, "a".to_string(), 0, 0);
    let d = s.send_to_client(OutgoingPackets::AddAnimal, 5);
    assert_eq!(d.packet, OutgoingPackets::AddAnimal);
    assert!(d.recipients.is_empty());
}

#[test]
fn send_to_all_reaches_every_connection_once() {
    let mut s = Server::new();
    for conn in 100..105u64 {
        s.add(conn, format!("p{}", conn), 0, 0);
    }
    let d: Dispatch = s.send_to_all(OutgoingPackets::UpdateAnimals);
    assert_eq!(d.packet, OutgoingPackets::UpdateAnimals);
    assert_eq!(sorted(d.recipients), vec![(0, 100), (1, 101), (2, 102), (3, 103), (4, 104)]);
}

#[test]
fn send_to_all_except_leaves_out_one() {
    let mut s = Server::new();
    for conn in 100..104u64 {
        s.add(conn, format!("p{}", conn), 0, 0);
    }
    let d = s.send_to_all_except(2, OutgoingPackets::RemoveBuilding);
    assert_eq!(sorted(d.recipients), vec![(0, 100), (1, 101), (3, 103)]);
    let d = s.send_to_all_except(99, OutgoingPackets::RemoveBuilding);
    assert_eq!(d.recipients.len(), 4);
}

#[test]
fn update_advances_tick_and_broadcasts_positions_in_order() {
    let mut s = Server::new();
    s.add(1, "a".to_string(), bits(35.0), bits(50.0));
    s.add(2, "b".to_string(), bits(14365.0), bits(7200.0));
    let d = s.update();
    assert_eq!(s.tick(), 1);
    assert_eq!(
        d.packet,
        OutgoingPackets::UpdatePlayers(UpdatePlayersPacket {
            data: vec![(0, bits(35.0), bits(50.0)), (1, bits(14365.0), bits(7200.0))],
        })
    );
    assert_eq!(sorted(d.recipients), vec![(0, 1), (1, 2)]);
    s.update();
    assert_eq!(s.tick(), 2);
}

#[test]
fn update_with_nobody_broadcasts_to_nobody() {
    let mut s = Server::new();
    let d = s.update();
    assert_eq!(d.packet, OutgoingPackets::UpdatePlayers(UpdatePlayersPacket { data: vec![] }));
    assert!(d.recipients.is_empty());
}

#[test]
fn get_player_by_id_changes_that_player() {
    let mut s = Server::new();
    s.add(1, "a".to_string(), 0, 0);
    s.add(2, "b".to_string(), 0, 0);
    match s.get_player_by_id(&1) {
        Some(p) => p.move_dir = Some(bits(1.5)),
        None => panic!("player 1 exists"),
    }
    assert_eq!(s.players[1].move_dir, Some(bits(1.5)));
    assert_eq!(s.players[0].move_dir, None);
    assert!(s.get_player_by_id(&9).is_none());
}

#[test]
fn player_new_stands_still() {
    let p = Player::new(3, "z".to_string(), bits(1.0), bits(2.0));
    assert_eq!(p.id, 3);
    assert_eq!(p.name, "z");
    assert_eq!((p.x, p.y), (bits(1.0), bits(2.0)));
    assert_eq!(p.move_dir, None);
    assert_eq!((p.x_vel, p.y_vel), (0, 0));
}

#[test]
fn spawn_packet_joins_and_other_messages_are_passed_over() {
    let spawn = ConnEvent::Packet(IncomingPackets::Spawn(SpawnPacket { name: "bob".to_string() }));
    assert_eq!(handle_message(spawn), ConnAction::Join("bob".to_string()));
    let mv = ConnEvent::Packet(IncomingPackets::SetMoveDir(MovePacket { dir: Some(bits(3.14)) }));
    assert_eq!(handle_message(mv), ConnAction::Ignore);
    assert_eq!(handle_message(ConnEvent::Packet(IncomingPackets::Aim)), ConnAction::Ignore);
    assert_eq!(handle_message(ConnEvent::Packet(IncomingPackets::Hit)), ConnAction::Ignore);
    assert_eq!(handle_message(ConnEvent::Packet(IncomingPackets::Place)), ConnAction::Ignore);
    assert_eq!(handle_message(ConnEvent::Undecodable), ConnAction::Ignore);
    assert_eq!(handle_message(ConnEvent::Other), ConnAction::Ignore);
    assert_eq!(handle_message(ConnEvent::Text("hi".to_string())), ConnAction::Log("hi".to_string()));
}

#[test]
fn game_config_keeps_its_interval() {
    let c = Config {
        server: ServerConfig { address: "127.0.0.1:8089".to_string() },
        client: ClientConfig {},
        game: GameConfig::new(103),
    };
    assert_eq!(c.game.update_interval(), 103);
    assert_eq!(c.server.address, "127.0.0.1:8089");
}

#[test]
fn one_connection_per_player() {
    let mut s = Server::new();
    for conn in 0..6u64 {
        s.add(conn * 10, "p".to_string(), 0, 0);
        assert_eq!(s.player_ws.len(), s.players.len());
    }
    let ids: Vec<u64> = s.players.iter().map(|p| p.id).collect();
    assert_eq!(ids, vec![0, 1, 2, 3, 4, 5]);
}

#[test]
fn connection_joins_once_and_then_ignores_everything() {
    let spawn = |n: &str| ConnEvent::Packet(IncomingPackets::Spawn(SpawnPacket { name: n.to_string() }));
    let (s, a) = step(ConnState::Waiting, ConnEvent::Text("hello".to_string()));
    assert_eq!((s, a), (ConnState::Waiting, ConnAction::Log("hello".to_string())));
    let (s, a) = step(s, ConnEvent::Undecodable);
    assert_eq!((s, a), (ConnState::Waiting, ConnAction::Ignore));
    let (s, a) = step(s, spawn("first"));
    assert_eq!((s, a), (ConnState::Joined, ConnAction::Join("first".to_string())));
    let (s, a) = step(s, spawn("second"));
    assert_eq!((s, a), (ConnState::Joined, ConnAction::Ignore));
    let (s, a) = step(s, ConnEvent::Text("late".to_string()));
    assert_eq!((s, a), (ConnState::Joined, ConnAction::Ignore));
    let mv = ConnEvent::Packet(IncomingPackets::SetMoveDir(MovePacket { dir: None }));
    assert_eq!(step(s, mv), (ConnState::Joined, ConnAction::Ignore));
}

#[test]
fn server_keeps_the_instance_id_it_is_given() {
    let s = Server::with_instance_id(0xDEAD_BEEF);
    assert_eq!(s.instance_id, 0xDEAD_BEEF);
    assert_eq!(s.region, "US East");
    assert!(s.players.is_empty());
    assert_eq!(s.player_ws.len(), 0);
    assert_eq!(s.tick(), 0);
}
