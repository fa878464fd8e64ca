use tribalcraft::client::data::SkinTypes;
use tribalcraft::client::game::{opening_packets, Game};
use tribalcraft::client::input::{movement_vector, HeldKeys};
use tribalcraft::client::packets::{
    IncomingPackets, MovePacket, OutgoingPackets, Player as SimPlayer, RemovePlayerPacket, SetInitPacket,
    SpawnPacket, UpdatePlayersPacket,
};
use tribalcraft::client::player::Player;

fn bits(v: f32) -> u32 {
    v.to_bits()
}

fn no_keys() -> HeldKeys {
    HeldKeys { w: false, a: false, s: false, d: false, up: false, left: false, down: false, right: false }
}

fn init(is_mine: bool, id: u64, x: f32, y: f32, name: &str) -> IncomingPackets {
    IncomingPackets::SetInit(SetInitPacket { is_mine, id, x: bits(x), y: bits(y), name: name.to_string() })
}

#[test]
fn client_player_new_starts_everything_at_its_position() {
    let p = Player::new(4, "n".to_string(), bits(10.0), bits(20.0));
    assert_eq!(p.id, 4);
    assert_eq!(p.name, "n");
    assert_eq!((p.x, p.y, p.last_x, p.last_y), (bits(10.0), bits(20.0), bits(10.0), bits(20.0)));
    assert_eq!((p.lerp_x, p.lerp_y, p.last_lerp_x, p.last_lerp_y), (bits(10.0), bits(20.0), bits(10.0), bits(20.0)));
    assert_eq!((p.delta, p.time_1, p.time_2), (bits(0.0), bits(0.0), bits(0.0)));
}

#[test]
fn simulated_player_new_is_at_rest() {
    let p = SimPlayer::new(1, "s".to_string(), bits(5.0), bits(6.0));
    assert_eq!((p.id, p.x, p.y), (1, bits(5.0), bits(6.0)));
    assert_eq!(p.move_dir, None);
    assert_eq!((p.x_vel, p.y_vel, p.x_accel, p.y_accel), (0, 0, 0, 0));
    assert!(!p.lock_movement);
}

#[test]
fn new_game_knows_nobody() {
    let g = Game::new();
    assert!(g.my_player.is_none());
    assert!(g.my_player_id.is_none());
    assert!(g.all_players.is_empty());
    assert!(g.move_dir.is_none());
}

#[test]
fn own_player_is_remembered() {
    let mut g = Game::new();
    assert_eq!(g.handle_packet(init(false, 3, 1.0, 2.0, "other")), None);
    assert!(g.my_player_id.is_none());
    assert_eq!(g.handle_packet(init(true, 5, 7.0, 8.0, "me")), None);
    assert_eq!(g.my_player_id, Some(5));
    assert_eq!(g.my_player, Some(Player::new(5, "me".to_string(), bits(7.0), bits(8.0))));
    assert_eq!(g.all_players.len(), 2);
    assert_eq!(g.all_players[0].id, 3);
    assert_eq!(g.all_players[1].id, 5);
}

#[test]
fn create_player_not_mine_leaves_own_player() {
    let mut g = Game::new();
    g.create_player(true, 1, bits(0.0), bits(0.0), "me".to_string());
    g.create_player(false, 2, bits(0.0), bits(0.0), "you".to_string());
    assert_eq!(g.my_player_id, Some(1));
    assert_eq!(g.all_players.len(), 2);
}

#[test]
fn position_update_moves_known_players_and_answers_with_heading() {
    let mut g = Game::new();
    g.handle_packet(init(true, 1, 10.0, 20.0, "me"));
    g.handle_packet(init(false, 2, 30.0, 40.0, "you"));
    g.move_dir = Some(bits(1.57));
    let reply = g.handle_packet(IncomingPackets::UpdatePlayers(UpdatePlayersPacket {
        data: vec![(2, bits(31.0), bits(41.0)), (9, bits(0.0), bits(0.0))],
    }));
    assert_eq!(reply, Some(OutgoingPackets::SetMoveDir(MovePacket { dir: Some(bits(1.57)) })));
    assert_eq!(g.all_players[0], Player::new(1, "me".to_string(), bits(10.0), bits(20.0)));
    let p = &g.all_players[1];
    assert_eq!((p.x, p.y), (bits(31.0), bits(41.0)));
    assert_eq!((p.last_x, p.last_y), (bits(30.0), bits(40.0)));
    assert_eq!((p.last_lerp_x, p.last_lerp_y), (bits(30.0), bits(40.0)));
    assert_eq!(g.all_players.len(), 2);
}

#[test]
fn later_entry_for_the_same_player_wins() {
    let mut g = Game::new();
    g.handle_packet(init(false, 2, 0.0, 0.0, "p"));
    g.handle_packet(IncomingPackets::UpdatePlayers(UpdatePlayersPacket {
        data: vec![(2, bits(1.0), bits(1.0)), (2, bits(5.0), bits(6.0))],
    }));
    let p = &g.all_players[0];
    assert_eq!((p.x, p.y), (bits(5.0), bits(6.0)));
    assert_eq!((p.last_x, p.last_y), (bits(1.0), bits(1.0)));
}

#[test]
fn standing_still_is_reported_as_no_heading() {
    let mut g = Game::new();
    let reply = g.handle_packet(IncomingPackets::UpdatePlayers(UpdatePlayersPacket { data: vec![] }));
    assert_eq!(reply, Some(OutgoingPackets::SetMoveDir(MovePacket { dir: None })));
}

#[test]
fn other_packets_change_nothing() {
    let mut g = Game::new();
    g.handle_packet(init(true, 1, 1.0, 1.0, "me"));
    for packet in [
        IncomingPackets::RemovePlayer(RemovePlayerPacket { id: 1 }),
        IncomingPackets::AddBuilding,
        IncomingPackets::UpdateAnimals,
    ] {
        assert_eq!(g.handle_packet(packet), None);
    }
    assert_eq!(g.all_players.len(), 1);
    assert_eq!(g.my_player_id, Some(1));
}

#[test]
fn get_player_by_id_in_the_client() {
    let mut g = Game::new();
    g.create_player(false, 8, bits(0.0), bits(0.0), "x".to_string());
    g.get_player_by_id(8).unwrap().time_2 = bits(2.5);
    assert_eq!(g.all_players[0].time_2, bits(2.5));
    assert!(g.get_player_by_id(3).is_none());
}

#[test]
fn held_keys_add_up() {
    assert_eq!(movement_vector(&no_keys()), (0, 0));
    assert_eq!(movement_vector(&HeldKeys { w: true, ..no_keys() }), (0, -1));
    assert_eq!(movement_vector(&HeldKeys { d: true, s: true, ..no_keys() }), (1, 1));
    assert_eq!(movement_vector(&HeldKeys { d: true, right: true, up: true, ..no_keys() }), (2, -1));
    assert_eq!(movement_vector(&HeldKeys { a: true, left: true, down: true, s: true, ..no_keys() }), (-2, 2));
}

#[test]
fn opposite_keys_cancel() {
    assert_eq!(movement_vector(&HeldKeys { w: true, s: true, ..no_keys() }), (0, 0));
    assert_eq!(movement_vector(&HeldKeys { left: true, d: true, ..no_keys() }), (0, 0));
}

#[test]
fn steering_sets_heading_only_when_moving() {
    let mut g = Game::new();
    g.steer((1, 0), bits(0.0));
    assert_eq!(g.move_dir, Some(bits(0.0)));
    g.steer((0, -1), bits(-1.57));
    assert_eq!(g.move_dir, Some(bits(-1.57)));
    g.steer((0, 0), bits(9.0));
    assert_eq!(g.move_dir, None);
}

#[test]
fn skins_are_distinct() {
    assert_ne!(SkinTypes::DefaultSkin, SkinTypes::SoldierSkin);
}

#[test]
fn opening_packets_join_as_test_and_head_at_pi_ish() {
    assert_eq!(
        opening_packets(),
        vec![
            OutgoingPackets::Spawn(SpawnPacket { name: "test".to_string() }),
            OutgoingPackets::SetMoveDir(MovePacket { dir: Some(3.14f32.to_bits()) }),
        ]
    );
}
