//! The client's knowledge of the world, and how it changes with each packet
//! from the server.
use crate::client::packets::{
    IncomingPackets, MovePacket, OutgoingPackets, SetInitPacket, SpawnPacket, UpdatePlayersPacket,
};
use crate::client::player::{moved, spawned, Player};
use vstd::prelude::*;

verus! {

/// `i` is the first index of `players` whose player has the id `id`.
pub open spec fn is_first_with_id(players: Seq<Player>, id: u64, i: int) -> bool {
    &&& 0 <= i < players.len()
    &&& players[i].id == id
    &&& forall|j: int| 0 <= j < i ==> players[j].id != id
}

/// Some player of `players` has the id `id`.
pub open spec fn knows(players: Seq<Player>, id: u64) -> bool {
    exists|i: int| 0 <= i < players.len() && #[trigger] players[i].id == id
}

/// The players after the first one with id `entry.0` moves to
/// `(entry.1, entry.2)`; unchanged where none has that id.
pub open spec fn apply_position(players: Seq<Player>, entry: (u64, u32, u32)) -> Seq<Player> {
    if knows(players, entry.0) {
        let i = choose|i: int| is_first_with_id(players, entry.0, i);
        players.update(i, moved(players[i], entry.1, entry.2))
    } else {
        players
    }
}

/// The players after each entry of `data` is applied, in order.
pub open spec fn apply_positions(players: Seq<Player>, data: Seq<(u64, u32, u32)>) -> Seq<Player>
    decreases data.len(),
{
    if data.len() == 0 {
        players
    } else {
        apply_position(apply_positions(players, data.drop_last()), data.last())
    }
}

/// If some player has the id, the first one with it is unique.
pub proof fn lemma_first_with_id(players: Seq<Player>, id: u64)
    requires
        knows(players, id),
    ensures
        exists|i: int| is_first_with_id(players, id, i),
        forall|i: int, j: int|
            is_first_with_id(players, id, i) && is_first_with_id(players, id, j) ==> i == j,
    decreases players.len(),
{
    let k = choose|k: int| 0 <= k < players.len() && #[trigger] players[k].id == id;
    if exists|j: int| 0 <= j < k && players[j].id == id {
        let j = choose|j: int| 0 <= j < k && players[j].id == id;
        assert(players.take(k)[j].id == id);
        lemma_first_with_id(players.take(k), id);
        let i = choose|i: int| is_first_with_id(players.take(k), id, i);
        assert forall|m: int| 0 <= m < i implies players[m].id != id by {
            assert(players.take(k)[m] == players[m]);
        }
        assert(players.take(k)[i] == players[i]);
        assert(is_first_with_id(players, id, i));
    } else {
        assert(is_first_with_id(players, id, k));
    }
    assert forall|i: int, j: int|
        is_first_with_id(players, id, i) && is_first_with_id(players, id, j) implies i == j by {
        if i < j {
            assert(players[i].id == id);
        } else if j < i {
            assert(players[j].id == id);
        }
    }
}

/// Player ids of `players` are pairwise distinct.
pub open spec fn distinct_ids(players: Seq<Player>) -> bool {
    forall|i: int, j: int| 0 <= i < j < players.len() ==> players[i].id != players[j].id
}

/// Position updates never add, drop or reorder players, nor change who
/// they are: each keeps its id and name.
pub proof fn lemma_updates_keep_players(players: Seq<Player>, data: Seq<(u64, u32, u32)>)
    ensures
        apply_positions(players, data).len() == players.len(),
        forall|k: int|
            0 <= k < players.len() ==> (#[trigger] apply_positions(players, data)[k]).id == players[k].id
                && apply_positions(players, data)[k].name == players[k].name,
    decreases data.len(),
{
    if data.len() > 0 {
        let before = apply_positions(players, data.drop_last());
        lemma_updates_keep_players(players, data.drop_last());
        if knows(before, data.last().0) {
            lemma_first_with_id(before, data.last().0);
        }
        assert forall|k: int| 0 <= k < players.len() implies (#[trigger] apply_positions(players, data)[k]).id
            == players[k].id && apply_positions(players, data)[k].name == players[k].name by {
            assert(before[k].id == players[k].id);
        }
    }
}

/// A player that no entry names is left exactly as it was.
pub proof fn lemma_unnamed_player_untouched(players: Seq<Player>, data: Seq<(u64, u32, u32)>, k: int)
    requires
        0 <= k < players.len(),
        forall|j: int| 0 <= j < data.len() ==> (#[trigger] data[j]).0 != players[k].id,
    ensures
        apply_positions(players, data)[k] == players[k],
    decreases data.len(),
{
    if data.len() > 0 {
        let before = apply_positions(players, data.drop_last());
        lemma_unnamed_player_untouched(players, data.drop_last(), k);
        lemma_updates_keep_players(players, data.drop_last());
        let e = data.last();
        assert(data[data.len() - 1] == e);
        if knows(before, e.0) {
            lemma_first_with_id(before, e.0);
            let i = choose|i: int| is_first_with_id(before, e.0, i);
            assert(i != k);
        }
    }
}

/// Where players have distinct ids, each player named by an update ends up
/// at the position of the last entry that names it, having remembered the
/// position it had just before that entry.
pub proof fn lemma_last_entry_wins(players: Seq<Player>, data: Seq<(u64, u32, u32)>, k: int, j: int)
    requires
        distinct_ids(players),
        0 <= k < players.len(),
        0 <= j < data.len(),
        data[j].0 == players[k].id,
        forall|m: int| j < m < data.len() ==> (#[trigger] data[m]).0 != players[k].id,
    ensures
        apply_positions(players, data)[k] == moved(
            apply_positions(players, data.take(j))[k],
            data[j].1,
            data[j].2,
        ),
    decreases data.len(),
{
    let before = apply_positions(players, data.drop_last());
    lemma_updates_keep_players(players, data.drop_last());
    let e = data.last();
    assert(data[data.len() - 1] == e);
    if j == data.len() - 1 {
        assert(data.drop_last() == data.take(j));
        assert(before[k].id == e.0);
        assert(knows(before, e.0));
        lemma_first_with_id(before, e.0);
        assert forall|m: int| 0 <= m < k implies before[m].id != e.0 by {
            assert(before[m].id == players[m].id);
        }
        assert(is_first_with_id(before, e.0, k));
    } else {
        assert(data.drop_last().take(j) == data.take(j));
        assert forall|m: int| j < m < data.drop_last().len() implies (#[trigger] data.drop_last()[m]).0
            != players[k].id by {
            assert(data.drop_last()[m] == data[m]);
        }
        lemma_last_entry_wins(players, data.drop_last(), k, j);
        if knows(before, e.0) {
            lemma_first_with_id(before, e.0);
            let i = choose|i: int| is_first_with_id(before, e.0, i);
            assert(i != k);
        }
    }
}

/// The packets a client sends as soon as it is connected: a request to
/// join under the name "test", then the heading 3.14 (the bit pattern
/// `0x4048F5C3`).
pub fn opening_packets() -> (v: Vec<OutgoingPackets>)
    ensures
        v@.len() == 2,
        v[0] matches OutgoingPackets::Spawn(SpawnPacket { name }) && name@ == "test"@,
        v[1] == OutgoingPackets::SetMoveDir(MovePacket { dir: Some(0x4048F5C3u32) }),
{
    let mut v: Vec<OutgoingPackets> = Vec::new();
    v.push(OutgoingPackets::Spawn(SpawnPacket { name: "test".to_owned() }));
    v.push(OutgoingPackets::SetMoveDir(MovePacket { dir: Some(0x4048F5C3u32) }));
    v
}

/// What the client knows of the game.
pub struct Game {
    pub my_player: Option<Player>,
    pub my_player_id: Option<u64>,
    pub all_players: Vec<Player>,
    pub move_dir: Option<u32>,
}

/// `after` is `before` with a player announced: it is added to the known
/// players, and becomes this client's own when `is_mine` holds.
pub open spec fn created(
    before: Game,
    after: Game,
    is_mine: bool,
    id: u64,
    x: u32,
    y: u32,
    name: String,
) -> bool {
    &&& after.all_players@ == before.all_players@.push(spawned(id, name, x, y))
    &&& after.my_player == (if is_mine { Some(spawned(id, name, x, y)) } else { before.my_player })
    &&& after.my_player_id == (if is_mine { Some(id) } else { before.my_player_id })
    &&& after.move_dir == before.move_dir
}

impl Game {
    /// Knows of no player, and stands still.
    pub fn new() -> (g: Self)
        ensures
            g.my_player == None::<Player>,
            g.my_player_id == None::<u64>,
            g.all_players@ == Seq::<Player>::empty(),
            g.move_dir == None::<u32>,
    {
        Game { my_player: None, my_player_id: None, all_players: Vec::new(), move_dir: None }
    }

    /// The first known player with the id `id`, to be changed in place;
    /// `None` where no known player has it.
    pub fn get_player_by_id(&mut self, id: u64) -> (r: Option<&mut Player>)
        ensures
            match r {
                Some(p) => exists|i: int|
                    is_first_with_id(old(self).all_players@, id, i) && *p == old(self).all_players@[i]
                        && final(self).all_players@ == old(self).all_players@.update(i, *final(p)),
                None => !knows(old(self).all_players@, id) && final(self).all_players@
                    == old(self).all_players@,
            },
            final(self).my_player == old(self).my_player,
            final(self).my_player_id == old(self).my_player_id,
            final(self).move_dir == old(self).move_dir,
    {
        let mut i: usize = 0;
        while i < self.all_players.len()
            invariant
                0 <= i <= self.all_players.len(),
                *self == *old(self),
                forall|j: int| 0 <= j < i ==> self.all_players[j].id != id,
            decreases self.all_players.len() - i,
        {
            if self.all_players[i].id == id {
                assert(is_first_with_id(old(self).all_players@, id, i as int));
                return Some(&mut self.all_players[i]);
            }
            i += 1;
        }
        None
    }

    /// Records a player the server announced.
    pub fn create_player(&mut self, is_mine: bool, id: u64, x: u32, y: u32, name: String)
        ensures
            created(*old(self), *final(self), is_mine, id, x, y, name),
    {
        let player = Player::new(id, name.clone(), x, y);
        if is_mine {
            self.my_player = Some(Player::new(id, name, x, y));
            self.my_player_id = Some(id);
        }
        self.all_players.push(player);
    }

    /// Sets the heading from the direction of the held keys: `heading` when
    /// `vector` is not zero, no heading (standing still) when it is.
    pub fn steer(&mut self, vector: (i8, i8), heading: u32)
        ensures
            final(self).move_dir == (if vector.0 != 0 || vector.1 != 0 { Some(heading) } else { None }),
            final(self).all_players@ == old(self).all_players@,
            final(self).my_player == old(self).my_player,
            final(self).my_player_id == old(self).my_player_id,
    {
        if vector.0 != 0 || vector.1 != 0 {
            self.move_dir = Some(heading);
        } else {
            self.move_dir = None;
        }
    }

    /// Moves the first known player of each entry's id to the entry's
    /// position, entry by entry.
    fn apply_updates(&mut self, data: &Vec<(u64, u32, u32)>)
        ensures
            final(self).all_players@ == apply_positions(old(self).all_players@, data@),
            final(self).my_player == old(self).my_player,
            final(self).my_player_id == old(self).my_player_id,
            final(self).move_dir == old(self).move_dir,
    {
        let mut k: usize = 0;
        while k < data.len()
            invariant
                0 <= k <= data.len(),
                self.all_players@ == apply_positions(old(self).all_players@, data@.take(k as int)),
                self.my_player == old(self).my_player,
                self.my_player_id == old(self).my_player_id,
                self.move_dir == old(self).move_dir,
            decreases data.len() - k,
        {
            let (id, x, y) = data[k];
            let ghost before = self.all_players@;
            assert(data@.take(k + 1).drop_last() == data@.take(k as int));
            match self.get_player_by_id(id) {
                Some(player) => {
                    player.move_to(x, y);
                },
                None => {},
            }
            proof {
                if knows(before, id) {
                    lemma_first_with_id(before, id);
                }
            }
            k += 1;
        }
        assert(data@.take(k as int) == data@);
    }

    /// Takes in a packet from the server. An announced player is recorded;
    /// a position update moves the known players and is answered with the
    /// current heading; every other packet is passed over.
    pub fn handle_packet(&mut self, packet: IncomingPackets) -> (reply: Option<OutgoingPackets>)
        ensures
            match packet {
                IncomingPackets::SetInit(SetInitPacket { is_mine, id, x, y, name }) => {
                    &&& created(*old(self), *final(self), is_mine, id, x, y, name)
                    &&& reply == None::<OutgoingPackets>
                },
                IncomingPackets::UpdatePlayers(UpdatePlayersPacket { data }) => {
                    &&& final(self).all_players@ == apply_positions(old(self).all_players@, data@)
                    &&& final(self).my_player == old(self).my_player
                    &&& final(self).my_player_id == old(self).my_player_id
                    &&& final(self).move_dir == old(self).move_dir
                    &&& reply == Some(OutgoingPackets::SetMoveDir(MovePacket { dir: old(self).move_dir }))
                },
                _ => {
                    &&& final(self).all_players@ == old(self).all_players@
                    &&& final(self).my_player == old(self).my_player
                    &&& final(self).my_player_id == old(self).my_player_id
                    &&& final(self).move_dir == old(self).move_dir
                    &&& reply == None::<OutgoingPackets>
                },
            },
    {
        match packet {
            IncomingPackets::SetInit(SetInitPacket { is_mine, id, x, y, name }) => {
                self.create_player(is_mine, id, x, y, name);
                None
            },
            IncomingPackets::UpdatePlayers(UpdatePlayersPacket { data }) => {
                self.apply_updates(&data);
                Some(OutgoingPackets::SetMoveDir(MovePacket { dir: self.move_dir }))
            },
            _ => None,
        }
    }
}

} // verus!
