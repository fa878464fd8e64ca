//! The server's world: who is connected, which players exist, and which
//! packet goes to whom. Writing the packets out is left to the caller,
//! which receives a `Dispatch` for each packet to send.
use crate::serial::{saturating_next, SerialU32, SerialU64};
use crate::server::packets::{OutgoingPackets, SetInitPacket, UpdatePlayersPacket};
use crate::server::player::Player;
use crate::trusted::{quadtree_new, random_u64, ws_entries, ws_get, ws_ids, ws_insert, ws_new};
use dashmap::DashMap;
use quadtree_f32::QuadTree;
use vstd::prelude::*;

verus! {

/// One connection that a packet is to be written to.
#[derive(Debug, Clone, Copy, PartialEq, Eq)]
pub struct Recipient {
    pub id: u64,
    pub conn: u64,
}

/// A packet and the connections it is to be written to, in order.
#[derive(Debug, Clone, PartialEq)]
pub struct Dispatch {
    pub packet: OutgoingPackets,
    pub recipients: Vec<Recipient>,
}

/// `rs` names each player of `targets` exactly once, each with the
/// connection that `table` holds for it, and nobody else.
pub open spec fn reaches_exactly(rs: Seq<Recipient>, targets: Set<u64>, table: Map<u64, u64>) -> bool {
    &&& forall|i: int, j: int| 0 <= i < j < rs.len() ==> rs[i].id != rs[j].id
    &&& forall|i: int|
        0 <= i < rs.len() ==> targets.contains(#[trigger] rs[i].id) && table.contains_key(rs[i].id)
            && rs[i].conn == table[rs[i].id]
    &&& forall|id: u64| targets.contains(id) ==> exists|i: int| 0 <= i < rs.len() && #[trigger] rs[i].id == id
}

/// The `(id, x, y)` of each player, in the players' order.
pub open spec fn positions(players: Seq<Player>) -> Seq<(u64, u32, u32)> {
    players.map_values(|p: Player| (p.id, p.x, p.y))
}

/// `i` is the first index of `players` whose player has the id `id`.
pub open spec fn is_first_with_id(players: Seq<Player>, id: u64, i: int) -> bool {
    &&& 0 <= i < players.len()
    &&& players[i].id == id
    &&& forall|j: int| 0 <= j < i ==> players[j].id != id
}

/// The server's state.
pub struct Server {
    pub ids: SerialU64,
    /// For each player id, the handle of the connection its packets go to.
    pub player_ws: DashMap<u64, u64>,
    pub players: Vec<Player>,
    tick: u64,
    pub region: String,
    pub instance_id: u64,
    quadtree: QuadTree,
    quadtree_id: SerialU32,
}

impl Server {
    /// The number of game-loop steps taken so far.
    pub closed spec fn spec_tick(&self) -> u64 {
        self.tick
    }

    /// The connection table as a map from player id to connection handle.
    pub closed spec fn connections(&self) -> Map<u64, u64> {
        ws_entries(self.player_ws)
    }

    /// The players, in the order they joined.
    pub closed spec fn spec_players(&self) -> Seq<Player> {
        self.players@
    }

    /// The id that the next player to join receives.
    pub closed spec fn next_id(&self) -> u64 {
        self.ids.next_value()
    }

    pub closed spec fn spec_region(&self) -> Seq<char> {
        self.region@
    }

    pub closed spec fn spec_instance_id(&self) -> u64 {
        self.instance_id
    }

    /// Some player has the id `id`.
    pub open spec fn has_player(&self, id: u64) -> bool {
        exists|i: int| 0 <= i < self.spec_players().len() && #[trigger] self.spec_players()[i].id == id
    }

    /// The state that `new` creates and `add` keeps: player ids are
    /// distinct and below the next id to be handed out, and exactly the
    /// players have a connection.
    pub open spec fn wf(&self) -> bool {
        &&& forall|i: int, j: int|
            0 <= i < j < self.spec_players().len() ==> self.spec_players()[i].id != self.spec_players()[j].id
        &&& forall|i: int|
            0 <= i < self.spec_players().len() ==> #[trigger] self.spec_players()[i].id < self.next_id()
        &&& forall|id: u64| #[trigger] self.connections().contains_key(id) <==> self.has_player(id)
    }

    /// The other fields are as in `other`: identity, region and tick.
    pub open spec fn same_setting(&self, other: &Server) -> bool {
        &&& self.spec_region() == other.spec_region()
        &&& self.spec_instance_id() == other.spec_instance_id()
        &&& self.spec_tick() == other.spec_tick()
    }

    /// An empty world in the region "US East", with the instance id
    /// `instance_id`.
    pub fn with_instance_id(instance_id: u64) -> (s: Self)
        ensures
            s.wf(),
            s.spec_players() == Seq::<Player>::empty(),
            s.connections() =~= Map::empty(),
            s.next_id() == 0,
            s.spec_tick() == 0,
            s.spec_region() == "US East"@,
            s.spec_instance_id() == instance_id,
    {
        Server {
            player_ws: ws_new(),
            players: Vec::new(),
            tick: 0,
            ids: SerialU64::new(),
            region: "US East".to_owned(),
            instance_id,
            quadtree: quadtree_new(),
            quadtree_id: SerialU32::new(),
        }
    }

    /// An empty world in the region "US East", with a random instance id.
    pub fn new() -> (s: Self)
        ensures
            s.wf(),
            s.spec_players() == Seq::<Player>::empty(),
            s.connections() =~= Map::empty(),
            s.next_id() == 0,
            s.spec_tick() == 0,
            s.spec_region() == "US East"@,
    {
        Server::with_instance_id(random_u64())
    }

    /// The number of game-loop steps taken so far.
    pub fn tick(&self) -> (t: u64)
        ensures
            t == self.spec_tick(),
    {
        self.tick
    }

    /// The recipients among the connected players, leaving out `skip`.
    fn recipients(&self, skip: Option<u64>) -> (rs: Vec<Recipient>)
        ensures
            reaches_exactly(
                rs@,
                match skip {
                    Some(s) => self.connections().dom().remove(s),
                    None => self.connections().dom(),
                },
                self.connections(),
            ),
    {
        let ids = ws_ids(&self.player_ws);
        let ghost table = self.connections();
        let ghost targets = match skip {
            Some(s) => table.dom().remove(s),
            None => table.dom(),
        };
        let mut rs: Vec<Recipient> = Vec::new();
        let mut k: usize = 0;
        while k < ids.len()
            invariant
                0 <= k <= ids.len(),
                table == self.connections(),
                targets == (match skip {
                    Some(s) => table.dom().remove(s),
                    None => table.dom(),
                }),
                forall|i: int, j: int| 0 <= i < j < ids.len() ==> ids[i] != ids[j],
                forall|i: int| 0 <= i < ids.len() ==> table.contains_key(#[trigger] ids[i]),
                forall|id: u64| table.contains_key(id) ==> #[trigger] ids@.contains(id),
                forall|i: int, j: int| 0 <= i < j < rs.len() ==> rs[i].id != rs[j].id,
                forall|i: int|
                    0 <= i < rs.len() ==> targets.contains(#[trigger] rs[i].id) && table.contains_key(rs[i].id)
                        && rs[i].conn == table[rs[i].id],
                forall|i: int| 0 <= i < rs.len() ==> exists|j: int| 0 <= j < k && ids[j] == #[trigger] rs[i].id,
                forall|j: int|
                    0 <= j < k && targets.contains(#[trigger] ids[j]) ==> exists|i: int|
                        0 <= i < rs.len() && rs[i].id == ids[j],
            decreases ids.len() - k,
        {
            let id = ids[k];
            let keep = match skip {
                Some(s) => id != s,
                None => true,
            };
            if keep {
                match ws_get(&self.player_ws, id) {
                    Some(conn) => {
                        let ghost old_rs = rs@;
                        proof {
                            assert forall|i: int| 0 <= i < old_rs.len() implies old_rs[i].id != id by {
                                let j = choose|j: int| 0 <= j < k && ids[j] == #[trigger] old_rs[i].id;
                                assert(ids[j] != ids[k as int]);
                            }
                        }
                        rs.push(Recipient { id, conn });
                        proof {
                            assert(rs[old_rs.len() as int].id == ids[k as int]);
                            assert forall|i: int| 0 <= i < rs.len() implies exists|j: int|
                                0 <= j < k + 1 && ids[j] == #[trigger] rs[i].id by {
                                if i < old_rs.len() {
                                    assert(rs[i] == old_rs[i]);
                                    let j = choose|j: int| 0 <= j < k && ids[j] == #[trigger] old_rs[i].id;
                                    assert(0 <= j < k + 1 && ids[j] == rs[i].id);
                                } else {
                                    assert(ids[k as int] == rs[i].id);
                                }
                            }
                            assert forall|j: int| 0 <= j < k + 1 && targets.contains(#[trigger] ids[j]) implies exists|i: int|
                                0 <= i < rs.len() && rs[i].id == ids[j] by {
                                if j < k {
                                    let i = choose|i: int| 0 <= i < old_rs.len() && old_rs[i].id == ids[j];
                                    assert(rs[i] == old_rs[i]);
                                } else {
                                    assert(rs[old_rs.len() as int].id == ids[j]);
                                }
                            }
                        }
                    },
                    None => {},
                }
            } else {
                proof {
                    assert(!targets.contains(ids[k as int]));
                }
            }
            k += 1;
        }
        proof {
            assert forall|id: u64| targets.contains(id) implies exists|i: int|
                0 <= i < rs.len() && #[trigger] rs[i].id == id by {
                assert(ids@.contains(id));
                let j = choose|j: int| 0 <= j < ids.len() && ids[j] == id;
                assert(targets.contains(ids[j]));
            }
        }
        rs
    }

    /// The dispatch of `packet_type` to the connection of player `id`, if it
    /// has one; with no recipient otherwise.
    pub fn send_to_client(&self, packet_type: OutgoingPackets, id: u64) -> (d: Dispatch)
        ensures
            d.packet == packet_type,
            d.recipients@ == (if self.connections().contains_key(id) {
                seq![Recipient { id, conn: self.connections()[id] }]
            } else {
                Seq::<Recipient>::empty()
            }),
    {
        let mut recipients: Vec<Recipient> = Vec::new();
        match ws_get(&self.player_ws, id) {
            Some(conn) => recipients.push(Recipient { id, conn }),
            None => {},
        }
        Dispatch { packet: packet_type, recipients }
    }

    /// The dispatch of `packet_type` to every connected player.
    pub fn send_to_all(&self, packet_type: OutgoingPackets) -> (d: Dispatch)
        ensures
            d.packet == packet_type,
            reaches_exactly(d.recipients@, self.connections().dom(), self.connections()),
    {
        let recipients = self.recipients(None);
        Dispatch { packet: packet_type, recipients }
    }

    /// The dispatch of `packet_type` to every connected player but `id`.
    pub fn send_to_all_except(&self, id: u64, packet_type: OutgoingPackets) -> (d: Dispatch)
        ensures
            d.packet == packet_type,
            reaches_exactly(d.recipients@, self.connections().dom().remove(id), self.connections()),
    {
        let recipients = self.recipients(Some(id));
        Dispatch { packet: packet_type, recipients }
    }

    /// The first player with the id `id`, to be changed in place; `None`
    /// where no player has it.
    pub fn get_player_by_id(&mut self, id: &u64) -> (r: Option<&mut Player>)
        ensures
            match r {
                Some(p) => exists|i: int|
                    is_first_with_id(old(self).spec_players(), *id, i) && *p == old(self).spec_players()[i]
                        && final(self).spec_players() == old(self).spec_players().update(i, *final(p)),
                None => !old(self).has_player(*id) && final(self).spec_players() == old(self).spec_players(),
            },
            final(self).connections() == old(self).connections(),
            final(self).next_id() == old(self).next_id(),
            final(self).same_setting(&*old(self)),
    {
        let mut i: usize = 0;
        while i < self.players.len()
            invariant
                0 <= i <= self.players.len(),
                *self == *old(self),
                forall|j: int| 0 <= j < i ==> self.players[j].id != *id,
            decreases self.players.len() - i,
        {
            if self.players[i].id == *id {
                assert(is_first_with_id(old(self).spec_players(), *id, i as int));
                return Some(&mut self.players[i]);
            }
            i += 1;
        }
        None
    }

    /// A new player called `name` joins at `(x, y)` over connection `conn`.
    /// It receives the next id; the others connected are told of it with
    /// `is_mine` false (the first dispatch), and the newcomer is told of
    /// itself with `is_mine` true (the second).
    pub fn add(&mut self, conn: u64, name: String, x: u32, y: u32) -> (out: Vec<Dispatch>)
        ensures
            ({
                let id = old(self).next_id();
                let p = final(self).spec_players().last();
                &&& final(self).next_id() == saturating_next(id)
                &&& final(self).spec_players() == old(self).spec_players().push(p)
                &&& p.id == id && p.name == name && p.x == x && p.y == y
                &&& p.move_dir == None::<u32> && p.x_vel == 0 && p.y_vel == 0
                &&& final(self).connections() == old(self).connections().insert(id, conn)
                &&& out.len() == 2
                &&& out[0].packet == OutgoingPackets::SetInit(
                    SetInitPacket { is_mine: false, id, x, y, name },
                )
                &&& reaches_exactly(
                    out[0].recipients@,
                    final(self).connections().dom().remove(id),
                    final(self).connections(),
                )
                &&& out[1].packet == OutgoingPackets::SetInit(
                    SetInitPacket { is_mine: true, id, x, y, name },
                )
                &&& out[1].recipients@ == seq![Recipient { id, conn }]
            }),
            final(self).same_setting(&*old(self)),
            old(self).wf() ==> !old(self).has_player(old(self).next_id()),
            old(self).wf() && old(self).next_id() < u64::MAX ==> final(self).wf(),
    {
        let ghost before = *self;
        proof {
            if before.wf() && before.has_player(before.next_id()) {
                let i = choose|i: int|
                    0 <= i < before.spec_players().len() && #[trigger] before.spec_players()[i].id == before.next_id();
                assert(before.spec_players()[i].id < before.next_id());
            }
        }
        let id = self.ids.generate();
        let player = Player::new(id, name.clone(), x, y);
        ws_insert(&mut self.player_ws, id, conn);
        self.players.push(player);
        proof {
            if before.wf() && before.next_id() < u64::MAX {
                assert forall|i: int| 0 <= i < self.spec_players().len() implies
                    #[trigger] self.spec_players()[i].id < self.next_id() by {
                    if i < before.spec_players().len() {
                        assert(self.spec_players()[i] == before.spec_players()[i]);
                    }
                }
                assert forall|i: int, j: int| 0 <= i < j < self.spec_players().len() implies
                    self.spec_players()[i].id != self.spec_players()[j].id by {
                    assert(before.spec_players()[i].id < id);
                    if j < before.spec_players().len() {
                        assert(self.spec_players()[i] == before.spec_players()[i]);
                        assert(self.spec_players()[j] == before.spec_players()[j]);
                    }
                }
                assert forall|k: u64| #[trigger] self.connections().contains_key(k) <==> self.has_player(k) by {
                    if self.connections().contains_key(k) && k != id {
                        assert(before.connections().contains_key(k));
                        assert(before.has_player(k));
                        let i = choose|i: int|
                            0 <= i < before.spec_players().len() && #[trigger] before.spec_players()[i].id == k;
                        assert(self.spec_players()[i] == before.spec_players()[i]);
                    }
                    if k == id {
                        assert(self.spec_players()[before.spec_players().len() as int].id == id);
                        assert(self.has_player(k));
                        assert(self.connections().contains_key(k));
                    }
                    if self.has_player(k) && k != id {
                        let i = choose|i: int|
                            0 <= i < self.spec_players().len() && #[trigger] self.spec_players()[i].id == k;
                        assert(self.spec_players()[i] == before.spec_players()[i]);
                        assert(before.has_player(k));
                        assert(before.connections().contains_key(k));
                    }
                }
            }
        }
        let others = self.send_to_all_except(
            id,
            OutgoingPackets::SetInit(SetInitPacket { is_mine: false, id, x, y, name: name.clone() }),
        );
        let mine = self.send_to_client(
            OutgoingPackets::SetInit(SetInitPacket { is_mine: true, id, x, y, name }),
            id,
        );
        let mut out: Vec<Dispatch> = Vec::new();
        out.push(others);
        out.push(mine);
        out
    }

    /// One step of the game loop: the tick advances, and every connected
    /// player is sent the position of every player.
    pub fn update(&mut self) -> (d: Dispatch)
        requires
            old(self).spec_tick() < u64::MAX,
        ensures
            final(self).spec_tick() == old(self).spec_tick() + 1,
            final(self).spec_players() == old(self).spec_players(),
            final(self).connections() == old(self).connections(),
            final(self).next_id() == old(self).next_id(),
            final(self).spec_region() == old(self).spec_region(),
            final(self).spec_instance_id() == old(self).spec_instance_id(),
            old(self).wf() ==> final(self).wf(),
            d.packet matches OutgoingPackets::UpdatePlayers(p) && p.data@ == positions(old(self).spec_players()),
            d.packet matches OutgoingPackets::UpdatePlayers(p) && p.data@.len() == old(self).spec_players().len()
                && forall|i: int|
                0 <= i < p.data@.len() ==> #[trigger] p.data@[i] == (
                    old(self).spec_players()[i].id,
                    old(self).spec_players()[i].x,
                    old(self).spec_players()[i].y,
                ),
            reaches_exactly(d.recipients@, old(self).connections().dom(), old(self).connections()),
    {
        let ghost before = *self;
        self.tick = self.tick + 1;
        proof {
            if before.wf() {
                assert forall|k: u64| #[trigger] self.connections().contains_key(k) <==> self.has_player(k) by {
                    if before.connections().contains_key(k) {
                        assert(before.has_player(k));
                    }
                    if before.has_player(k) {
                        assert(before.connections().contains_key(k));
                    }
                }
            }
        }
        let mut data: Vec<(u64, u32, u32)> = Vec::new();
        let mut i: usize = 0;
        while i < self.players.len()
            invariant
                0 <= i <= self.players.len(),
                data@ == positions(self.spec_players().take(i as int)),
            decreases self.players.len() - i,
        {
            let p = &self.players[i];
            data.push((p.id, p.x, p.y));
            assert(self.spec_players().take(i + 1) == self.spec_players().take(i as int).push(self.spec_players()[i as int]));
            i += 1;
        }
        assert(self.spec_players().take(i as int) == self.spec_players());
        self.send_to_all(OutgoingPackets::UpdatePlayers(UpdatePlayersPacket { data }))
    }
}

/// The positions list one entry per player, in the players' order: the
/// player's id and coordinates.
pub proof fn lemma_positions_one_entry_per_player(players: Seq<Player>)
    ensures
        positions(players).len() == players.len(),
        forall|i: int|
            0 <= i < players.len() ==> #[trigger] positions(players)[i] == (
                players[i].id,
                players[i].x,
                players[i].y,
            ),
{
}

/// When a player joins, the announcement to the others and the one to the
/// newcomer together reach every connected player exactly once.
pub proof fn lemma_join_reaches_everyone(
    others: Seq<Recipient>,
    mine: Seq<Recipient>,
    id: u64,
    table: Map<u64, u64>,
)
    requires
        table.contains_key(id),
        reaches_exactly(others, table.dom().remove(id), table),
        mine == seq![Recipient { id, conn: table[id] }],
    ensures
        reaches_exactly(others + mine, table.dom(), table),
{
    let all = others + mine;
    assert forall|i: int, j: int| 0 <= i < j < all.len() implies all[i].id != all[j].id by {
        if j < others.len() {
            assert(others[i].id != others[j].id);
        } else {
            assert(all[j] == mine[0]);
            assert(table.dom().remove(id).contains(others[i].id));
        }
    }
    assert forall|i: int| 0 <= i < all.len() implies table.dom().contains(#[trigger] all[i].id)
        && table.contains_key(all[i].id) && all[i].conn == table[all[i].id] by {
        if i < others.len() {
            assert(all[i] == others[i]);
        } else {
            assert(all[i] == mine[0]);
        }
    }
    assert forall|k: u64| table.dom().contains(k) implies exists|i: int|
        0 <= i < all.len() && #[trigger] all[i].id == k by {
        if k == id {
            assert(all[others.len() as int].id == k);
        } else {
            assert(table.dom().remove(id).contains(k));
            let i = choose|i: int| 0 <= i < others.len() && #[trigger] others[i].id == k;
            assert(all[i] == others[i]);
        }
    }
}

/// A dispatch that reaches exactly a finite set of players has one
/// recipient per player of the set.
pub proof fn lemma_reaches_exactly_len(rs: Seq<Recipient>, targets: Set<u64>, table: Map<u64, u64>)
    requires
        reaches_exactly(rs, targets, table),
        targets.finite(),
    ensures
        rs.len() == targets.len(),
{
    let ids = rs.map_values(|r: Recipient| r.id);
    assert(ids.no_duplicates()) by {
        assert forall|i: int, j: int| 0 <= i < ids.len() && 0 <= j < ids.len() && i != j implies ids[i] != ids[j] by {
            if i < j {
                assert(rs[i].id != rs[j].id);
            } else {
                assert(rs[j].id != rs[i].id);
            }
        }
    }
    assert(ids.to_set() =~= targets) by {
        assert forall|id: u64| targets.contains(id) implies ids.to_set().contains(id) by {
            let i = choose|i: int| 0 <= i < rs.len() && #[trigger] rs[i].id == id;
            assert(ids[i] == id);
        }
        assert forall|id: u64| ids.to_set().contains(id) implies targets.contains(id) by {
            let i = choose|i: int| 0 <= i < ids.len() && ids[i] == id;
            assert(rs[i].id == id);
        }
    }
    ids.unique_seq_to_set();
}

/// In a well-formed server the connected players are exactly the players,
/// so there are as many connections as players.
pub proof fn lemma_one_connection_per_player(s: Server)
    requires
        s.wf(),
    ensures
        s.connections().dom().finite(),
        s.connections().dom().len() == s.spec_players().len(),
{
    let ids = s.spec_players().map_values(|p: Player| p.id);
    assert(ids.no_duplicates()) by {
        assert forall|i: int, j: int| 0 <= i < ids.len() && 0 <= j < ids.len() && i != j implies ids[i] != ids[j] by {
            if i < j {
                assert(s.spec_players()[i].id != s.spec_players()[j].id);
            } else {
                assert(s.spec_players()[j].id != s.spec_players()[i].id);
            }
        }
    }
    assert(ids.to_set() =~= s.connections().dom()) by {
        assert forall|id: u64| s.connections().dom().contains(id) implies ids.to_set().contains(id) by {
            assert(s.connections().contains_key(id));
            assert(s.has_player(id));
            let i = choose|i: int| 0 <= i < s.spec_players().len() && #[trigger] s.spec_players()[i].id == id;
            assert(ids[i] == id);
        }
        assert forall|id: u64| ids.to_set().contains(id) implies s.connections().dom().contains(id) by {
            let i = choose|i: int| 0 <= i < ids.len() && ids[i] == id;
            assert(s.spec_players()[i].id == id);
            assert(s.has_player(id));
        }
    }
    ids.unique_seq_to_set();
    vstd::seq_lib::seq_to_set_is_finite(ids);
}

/// In a well-formed server a player is the only one with its id, so looking
/// it up by id finds that very player.
pub proof fn lemma_lookup_finds_the_player(s: Server, i: int)
    requires
        s.wf(),
        0 <= i < s.spec_players().len(),
    ensures
        is_first_with_id(s.spec_players(), s.spec_players()[i].id, i),
        forall|j: int| #[trigger] is_first_with_id(s.spec_players(), s.spec_players()[i].id, j) ==> j == i,
{
    assert forall|j: int| 0 <= j < i implies s.spec_players()[j].id != s.spec_players()[i].id by {
        assert(s.spec_players()[j].id != s.spec_players()[i].id);
    }
    assert forall|j: int| #[trigger] is_first_with_id(s.spec_players(), s.spec_players()[i].id, j) implies j == i by {
        if j > i {
            assert(s.spec_players()[i].id != s.spec_players()[j].id);
        }
    }
}

} // verus!
