//! The first, stand-alone server: it numbers the connections it is given
//! and counts its ticks.
use crate::trusted::{ws_entries, ws_insert, ws_new};
use dashmap::DashMap;
use vstd::prelude::*;

verus! {

pub struct Server {
    /// The id given to the latest connection; 0 before the first.
    pub ids: u64,
    /// For each id, the handle of its connection.
    pub players: DashMap<u64, u64>,
    tick: u64,
}

impl Server {
    pub closed spec fn spec_ids(&self) -> u64 {
        self.ids
    }

    pub closed spec fn spec_players(&self) -> Map<u64, u64> {
        ws_entries(self.players)
    }

    pub closed spec fn spec_tick(&self) -> u64 {
        self.tick
    }

    /// Every id in use is at most the latest one, and 0 is never used, so
    /// the next id is fresh.
    pub open spec fn wf(&self) -> bool {
        forall|id: u64| #[trigger] self.spec_players().contains_key(id) ==> 1 <= id <= self.spec_ids()
    }

    pub fn new() -> (s: Self)
        ensures
            s.spec_players() =~= Map::empty(),
            s.spec_ids() == 0,
            s.spec_tick() == 0,
            s.wf(),
    {
        Server { players: ws_new(), tick: 0, ids: 0 }
    }

    /// Registers connection `ws` under the next id.
    pub fn add(&mut self, ws: u64)
        requires
            old(self).spec_ids() < u64::MAX,
        ensures
            final(self).spec_ids() == old(self).spec_ids() + 1,
            final(self).spec_players() == old(self).spec_players().insert(final(self).spec_ids(), ws),
            final(self).spec_tick() == old(self).spec_tick(),
            old(self).wf() ==> !old(self).spec_players().contains_key(final(self).spec_ids()),
            old(self).wf() ==> final(self).wf(),
    {
        self.ids = self.ids + 1;
        ws_insert(&mut self.players, self.ids, ws);
    }

    /// Advances the tick and returns it, for the caller to report.
    pub fn update(&mut self) -> (t: u64)
        requires
            old(self).spec_tick() < u64::MAX,
        ensures
            t == old(self).spec_tick() + 1,
            final(self).spec_tick() == t,
            final(self).spec_ids() == old(self).spec_ids(),
            final(self).spec_players() == old(self).spec_players(),
            old(self).wf() ==> final(self).wf(),
    {
        self.tick = self.tick + 1;
        self.tick
    }

    pub fn ids(&self) -> (v: u64)
        ensures
            v == self.spec_ids(),
    {
        self.ids
    }

    pub fn tick(&self) -> (t: u64)
        ensures
            t == self.spec_tick(),
    {
        self.tick
    }
}

} // verus!
