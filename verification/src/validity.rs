//! The executable test of a world's invariant.
use crate::types::{GameState, MAX_SPEED, MIN_SPEED, RATIO_SCALE};
use vstd::prelude::*;

verus! {

impl GameState {
    /// The slot of the first player with identifier `id`, by a scan.
    pub fn find_player(&self, id: u128) -> (r: Option<usize>)
        ensures
            match r {
                Some(i) => i < self.players@.len() && self.players@[i as int].id == id
                    && forall|j: int| 0 <= j < i ==> (#[trigger] self.players@[j]).id != id,
                None => !self.has_player(id),
            },
    {
        let mut i: usize = 0;
        while i < self.players.len()
            invariant
                i <= self.players@.len(),
                forall|j: int| 0 <= j < i ==> (#[trigger] self.players@[j]).id != id,
            decreases self.players@.len() - i,
        {
            if self.players[i].id == id {
                return Some(i);
            }
            i += 1;
        }
        None
    }

    /// Whether no two territories share an identifier.
    pub fn territory_ids_distinct(&self) -> (r: bool)
        ensures
            r == (forall|i: int, j: int|
                0 <= i < j < self.territories@.len() ==> #[trigger] self.territories@[i].id
                    != #[trigger] self.territories@[j].id),
    {
        let mut j: usize = 0;
        while j < self.territories.len()
            invariant
                j <= self.territories@.len(),
                forall|a: int, b: int|
                    0 <= a < b < j ==> #[trigger] self.territories@[a].id
                        != #[trigger] self.territories@[b].id,
            decreases self.territories@.len() - j,
        {
            let mut i: usize = 0;
            while i < j
                invariant
                    i <= j < self.territories@.len(),
                    forall|a: int|
                        0 <= a < i ==> #[trigger] self.territories@[a].id
                            != self.territories@[j as int].id,
                decreases j - i,
            {
                if self.territories[i].id == self.territories[j].id {
                    assert(self.territories@[i as int].id == self.territories@[j as int].id);
                    return false;
                }
                i += 1;
            }
            j += 1;
        }
        true
    }

    /// Whether no two players share an identifier.
    pub fn player_ids_distinct(&self) -> (r: bool)
        ensures
            r == (forall|i: int, j: int|
                0 <= i < j < self.players@.len() ==> #[trigger] self.players@[i].id
                    != #[trigger] self.players@[j].id),
    {
        let mut j: usize = 0;
        while j < self.players.len()
            invariant
                j <= self.players@.len(),
                forall|a: int, b: int|
                    0 <= a < b < j ==> #[trigger] self.players@[a].id
                        != #[trigger] self.players@[b].id,
            decreases self.players@.len() - j,
        {
            let mut i: usize = 0;
            while i < j
                invariant
                    i <= j < self.players@.len(),
                    forall|a: int|
                        0 <= a < i ==> #[trigger] self.players@[a].id != self.players@[j as int].id,
                decreases j - i,
            {
                if self.players[i].id == self.players[j].id {
                    assert(self.players@[i as int].id == self.players@[j as int].id);
                    return false;
                }
                i += 1;
            }
            j += 1;
        }
        true
    }

    /// The slot of the first territory with identifier `id`, by a scan.
    pub fn find_territory(&self, id: u128) -> (r: Option<usize>)
        ensures
            match r {
                Some(i) => i < self.territories@.len() && self.territories@[i as int].id == id
                    && forall|j: int| 0 <= j < i ==> (#[trigger] self.territories@[j]).id != id,
                None => !self.has_territory(id),
            },
    {
        let mut i: usize = 0;
        while i < self.territories.len()
            invariant
                i <= self.territories@.len(),
                forall|j: int| 0 <= j < i ==> (#[trigger] self.territories@[j]).id != id,
            decreases self.territories@.len() - i,
        {
            if self.territories[i].id == id {
                return Some(i);
            }
            i += 1;
        }
        None
    }

    /// Whether each territory is a neighbour of its neighbours, in a world
    /// whose territories have distinct identifiers.
    pub fn has_symmetric_neighbors(&self) -> (r: bool)
        requires
            forall|i: int, j: int|
                0 <= i < j < self.territories@.len() ==> #[trigger] self.territories@[i].id
                    != #[trigger] self.territories@[j].id,
        ensures
            r == self.neighbors_symmetric(),
    {
        let mut i: usize = 0;
        while i < self.territories.len()
            invariant
                i <= self.territories@.len(),
                forall|a: int, b: int|
                    0 <= a < b < self.territories@.len() ==> #[trigger] self.territories@[a].id
                        != #[trigger] self.territories@[b].id,
                forall|a: int, j: int|
                    0 <= a < i && 0 <= j < self.territories@.len()
                        && #[trigger] self.territories@[a].neighbors@.contains(
                        self.territories@[j].id,
                    ) ==> self.territories@[j].neighbors@.contains(self.territories@[a].id),
            decreases self.territories@.len() - i,
        {
            let from = &self.territories[i];
            let mut k: usize = 0;
            while k < from.neighbors.len()
                invariant
                    i < self.territories@.len(),
                    *from == self.territories@[i as int],
                    k <= from.neighbors@.len(),
                    forall|a: int, b: int|
                        0 <= a < b < self.territories@.len() ==> #[trigger] self.territories@[a].id
                            != #[trigger] self.territories@[b].id,
                    forall|n: int, j: int|
                        0 <= n < k && 0 <= j < self.territories@.len()
                            && #[trigger] from.neighbors@[n] == #[trigger] self.territories@[j].id
                            ==> self.territories@[j].neighbors@.contains(from.id),
                decreases from.neighbors@.len() - k,
            {
                match self.find_territory(from.neighbors[k]) {
                    Some(j) => {
                        if !self.territories[j].has_neighbor(from.id) {
                            assert(self.territories@[i as int].neighbors@.contains(
                                self.territories@[j as int].id,
                            ));
                            return false;
                        }
                        assert forall|n: int, b: int|
                            0 <= n < k + 1 && 0 <= b < self.territories@.len()
                                && #[trigger] from.neighbors@[n]
                                == #[trigger] self.territories@[b].id
                                implies self.territories@[b].neighbors@.contains(from.id) by {
                            if n == k {
                                if b < j {
                                    assert(self.territories@[b].id
                                        != self.territories@[j as int].id);
                                }
                                if j < b {
                                    assert(self.territories@[j as int].id
                                        != self.territories@[b].id);
                                }
                            }
                        }
                    },
                    None => {},
                }
                k += 1;
            }
            i += 1;
        }
        true
    }

    /// Whether the world meets its invariant.
    pub fn is_valid(&self) -> (r: bool)
        ensures
            r == self.valid(),
    {
        if self.territories.len() > 0xffff_ffff {
            return false;
        }
        if self.game_speed < MIN_SPEED || self.game_speed > MAX_SPEED {
            return false;
        }
        if !self.territory_ids_distinct() || !self.player_ids_distinct() {
            return false;
        }
        let mut p: usize = 0;
        while p < self.players.len()
            invariant
                p <= self.players@.len(),
                forall|j: int| 0 <= j < p ==> (#[trigger] self.players@[j]).valid(),
            decreases self.players@.len() - p,
        {
            let player = &self.players[p];
            if player.troop_ratio > RATIO_SCALE || player.attack_ratio > RATIO_SCALE
                || player.population > player.max_population || player.is_ai
                != player.ai_personality.is_some() {
                assert(!self.players@[p as int].valid());
                return false;
            }
            p += 1;
        }
        let mut t: usize = 0;
        while t < self.territories.len()
            invariant
                t <= self.territories@.len(),
                forall|j: int|
                    0 <= j < t ==> match (#[trigger] self.territories@[j]).owner {
                        Some(o) => self.has_player(o),
                        None => true,
                    },
                forall|j: int|
                    0 <= j < t ==> (#[trigger] self.territories@[j]).neighbors@.len() >= 1,
            decreases self.territories@.len() - t,
        {
            if self.territories[t].neighbors.len() == 0 {
                assert(self.territories@[t as int].neighbors@.len() == 0);
                return false;
            }
            match self.territories[t].owner {
                Some(o) => {
                    if self.find_player(o).is_none() {
                        assert(self.territories@[t as int].owner == Some(o));
                        return false;
                    }
                },
                None => {},
            }
            t += 1;
        }
        self.has_symmetric_neighbors()
    }
}

} // verus!
