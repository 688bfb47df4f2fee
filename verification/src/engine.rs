//! The indexed engine: a world together with identifier-to-slot tables, and
//! the commands that change it.
use crate::types::{
    BuildingType, GameError, GameState, GameStats, Player, PlayerId, Territory, TerritoryId,
    MAX_SPEED, MIN_SPEED, RATIO_SCALE,
};
use std::collections::HashMap;
use vstd::prelude::*;

verus! {

broadcast use vstd::std_specs::hash::group_hash_axioms;

impl GameState {
    /// The slot of the territory with identifier `id`.
    pub open spec fn territory_slot(self, id: u128) -> int {
        choose|i: int| 0 <= i < self.territories@.len() && #[trigger] self.territories@[i].id == id
    }

    /// The slot of the player with identifier `id`.
    pub open spec fn player_slot(self, id: u128) -> int {
        choose|i: int| 0 <= i < self.players@.len() && #[trigger] self.players@[i].id == id
    }

    /// The territory with identifier `id`.
    pub open spec fn territory(self, id: u128) -> Territory {
        self.territories@[self.territory_slot(id)]
    }

    /// The player with identifier `id`.
    pub open spec fn player(self, id: u128) -> Player {
        self.players@[self.player_slot(id)]
    }

    /// In a valid world an identifier names one slot only.
    pub proof fn lemma_slots(self)
        requires
            self.valid(),
        ensures
            forall|i: int|
                0 <= i < self.territories@.len() ==> self.territory_slot(
                    #[trigger] self.territories@[i].id,
                ) == i,
            forall|i: int|
                0 <= i < self.players@.len() ==> self.player_slot(#[trigger] self.players@[i].id)
                    == i,
    {
        assert forall|i: int| 0 <= i < self.territories@.len() implies self.territory_slot(
            #[trigger] self.territories@[i].id,
        ) == i by {
            let s = self.territory_slot(self.territories@[i].id);
            assert(0 <= s < self.territories@.len() && self.territories@[s].id
                == self.territories@[i].id);
            if s < i {
                assert(self.territories@[s].id != self.territories@[i].id);
            }
            if i < s {
                assert(self.territories@[i].id != self.territories@[s].id);
            }
        }
        assert forall|i: int| 0 <= i < self.players@.len() implies self.player_slot(
            #[trigger] self.players@[i].id,
        ) == i by {
            let s = self.player_slot(self.players@[i].id);
            assert(0 <= s < self.players@.len() && self.players@[s].id == self.players@[i].id);
            if s < i {
                assert(self.players@[s].id != self.players@[i].id);
            }
            if i < s {
                assert(self.players@[i].id != self.players@[s].id);
            }
        }
    }

    /// Whether every territory that has an owner has one that is alive.
    #[verifier::opaque]
    pub open spec fn owners_alive(self) -> bool {
        forall|i: int, j: int|
            0 <= i < self.territories@.len() && 0 <= j < self.players@.len() && (
            #[trigger] self.territories@[i]).owner == Some((#[trigger] self.players@[j]).id)
                ==> self.players@[j].is_alive
    }

    /// Owners stay alive where neither the owners nor who is alive change.
    pub proof fn lemma_owners_kept(self, before: GameState)
        requires
            before.owners_alive(),
            self.same_entities(before),
            forall|i: int|
                0 <= i < self.territories@.len() ==> (#[trigger] self.territories@[i]).owner
                    == before.territories@[i].owner,
            forall|j: int|
                0 <= j < self.players@.len() ==> (#[trigger] self.players@[j]).is_alive
                    == before.players@[j].is_alive,
        ensures
            self.owners_alive(),
    {
        reveal(GameState::owners_alive);
        assert forall|i: int, j: int|
            0 <= i < self.territories@.len() && 0 <= j < self.players@.len() && (
            #[trigger] self.territories@[i]).owner == Some(
                (#[trigger] self.players@[j]).id,
            ) implies self.players@[j].is_alive by {
            assert(before.territories@[i].owner == Some(before.players@[j].id));
        }
    }

    /// The clock and the flags of two worlds agree.
    pub open spec fn same_clock(self, other: GameState) -> bool {
        &&& self.tick == other.tick
        &&& self.game_speed == other.game_speed
        &&& self.is_paused == other.is_paused
        &&& self.game_time_micros == other.game_time_micros
    }

    /// Two worlds hold the same entities under the same identifiers: only
    /// what commands and ticks may change differs.
    pub open spec fn same_entities(self, other: GameState) -> bool {
        &&& self.territories@.len() == other.territories@.len()
        &&& self.players@.len() == other.players@.len()
        &&& forall|i: int|
            0 <= i < self.territories@.len() ==> (#[trigger] self.territories@[i]).id
                == other.territories@[i].id
        &&& forall|i: int|
            0 <= i < self.players@.len() ==> (#[trigger] self.players@[i]).id
                == other.players@[i].id
    }

    /// The builder's error for a build command, or `None` where it succeeds.
    pub open spec fn build_error(
        self,
        player: u128,
        territory: u128,
        building: BuildingType,
    ) -> Option<GameError> {
        if !self.has_territory(territory) {
            Some(GameError::TerritoryNotFound)
        } else if self.territory(territory).owner != Some(player) {
            Some(GameError::NotOwner)
        } else if self.territory(territory).building.is_some() {
            Some(GameError::AlreadyBuilt)
        } else if self.player(player).gold < building.spec_cost() {
            Some(GameError::NotEnoughGold)
        } else {
            None
        }
    }

    /// The player after paying for and receiving `building`.
    pub open spec fn player_after_build(p: Player, building: BuildingType) -> Player {
        Player {
            gold: (p.gold - building.spec_cost()) as u32,
            max_population: if p.max_population + building.spec_max_population_bonus()
                > u32::MAX {
                u32::MAX
            } else {
                (p.max_population + building.spec_max_population_bonus()) as u32
            },
            ..p
        }
    }

    /// The world after `player` has built `building` on `territory` is
    /// `self`, given that it was `before`.
    pub open spec fn follows_build(
        self,
        before: GameState,
        player: u128,
        territory: u128,
        building: BuildingType,
    ) -> bool {
        &&& self.same_clock(before)
        &&& self.same_entities(before)
        &&& forall|i: int|
            0 <= i < before.territories@.len() ==> #[trigger] self.territories@[i]
                == if before.territories@[i].id == territory {
                Territory { building: Some(building), ..before.territories@[i] }
            } else {
                before.territories@[i]
            }
        &&& forall|i: int|
            0 <= i < before.players@.len() ==> #[trigger] self.players@[i]
                == if before.players@[i].id == player {
                Self::player_after_build(before.players@[i], building)
            } else {
                before.players@[i]
            }
    }

    /// A territory is built on once: after a build, every further build on
    /// the same territory is refused, whoever asks and whatever they own.
    pub proof fn lemma_second_build_refused(
        self,
        before: GameState,
        player: u128,
        territory: u128,
        first: BuildingType,
        anyone: u128,
        second: BuildingType,
    )
        requires
            before.valid(),
            self.valid(),
            before.build_error(player, territory, first).is_none(),
            self.follows_build(before, player, territory, first),
        ensures
            self.build_error(anyone, territory, second).is_some(),
    {
        before.lemma_slots();
        self.lemma_slots();
        let s = before.territory_slot(territory);
        assert(self.territories@[s].id == territory);
        assert(self.territories@[s].building == Some(first));
    }

    /// The number of players that are alive among the first `n`.
    pub open spec fn alive_count(self, n: int) -> nat
        decreases n,
    {
        if n <= 0 {
            0
        } else {
            self.alive_count(n - 1) + if self.players@[n - 1].is_alive {
                1nat
            } else {
                0nat
            }
        }
    }

    /// The slot of the last player alive among the first `n`; -1 if there
    /// is none.
    pub open spec fn last_alive(self, n: int) -> int
        decreases n,
    {
        if n <= 0 {
            -1
        } else if self.players@[n - 1].is_alive {
            n - 1
        } else {
            self.last_alive(n - 1)
        }
    }

    /// The statistics of the game once it is over, which it is when exactly
    /// one player is alive: they are about that player.
    pub open spec fn spec_game_over(self) -> Option<GameStats> {
        let n = self.players@.len() as int;
        if self.alive_count(n) == 1 {
            let winner = self.players@[self.last_alive(n)];
            Some(
                GameStats {
                    winner: winner.id,
                    game_duration_seconds: self.spec_game_time_seconds() as u64,
                    territories_captured: winner.territories_controlled,
                    total_battles: 0,
                    final_score: Self::final_score(winner) as u32,
                },
            )
        } else {
            None
        }
    }

    /// `territories_controlled * 100 + gold / 10`, held to 32 bits.
    pub open spec fn final_score(p: Player) -> nat {
        let score = p.territories_controlled as nat * 100 + p.gold as nat / 10;
        if score > u32::MAX {
            u32::MAX as nat
        } else {
            score
        }
    }
}

/// A world with its lookup tables.
pub struct GameEngine {
    pub state: GameState,
    /// Slot of each territory identifier; built once, by `new`.
    pub territory_map: HashMap<u128, usize>,
    /// Slot of each player identifier; built once, by `new`.
    pub player_map: HashMap<u128, usize>,
    pub tick_rate_ms: u64,
}

impl GameEngine {
    /// The lookup tables hold exactly the identifiers of the world, each
    /// with its slot.
    pub open spec fn index_ok(self) -> bool {
        &&& forall|k: u128| #[trigger]
            self.territory_map@.contains_key(k) ==> self.territory_map@[k]
                < self.state.territories@.len()
                && self.state.territories@[self.territory_map@[k] as int].id == k
        &&& forall|i: int|
            0 <= i < self.state.territories@.len() ==> self.territory_map@.contains_key(
                (#[trigger] self.state.territories@[i]).id,
            )
        &&& forall|k: u128| #[trigger]
            self.player_map@.contains_key(k) ==> self.player_map@[k] < self.state.players@.len()
                && self.state.players@[self.player_map@[k] as int].id == k
        &&& forall|i: int|
            0 <= i < self.state.players@.len() ==> self.player_map@.contains_key(
                (#[trigger] self.state.players@[i]).id,
            )
    }

    /// Two engines share their lookup tables and tick period.
    pub open spec fn same_index(self, other: GameEngine) -> bool {
        &&& self.territory_map == other.territory_map
        &&& self.player_map == other.player_map
        &&& self.tick_rate_ms == other.tick_rate_ms
    }

    /// The engine's invariant: a valid world, indexed.
    pub open spec fn wf(self) -> bool {
        &&& self.state.valid()
        &&& self.index_ok()
    }

    /// What a well-formed engine guarantees of its world: every territory
    /// has a neighbour and is neutral or owned by a player of the world,
    /// and every player's ratios are at most 1.0 and the population within
    /// its cap.
    pub proof fn lemma_world_invariants(self)
        requires
            self.wf(),
        ensures
            forall|i: int|
                0 <= i < self.state.territories@.len() ==> {
                    &&& (#[trigger] self.state.territories@[i]).neighbors@.len() >= 1
                    &&& self.state.territories@[i].owner.is_none() || self.state.has_player(
                        self.state.territories@[i].owner.unwrap(),
                    )
                },
            forall|i: int|
                0 <= i < self.state.players@.len() ==> {
                    &&& (#[trigger] self.state.players@[i]).troop_ratio <= RATIO_SCALE
                    &&& self.state.players@[i].attack_ratio <= RATIO_SCALE
                    &&& self.state.players@[i].population <= self.state.players@[i].max_population
                },
    {
        assert forall|i: int| 0 <= i < self.state.players@.len() implies {
            &&& (#[trigger] self.state.players@[i]).troop_ratio <= RATIO_SCALE
            &&& self.state.players@[i].attack_ratio <= RATIO_SCALE
            &&& self.state.players@[i].population <= self.state.players@[i].max_population
        } by {
            assert(self.state.players@[i].valid());
        }
    }

    /// An engine stays well formed when its entities keep their identifiers
    /// and the new world is valid.
    pub proof fn lemma_wf_kept(self, before: GameEngine)
        requires
            before.wf(),
            self.same_index(before),
            self.state.same_entities(before.state),
            self.state.valid(),
        ensures
            self.wf(),
    {
        assert forall|k: u128| #[trigger] self.territory_map@.contains_key(k) implies {
            self.territory_map@[k] < self.state.territories@.len()
                && self.state.territories@[self.territory_map@[k] as int].id == k
        } by {
            let s = before.territory_map@[k] as int;
            assert(before.state.territories@[s].id == k);
            assert(self.state.territories@[s].id == before.state.territories@[s].id);
        }
        assert forall|i: int| 0 <= i < self.state.territories@.len() implies {
            self.territory_map@.contains_key((#[trigger] self.state.territories@[i]).id)
        } by {
            assert(self.state.territories@[i].id == before.state.territories@[i].id);
        }
        assert forall|k: u128| #[trigger] self.player_map@.contains_key(k) implies {
            self.player_map@[k] < self.state.players@.len()
                && self.state.players@[self.player_map@[k] as int].id == k
        } by {
            let s = before.player_map@[k] as int;
            assert(before.state.players@[s].id == k);
            assert(self.state.players@[s].id == before.state.players@[s].id);
        }
        assert forall|i: int| 0 <= i < self.state.players@.len() implies {
            self.player_map@.contains_key((#[trigger] self.state.players@[i]).id)
        } by {
            assert(self.state.players@[i].id == before.state.players@[i].id);
        }
    }

    /// A world with the same identifiers and the same map, whose owners are
    /// those of before or other players of the world, is valid when its
    /// players are and its speed is in range.
    pub proof fn lemma_valid_kept(after: GameState, before: GameState)
        requires
            before.valid(),
            after.same_entities(before),
            MIN_SPEED <= after.game_speed <= MAX_SPEED,
            forall|i: int| 0 <= i < after.players@.len() ==> (#[trigger] after.players@[i]).valid(),
            forall|i: int|
                0 <= i < after.territories@.len() ==> (#[trigger] after.territories@[i]).neighbors
                    == before.territories@[i].neighbors,
            forall|i: int|
                0 <= i < after.territories@.len() ==> {
                    ||| (#[trigger] after.territories@[i]).owner == before.territories@[i].owner
                    ||| (after.territories@[i].owner.is_some() && before.has_player(
                        after.territories@[i].owner.unwrap(),
                    ))
                },
        ensures
            after.valid(),
    {
        assert forall|i: int, j: int| 0 <= i < j < after.territories@.len() implies
            #[trigger] after.territories@[i].id != #[trigger] after.territories@[j].id by {
            assert(before.territories@[i].id != before.territories@[j].id);
        }
        assert forall|i: int, j: int|
            0 <= i < after.territories@.len() && 0 <= j < after.territories@.len()
                && #[trigger] after.territories@[i].neighbors@.contains(
                after.territories@[j].id,
            ) implies after.territories@[j].neighbors@.contains(after.territories@[i].id) by {
            assert(after.territories@[i].neighbors == before.territories@[i].neighbors);
            assert(after.territories@[j].neighbors == before.territories@[j].neighbors);
            assert(after.territories@[i].id == before.territories@[i].id);
            assert(after.territories@[j].id == before.territories@[j].id);
            assert(before.territories@[i].neighbors@.contains(before.territories@[j].id));
        }
        assert forall|i: int, j: int| 0 <= i < j < after.players@.len() implies
            #[trigger] after.players@[i].id != #[trigger] after.players@[j].id by {
            assert(before.players@[i].id != before.players@[j].id);
        }
        assert forall|i: int| 0 <= i < after.territories@.len() implies match (
        #[trigger] after.territories@[i]).owner {
            Some(o) => after.has_player(o),
            None => true,
        } by {
            match after.territories@[i].owner {
                Some(o) => {
                    assert(before.territories@[i].owner == Some(o) ==> before.has_player(o));
                    assert(before.has_player(o));
                    let s = choose|s: int|
                        0 <= s < before.players@.len() && #[trigger] before.players@[s].id == o;
                    assert(after.players@[s].id == o);
                },
                None => {},
            }
        }
    }

    /// Indexes a valid world.
    pub fn new(state: GameState, tick_rate_ms: u64) -> (r: Self)
        requires
            state.valid(),
        ensures
            r.wf(),
            r.state == state,
            r.tick_rate_ms == tick_rate_ms,
    {
        let mut territory_map: HashMap<u128, usize> = HashMap::new();
        let mut i: usize = 0;
        while i < state.territories.len()
            invariant
                i <= state.territories@.len(),
                forall|k: u128| #[trigger]
                    territory_map@.contains_key(k) ==> territory_map@[k] < i
                        && state.territories@[territory_map@[k] as int].id == k,
                forall|j: int|
                    0 <= j < i ==> territory_map@.contains_key(
                        (#[trigger] state.territories@[j]).id,
                    ),
            decreases state.territories@.len() - i,
        {
            territory_map.insert(state.territories[i].id, i);
            i += 1;
        }
        let mut player_map: HashMap<u128, usize> = HashMap::new();
        let mut p: usize = 0;
        while p < state.players.len()
            invariant
                p <= state.players@.len(),
                forall|k: u128| #[trigger]
                    player_map@.contains_key(k) ==> player_map@[k] < p
                        && state.players@[player_map@[k] as int].id == k,
                forall|j: int|
                    0 <= j < p ==> player_map@.contains_key((#[trigger] state.players@[j]).id),
            decreases state.players@.len() - p,
        {
            player_map.insert(state.players[p].id, p);
            p += 1;
        }
        Self { state, territory_map, player_map, tick_rate_ms }
    }

    /// The slot of a territory, if the world has it.
    pub fn territory_index(&self, id: TerritoryId) -> (r: Option<usize>)
        requires
            self.wf(),
        ensures
            match r {
                Some(i) => self.state.has_territory(id.0) && i == self.state.territory_slot(id.0)
                    && i < self.state.territories@.len() && self.state.territories@[i as int].id
                    == id.0,
                None => !self.state.has_territory(id.0),
            },
    {
        proof {
            self.state.lemma_slots();
        }
        match self.territory_map.get(&id.0) {
            Some(i) => {
                assert(self.territory_map@.contains_key(id.0));
                assert(self.state.territories@[*i as int].id == id.0);
                Some(*i)
            },
            None => {
                assert(!self.territory_map@.contains_key(id.0));
                None
            },
        }
    }

    /// The slot of a player, if the world has them.
    pub fn player_index(&self, id: PlayerId) -> (r: Option<usize>)
        requires
            self.wf(),
        ensures
            match r {
                Some(i) => self.state.has_player(id.0) && i == self.state.player_slot(id.0) && i
                    < self.state.players@.len() && self.state.players@[i as int].id == id.0,
                None => !self.state.has_player(id.0),
            },
    {
        proof {
            self.state.lemma_slots();
        }
        match self.player_map.get(&id.0) {
            Some(i) => {
                assert(self.player_map@.contains_key(id.0));
                assert(self.state.players@[*i as int].id == id.0);
                Some(*i)
            },
            None => {
                assert(!self.player_map@.contains_key(id.0));
                None
            },
        }
    }

    /// Get territory by ID.
    pub fn get_territory(&self, id: TerritoryId) -> (r: Result<&Territory, GameError>)
        requires
            self.wf(),
        ensures
            match r {
                Ok(t) => self.state.has_territory(id.0) && *t == self.state.territory(id.0)
                    && t.id == id.0,
                Err(e) => !self.state.has_territory(id.0) && e == GameError::TerritoryNotFound,
            },
    {
        match self.territory_index(id) {
            Some(i) => Ok(&self.state.territories[i]),
            None => Err(GameError::TerritoryNotFound),
        }
    }

    /// Get player by ID.
    pub fn get_player(&self, id: PlayerId) -> (r: Result<&Player, GameError>)
        requires
            self.wf(),
        ensures
            match r {
                Ok(p) => self.state.has_player(id.0) && *p == self.state.player(id.0) && p.id
                    == id.0,
                Err(e) => !self.state.has_player(id.0) && e == GameError::PlayerNotFound,
            },
    {
        match self.player_index(id) {
            Some(i) => Ok(&self.state.players[i]),
            None => Err(GameError::PlayerNotFound),
        }
    }

    /// Get mutable territory by ID. What the caller writes through the
    /// reference lands in the territory's slot; the rest of the engine is
    /// as before.
    pub fn get_territory_mut(&mut self, id: TerritoryId) -> (r: Result<&mut Territory, GameError>)
        requires
            old(self).wf(),
        ensures
            match r {
                Ok(t) => {
                    &&& old(self).state.has_territory(id.0)
                    &&& *t == old(self).state.territory(id.0)
                    &&& final(self).state.territories@ == old(self).state.territories@.update(
                        old(self).state.territory_slot(id.0),
                        *final(t),
                    )
                    &&& final(self).state.players == old(self).state.players
                    &&& final(self).state.same_clock(old(self).state)
                    &&& final(self).same_index(*old(self))
                },
                Err(e) => !old(self).state.has_territory(id.0) && e == GameError::TerritoryNotFound
                    && *final(self) == *old(self),
            },
    {
        match self.territory_index(id) {
            Some(i) => Ok(&mut self.state.territories[i]),
            None => Err(GameError::TerritoryNotFound),
        }
    }

    /// Get mutable player by ID. What the caller writes through the
    /// reference lands in the player's slot; the rest of the engine is as
    /// before.
    pub fn get_player_mut(&mut self, id: PlayerId) -> (r: Result<&mut Player, GameError>)
        requires
            old(self).wf(),
        ensures
            match r {
                Ok(p) => {
                    &&& old(self).state.has_player(id.0)
                    &&& *p == old(self).state.player(id.0)
                    &&& final(self).state.players@ == old(self).state.players@.update(
                        old(self).state.player_slot(id.0),
                        *final(p),
                    )
                    &&& final(self).state.territories == old(self).state.territories
                    &&& final(self).state.same_clock(old(self).state)
                    &&& final(self).same_index(*old(self))
                },
                Err(e) => !old(self).state.has_player(id.0) && e == GameError::PlayerNotFound
                    && *final(self) == *old(self),
            },
    {
        match self.player_index(id) {
            Some(i) => Ok(&mut self.state.players[i]),
            None => Err(GameError::PlayerNotFound),
        }
    }

    /// Set troop ratio for a player, held to at most 1.0.
    pub fn set_troop_ratio(&mut self, player_id: PlayerId, ratio: u32) -> (r: Result<
        (),
        GameError,
    >)
        requires
            old(self).wf(),
        ensures
            final(self).wf(),
            final(self).same_index(*old(self)),
            final(self).state.same_clock(old(self).state),
            final(self).state.territories == old(self).state.territories,
            final(self).state.players@.len() == old(self).state.players@.len(),
            old(self).state.owners_alive() ==> final(self).state.owners_alive(),
            r.is_ok() <==> old(self).state.has_player(player_id.0),
            r.is_err() ==> r == Err::<(), GameError>(GameError::PlayerNotFound),
            forall|i: int|
                0 <= i < old(self).state.players@.len() ==>
                    #[trigger] final(self).state.players@[i] == if old(self).state.players@[i].id ==
                        player_id.0 {
                    Player {
                        troop_ratio: if ratio > RATIO_SCALE {
                            RATIO_SCALE
                        } else {
                            ratio
                        },
                        ..old(self).state.players@[i]
                    }
                } else {
                    old(self).state.players@[i]
                },
    {
        let clamped: u32 = if ratio > RATIO_SCALE {
            RATIO_SCALE
        } else {
            ratio
        };
        match self.player_index(player_id) {
            Some(i) => {
                self.state.players[i].troop_ratio = clamped;
                proof {
                    old(self).state.lemma_slots();
                    Self::lemma_valid_kept(self.state, old(self).state);
                    self.lemma_wf_kept(*old(self));
                    if old(self).state.owners_alive() {
                        self.state.lemma_owners_kept(old(self).state);
                    }
                }
                Ok(())
            },
            None => Err(GameError::PlayerNotFound),
        }
    }

    /// Set attack ratio for a player, held to at most 1.0.
    pub fn set_attack_ratio(&mut self, player_id: PlayerId, ratio: u32) -> (r: Result<
        (),
        GameError,
    >)
        requires
            old(self).wf(),
        ensures
            final(self).wf(),
            final(self).same_index(*old(self)),
            final(self).state.same_clock(old(self).state),
            final(self).state.territories == old(self).state.territories,
            final(self).state.players@.len() == old(self).state.players@.len(),
            old(self).state.owners_alive() ==> final(self).state.owners_alive(),
            r.is_ok() <==> old(self).state.has_player(player_id.0),
            r.is_err() ==> r == Err::<(), GameError>(GameError::PlayerNotFound),
            forall|i: int|
                0 <= i < old(self).state.players@.len() ==>
                    #[trigger] final(self).state.players@[i] == if old(self).state.players@[i].id ==
                        player_id.0 {
                    Player {
                        attack_ratio: if ratio > RATIO_SCALE {
                            RATIO_SCALE
                        } else {
                            ratio
                        },
                        ..old(self).state.players@[i]
                    }
                } else {
                    old(self).state.players@[i]
                },
    {
        let clamped: u32 = if ratio > RATIO_SCALE {
            RATIO_SCALE
        } else {
            ratio
        };
        match self.player_index(player_id) {
            Some(i) => {
                self.state.players[i].attack_ratio = clamped;
                proof {
                    old(self).state.lemma_slots();
                    Self::lemma_valid_kept(self.state, old(self).state);
                    self.lemma_wf_kept(*old(self));
                    if old(self).state.owners_alive() {
                        self.state.lemma_owners_kept(old(self).state);
                    }
                }
                Ok(())
            },
            None => Err(GameError::PlayerNotFound),
        }
    }

    /// Build a structure in a territory.
    pub fn build_structure(
        &mut self,
        player_id: PlayerId,
        territory_id: TerritoryId,
        building_type: BuildingType,
    ) -> (r: Result<(), GameError>)
        requires
            old(self).wf(),
        ensures
            final(self).wf(),
            final(self).same_index(*old(self)),
            final(self).state.same_clock(old(self).state),
            final(self).state.same_entities(old(self).state),
            old(self).state.owners_alive() ==> final(self).state.owners_alive(),
            match old(self).state.build_error(player_id.0, territory_id.0, building_type) {
                Some(e) => r == Err::<(), GameError>(e) && final(self).state == old(self).state,
                None => r.is_ok() && final(self).state.follows_build(
                    old(self).state,
                    player_id.0,
                    territory_id.0,
                    building_type,
                ),
            },
    {
        proof {
            self.state.lemma_slots();
        }
        let t = match self.territory_index(territory_id) {
            Some(t) => t,
            None => {
                return Err(GameError::TerritoryNotFound);
            },
        };
        if !self.state.territories[t].owned_by(player_id.0) {
            return Err(GameError::NotOwner);
        }
        if self.state.territories[t].building.is_some() {
            return Err(GameError::AlreadyBuilt);
        }
        assert(self.state.has_player(player_id.0));
        let p = match self.player_index(player_id) {
            Some(p) => p,
            None => {
                return Err(GameError::PlayerNotFound);
            },
        };
        let cost = building_type.cost();
        if self.state.players[p].gold < cost {
            return Err(GameError::NotEnoughGold);
        }
        let gold: u32 = self.state.players[p].gold - cost;
        let cap: u32 = self.state.players[p].max_population.saturating_add(
            building_type.max_population_bonus(),
        );
        self.state.players[p].gold = gold;
        self.state.players[p].max_population = cap;
        self.state.territories[t].building = Some(building_type);
        proof {
            Self::lemma_valid_kept(self.state, old(self).state);
            self.lemma_wf_kept(*old(self));
            if old(self).state.owners_alive() {
                self.state.lemma_owners_kept(old(self).state);
            }
        }
        Ok(())
    }

    /// The statistics of a finished game: `Some` exactly when one player is
    /// alive, and then about that player.
    pub fn check_game_over(&self) -> (r: Option<GameStats>)
        ensures
            r == self.state.spec_game_over(),
    {
        let mut alive: usize = 0;
        let mut winner: usize = 0;
        let mut i: usize = 0;
        while i < self.state.players.len()
            invariant
                i <= self.state.players@.len(),
                alive == self.state.alive_count(i as int),
                alive <= i,
                alive > 0 ==> winner == self.state.last_alive(i as int) && winner < i,
            decreases self.state.players@.len() - i,
        {
            if self.state.players[i].is_alive {
                alive += 1;
                winner = i;
            }
            i += 1;
        }
        if alive == 1 {
            let w = &self.state.players[winner];
            let score: u64 = (w.territories_controlled as u64) * 100 + (w.gold as u64) / 10;
            Some(
                GameStats {
                    winner: w.id,
                    game_duration_seconds: self.state.game_time_seconds(),
                    territories_captured: w.territories_controlled,
                    total_battles: 0,
                    final_score: if score > 0xffff_ffff {
                        u32::MAX
                    } else {
                        score as u32
                    },
                },
            )
        } else {
            None
        }
    }

    /// Pause/unpause the game.
    pub fn set_paused(&mut self, paused: bool)
        ensures
            *final(self) == (GameEngine {
                state: GameState { is_paused: paused, ..old(self).state },
                ..*old(self)
            }),
            old(self).wf() ==> final(self).wf(),
    {
        self.state.is_paused = paused;
    }

    /// Set game speed, held between 0.5 and 4.0.
    pub fn set_game_speed(&mut self, speed: u32)
        ensures
            *final(self) == (GameEngine {
                state: GameState {
                    game_speed: if speed < MIN_SPEED {
                        MIN_SPEED
                    } else if speed > MAX_SPEED {
                        MAX_SPEED
                    } else {
                        speed
                    },
                    ..old(self).state
                },
                ..*old(self)
            }),
            old(self).wf() ==> final(self).wf(),
    {
        self.state.game_speed = if speed < MIN_SPEED {
            MIN_SPEED
        } else if speed > MAX_SPEED {
            MAX_SPEED
        } else {
            speed
        };
    }
}

} // verus!
