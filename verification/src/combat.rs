//! Combat resolution: the losses of one battle, and the attack command that
//! applies them to the world.
use crate::engine::GameEngine;
use crate::types::{
    building_defense, BuildingType, CombatResult, GameError, GameState, Player, PlayerId,
    TerrainType, Territory, TerritoryId,
};
use vstd::prelude::*;

verus! {

/// Losses before terrain and buildings count: the attacker's, then the
/// defender's. The larger force wins; equal forces wear each other down.
pub open spec fn base_losses(attacker_troops: nat, defender_troops: nat) -> (nat, nat) {
    if attacker_troops > defender_troops {
        (defender_troops * 3 / 10, defender_troops)
    } else if attacker_troops < defender_troops {
        (attacker_troops, attacker_troops / 2)
    } else {
        (attacker_troops * 7 / 10, defender_troops * 7 / 10)
    }
}

/// The defender's losses once terrain and building have reduced them.
pub open spec fn reduced_losses(
    base: nat,
    terrain: TerrainType,
    building: Option<BuildingType>,
) -> nat {
    base * terrain.spec_defense_multiplier() * building_defense(building) / 10_000
}

/// The attacker's losses, the defender's losses, and whether the territory
/// falls: it does when the defender loses at least the troops it had.
pub open spec fn combat_outcome(
    attacker_troops: nat,
    defender_troops: nat,
    terrain: TerrainType,
    building: Option<BuildingType>,
) -> (nat, nat, bool) {
    let base = base_losses(attacker_troops, defender_troops);
    let defender_losses = reduced_losses(base.1, terrain, building);
    (base.0, defender_losses, defender_losses >= defender_troops)
}

/// Neither side loses more than it brought, whatever the terrain.
pub proof fn lemma_losses_bounded(
    attacker_troops: nat,
    defender_troops: nat,
    terrain: TerrainType,
    building: Option<BuildingType>,
)
    ensures
        combat_outcome(attacker_troops, defender_troops, terrain, building).0 <= attacker_troops,
        combat_outcome(attacker_troops, defender_troops, terrain, building).1 <= base_losses(
            attacker_troops,
            defender_troops,
        ).1,
        base_losses(attacker_troops, defender_troops).1 <= defender_troops,
{
    let base = base_losses(attacker_troops, defender_troops).1;
    let m = terrain.spec_defense_multiplier() * building_defense(building);
    assert(m <= 10_000) by (nonlinear_arith)
        requires
            m == terrain.spec_defense_multiplier() * building_defense(building),
            terrain.spec_defense_multiplier() <= 100,
            building_defense(building) <= 100,
    ;
    assert(base * terrain.spec_defense_multiplier() * building_defense(building) == base * m)
        by (nonlinear_arith)
        requires
            m == terrain.spec_defense_multiplier() * building_defense(building),
    ;
    assert(base * m / 10_000 <= base) by (nonlinear_arith)
        requires
            m <= 10_000,
    ;
}

/// Calculate combat outcome based on troop counts and the defender's
/// terrain and building.
pub fn calculate_combat(
    attacker_troops: u32,
    defender_troops: u32,
    terrain: TerrainType,
    building: Option<BuildingType>,
) -> (r: (u32, u32, bool))
    ensures
        r.0 == combat_outcome(attacker_troops as nat, defender_troops as nat, terrain, building).0,
        r.1 == combat_outcome(attacker_troops as nat, defender_troops as nat, terrain, building).1,
        r.2 == combat_outcome(attacker_troops as nat, defender_troops as nat, terrain, building).2,
        r.0 <= attacker_troops,
{
    proof {
        lemma_losses_bounded(attacker_troops as nat, defender_troops as nat, terrain, building);
    }
    let a: u64 = attacker_troops as u64;
    let d: u64 = defender_troops as u64;
    let (attacker_losses, base): (u64, u64) = if a > d {
        (d * 3 / 10, d)
    } else if a < d {
        (a, a / 2)
    } else {
        (a * 7 / 10, d * 7 / 10)
    };
    let terrain_part: u64 = terrain.defense_multiplier() as u64;
    let building_part: u64 = match building {
        Some(b) => b.defense_multiplier() as u64,
        None => 100,
    };
    assert(base * terrain_part <= 0xffff_ffff * 100) by (nonlinear_arith)
        requires
            base <= 0xffff_ffff,
            terrain_part <= 100,
    ;
    assert(base * terrain_part * building_part <= 0xffff_ffff * 100 * 100) by (nonlinear_arith)
        requires
            base * terrain_part <= 0xffff_ffff * 100,
            building_part <= 100,
    ;
    let defender_losses: u64 = base * terrain_part * building_part / 10_000;
    (attacker_losses as u32, defender_losses as u32, defender_losses >= d)
}

/// `x - y`, or 0 where `y` is the larger.
pub open spec fn minus_or_zero(x: u32, y: u32) -> u32 {
    if x >= y {
        (x - y) as u32
    } else {
        0
    }
}

impl GameState {
    /// The attacker's error for an attack command, or `None` where the
    /// battle takes place.
    pub open spec fn attack_error(self, attacker: u128, from: u128, to: u128) -> Option<
        GameError,
    > {
        if !self.has_territory(from) {
            Some(GameError::TerritoryNotFound)
        } else if self.territory(from).owner != Some(attacker) {
            Some(GameError::NotAttackerTerritory)
        } else if !self.territory(from).neighbors@.contains(to) {
            Some(GameError::NotNeighbors)
        } else if !self.has_territory(to) {
            Some(GameError::TerritoryNotFound)
        } else if self.territory(to).owner == Some(attacker) {
            Some(GameError::OwnTerritory)
        } else if self.player(attacker).spec_attack_force() == 0 {
            Some(GameError::NoTroops)
        } else {
            None
        }
    }

    /// The record of the battle that an accepted attack command fights.
    pub open spec fn attack_result(self, attacker: u128, from: u128, to: u128) -> CombatResult {
        let force = self.player(attacker).spec_attack_force();
        let target = self.territory(to);
        let outcome = combat_outcome(force, target.troops as nat, target.terrain, target.building);
        CombatResult {
            attacker_id: attacker,
            defender_id: target.owner,
            from_territory: from,
            to_territory: to,
            attacker_troops_committed: force as u32,
            defender_troops: target.troops,
            attacker_losses: outcome.0 as u32,
            defender_losses: outcome.1 as u32,
            territory_conquered: outcome.2,
        }
    }

    /// The target territory after the battle `c`.
    pub open spec fn territory_after_attack(t: Territory, c: CombatResult) -> Territory {
        if c.territory_conquered {
            Territory {
                owner: Some(c.attacker_id),
                troops: (c.attacker_troops_committed - c.attacker_losses) as u32,
                ..t
            }
        } else {
            Territory { troops: minus_or_zero(c.defender_troops, c.defender_losses), ..t }
        }
    }

    /// A player after the battle `c`: the attacker and the target's owner
    /// lose population, everybody else is as before.
    pub open spec fn player_after_attack(p: Player, c: CombatResult) -> Player {
        if p.id == c.attacker_id {
            Player { population: minus_or_zero(p.population, c.attacker_losses), ..p }
        } else if c.defender_id == Some(p.id) {
            Player { population: minus_or_zero(p.population, c.defender_losses), ..p }
        } else {
            p
        }
    }

    /// The world after the battle `c` is `self`, given that it was `before`.
    pub open spec fn follows_attack(self, before: GameState, c: CombatResult) -> bool {
        &&& self.same_clock(before)
        &&& self.same_entities(before)
        &&& forall|i: int|
            0 <= i < before.territories@.len() ==>
                #[trigger] self.territories@[i] == if before.territories@[i].id
                == c.to_territory {
                Self::territory_after_attack(before.territories@[i], c)
            } else {
                before.territories@[i]
            }
        &&& forall|i: int|
            0 <= i < before.players@.len() ==> #[trigger] self.players@[i]
                == Self::player_after_attack(before.players@[i], c)
    }

    /// A battle keeps every owner alive: the one who conquers owns the
    /// territory that the attack came from.
    pub proof fn lemma_attack_keeps_owners_alive(
        self,
        before: GameState,
        c: CombatResult,
        from_slot: int,
    )
        requires
            before.owners_alive(),
            self.follows_attack(before, c),
            0 <= from_slot < before.territories@.len(),
            before.territories@[from_slot].owner == Some(c.attacker_id),
        ensures
            self.owners_alive(),
    {
        reveal(GameState::owners_alive);
        assert forall|i: int, j: int|
            0 <= i < self.territories@.len() && 0 <= j < self.players@.len() && (
            #[trigger] self.territories@[i]).owner == Some(
                (#[trigger] self.players@[j]).id,
            ) implies self.players@[j].is_alive by {
            assert(self.players@[j] == Self::player_after_attack(before.players@[j], c));
            if self.territories@[i].owner == before.territories@[i].owner {
                assert(before.territories@[i].owner == Some(before.players@[j].id));
            } else {
                assert(before.territories@[from_slot].owner == Some(before.players@[j].id));
            }
        }
    }

    /// An attack that commits no troops is refused.
    pub proof fn lemma_attack_needs_force(self, attacker: u128, from: u128, to: u128)
        requires
            self.player(attacker).spec_attack_force() == 0,
        ensures
            self.attack_error(attacker, from, to).is_some(),
    {
    }

    /// An attack on a territory that is no neighbour of the source, or that
    /// the attacker owns, is refused.
    pub proof fn lemma_attack_needs_foreign_neighbor(self, attacker: u128, from: u128, to: u128)
        requires
            !self.territory(from).neighbors@.contains(to) || (self.has_territory(to)
                && self.territory(to).owner == Some(attacker)),
        ensures
            self.attack_error(attacker, from, to).is_some(),
    {
    }
}

impl GameEngine {
    /// Execute an attack from one territory to another. A refused attack
    /// leaves the world as it was.
    pub fn execute_attack(
        &mut self,
        attacker_id: PlayerId,
        from_territory: TerritoryId,
        to_territory: TerritoryId,
    ) -> (r: Result<CombatResult, GameError>)
        requires
            old(self).wf(),
        ensures
            final(self).wf(),
            final(self).same_index(*old(self)),
            old(self).state.owners_alive() ==> final(self).state.owners_alive(),
            match old(self).state.attack_error(attacker_id.0, from_territory.0, to_territory.0) {
                Some(e) => r == Err::<CombatResult, GameError>(e) && final(self).state ==
                    old(self).state,
                None => r == Ok::<CombatResult, GameError>(
                    old(self).state.attack_result(attacker_id.0, from_territory.0, to_territory.0),
                ) && final(self).state.follows_attack(old(self).state, r.unwrap()),
            },
    {
        proof {
            self.state.lemma_slots();
        }
        let from = match self.territory_index(from_territory) {
            Some(i) => i,
            None => {
                return Err(GameError::TerritoryNotFound);
            },
        };
        if !self.state.territories[from].owned_by(attacker_id.0) {
            return Err(GameError::NotAttackerTerritory);
        }
        if !self.state.territories[from].has_neighbor(to_territory.0) {
            return Err(GameError::NotNeighbors);
        }
        let to = match self.territory_index(to_territory) {
            Some(i) => i,
            None => {
                return Err(GameError::TerritoryNotFound);
            },
        };
        if self.state.territories[to].owned_by(attacker_id.0) {
            return Err(GameError::OwnTerritory);
        }
        let defender_id = self.state.territories[to].owner;
        assert(self.state.has_player(attacker_id.0));
        let attacker = match self.player_index(attacker_id) {
            Some(i) => i,
            None => {
                return Err(GameError::PlayerNotFound);
            },
        };
        let attacker_troops = self.state.players[attacker].attack_force();
        if attacker_troops == 0 {
            return Err(GameError::NoTroops);
        }
        let defender_troops = self.state.territories[to].troops;
        let (attacker_losses, defender_losses, territory_conquered) = calculate_combat(
            attacker_troops,
            defender_troops,
            self.state.territories[to].terrain,
            self.state.territories[to].building,
        );
        let result = CombatResult {
            attacker_id: attacker_id.0,
            defender_id,
            from_territory: from_territory.0,
            to_territory: to_territory.0,
            attacker_troops_committed: attacker_troops,
            defender_troops,
            attacker_losses,
            defender_losses,
            territory_conquered,
        };

        let defender: Option<usize> = match defender_id {
            Some(d) => {
                assert(self.state.territories@[to as int].owner == Some(d));
                assert(self.state.has_player(d));
                self.player_index(PlayerId(d))
            },
            None => None,
        };
        let population = self.state.players[attacker].population.saturating_sub(attacker_losses);
        self.state.players[attacker].population = population;
        match defender {
            Some(defender) => {
                let population = self.state.players[defender].population.saturating_sub(
                    defender_losses,
                );
                self.state.players[defender].population = population;
            },
            None => {},
        }
        if territory_conquered {
            self.state.territories[to].owner = Some(attacker_id.0);
            self.state.territories[to].troops = attacker_troops - attacker_losses;
        } else {
            self.state.territories[to].troops = defender_troops.saturating_sub(defender_losses);
        }
        proof {
            Self::lemma_valid_kept(self.state, old(self).state);
            self.lemma_wf_kept(*old(self));
            if old(self).state.owners_alive() {
                self.state.lemma_attack_keeps_owners_alive(old(self).state, result, from as int);
            }
        }
        Ok(result)
    }

    /// Distribute a player's troops evenly across the territories that the
    /// player owns. Nothing changes for an unknown player or one whose last
    /// recount found no territory.
    pub fn distribute_troops(&mut self, player_id: PlayerId)
        requires
            old(self).wf(),
        ensures
            final(self).wf(),
            final(self).same_index(*old(self)),
            final(self).state.same_clock(old(self).state),
            final(self).state.same_entities(old(self).state),
            final(self).state.players == old(self).state.players,
            old(self).state.owners_alive() ==> final(self).state.owners_alive(),
            forall|i: int|
                0 <= i < old(self).state.territories@.len() ==>
                    #[trigger] final(self).state.territories@[i] ==
                        old(self).state.garrisoned(i, player_id.0),
    {
        let p = match self.player_index(player_id) {
            Some(p) => p,
            None => {
                return ;
            },
        };
        let territory_count = self.state.players[p].territories_controlled;
        if territory_count == 0 {
            return ;
        }
        let share: u32 = self.state.players[p].troops() / territory_count;
        let mut i: usize = 0;
        while i < self.state.territories.len()
            invariant
                i <= self.state.territories@.len(),
                self.same_index(*old(self)),
                self.state.same_clock(old(self).state),
                self.state.players == old(self).state.players,
                self.state.territories@.len() == old(self).state.territories@.len(),
                old(self).state.has_player(player_id.0),
                old(self).state.player(player_id.0).territories_controlled == territory_count,
                territory_count > 0,
                share == old(self).state.player(player_id.0).spec_troops() / (
                territory_count as nat),
                forall|j: int|
                    0 <= j < i ==>
                        #[trigger] self.state.territories@[j] ==
                            old(self).state.garrisoned(j, player_id.0),
                forall|j: int|
                    i <= j < self.state.territories@.len() ==> #[trigger] self.state.territories@[j]
                        == old(self).state.territories@[j],
            decreases self.state.territories@.len() - i,
        {
            if self.state.territories[i].owned_by(player_id.0) {
                self.state.territories[i].troops = share;
            }
            i += 1;
        }
        proof {
            Self::lemma_valid_kept(self.state, old(self).state);
            self.lemma_wf_kept(*old(self));
            if old(self).state.owners_alive() {
                self.state.lemma_owners_kept(old(self).state);
            }
        }
    }
}

impl GameState {
    /// The territory in slot `i` once `player`'s troops are spread evenly
    /// over the territories that `player` owns: the share is the player's
    /// troops divided by the count of the last recount.
    pub open spec fn garrisoned(self, i: int, player: u128) -> Territory {
        let t = self.territories@[i];
        if self.has_player(player) && self.player(player).territories_controlled > 0 && t.owner
            == Some(player) {
            Territory {
                troops: (self.player(player).spec_troops() / (self.player(
                    player,
                ).territories_controlled as nat)) as u32,
                ..t
            }
        } else {
            t
        }
    }
}

} // verus!
