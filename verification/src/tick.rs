//! The tick: the clock, resource accrual, the recount of territories and
//! the elimination of players that hold none.
use crate::engine::GameEngine;
use crate::types::{building_gold, GameState, Player, PlayerId};
use vstd::arithmetic::div_mod::{lemma_div_is_ordered, lemma_div_multiples_vanish};
use vstd::prelude::*;

verus! {

/// `floor(base * bonus * tick_ms * speed / divisor)`.
pub open spec fn accrual(base: nat, bonus: nat, tick_ms: nat, speed: nat, divisor: nat) -> nat {
    ((base * bonus) * (tick_ms * speed)) / divisor
}

/// `x`, or the largest 32-bit value where `x` is beyond it.
pub open spec fn cap32(x: nat) -> u32 {
    if x > u32::MAX {
        u32::MAX
    } else {
        x as u32
    }
}

/// `x`, or the largest 64-bit value where `x` is beyond it.
pub open spec fn cap64(x: nat) -> u64 {
    if x > u64::MAX {
        u64::MAX
    } else {
        x as u64
    }
}

/// The accrual of one tick, held to 32 bits.
pub fn accrue(base: u64, bonus: u64, tick_ms: u64, speed: u32, divisor: u128) -> (r: u32)
    requires
        0 < divisor <= 0x40_0000_0000_0000_0000,
    ensures
        r ==
            cap32(accrual(base as nat, bonus as nat, tick_ms as nat, speed as nat, divisor as nat)),
{
    assert(base * bonus <= 0xffff_ffff_ffff_ffff * 0xffff_ffff_ffff_ffff) by (nonlinear_arith)
        requires
            base <= 0xffff_ffff_ffff_ffff,
            bonus <= 0xffff_ffff_ffff_ffff,
    ;
    assert(tick_ms * speed <= 0xffff_ffff_ffff_ffff * 0xffff_ffff) by (nonlinear_arith)
        requires
            tick_ms <= 0xffff_ffff_ffff_ffff,
            speed <= 0xffff_ffff,
    ;
    let a: u128 = (base as u128) * (bonus as u128);
    let b: u128 = (tick_ms as u128) * (speed as u128);
    match a.checked_mul(b) {
        Some(product) => {
            let q: u128 = product / divisor;
            if q > 0xffff_ffff {
                u32::MAX
            } else {
                q as u32
            }
        },
        None => {
            proof {
                let floor: int = 0x400_0000_0000_0000;
                assert(divisor * floor <= a * b) by (nonlinear_arith)
                    requires
                        0 < divisor <= 0x40_0000_0000_0000_0000,
                        floor == 0x400_0000_0000_0000,
                        a * b >= 0x1_0000_0000_0000_0000_0000_0000_0000_0000,
                ;
                lemma_div_is_ordered(divisor * floor, a * b, divisor as int);
                lemma_div_multiples_vanish(floor, divisor as int);
            }
            u32::MAX
        },
    }
}

impl GameState {
    /// How many of the first `n` territories `player` owns.
    pub open spec fn owned_count(self, player: u128, n: int) -> nat
        decreases n,
    {
        if n <= 0 {
            0
        } else {
            self.owned_count(player, n - 1) + if self.territories@[n - 1].owner == Some(player) {
                1nat
            } else {
                0nat
            }
        }
    }

    /// The growth bonuses, in percent, of those of the first `n`
    /// territories that `player` owns, summed: 20 for each forest.
    pub open spec fn growth_sum(self, player: u128, n: int) -> nat
        decreases n,
    {
        if n <= 0 {
            0
        } else {
            self.growth_sum(player, n - 1) + if self.territories@[n - 1].owner == Some(player) {
                self.territories@[n - 1].terrain.spec_growth_bonus()
            } else {
                0nat
            }
        }
    }

    /// The gold multipliers, terrain times building and so in hundredths of
    /// a percent, of those of the first `n` territories that `player` owns,
    /// summed.
    pub open spec fn gold_sum(self, player: u128, n: int) -> nat
        decreases n,
    {
        if n <= 0 {
            0
        } else {
            self.gold_sum(player, n - 1) + if self.territories@[n - 1].owner == Some(player) {
                self.territories@[n - 1].terrain.spec_gold_multiplier() * building_gold(
                    self.territories@[n - 1].building,
                )
            } else {
                0nat
            }
        }
    }

    /// The territories that `player` owns.
    pub open spec fn owned(self, player: u128) -> nat {
        self.owned_count(player, self.territories@.len() as int)
    }

    /// Population that `p` gains in one tick of `tick_rate_ms` milliseconds:
    /// ten per second and territory of the last recount, times the growth
    /// bonus. The bonus is one plus the summed growth bonuses of the owned
    /// territories divided by their number, that is one plus the share of
    /// forests times 0.2; it is one without territories.
    pub open spec fn population_growth(self, p: Player, tick_rate_ms: u64) -> nat {
        let n = self.territories@.len() as int;
        let base = 10 * (p.territories_controlled as nat);
        if self.owned(p.id) == 0 {
            accrual(base, 1, tick_rate_ms as nat, self.game_speed as nat, 1_000_000)
        } else {
            accrual(
                base,
                100 * self.owned(p.id) + self.growth_sum(p.id, n),
                tick_rate_ms as nat,
                self.game_speed as nat,
                100 * self.owned(p.id) * 1_000_000,
            )
        }
    }

    /// Gold that `p` earns in one tick of `tick_rate_ms` milliseconds: one
    /// per second and ten workers, times the gold bonus. The bonus is one
    /// plus the summed gold multipliers of the owned territories divided by
    /// their number, that is one plus their mean multiplier; it is one
    /// without territories.
    pub open spec fn gold_income(self, p: Player, tick_rate_ms: u64) -> nat {
        let n = self.territories@.len() as int;
        if self.owned(p.id) == 0 {
            accrual(p.spec_workers(), 1, tick_rate_ms as nat, self.game_speed as nat, 10_000_000)
        } else {
            accrual(
                p.spec_workers(),
                10_000 * self.owned(p.id) + self.gold_sum(p.id, n),
                tick_rate_ms as nat,
                self.game_speed as nat,
                10_000 * self.owned(p.id) * 10_000_000,
            )
        }
    }

    /// The player after one tick's accrual: an alive player's population
    /// grows up to its cap and the gold grows up to what 32 bits hold; an
    /// eliminated player is left alone.
    pub open spec fn accrued_player(self, p: Player, tick_rate_ms: u64) -> Player {
        if p.is_alive {
            Player {
                population: if p.population + self.population_growth(p, tick_rate_ms)
                    > p.max_population {
                    p.max_population
                } else {
                    (p.population + self.population_growth(p, tick_rate_ms)) as u32
                },
                gold: cap32(p.gold as nat + self.gold_income(p, tick_rate_ms)),
                ..p
            }
        } else {
            p
        }
    }

    /// The player after the recount: the count is that of the territories
    /// owned now, and a player that is alive with none is eliminated.
    pub open spec fn counted_player(self, p: Player) -> Player {
        Player {
            territories_controlled: self.owned(p.id) as u32,
            is_alive: p.is_alive && self.owned(p.id) > 0,
            ..p
        }
    }

    /// The player after a whole tick: accrual, then the recount.
    pub open spec fn ticked_player(self, p: Player, tick_rate_ms: u64) -> Player {
        self.counted_player(self.accrued_player(p, tick_rate_ms))
    }

    /// The world after one tick of `tick_rate_ms` milliseconds is `self`,
    /// given that it was `before`. A paused world stands still. Otherwise
    /// the counter and the time advance, as far as 64 bits hold them, the
    /// territories stay and every player is ticked.
    pub open spec fn follows_tick(self, before: GameState, tick_rate_ms: u64) -> bool {
        if before.is_paused {
            self == before
        } else {
            &&& self.tick == cap64(before.tick as nat + 1)
            &&& self.game_time_micros == cap64(
                before.game_time_micros as nat + (tick_rate_ms as nat) * (before.game_speed as nat),
            )
            &&& self.game_speed == before.game_speed
            &&& !self.is_paused
            &&& self.territories == before.territories
            &&& self.players@.len() == before.players@.len()
            &&& forall|i: int|
                0 <= i < before.players@.len() ==> #[trigger] self.players@[i]
                    == before.ticked_player(before.players@[i], tick_rate_ms)
        }
    }

    /// A player that owns one of the first `n` territories owns at least
    /// one of them.
    pub proof fn lemma_owned_positive(self, player: u128, n: int, i: int)
        requires
            0 <= i < n <= self.territories@.len(),
            self.territories@[i].owner == Some(player),
        ensures
            self.owned_count(player, n) >= 1,
        decreases n,
    {
        if i < n - 1 {
            self.lemma_owned_positive(player, n - 1, i);
        }
    }

    /// The recount keeps every owner alive: who owns a territory is not
    /// eliminated.
    pub proof fn lemma_recount_keeps_owners_alive(self, before: GameState)
        requires
            before.owners_alive(),
            self.territories == before.territories,
            self.players@.len() == before.players@.len(),
            forall|i: int|
                0 <= i < before.players@.len() ==> #[trigger] self.players@[i]
                    == before.counted_player(before.players@[i]),
        ensures
            self.owners_alive(),
    {
        reveal(GameState::owners_alive);
        assert forall|i: int, j: int|
            0 <= i < self.territories@.len() && 0 <= j < self.players@.len() && (
            #[trigger] self.territories@[i]).owner == Some(
                (#[trigger] self.players@[j]).id,
            ) implies self.players@[j].is_alive by {
            let p = before.players@[j];
            assert(self.players@[j] == before.counted_player(p));
            assert(before.territories@[i].owner == Some(p.id));
            before.lemma_owned_positive(p.id, before.territories@.len() as int, i);
        }
    }

    /// A tick keeps every owner alive: who owns a territory is not
    /// eliminated.
    pub proof fn lemma_tick_keeps_owners_alive(self, before: GameState, tick_rate_ms: u64)
        requires
            before.owners_alive(),
            self.follows_tick(before, tick_rate_ms),
        ensures
            self.owners_alive(),
    {
        reveal(GameState::owners_alive);
        if !before.is_paused {
            assert forall|i: int, j: int|
                0 <= i < self.territories@.len() && 0 <= j < self.players@.len() && (
                #[trigger] self.territories@[i]).owner == Some(
                    (#[trigger] self.players@[j]).id,
                ) implies self.players@[j].is_alive by {
                let p = before.players@[j];
                assert(self.players@[j] == before.ticked_player(p, tick_rate_ms));
                assert(before.territories@[i].owner == Some(p.id));
                before.lemma_owned_positive(p.id, before.territories@.len() as int, i);
            }
        }
    }

    /// A player that holds no territory is eliminated by the tick, and a
    /// player that was eliminated before the tick stays so, whatever the
    /// player holds by then.
    pub proof fn lemma_elimination_is_final(self, p: Player, tick_rate_ms: u64)
        ensures
            self.owned(p.id) == 0 ==> !self.ticked_player(p, tick_rate_ms).is_alive,
            !p.is_alive ==> !self.ticked_player(p, tick_rate_ms).is_alive,
            self.ticked_player(p, tick_rate_ms).is_alive == (p.is_alive && self.owned(p.id) > 0),
    {
    }

    /// A tick keeps a valid player valid: the ratios are untouched and the
    /// population stays within its cap.
    pub proof fn lemma_tick_keeps_player_valid(self, p: Player, tick_rate_ms: u64)
        requires
            p.valid(),
        ensures
            self.ticked_player(p, tick_rate_ms).valid(),
            self.ticked_player(p, tick_rate_ms).troop_ratio == p.troop_ratio,
            self.ticked_player(p, tick_rate_ms).attack_ratio == p.attack_ratio,
            self.ticked_player(p, tick_rate_ms).population >= p.population,
    {
    }

    /// The three sums over the first `n` territories are bounded by `n`.
    pub proof fn lemma_sums_bounded(self, player: u128, n: int)
        requires
            0 <= n <= self.territories@.len(),
        ensures
            self.owned_count(player, n) <= n,
            self.growth_sum(player, n) <= 20 * n,
            self.gold_sum(player, n) <= 18_000 * n,
        decreases n,
    {
        if n > 0 {
            self.lemma_sums_bounded(player, n - 1);
            let t = self.territories@[n - 1];
            assert(t.terrain.spec_gold_multiplier() * building_gold(t.building) <= 18_000)
                by (nonlinear_arith)
                requires
                    t.terrain.spec_gold_multiplier() <= 120,
                    building_gold(t.building) <= 150,
            ;
        }
    }

    /// The sums depend on the territories alone.
    pub proof fn lemma_sums_same(self, other: GameState, player: u128, n: int)
        requires
            self.territories@ == other.territories@,
        ensures
            self.owned_count(player, n) == other.owned_count(player, n),
            self.growth_sum(player, n) == other.growth_sum(player, n),
            self.gold_sum(player, n) == other.gold_sum(player, n),
        decreases n,
    {
        if n > 0 {
            self.lemma_sums_same(other, player, n - 1);
        }
    }
}

impl GameEngine {
    /// The growth bonus of the player as a fraction: its numerator, in
    /// percent, over the number of the player's territories. The numerator
    /// is 100 for each territory plus its growth bonus.
    pub fn calculate_population_growth_bonus(&self, player_id: PlayerId) -> (r: (u64, u32))
        requires
            self.state.territories@.len() <= u32::MAX,
        ensures
            r.0 == 100 * self.state.owned(player_id.0) + self.state.growth_sum(
                player_id.0,
                self.state.territories@.len() as int,
            ),
            r.1 == self.state.owned(player_id.0),
    {
        let mut total: u64 = 0;
        let mut count: u32 = 0;
        let mut i: usize = 0;
        while i < self.state.territories.len()
            invariant
                i <= self.state.territories@.len() <= u32::MAX,
                total == 100 * count + self.state.growth_sum(player_id.0, i as int),
                count == self.state.owned_count(player_id.0, i as int),
                count <= i,
                total <= 120 * i,
            decreases self.state.territories@.len() - i,
        {
            if self.state.territories[i].owned_by(player_id.0) {
                total += self.state.territories[i].terrain.population_growth_multiplier() as u64;
                count += 1;
            }
            i += 1;
        }
        (total, count)
    }

    /// The gold bonus of the player as a fraction: its numerator, in
    /// hundredths of a percent, over the number of the player's
    /// territories. The numerator is 10,000 for each territory plus its
    /// gold multiplier, terrain times building.
    pub fn calculate_gold_generation_bonus(&self, player_id: PlayerId) -> (r: (u64, u32))
        requires
            self.state.territories@.len() <= u32::MAX,
        ensures
            r.0 == 10_000 * self.state.owned(player_id.0) + self.state.gold_sum(
                player_id.0,
                self.state.territories@.len() as int,
            ),
            r.1 == self.state.owned(player_id.0),
    {
        let mut total: u64 = 0;
        let mut count: u32 = 0;
        let mut i: usize = 0;
        while i < self.state.territories.len()
            invariant
                i <= self.state.territories@.len() <= u32::MAX,
                total == 10_000 * count + self.state.gold_sum(player_id.0, i as int),
                count == self.state.owned_count(player_id.0, i as int),
                count <= i,
                total <= 28_000 * i,
            decreases self.state.territories@.len() - i,
        {
            if self.state.territories[i].owned_by(player_id.0) {
                let terrain: u64 = self.state.territories[i].terrain.gold_multiplier() as u64;
                let building: u64 = match self.state.territories[i].building {
                    Some(b) => b.gold_multiplier() as u64,
                    None => 100,
                };
                assert(terrain * building <= 18_000) by (nonlinear_arith)
                    requires
                        terrain <= 120,
                        building <= 150,
                ;
                total += 10_000 + terrain * building;
                count += 1;
            }
            i += 1;
        }
        (total, count)
    }

    /// Update population growth and gold generation of every alive player.
    pub fn update_resources(&mut self)
        requires
            old(self).wf(),
        ensures
            final(self).wf(),
            final(self).same_index(*old(self)),
            final(self).state.same_clock(old(self).state),
            final(self).state.same_entities(old(self).state),
            final(self).state.territories == old(self).state.territories,
            old(self).state.owners_alive() ==> final(self).state.owners_alive(),
            forall|i: int|
                0 <= i < old(self).state.players@.len() ==>
                    #[trigger] final(self).state.players@[i] == old(self).state.accrued_player(
                    old(self).state.players@[i],
                    old(self).tick_rate_ms,
                ),
    {
        let mut i: usize = 0;
        while i < self.state.players.len()
            invariant
                i <= self.state.players@.len(),
                old(self).wf(),
                self.same_index(*old(self)),
                self.state.same_clock(old(self).state),
                self.state.territories == old(self).state.territories,
                self.state.players@.len() == old(self).state.players@.len(),
                forall|j: int|
                    0 <= j < i ==>
                        #[trigger] self.state.players@[j] ==
                            old(self).state.accrued_player(
                            old(self).state.players@[j],
                            old(self).tick_rate_ms,
                        ),
                forall|j: int|
                    i <= j < self.state.players@.len() ==> #[trigger] self.state.players@[j]
                        == old(self).state.players@[j],
            decreases self.state.players@.len() - i,
        {
            if self.state.players[i].is_alive {
                let id = PlayerId(self.state.players[i].id);
                let base: u64 = 10 * (self.state.players[i].territories_controlled as u64);
                let workers: u64 = self.state.players[i].workers() as u64;
                let (growth_bonus, count) = self.calculate_population_growth_bonus(id);
                let (gold_bonus, _) = self.calculate_gold_generation_bonus(id);
                let speed = self.state.game_speed;
                proof {
                    let n = self.state.territories@.len() as int;
                    self.state.lemma_sums_same(old(self).state, id.0, n);
                }
                let (growth, income): (u32, u32) = if count == 0 {
                    (
                        accrue(base, 1, self.tick_rate_ms, speed, 1_000_000),
                        accrue(workers, 1, self.tick_rate_ms, speed, 10_000_000),
                    )
                } else {
                    (
                        accrue(
                            base,
                            growth_bonus,
                            self.tick_rate_ms,
                            speed,
                            100 * (count as u128) * 1_000_000,
                        ),
                        accrue(
                            workers,
                            gold_bonus,
                            self.tick_rate_ms,
                            speed,
                            10_000 * (count as u128) * 10_000_000,
                        ),
                    )
                };
                let grown: u64 = self.state.players[i].population as u64 + growth as u64;
                let population: u32 = if grown > self.state.players[i].max_population as u64 {
                    self.state.players[i].max_population
                } else {
                    grown as u32
                };
                let gold: u32 = self.state.players[i].gold.saturating_add(income);
                self.state.players[i].population = population;
                self.state.players[i].gold = gold;
            }
            i += 1;
        }
        proof {
            Self::lemma_valid_kept(self.state, old(self).state);
            self.lemma_wf_kept(*old(self));
            if old(self).state.owners_alive() {
                self.state.lemma_owners_kept(old(self).state);
            }
        }
    }

    /// Recount the territories of every player and eliminate each player
    /// that is alive and holds none.
    pub fn update_territory_counts(&mut self)
        requires
            old(self).wf(),
        ensures
            final(self).wf(),
            final(self).same_index(*old(self)),
            final(self).state.same_clock(old(self).state),
            final(self).state.same_entities(old(self).state),
            final(self).state.territories == old(self).state.territories,
            old(self).state.owners_alive() ==> final(self).state.owners_alive(),
            forall|i: int|
                0 <= i < old(self).state.players@.len() ==>
                    #[trigger] final(self).state.players@[i] ==
                        old(self).state.counted_player(old(self).state.players@[i]),
    {
        let mut i: usize = 0;
        while i < self.state.players.len()
            invariant
                i <= self.state.players@.len(),
                self.same_index(*old(self)),
                self.state.same_clock(old(self).state),
                self.state.territories == old(self).state.territories,
                self.state.players@.len() == old(self).state.players@.len(),
                forall|j: int|
                    0 <= j < i ==> #[trigger] self.state.players@[j] == (Player {
                        territories_controlled: 0,
                        ..old(self).state.players@[j]
                    }),
                forall|j: int|
                    i <= j < self.state.players@.len() ==> #[trigger] self.state.players@[j]
                        == old(self).state.players@[j],
            decreases self.state.players@.len() - i,
        {
            self.state.players[i].territories_controlled = 0;
            i += 1;
        }
        proof {
            Self::lemma_valid_kept(self.state, old(self).state);
            self.lemma_wf_kept(*old(self));
        }
        let mut k: usize = 0;
        while k < self.state.territories.len()
            invariant
                k <= self.state.territories@.len(),
                old(self).wf(),
                self.wf(),
                self.same_index(*old(self)),
                self.state.same_clock(old(self).state),
                self.state.territories == old(self).state.territories,
                self.state.players@.len() == old(self).state.players@.len(),
                forall|j: int|
                    0 <= j < self.state.players@.len() ==> #[trigger] self.state.players@[j]
                        == (Player {
                        territories_controlled: old(self).state.owned_count(
                            old(self).state.players@[j].id,
                            k as int,
                        ) as u32,
                        ..old(self).state.players@[j]
                    }),
            decreases self.state.territories@.len() - k,
        {
            let ghost before = *self;
            match self.state.territories[k].owner {
                Some(owner) => {
                    assert(self.state.territories@[k as int].owner == Some(owner));
                    assert(self.state.has_player(owner));
                    match self.player_index(PlayerId(owner)) {
                        Some(slot) => {
                            proof {
                                old(self).state.lemma_sums_bounded(owner, k as int);
                            }
                            let count: u32 = self.state.players[slot].territories_controlled + 1;
                            self.state.players[slot].territories_controlled = count;
                        },
                        None => {},
                    }
                },
                None => {},
            }
            proof {
                assert forall|j: int| 0 <= j < self.state.players@.len() implies
                    #[trigger] self.state.players@[j] == (Player {
                        territories_controlled: old(self).state.owned_count(
                            old(self).state.players@[j].id,
                            k + 1,
                        ) as u32,
                        ..old(self).state.players@[j]
                    }) by {
                    let id = old(self).state.players@[j].id;
                    old(self).state.lemma_sums_bounded(id, k + 1);
                    old(self).state.lemma_slots();
                    assert(before.state.players@[j].id == id);
                }
                Self::lemma_valid_kept(self.state, old(self).state);
                self.lemma_wf_kept(*old(self));
            }
            k += 1;
        }
        let mut e: usize = 0;
        while e < self.state.players.len()
            invariant
                e <= self.state.players@.len(),
                old(self).wf(),
                self.same_index(*old(self)),
                self.state.same_clock(old(self).state),
                self.state.territories == old(self).state.territories,
                self.state.players@.len() == old(self).state.players@.len(),
                forall|j: int|
                    0 <= j < e ==>
                        #[trigger] self.state.players@[j] ==
                            old(self).state.counted_player(old(self).state.players@[j]),
                forall|j: int|
                    e <= j < self.state.players@.len() ==> #[trigger] self.state.players@[j]
                        == (Player {
                        territories_controlled: old(self).state.owned(
                            old(self).state.players@[j].id,
                        ) as u32,
                        ..old(self).state.players@[j]
                    }),
            decreases self.state.players@.len() - e,
        {
            if self.state.players[e].territories_controlled == 0 && self.state.players[e].is_alive {
                self.state.players[e].is_alive = false;
            }
            proof {
                old(self).state.lemma_sums_bounded(
                    old(self).state.players@[e as int].id,
                    old(self).state.territories@.len() as int,
                );
            }
            e += 1;
        }
        proof {
            Self::lemma_valid_kept(self.state, old(self).state);
            self.lemma_wf_kept(*old(self));
            if old(self).state.owners_alive() {
                self.state.lemma_recount_keeps_owners_alive(old(self).state);
            }
        }
    }

    /// Update game state by one tick: the clock first, then the resources,
    /// then the recount and the eliminations. A paused game stands still.
    pub fn tick(&mut self)
        requires
            old(self).wf(),
        ensures
            final(self).wf(),
            final(self).same_index(*old(self)),
            final(self).state.same_entities(old(self).state),
            final(self).state.follows_tick(old(self).state, old(self).tick_rate_ms),
            old(self).state.owners_alive() ==> final(self).state.owners_alive(),
    {
        if self.state.is_paused {
            return ;
        }
        if self.state.tick < u64::MAX {
            self.state.tick = self.state.tick + 1;
        }
        assert(self.tick_rate_ms * self.state.game_speed <= 0xffff_ffff_ffff_ffff * 0xffff_ffff)
            by (nonlinear_arith)
            requires
                self.tick_rate_ms <= 0xffff_ffff_ffff_ffff,
                self.state.game_speed <= 0xffff_ffff,
        ;
        let elapsed: u128 = self.state.game_time_micros as u128 + (self.tick_rate_ms as u128) * (
        self.state.game_speed as u128);
        self.state.game_time_micros = if elapsed > 0xffff_ffff_ffff_ffff {
            u64::MAX
        } else {
            elapsed as u64
        };
        proof {
            Self::lemma_valid_kept(self.state, old(self).state);
            self.lemma_wf_kept(*old(self));
        }
        let ghost started = *self;
        self.update_resources();
        let ghost accrued = *self;
        self.update_territory_counts();
        proof {
            let n = old(self).state.territories@.len() as int;
            assert forall|i: int| 0 <= i < old(self).state.players@.len() implies
                #[trigger] self.state.players@[i] == old(self).state.counted_player(
                    old(self).state.accrued_player(
                        old(self).state.players@[i],
                        old(self).tick_rate_ms,
                    ),
                ) by {
                let p = old(self).state.players@[i];
                started.state.lemma_sums_same(old(self).state, p.id, n);
                accrued.state.lemma_sums_same(old(self).state, p.id, n);
                assert(started.state.players@[i] == p);
                assert(accrued.state.players@[i] == started.state.accrued_player(
                    p,
                    started.tick_rate_ms,
                ));
                assert(self.state.players@[i] == accrued.state.counted_player(
                    accrued.state.players@[i],
                ));
            }
            if old(self).state.owners_alive() {
                self.state.lemma_tick_keeps_owners_alive(old(self).state, old(self).tick_rate_ms);
            }
        }
    }
}

} // verus!
