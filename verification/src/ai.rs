//! The autonomous players: one table per decision (ratios, build order,
//! target choice, readiness to attack) with a row per personality, and the
//! turn that applies them through the commands every player uses.
use crate::engine::GameEngine;
use crate::types::{
    AIPersonality, BuildingType, GameError, GameState, Player, PlayerId, Territory, TerritoryId,
};
use vstd::prelude::*;

verus! {

/// One attack that a player could order: from an owned territory onto a
/// neighbour that somebody else or nobody owns.
#[derive(Debug, Clone, Copy, PartialEq, Eq, Structural)]
pub struct AttackOption {
    pub from: u128,
    pub to: u128,
    /// Troops stationed in the target.
    pub defender_troops: u32,
    /// Territories of the target's owner at the last recount; 0 for a
    /// neutral target.
    pub defender_territories: u32,
}

/// Draws a number below `bound` by `rand::Rng::gen_range` on the range
/// `0..bound`, with the generator of `rand::thread_rng`. The contract claims
/// only that the number lies in the range, which must not be empty.
#[verifier::external_body]
fn random_below(bound: usize) -> (r: usize)
    requires
        bound > 0,
    ensures
        r < bound,
{
    rand::Rng::gen_range(&mut rand::thread_rng(), 0..bound)
}

impl AIPersonality {
    /// The troop ratio and the attack ratio that the personality sets, both
    /// in millionths, at `seconds` of game time and with `territories`
    /// territories.
    pub open spec fn spec_ratios(self, seconds: nat, territories: u32) -> (u32, u32) {
        match self {
            AIPersonality::Turtle => (
                if seconds < 180 {
                    300_000u32
                } else {
                    500_000u32
                },
                150_000u32,
            ),
            AIPersonality::Aggressor => (700_000u32, 400_000u32),
            AIPersonality::Balanced => (
                if territories < 5 {
                    500_000u32
                } else {
                    600_000u32
                },
                250_000u32,
            ),
            AIPersonality::Opportunist => (500_000u32, 200_000u32),
            AIPersonality::Rusher => (1_000_000u32, 500_000u32),
        }
    }

    /// The troop ratio and the attack ratio that the personality sets.
    pub fn ratios(&self, seconds: u64, territories: u32) -> (r: (u32, u32))
        ensures
            r == self.spec_ratios(seconds as nat, territories),
            r.0 <= 1_000_000,
            r.1 <= 1_000_000,
    {
        match self {
            AIPersonality::Turtle => (
                if seconds < 180 {
                    300_000
                } else {
                    500_000
                },
                150_000,
            ),
            AIPersonality::Aggressor => (700_000, 400_000),
            AIPersonality::Balanced => (
                if territories < 5 {
                    500_000
                } else {
                    600_000
                },
                250_000,
            ),
            AIPersonality::Opportunist => (500_000, 200_000),
            AIPersonality::Rusher => (1_000_000, 500_000),
        }
    }

    /// The buildings in the order in which the personality wants them.
    pub open spec fn spec_building_priority(self) -> (BuildingType, BuildingType, BuildingType) {
        match self {
            AIPersonality::Turtle => (
                BuildingType::DefensePost,
                BuildingType::City,
                BuildingType::GoldMine,
            ),
            AIPersonality::Aggressor => (
                BuildingType::City,
                BuildingType::GoldMine,
                BuildingType::DefensePost,
            ),
            AIPersonality::Balanced => (
                BuildingType::GoldMine,
                BuildingType::City,
                BuildingType::DefensePost,
            ),
            AIPersonality::Opportunist => (
                BuildingType::GoldMine,
                BuildingType::DefensePost,
                BuildingType::City,
            ),
            AIPersonality::Rusher => (
                BuildingType::City,
                BuildingType::GoldMine,
                BuildingType::DefensePost,
            ),
        }
    }

    /// The buildings in the order in which the personality wants them.
    pub fn building_priority(&self) -> (r: (BuildingType, BuildingType, BuildingType))
        ensures
            r == self.spec_building_priority(),
    {
        match self {
            AIPersonality::Turtle => (
                BuildingType::DefensePost,
                BuildingType::City,
                BuildingType::GoldMine,
            ),
            AIPersonality::Aggressor => (
                BuildingType::City,
                BuildingType::GoldMine,
                BuildingType::DefensePost,
            ),
            AIPersonality::Balanced => (
                BuildingType::GoldMine,
                BuildingType::City,
                BuildingType::DefensePost,
            ),
            AIPersonality::Opportunist => (
                BuildingType::GoldMine,
                BuildingType::DefensePost,
                BuildingType::City,
            ),
            AIPersonality::Rusher => (
                BuildingType::City,
                BuildingType::GoldMine,
                BuildingType::DefensePost,
            ),
        }
    }

    /// The first building of the personality's order that `gold` pays for.
    pub open spec fn spec_affordable(self, gold: u32) -> Option<BuildingType> {
        let order = self.spec_building_priority();
        if gold >= order.0.spec_cost() {
            Some(order.0)
        } else if gold >= order.1.spec_cost() {
            Some(order.1)
        } else if gold >= order.2.spec_cost() {
            Some(order.2)
        } else {
            None
        }
    }

    /// The first building of the personality's order that `gold` pays for.
    pub fn affordable(&self, gold: u32) -> (r: Option<BuildingType>)
        ensures
            r == self.spec_affordable(gold),
    {
        let order = self.building_priority();
        if gold >= order.0.cost() {
            Some(order.0)
        } else if gold >= order.1.cost() {
            Some(order.1)
        } else if gold >= order.2.cost() {
            Some(order.2)
        } else {
            None
        }
    }

    /// The chance, in percent, that the personality carries out an attack
    /// once it has a target.
    pub open spec fn spec_attack_chance(self) -> nat {
        match self {
            AIPersonality::Turtle => 10,
            AIPersonality::Aggressor => 80,
            AIPersonality::Balanced => 40,
            AIPersonality::Opportunist => 50,
            AIPersonality::Rusher => 90,
        }
    }

    /// The chance, in percent, that the personality carries out an attack.
    pub fn attack_chance(&self) -> (r: usize)
        ensures
            r == self.spec_attack_chance(),
    {
        match self {
            AIPersonality::Turtle => 10,
            AIPersonality::Aggressor => 80,
            AIPersonality::Balanced => 40,
            AIPersonality::Opportunist => 50,
            AIPersonality::Rusher => 90,
        }
    }

    /// Whether a draw `roll` out of 0..100 lets the attack go ahead.
    pub fn passes_gate(&self, roll: usize) -> (r: bool)
        ensures
            r == (roll < self.spec_attack_chance()),
    {
        roll < self.attack_chance()
    }

    /// Whether the personality considers the option at all, with
    /// `our_troops` troops of its own: the turtle wants more than three
    /// times the defender's troops, the balanced player more than the
    /// defender's, the others take any.
    pub open spec fn considers(self, our_troops: u32, option: AttackOption) -> bool {
        match self {
            AIPersonality::Turtle => our_troops > 3 * option.defender_troops,
            AIPersonality::Balanced => our_troops > option.defender_troops,
            _ => true,
        }
    }

    /// Whether the personality likes `a` strictly better than `b`: fewer
    /// defending troops, and for the opportunist, among equals, an owner
    /// with fewer territories.
    pub open spec fn prefers(self, a: AttackOption, b: AttackOption) -> bool {
        if self == AIPersonality::Opportunist {
            a.defender_troops < b.defender_troops || (a.defender_troops == b.defender_troops
                && a.defender_territories < b.defender_territories)
        } else {
            a.defender_troops < b.defender_troops
        }
    }

    /// Whether `k` is the option that the personality picks by preference:
    /// one that it considers, with none that it likes better, and the first
    /// of those it likes equally.
    pub open spec fn is_target(self, options: Seq<AttackOption>, our_troops: u32, k: int) -> bool {
        &&& 0 <= k < options.len()
        &&& self.considers(our_troops, options[k])
        &&& forall|j: int|
            0 <= j < options.len() && self.considers(our_troops, #[trigger] options[j])
                ==> !self.prefers(options[j], options[k]) && (j < k ==> self.prefers(
                options[k],
                options[j],
            ))
    }

    /// No two options are the personality's pick by preference.
    pub proof fn lemma_target_unique(
        self,
        options: Seq<AttackOption>,
        our_troops: u32,
        k1: int,
        k2: int,
    )
        requires
            self.is_target(options, our_troops, k1),
            self.is_target(options, our_troops, k2),
        ensures
            k1 == k2,
    {
        if k1 < k2 {
            assert(self.considers(our_troops, options[k1]));
            assert(self.prefers(options[k2], options[k1]));
            assert(self.considers(our_troops, options[k2]));
        } else if k2 < k1 {
            assert(self.considers(our_troops, options[k2]));
            assert(self.prefers(options[k1], options[k2]));
            assert(self.considers(our_troops, options[k1]));
        }
    }

    /// The slot of the target among `options`, if there is one. The rusher
    /// takes the option that the draw `pick` names; the others take their
    /// pick by preference.
    pub open spec fn spec_target(
        self,
        options: Seq<AttackOption>,
        our_troops: u32,
        pick: usize,
    ) -> Option<int> {
        if self == AIPersonality::Rusher {
            if pick < options.len() {
                Some(pick as int)
            } else {
                None
            }
        } else if exists|k: int| self.is_target(options, our_troops, k) {
            Some(choose|k: int| self.is_target(options, our_troops, k))
        } else {
            None
        }
    }

    /// The target among `options`. The rusher takes the option that the
    /// draw `pick` names; the others choose by preference.
    pub fn select_target(
        &self,
        options: &Vec<AttackOption>,
        our_troops: u32,
        pick: usize,
    ) -> (r: Option<usize>)
        ensures
            *self == AIPersonality::Rusher ==> r == if pick < options@.len() {
                Some(pick)
            } else {
                None::<usize>
            },
            match r {
                Some(k) => k < options@.len() && self.spec_target(options@, our_troops, pick)
                    == Some(k as int),
                None => self.spec_target(options@, our_troops, pick).is_none(),
            },
            *self != AIPersonality::Rusher ==> match r {
                Some(k) => self.is_target(options@, our_troops, k as int),
                None => forall|j: int|
                    0 <= j < options@.len() ==> !self.considers(our_troops, #[trigger] options@[j]),
            },
    {
        if let AIPersonality::Rusher = self {
            return if pick < options.len() {
                Some(pick)
            } else {
                None
            };
        }
        let mut best: Option<usize> = None;
        let mut i: usize = 0;
        while i < options.len()
            invariant
                i <= options@.len(),
                *self != AIPersonality::Rusher,
                match best {
                    Some(k) => k < i && self.is_target(
                        options@.subrange(0, i as int),
                        our_troops,
                        k as int,
                    ),
                    None => forall|j: int|
                        0 <= j < i ==> !self.considers(our_troops, #[trigger] options@[j]),
                },
            decreases options@.len() - i,
        {
            let o = options[i];
            let considered = match self {
                AIPersonality::Turtle => (our_troops as u64) > 3 * (o.defender_troops as u64),
                AIPersonality::Balanced => our_troops > o.defender_troops,
                _ => true,
            };
            let ghost prefix = options@.subrange(0, i as int);
            let ghost longer = options@.subrange(0, i + 1);
            proof {
                assert forall|j: int| 0 <= j < i implies #[trigger] longer[j] == prefix[j] by {}
                assert(longer[i as int] == o);
            }
            if considered {
                let better = match best {
                    Some(k) => {
                        let b = options[k];
                        assert(prefix[k as int] == b);
                        match self {
                            AIPersonality::Opportunist => o.defender_troops < b.defender_troops || (
                            o.defender_troops == b.defender_troops && o.defender_territories
                                < b.defender_territories),
                            _ => o.defender_troops < b.defender_troops,
                        }
                    },
                    None => true,
                };
                if better {
                    proof {
                        assert forall|j: int|
                            0 <= j < longer.len() && self.considers(
                                our_troops,
                                #[trigger] longer[j],
                            ) implies !self.prefers(longer[j], longer[i as int]) && (j < i
                            ==> self.prefers(longer[i as int], longer[j])) by {
                            if j < i {
                                assert(self.considers(our_troops, prefix[j]));
                            }
                        }
                    }
                    best = Some(i);
                } else {
                    proof {
                        let k = best.unwrap() as int;
                        assert forall|j: int|
                            0 <= j < longer.len() && self.considers(
                                our_troops,
                                #[trigger] longer[j],
                            ) implies !self.prefers(longer[j], longer[k]) && (j < k
                            ==> self.prefers(longer[k], longer[j])) by {
                            if j < i {
                                assert(self.considers(our_troops, prefix[j]));
                            }
                        }
                    }
                }
            } else {
                proof {
                    if best.is_some() {
                        let k = best.unwrap() as int;
                        assert forall|j: int|
                            0 <= j < longer.len() && self.considers(
                                our_troops,
                                #[trigger] longer[j],
                            ) implies !self.prefers(longer[j], longer[k]) && (j < k
                            ==> self.prefers(longer[k], longer[j])) by {
                            if j < i {
                                assert(self.considers(our_troops, prefix[j]));
                            }
                        }
                    }
                }
            }
            i += 1;
        }
        proof {
            assert(options@.subrange(0, i as int) =~= options@);
            match best {
                Some(k) => {
                    let c = choose|c: int| self.is_target(options@, our_troops, c);
                    self.lemma_target_unique(options@, our_troops, k as int, c);
                },
                None => {
                    assert forall|c: int| !self.is_target(options@, our_troops, c) by {
                        if 0 <= c < options@.len() {
                            assert(!self.considers(our_troops, options@[c]));
                        }
                    }
                },
            }
        }
        best
    }
}

impl GameState {
    /// The identifiers of those of the first `n` territories that `player`
    /// owns and that carry no building, in the order of the world.
    pub open spec fn buildable_upto(self, player: u128, n: int) -> Seq<u128>
        decreases n,
    {
        if n <= 0 {
            Seq::empty()
        } else if self.territories@[n - 1].owner == Some(player) && self.territories@[n
            - 1].building.is_none() {
            self.buildable_upto(player, n - 1).push(self.territories@[n - 1].id)
        } else {
            self.buildable_upto(player, n - 1)
        }
    }

    /// The territories on which `player` could build.
    pub open spec fn buildable(self, player: u128) -> Seq<u128> {
        self.buildable_upto(player, self.territories@.len() as int)
    }

    /// What the personality would have `player` build now: the first
    /// building of its order that the player's gold pays for, provided that
    /// the player has a territory to build on.
    pub open spec fn build_plan(self, player: u128, personality: AIPersonality) -> Option<
        BuildingType,
    > {
        if !self.has_player(player) || self.buildable(player).len() == 0 {
            None
        } else {
            personality.spec_affordable(self.player(player).gold)
        }
    }

    /// Whether `id` names a territory that `player` owns and that carries no
    /// building.
    pub open spec fn is_free_for(self, player: u128, id: u128) -> bool {
        exists|s: int|
            0 <= s < self.territories@.len() && (#[trigger] self.territories@[s]).id == id
                && self.territories@[s].owner == Some(player)
                && self.territories@[s].building.is_none()
    }

    /// Every identifier in the list names a territory that `player` owns
    /// and that carries no building.
    pub proof fn lemma_buildable_sound(self, player: u128, n: int)
        requires
            0 <= n <= self.territories@.len(),
        ensures
            forall|k: int|
                0 <= k < self.buildable_upto(player, n).len() ==> self.is_free_for(
                    player,
                    #[trigger] self.buildable_upto(player, n)[k],
                ),
        decreases n,
    {
        if n > 0 {
            self.lemma_buildable_sound(player, n - 1);
            let shorter = self.buildable_upto(player, n - 1);
            let list = self.buildable_upto(player, n);
            assert forall|k: int| 0 <= k < list.len() implies self.is_free_for(
                player,
                #[trigger] list[k],
            ) by {
                if k < shorter.len() {
                    assert(list[k] == shorter[k]);
                } else {
                    assert(self.territories@[n - 1].id == list[k]);
                }
            }
        }
    }

    /// The attack onto the `j`-th neighbour of the territory in
    /// `from_slot`, if that neighbour exists and `player` does not own it.
    pub open spec fn option_at(self, player: u128, from_slot: int, j: int) -> Option<
        AttackOption,
    > {
        let from = self.territories@[from_slot];
        let to = from.neighbors@[j];
        if self.has_territory(to) && self.territory(to).owner != Some(player) {
            Some(
                AttackOption {
                    from: from.id,
                    to,
                    defender_troops: self.territory(to).troops,
                    defender_territories: match self.territory(to).owner {
                        Some(o) => self.player(o).territories_controlled,
                        None => 0,
                    },
                },
            )
        } else {
            None
        }
    }

    /// The attacks from the territory in `from_slot` onto its first `j`
    /// neighbours, in their order.
    pub open spec fn options_from(self, player: u128, from_slot: int, j: int) -> Seq<AttackOption>
        decreases j,
    {
        if j <= 0 {
            Seq::empty()
        } else {
            match self.option_at(player, from_slot, j - 1) {
                Some(o) => self.options_from(player, from_slot, j - 1).push(o),
                None => self.options_from(player, from_slot, j - 1),
            }
        }
    }

    /// The attacks from those of the first `n` territories that `player`
    /// owns, in the order of the world.
    pub open spec fn options_upto(self, player: u128, n: int) -> Seq<AttackOption>
        decreases n,
    {
        if n <= 0 {
            Seq::empty()
        } else if self.territories@[n - 1].owner == Some(player) {
            self.options_upto(player, n - 1) + self.options_from(
                player,
                n - 1,
                self.territories@[n - 1].neighbors@.len() as int,
            )
        } else {
            self.options_upto(player, n - 1)
        }
    }

    /// Every attack that `player` could order.
    pub open spec fn attack_options(self, player: u128) -> Seq<AttackOption> {
        self.options_upto(player, self.territories@.len() as int)
    }

    /// What every turn of the autonomous players keeps of the world
    /// `before`: the clock, the entities and the map, who is alive and who
    /// is autonomous. Buildings stay where they stood, no cap shrinks,
    /// nobody gains gold, and where every owner was alive every owner is.
    pub open spec fn same_roster(self, before: GameState) -> bool {
        &&& self.same_clock(before)
        &&& self.same_entities(before)
        &&& forall|i: int|
            0 <= i < self.territories@.len() ==> {
                &&& (#[trigger] self.territories@[i]).terrain == before.territories@[i].terrain
                &&& self.territories@[i].neighbors == before.territories@[i].neighbors
                &&& self.territories@[i].position == before.territories@[i].position
                &&& before.territories@[i].building.is_some() ==> self.territories@[i].building
                    == before.territories@[i].building
            }
        &&& forall|i: int|
            0 <= i < self.players@.len() ==> {
                &&& (#[trigger] self.players@[i]).is_alive == before.players@[i].is_alive
                &&& self.players@[i].is_ai == before.players@[i].is_ai
                &&& self.players@[i].ai_personality == before.players@[i].ai_personality
                &&& self.players@[i].name == before.players@[i].name
                &&& self.players@[i].color == before.players@[i].color
                &&& self.players@[i].territories_controlled
                    == before.players@[i].territories_controlled
                &&& self.players@[i].max_population >= before.players@[i].max_population
                &&& self.players@[i].gold <= before.players@[i].gold
            }
        &&& before.owners_alive() ==> self.owners_alive()
    }
}

impl GameState {
    /// Every player's two ratios are as in `before`.
    pub open spec fn keeps_ratios(self, before: GameState) -> bool {
        forall|i: int|
            0 <= i < self.players@.len() ==> (#[trigger] self.players@[i]).troop_ratio
                == before.players@[i].troop_ratio && self.players@[i].attack_ratio
                == before.players@[i].attack_ratio
    }

    /// The troop ratio and the attack ratio of `p` after the autonomous
    /// players' turns at `seconds` of game time: those of the table for an
    /// autonomous player that is alive, the player's own otherwise.
    pub open spec fn turn_ratios(p: Player, seconds: nat) -> (u32, u32) {
        match p.ai_personality {
            Some(personality) => if p.is_ai && p.is_alive {
                personality.spec_ratios(seconds, p.territories_controlled)
            } else {
                (p.troop_ratio, p.attack_ratio)
            },
            None => (p.troop_ratio, p.attack_ratio),
        }
    }

    /// The territory in slot `i` once the troops of those of the first `n`
    /// players that are alive are spread over their territories.
    pub open spec fn garrisoned_upto(self, i: int, n: int) -> Territory {
        match self.territories@[i].owner {
            Some(o) => if self.has_player(o) && self.player_slot(o) < n && self.player(
                o,
            ).is_alive {
                self.garrisoned(i, o)
            } else {
                self.territories@[i]
            },
            None => self.territories@[i],
        }
    }
}

impl GameState {
    /// The gold and the population cap of everybody but `player` are as in
    /// `before`.
    pub open spec fn spends_only(self, before: GameState, player: u128) -> bool {
        forall|i: int|
            0 <= i < self.players@.len() && before.players@[i].id != player ==> (
            #[trigger] self.players@[i]).gold == before.players@[i].gold
                && self.players@[i].max_population == before.players@[i].max_population
    }

    /// The gold and the population cap of every player that is eliminated
    /// or not autonomous are as in `before`.
    pub open spec fn bystanders_keep_gold(self, before: GameState) -> bool {
        forall|i: int|
            0 <= i < self.players@.len() && !(before.players@[i].is_ai
                && before.players@[i].is_alive) ==> (#[trigger] self.players@[i]).gold
                == before.players@[i].gold && self.players@[i].max_population
                == before.players@[i].max_population
    }

    /// The world after `player` has taken the ratios of the personality's
    /// table is `self`, given that it was `before`.
    pub open spec fn follows_tuning(
        self,
        before: GameState,
        player: u128,
        personality: AIPersonality,
    ) -> bool {
        &&& self.same_clock(before)
        &&& self.territories == before.territories
        &&& self.players@.len() == before.players@.len()
        &&& forall|i: int|
            0 <= i < before.players@.len() ==> #[trigger] self.players@[i]
                == if before.players@[i].id == player {
                Player {
                    troop_ratio: personality.spec_ratios(
                        before.spec_game_time_seconds(),
                        before.players@[i].territories_controlled,
                    ).0,
                    attack_ratio: personality.spec_ratios(
                        before.spec_game_time_seconds(),
                        before.players@[i].territories_controlled,
                    ).1,
                    ..before.players@[i]
                }
            } else {
                before.players@[i]
            }
    }

    /// The world after `player`'s build attempt is `self`, given that it
    /// was `before` and that the draw named the `k`-th free territory: the
    /// planned building stands there, or nothing changed where there is no
    /// plan.
    pub open spec fn follows_build_turn(
        self,
        before: GameState,
        player: u128,
        personality: AIPersonality,
        k: int,
    ) -> bool {
        match before.build_plan(player, personality) {
            Some(building) => 0 <= k < before.buildable(player).len() && self.follows_build(
                before,
                player,
                before.buildable(player)[k],
                building,
            ),
            None => self == before,
        }
    }

    /// The world after `player` has ordered the attack `option` is `self`,
    /// given that it was `before`: the battle was fought, or the order was
    /// refused and nothing changed.
    pub open spec fn follows_fight(
        self,
        before: GameState,
        player: u128,
        option: AttackOption,
    ) -> bool {
        match before.attack_error(player, option.from, option.to) {
            Some(_) => self == before,
            None => self.follows_attack(
                before,
                before.attack_result(player, option.from, option.to),
            ),
        }
    }

    /// The attack that `player` orders with the draws `pick`, for the
    /// rusher's target, and `roll`, out of 0..100, for the readiness; `None`
    /// where the player is unknown, the roll fails or there is no target.
    pub open spec fn planned_attack(
        self,
        player: u128,
        personality: AIPersonality,
        pick: usize,
        roll: usize,
    ) -> Option<AttackOption> {
        if !self.has_player(player) || roll >= personality.spec_attack_chance() {
            None
        } else {
            match personality.spec_target(
                self.attack_options(player),
                self.player(player).spec_troops() as u32,
                pick,
            ) {
                Some(k) => Some(self.attack_options(player)[k]),
                None => None,
            }
        }
    }

    /// The world after `player`'s attack attempt with the draws `pick` and
    /// `roll` is `self`, given that it was `before`.
    pub open spec fn follows_attack_turn(
        self,
        before: GameState,
        player: u128,
        personality: AIPersonality,
        pick: usize,
        roll: usize,
    ) -> bool {
        match before.planned_attack(player, personality, pick, roll) {
            Some(option) => self.follows_fight(before, player, option),
            None => self == before,
        }
    }

    /// The world after one turn of the autonomous `player` is `self`, given
    /// that it was `before`: the ratios were set, then a build was tried on
    /// some free territory, then an attack with some draws.
    pub open spec fn follows_turn(
        self,
        before: GameState,
        player: u128,
        personality: AIPersonality,
    ) -> bool {
        exists|tuned: GameState, built: GameState, k: int, pick: usize, roll: usize|
            #![trigger
                built.follows_build_turn(tuned, player, personality, k),
                self.follows_attack_turn(built, player, personality, pick, roll)
            ]
            tuned.follows_tuning(before, player, personality) && built.follows_build_turn(
                tuned,
                player,
                personality,
                k,
            ) && roll < 100 && self.follows_attack_turn(built, player, personality, pick, roll)
    }

    /// A tuning, a build attempt and an attack attempt, one after the
    /// other, make a turn.
    pub proof fn lemma_turn_made(
        self,
        before: GameState,
        tuned: GameState,
        built: GameState,
        player: u128,
        personality: AIPersonality,
    )
        requires
            tuned.follows_tuning(before, player, personality),
            exists|k: int| #[trigger] built.follows_build_turn(tuned, player, personality, k),
            exists|pick: usize, roll: usize|
                roll < 100 && #[trigger] self.follows_attack_turn(
                    built,
                    player,
                    personality,
                    pick,
                    roll,
                ),
        ensures
            self.follows_turn(before, player, personality),
    {
        let k = choose|k: int| #[trigger] built.follows_build_turn(tuned, player, personality, k);
        let (pick, roll) = choose|pick: usize, roll: usize|
            roll < 100 && #[trigger] self.follows_attack_turn(
                built,
                player,
                personality,
                pick,
                roll,
            );
        assert(built.follows_build_turn(tuned, player, personality, k)
            && self.follows_attack_turn(built, player, personality, pick, roll));
    }

    /// The world after the player in slot `i` has had its chance is `self`,
    /// given that it was `before`: an autonomous player that is alive takes
    /// its turn, anybody else changes nothing.
    pub open spec fn follows_slot_turn(self, before: GameState, i: int) -> bool {
        let p = before.players@[i];
        match p.ai_personality {
            Some(personality) => if p.is_ai && p.is_alive {
                self.follows_turn(before, p.id, personality)
            } else {
                self == before
            },
            None => self == before,
        }
    }

    /// The world after the first `n` players have had their chances, in
    /// the order of their slots, is `self`, given that it was `before`.
    pub open spec fn follows_turns(self, before: GameState, n: int) -> bool
        decreases n,
    {
        if n <= 0 {
            self == before
        } else {
            exists|mid: GameState|
                #![trigger self.follows_slot_turn(mid, n - 1)]
                mid.follows_turns(before, n - 1) && self.follows_slot_turn(mid, n - 1)
        }
    }

    /// One more chance, taken after the first `n - 1`, makes `n`.
    pub proof fn lemma_turns_step(self, before: GameState, mid: GameState, n: int)
        requires
            n >= 1,
            mid.follows_turns(before, n - 1),
            self.follows_slot_turn(mid, n - 1),
        ensures
            self.follows_turns(before, n),
    {
    }

    /// The world after the troops of every alive player were spread over
    /// that player's territories is `self`, given that it was `before`.
    pub open spec fn follows_garrison(self, before: GameState) -> bool {
        &&& self.same_clock(before)
        &&& self.players == before.players
        &&& self.territories@.len() == before.territories@.len()
        &&& forall|i: int|
            0 <= i < before.territories@.len() ==> #[trigger] self.territories@[i]
                == before.garrisoned_upto(i, before.players@.len() as int)
    }

    /// The world after the garrisons were set and every autonomous player
    /// that is alive took its turn is `self`, given that it was `before`.
    pub open spec fn follows_ai_round(self, before: GameState) -> bool {
        exists|mid: GameState|
            #![trigger mid.follows_garrison(before)]
            mid.follows_garrison(before) && self.follows_turns(mid, before.players@.len() as int)
    }

    /// Where none of the first `n` players is autonomous and alive, their
    /// chances change nothing.
    pub proof fn lemma_turns_idle(self, before: GameState, n: int)
        requires
            0 <= n <= before.players@.len(),
            forall|i: int|
                0 <= i < n ==> !((#[trigger] before.players@[i]).is_ai
                    && before.players@[i].is_alive),
            self.follows_turns(before, n),
        ensures
            self == before,
        decreases n,
    {
        if n > 0 {
            let mid = choose|mid: GameState|
                #![trigger self.follows_slot_turn(mid, n - 1)]
                mid.follows_turns(before, n - 1) && self.follows_slot_turn(mid, n - 1);
            mid.lemma_turns_idle(before, n - 1);
            assert(!(before.players@[n - 1].is_ai && before.players@[n - 1].is_alive));
        }
    }
}

/// The decisions of the autonomous players.
pub struct AIEngine;

impl AIEngine {
    /// The territories on which the player could build.
    pub fn buildable_territories(engine: &GameEngine, player_id: PlayerId) -> (r: Vec<u128>)
        ensures
            r@ == engine.state.buildable(player_id.0),
    {
        let mut out: Vec<u128> = Vec::new();
        let mut i: usize = 0;
        while i < engine.state.territories.len()
            invariant
                i <= engine.state.territories@.len(),
                out@ == engine.state.buildable_upto(player_id.0, i as int),
            decreases engine.state.territories@.len() - i,
        {
            if engine.state.territories[i].owned_by(player_id.0)
                && engine.state.territories[i].building.is_none() {
                out.push(engine.state.territories[i].id);
            }
            i += 1;
        }
        out
    }

    /// Every attack that the player could order.
    pub fn attack_options(engine: &GameEngine, player_id: PlayerId) -> (r: Vec<AttackOption>)
        requires
            engine.wf(),
        ensures
            r@ == engine.state.attack_options(player_id.0),
    {
        let mut out: Vec<AttackOption> = Vec::new();
        let mut i: usize = 0;
        while i < engine.state.territories.len()
            invariant
                engine.wf(),
                i <= engine.state.territories@.len(),
                out@ == engine.state.options_upto(player_id.0, i as int),
            decreases engine.state.territories@.len() - i,
        {
            if engine.state.territories[i].owned_by(player_id.0) {
                let ghost base = out@;
                let from = &engine.state.territories[i];
                let mut j: usize = 0;
                while j < from.neighbors.len()
                    invariant
                        engine.wf(),
                        i < engine.state.territories@.len(),
                        *from == engine.state.territories@[i as int],
                        j <= from.neighbors@.len(),
                        base == engine.state.options_upto(player_id.0, i as int),
                        out@ == base + engine.state.options_from(player_id.0, i as int, j as int),
                    decreases from.neighbors@.len() - j,
                {
                    let to = from.neighbors[j];
                    let ghost sofar = engine.state.options_from(player_id.0, i as int, j as int);
                    match engine.territory_index(TerritoryId(to)) {
                        Some(t) => {
                            let target = &engine.state.territories[t];
                            if !target.owned_by(player_id.0) {
                                let defender_territories: u32 = match target.owner {
                                    Some(o) => {
                                        assert(engine.state.territories@[t as int].owner == Some(
                                            o,
                                        ));
                                        assert(engine.state.has_player(o));
                                        match engine.get_player(PlayerId(o)) {
                                            Ok(p) => p.territories_controlled,
                                            Err(_) => 0,
                                        }
                                    },
                                    None => 0,
                                };
                                let option = AttackOption {
                                    from: from.id,
                                    to,
                                    defender_troops: target.troops,
                                    defender_territories,
                                };
                                out.push(option);
                                proof {
                                    assert(engine.state.option_at(player_id.0, i as int, j as int)
                                        == Some(option));
                                    assert(out@ =~= base + sofar.push(option));
                                }
                            }
                        },
                        None => {},
                    }
                    j += 1;
                }
            }
            i += 1;
        }
        out
    }

    /// Set the player's ratios to those of the personality's table. An
    /// unknown player changes nothing.
    pub fn update_ratios(engine: &mut GameEngine, player_id: PlayerId, personality: AIPersonality)
        requires
            old(engine).wf(),
        ensures
            final(engine).wf(),
            final(engine).same_index(*old(engine)),
            final(engine).state.same_roster(old(engine).state),
            final(engine).state.follows_tuning(old(engine).state, player_id.0, personality),
    {
        proof {
            engine.state.lemma_slots();
        }
        let territories = match engine.get_player(player_id) {
            Ok(p) => p.territories_controlled,
            Err(_) => {
                return ;
            },
        };
        let (troop_ratio, attack_ratio) = personality.ratios(
            engine.state.game_time_seconds(),
            territories,
        );
        let _ = engine.set_troop_ratio(player_id, troop_ratio);
        let _ = engine.set_attack_ratio(player_id, attack_ratio);
        proof {
            if old(engine).state.owners_alive() {
                engine.state.lemma_owners_kept(old(engine).state);
            }
        }
    }

    /// The build attempt with the draw made: the first building of the
    /// personality's order that the player can pay is built on the free
    /// territory that `pick` names. Nothing happens where no building is
    /// affordable, no territory is free or `pick` names none.
    pub fn build_with(
        engine: &mut GameEngine,
        player_id: PlayerId,
        personality: AIPersonality,
        pick: usize,
    ) -> (r: Result<(), GameError>)
        requires
            old(engine).wf(),
        ensures
            final(engine).wf(),
            final(engine).same_index(*old(engine)),
            final(engine).state.same_roster(old(engine).state),
            final(engine).state.keeps_ratios(old(engine).state),
            final(engine).state.spends_only(old(engine).state, player_id.0),
            r.is_err() <==> !old(engine).state.has_player(player_id.0),
            r.is_err() ==> r == Err::<(), GameError>(GameError::PlayerNotFound),
            if pick < old(engine).state.buildable(player_id.0).len() {
                final(engine).state.follows_build_turn(
                    old(engine).state,
                    player_id.0,
                    personality,
                    pick as int,
                )
            } else {
                final(engine).state == old(engine).state
            },
    {
        let gold = match engine.get_player(player_id) {
            Ok(p) => p.gold,
            Err(e) => {
                return Err(e);
            },
        };
        let territories = Self::buildable_territories(engine, player_id);
        if pick >= territories.len() {
            return Ok(());
        }
        let building = match personality.affordable(gold) {
            Some(b) => b,
            None => {
                return Ok(());
            },
        };
        proof {
            engine.state.lemma_slots();
            engine.state.lemma_buildable_sound(player_id.0, engine.state.territories@.len() as int);
            assert(engine.state.is_free_for(player_id.0, territories@[pick as int]));
            let s = choose|s: int|
                0 <= s < engine.state.territories@.len() && (
                #[trigger] engine.state.territories@[s]).id == territories@[pick as int]
                    && engine.state.territories@[s].owner == Some(player_id.0)
                    && engine.state.territories@[s].building.is_none();
            assert(engine.state.territory_slot(engine.state.territories@[s].id) == s);
            assert(engine.state.build_error(player_id.0, territories@[pick as int], building)
                .is_none());
        }
        let built = engine.build_structure(player_id, TerritoryId(territories[pick]), building);
        assert(built.is_ok());
        Ok(())
    }

    /// Build the first building of the personality's order that the player
    /// can pay, on one of the player's free territories drawn at random.
    /// Nothing happens where no building is affordable or no territory free.
    pub fn try_build(
        engine: &mut GameEngine,
        player_id: PlayerId,
        personality: AIPersonality,
    ) -> (r: Result<(), GameError>)
        requires
            old(engine).wf(),
        ensures
            final(engine).wf(),
            final(engine).same_index(*old(engine)),
            final(engine).state.same_roster(old(engine).state),
            final(engine).state.keeps_ratios(old(engine).state),
            final(engine).state.spends_only(old(engine).state, player_id.0),
            r.is_err() <==> !old(engine).state.has_player(player_id.0),
            r.is_err() ==> r == Err::<(), GameError>(GameError::PlayerNotFound),
            exists|k: int| #[trigger]
                final(engine).state.follows_build_turn(
                    old(engine).state,
                    player_id.0,
                    personality,
                    k,
                ),
    {
        let gold = match engine.get_player(player_id) {
            Ok(p) => p.gold,
            Err(e) => {
                assert(engine.state.follows_build_turn(
                    old(engine).state,
                    player_id.0,
                    personality,
                    0,
                ));
                return Err(e);
            },
        };
        let count = Self::buildable_territories(engine, player_id).len();
        if personality.affordable(gold).is_none() || count == 0 {
            assert(engine.state.follows_build_turn(old(engine).state, player_id.0, personality, 0));
            return Ok(());
        }
        let pick = random_below(count);
        let built = Self::build_with(engine, player_id, personality, pick);
        assert(engine.state.follows_build_turn(
            old(engine).state,
            player_id.0,
            personality,
            pick as int,
        ));
        built
    }

    /// The attack attempt with the draws made: `pick` names the rusher's
    /// target and `roll`, out of 0..100, decides whether the attack goes
    /// ahead. Nothing happens where the player is unknown, the roll fails or
    /// there is no target, and a refused attack changes nothing.
    pub fn attack_with(
        engine: &mut GameEngine,
        player_id: PlayerId,
        personality: AIPersonality,
        pick: usize,
        roll: usize,
    )
        requires
            old(engine).wf(),
        ensures
            final(engine).wf(),
            final(engine).same_index(*old(engine)),
            final(engine).state.same_roster(old(engine).state),
            final(engine).state.keeps_ratios(old(engine).state),
            final(engine).state.spends_only(old(engine).state, player_id.0),
            final(engine).state.follows_attack_turn(
                old(engine).state,
                player_id.0,
                personality,
                pick,
                roll,
            ),
    {
        let our_troops = match engine.get_player(player_id) {
            Ok(p) => p.troops(),
            Err(_) => {
                return ;
            },
        };
        if !personality.passes_gate(roll) {
            return ;
        }
        let options = Self::attack_options(engine, player_id);
        match personality.select_target(&options, our_troops, pick) {
            Some(k) => {
                let target = options[k];
                let _ = engine.execute_attack(
                    player_id,
                    TerritoryId(target.from),
                    TerritoryId(target.to),
                );
            },
            None => {},
        }
    }

    /// Choose a target as the personality does and, if the draw allows it,
    /// attack: the rusher's target is drawn among the options, the
    /// readiness out of 0..100.
    pub fn try_attack(
        engine: &mut GameEngine,
        player_id: PlayerId,
        personality: AIPersonality,
    ) -> (r: Result<(), GameError>)
        requires
            old(engine).wf(),
        ensures
            final(engine).wf(),
            final(engine).same_index(*old(engine)),
            final(engine).state.same_roster(old(engine).state),
            final(engine).state.keeps_ratios(old(engine).state),
            final(engine).state.spends_only(old(engine).state, player_id.0),
            r.is_ok(),
            exists|pick: usize, roll: usize|
                roll < 100 && #[trigger] final(engine).state.follows_attack_turn(
                    old(engine).state,
                    player_id.0,
                    personality,
                    pick,
                    roll,
                ),
    {
        let pick: usize = match personality {
            AIPersonality::Rusher => {
                let count = Self::attack_options(engine, player_id).len();
                if count == 0 {
                    0
                } else {
                    random_below(count)
                }
            },
            _ => 0,
        };
        let roll = random_below(100);
        Self::attack_with(engine, player_id, personality, pick, roll);
        assert(engine.state.follows_attack_turn(
            old(engine).state,
            player_id.0,
            personality,
            pick,
            roll,
        ));
        Ok(())
    }

    /// One turn of an autonomous player: the ratios, then a build, then an
    /// attack. What cannot be done now is left undone.
    #[verifier::rlimit(60)]
    pub fn execute_ai_turn(engine: &mut GameEngine, player_id: PlayerId, personality: AIPersonality)
        requires
            old(engine).wf(),
        ensures
            final(engine).wf(),
            final(engine).same_index(*old(engine)),
            final(engine).state.same_roster(old(engine).state),
            final(engine).state.spends_only(old(engine).state, player_id.0),
            final(engine).state.follows_turn(old(engine).state, player_id.0, personality),
            forall|i: int|
                0 <= i < old(engine).state.players@.len() ==> ((#[trigger] final(
                    engine
                ).state.players@[i]).troop_ratio, final(engine).state.players@[i].attack_ratio)
                    == if old(engine).state.players@[i].id == player_id.0 {
                    personality.spec_ratios(
                        old(engine).state.spec_game_time_seconds(),
                        old(engine).state.players@[i].territories_controlled,
                    )
                } else {
                    (
                        old(engine).state.players@[i].troop_ratio,
                        old(engine).state.players@[i].attack_ratio,
                    )
                },
    {
        Self::update_ratios(engine, player_id, personality);
        let ghost tuned = engine.state;
        let _ = Self::try_build(engine, player_id, personality);
        let ghost built = engine.state;
        let _ = Self::try_attack(engine, player_id, personality);
        proof {
            engine.state.lemma_turn_made(old(engine).state, tuned, built, player_id.0, personality);
        }
    }

    /// Execute AI actions for all AI players that are alive, in the order
    /// of their slots.
    pub fn tick_all(engine: &mut GameEngine)
        requires
            old(engine).wf(),
        ensures
            final(engine).wf(),
            final(engine).same_index(*old(engine)),
            final(engine).state.same_roster(old(engine).state),
            final(engine).state.bystanders_keep_gold(old(engine).state),
            final(engine).state.follows_turns(
                old(engine).state,
                old(engine).state.players@.len() as int,
            ),
            forall|i: int|
                0 <= i < old(engine).state.players@.len() ==> ((#[trigger] final(
                    engine
                ).state.players@[i]).troop_ratio, final(engine).state.players@[i].attack_ratio)
                    == GameState::turn_ratios(
                    old(engine).state.players@[i],
                    old(engine).state.spec_game_time_seconds(),
                ),
    {
        let mut i: usize = 0;
        while i < engine.state.players.len()
            invariant
                old(engine).wf(),
                engine.wf(),
                engine.same_index(*old(engine)),
                engine.state.same_roster(old(engine).state),
                engine.state.bystanders_keep_gold(old(engine).state),
                engine.state.follows_turns(old(engine).state, i as int),
                i <= engine.state.players@.len(),
                forall|j: int|
                    0 <= j < i ==> ((#[trigger] engine.state.players@[j]).troop_ratio,
                    engine.state.players@[j].attack_ratio) == GameState::turn_ratios(
                        old(engine).state.players@[j],
                        old(engine).state.spec_game_time_seconds(),
                    ),
                forall|j: int|
                    i <= j < engine.state.players@.len() ==> (
                    #[trigger] engine.state.players@[j]).troop_ratio
                        == old(engine).state.players@[j].troop_ratio
                        && engine.state.players@[j].attack_ratio
                        == old(engine).state.players@[j].attack_ratio,
            decreases engine.state.players@.len() - i,
        {
            let ghost before = engine.state;
            if engine.state.players[i].is_ai && engine.state.players[i].is_alive {
                match engine.state.players[i].ai_personality {
                    Some(personality) => {
                        let id = PlayerId(engine.state.players[i].id);
                        proof {
                            assert forall|j: int|
                                0 <= j < before.players@.len() && j != i implies (
                            #[trigger] before.players@[j]).id != id.0 by {
                                if j < i {
                                    assert(before.players@[j].id != before.players@[i as int].id);
                                } else {
                                    assert(before.players@[i as int].id != before.players@[j].id);
                                }
                            }
                        }
                        Self::execute_ai_turn(engine, id, personality);
                    },
                    None => {},
                }
            }
            proof {
                assert(engine.state.follows_slot_turn(before, i as int));
                engine.state.lemma_turns_step(old(engine).state, before, i + 1);
            }
            i += 1;
        }
    }
}

impl GameEngine {
    /// Spread the troops of every alive player over that player's
    /// territories.
    pub fn distribute_all(&mut self)
        requires
            old(self).wf(),
        ensures
            final(self).wf(),
            final(self).same_index(*old(self)),
            final(self).state.same_roster(old(self).state),
            final(self).state.follows_garrison(old(self).state),
    {
        let mut p: usize = 0;
        while p < self.state.players.len()
            invariant
                old(self).wf(),
                self.wf(),
                self.same_index(*old(self)),
                self.state.same_clock(old(self).state),
                self.state.same_entities(old(self).state),
                self.state.players == old(self).state.players,
                p <= self.state.players@.len(),
                forall|i: int|
                    0 <= i < old(self).state.territories@.len()
                        ==> #[trigger] self.state.territories@[i] == old(
                        self
                    ).state.garrisoned_upto(i, p as int),
            decreases self.state.players@.len() - p,
        {
            let ghost before = self.state;
            proof {
                old(self).state.lemma_slots();
            }
            if self.state.players[p].is_alive {
                let id = PlayerId(self.state.players[p].id);
                self.distribute_troops(id);
                proof {
                    assert forall|i: int| 0 <= i < old(self).state.territories@.len() implies
                        #[trigger] self.state.territories@[i] == old(self).state.garrisoned_upto(
                        i,
                        p + 1,
                    ) by {
                        assert(before.territories@[i] == old(self).state.garrisoned_upto(
                            i,
                            p as int,
                        ));
                        assert(self.state.territories@[i] == before.garrisoned(i, id.0));
                        assert(before.players@ == old(self).state.players@);
                        assert(before.player(id.0) == old(self).state.player(id.0));
                    }
                }
            }
            p += 1;
        }
        proof {
            if old(self).state.owners_alive() {
                self.state.lemma_owners_kept(old(self).state);
            }
        }
    }

    /// Spread the troops of every alive player over that player's
    /// territories, then let the autonomous players take their turns. Where
    /// no player is autonomous and alive, the garrisons are all that
    /// changes.
    pub fn tick_ai(&mut self)
        requires
            old(self).wf(),
        ensures
            final(self).wf(),
            final(self).same_index(*old(self)),
            final(self).state.same_roster(old(self).state),
            final(self).state.bystanders_keep_gold(old(self).state),
            final(self).state.follows_ai_round(old(self).state),
            (forall|i: int|
                0 <= i < old(self).state.players@.len() ==> !((#[trigger] old(
                    self
                ).state.players@[i]).is_ai && old(self).state.players@[i].is_alive))
                ==> final(self).state.follows_garrison(old(self).state),
            forall|i: int|
                0 <= i < old(self).state.players@.len() ==> ((#[trigger] final(
                    self
                ).state.players@[i]).troop_ratio, final(self).state.players@[i].attack_ratio)
                    == GameState::turn_ratios(
                    old(self).state.players@[i],
                    old(self).state.spec_game_time_seconds(),
                ),
    {
        self.distribute_all();
        let ghost garrisoned = self.state;
        AIEngine::tick_all(self);
        proof {
            assert(garrisoned.follows_garrison(old(self).state) && self.state.follows_turns(
                garrisoned,
                old(self).state.players@.len() as int,
            ));
            if forall|i: int|
                0 <= i < old(self).state.players@.len() ==> !((#[trigger] old(
                    self
                ).state.players@[i]).is_ai && old(self).state.players@[i].is_alive) {
                assert forall|i: int| 0 <= i < garrisoned.players@.len() implies !((
                #[trigger] garrisoned.players@[i]).is_ai && garrisoned.players@[i].is_alive) by {
                    assert(garrisoned.players@[i] == old(self).state.players@[i]);
                }
                self.state.lemma_turns_idle(garrisoned, garrisoned.players@.len() as int);
            }
        }
    }
}

} // verus!
