//! The plain data of a world: territories, participants, the clock, and the
//! values that commands and events carry.
//!
//! Fractions are held in fixed point. A ratio is a count of millionths
//! (`RATIO_SCALE` stands for 1.0), a multiplier is a percentage (100 stands
//! for 1.0) and the game speed is a count of thousandths (`SPEED_SCALE`
//! stands for 1.0). Identifiers are 128-bit integers.
use vstd::prelude::*;

verus! {

/// The fixed-point value of the ratio 1.0.
pub const RATIO_SCALE: u32 = 1_000_000;

/// The fixed-point value of the game speed 1.0.
pub const SPEED_SCALE: u32 = 1000;

/// The slowest game speed, 0.5.
pub const MIN_SPEED: u32 = 500;

/// The fastest game speed, 4.0.
pub const MAX_SPEED: u32 = 4000;

/// Territory identifier.
#[derive(Debug, Clone, Copy, PartialEq, Eq, Structural, Hash)]
pub struct TerritoryId(pub u128);

impl TerritoryId {
    pub fn new(id: u128) -> (r: Self)
        ensures
            r.0 == id,
    {
        Self(id)
    }
}

/// Player identifier.
#[derive(Debug, Clone, Copy, PartialEq, Eq, Structural, Hash)]
pub struct PlayerId(pub u128);

impl PlayerId {
    pub fn new(id: u128) -> (r: Self)
        ensures
            r.0 == id,
    {
        Self(id)
    }
}

/// Terrain type affecting territory bonuses.
#[derive(Debug, Clone, Copy, PartialEq, Eq, Structural)]
pub enum TerrainType {
    /// +20% gold generation
    Plains,
    /// 30% fewer defender losses
    Mountains,
    /// +20% population growth
    Forests,
    /// No bonus
    Water,
}

impl TerrainType {
    pub open spec fn spec_gold_multiplier(self) -> nat {
        if self == TerrainType::Plains { 120 } else { 100 }
    }

    pub open spec fn spec_defense_multiplier(self) -> nat {
        if self == TerrainType::Mountains { 70 } else { 100 }
    }

    pub open spec fn spec_population_growth_multiplier(self) -> nat {
        if self == TerrainType::Forests { 120 } else { 100 }
    }

    /// What the terrain adds to a population growth of one, in percent:
    /// its growth multiplier less one.
    pub open spec fn spec_growth_bonus(self) -> nat {
        if self == TerrainType::Forests { 20 } else { 0 }
    }

    /// Gold multiplier of the terrain, in percent.
    pub fn gold_multiplier(&self) -> (r: u32)
        ensures
            r == self.spec_gold_multiplier(),
    {
        match self {
            TerrainType::Plains => 120,
            _ => 100,
        }
    }

    /// Multiplier applied to a defender's losses on this terrain, in percent.
    pub fn defense_multiplier(&self) -> (r: u32)
        ensures
            r == self.spec_defense_multiplier(),
    {
        match self {
            TerrainType::Mountains => 70,
            _ => 100,
        }
    }

    /// Population growth multiplier of the terrain, in percent.
    pub fn population_growth_multiplier(&self) -> (r: u32)
        ensures
            r == self.spec_population_growth_multiplier(),
    {
        match self {
            TerrainType::Forests => 120,
            _ => 100,
        }
    }
}

/// Building types that can be constructed in territories.
#[derive(Debug, Clone, Copy, PartialEq, Eq, Structural)]
pub enum BuildingType {
    /// +25,000 max population, costs 1000 gold
    City,
    /// 20% fewer defender losses, costs 500 gold
    DefensePost,
    /// +50% gold generation, costs 750 gold
    GoldMine,
}

impl BuildingType {
    pub open spec fn spec_cost(self) -> nat {
        match self {
            BuildingType::City => 1000,
            BuildingType::DefensePost => 500,
            BuildingType::GoldMine => 750,
        }
    }

    pub open spec fn spec_max_population_bonus(self) -> nat {
        if self == BuildingType::City { 25_000 } else { 0 }
    }

    pub open spec fn spec_defense_multiplier(self) -> nat {
        if self == BuildingType::DefensePost { 80 } else { 100 }
    }

    pub open spec fn spec_gold_multiplier(self) -> nat {
        if self == BuildingType::GoldMine { 150 } else { 100 }
    }

    /// Price of the building in gold.
    pub fn cost(&self) -> (r: u32)
        ensures
            r == self.spec_cost(),
    {
        match self {
            BuildingType::City => 1000,
            BuildingType::DefensePost => 500,
            BuildingType::GoldMine => 750,
        }
    }

    /// What the building adds to its owner's population cap.
    pub fn max_population_bonus(&self) -> (r: u32)
        ensures
            r == self.spec_max_population_bonus(),
    {
        match self {
            BuildingType::City => 25_000,
            _ => 0,
        }
    }

    /// Multiplier applied to a defender's losses behind this building, in percent.
    pub fn defense_multiplier(&self) -> (r: u32)
        ensures
            r == self.spec_defense_multiplier(),
    {
        match self {
            BuildingType::DefensePost => 80,
            _ => 100,
        }
    }

    /// Gold multiplier of the building, in percent.
    pub fn gold_multiplier(&self) -> (r: u32)
        ensures
            r == self.spec_gold_multiplier(),
    {
        match self {
            BuildingType::GoldMine => 150,
            _ => 100,
        }
    }
}

/// Defender-loss multiplier of an optional building, in percent.
pub open spec fn building_defense(building: Option<BuildingType>) -> nat {
    match building {
        Some(b) => b.spec_defense_multiplier(),
        None => 100,
    }
}

/// Gold multiplier of an optional building, in percent.
pub open spec fn building_gold(building: Option<BuildingType>) -> nat {
    match building {
        Some(b) => b.spec_gold_multiplier(),
        None => 100,
    }
}

/// A point of the map, each coordinate in millionths of the map's side.
#[derive(Debug, Clone, Copy, PartialEq, Eq, Structural)]
pub struct Position {
    pub x: u32,
    pub y: u32,
}

/// A territory on the map.
#[derive(Debug, Clone)]
pub struct Territory {
    pub id: u128,
    /// The owning player's identifier; `None` for a neutral territory.
    pub owner: Option<u128>,
    pub terrain: TerrainType,
    pub building: Option<BuildingType>,
    /// Troops stationed in this territory.
    pub troops: u32,
    /// Identifiers of the neighbouring territories.
    pub neighbors: Vec<u128>,
    /// Position for rendering.
    pub position: Position,
}

impl Territory {
    pub open spec fn spec_owned_by(self, player: u128) -> bool {
        self.owner == Some(player)
    }

    /// Whether `player` owns the territory.
    pub fn owned_by(&self, player: u128) -> (r: bool)
        ensures
            r == self.spec_owned_by(player),
    {
        match self.owner {
            Some(o) => o == player,
            None => false,
        }
    }

    /// Whether `other` is listed among the territory's neighbours.
    pub fn has_neighbor(&self, other: u128) -> (r: bool)
        ensures
            r == self.neighbors@.contains(other),
    {
        let mut i: usize = 0;
        while i < self.neighbors.len()
            invariant
                i <= self.neighbors.len(),
                forall|j: int| 0 <= j < i ==> self.neighbors@[j] != other,
            decreases self.neighbors.len() - i,
        {
            if self.neighbors[i] == other {
                return true;
            }
            i += 1;
        }
        false
    }
}

/// AI personality type determining behaviour.
#[derive(Debug, Clone, Copy, PartialEq, Eq, Structural)]
pub enum AIPersonality {
    /// High worker ratio, builds defense posts
    Turtle,
    /// High troop ratio, attacks constantly
    Aggressor,
    /// Balanced approach
    Balanced,
    /// Attacks weakest neighbours
    Opportunist,
    /// 100% troops, immediate attacks
    Rusher,
}

/// A player in the game (human or AI).
#[derive(Debug, Clone)]
pub struct Player {
    pub id: u128,
    pub name: String,
    pub is_ai: bool,
    pub ai_personality: Option<AIPersonality>,
    pub color: String,
    pub population: u32,
    pub max_population: u32,
    pub gold: u32,
    /// Share of the population used as troops, in millionths.
    pub troop_ratio: u32,
    /// Share of the troops committed per attack, in millionths.
    pub attack_ratio: u32,
    /// Territories owned at the last recount.
    pub territories_controlled: u32,
    pub is_alive: bool,
}

impl Player {
    /// Both ratios are at most 1.0, the population is within its cap, and
    /// the player has a personality exactly if it is autonomous.
    pub open spec fn valid(self) -> bool {
        &&& self.troop_ratio <= RATIO_SCALE
        &&& self.attack_ratio <= RATIO_SCALE
        &&& self.population <= self.max_population
        &&& self.is_ai == self.ai_personality.is_some()
    }

    /// `floor(population * troop_ratio)`.
    pub open spec fn spec_troops(self) -> nat {
        ((self.population as nat) * (self.troop_ratio as nat)) / (RATIO_SCALE as nat)
    }

    /// `population - troops`.
    pub open spec fn spec_workers(self) -> nat {
        (self.population as nat - self.spec_troops()) as nat
    }

    /// `floor(troops * attack_ratio)`: the force committed to one attack.
    pub open spec fn spec_attack_force(self) -> nat {
        (self.spec_troops() * (self.attack_ratio as nat)) / (RATIO_SCALE as nat)
    }

    /// With a troop ratio of at most 1.0 the troops never exceed the population.
    pub proof fn lemma_troops_bounded(self)
        requires
            self.troop_ratio <= RATIO_SCALE,
        ensures
            self.spec_troops() <= self.population,
            self.attack_ratio <= RATIO_SCALE ==> self.spec_attack_force() <= self.spec_troops(),
    {
        lemma_scaled_bounded(self.population as nat, self.troop_ratio as nat);
        if self.attack_ratio <= RATIO_SCALE {
            lemma_scaled_bounded(self.spec_troops(), self.attack_ratio as nat);
        }
    }

    /// The part of the population under arms.
    pub fn troops(&self) -> (r: u32)
        requires
            self.troop_ratio <= RATIO_SCALE,
        ensures
            r == self.spec_troops(),
            r <= self.population,
    {
        proof {
            self.lemma_troops_bounded();
        }
        scale_by_ratio(self.population, self.troop_ratio)
    }

    /// The part of the population at work.
    pub fn workers(&self) -> (r: u32)
        requires
            self.troop_ratio <= RATIO_SCALE,
        ensures
            r == self.spec_workers(),
    {
        self.population - self.troops()
    }

    /// The troops that one attack commits.
    pub fn attack_force(&self) -> (r: u32)
        requires
            self.troop_ratio <= RATIO_SCALE,
            self.attack_ratio <= RATIO_SCALE,
        ensures
            r == self.spec_attack_force(),
            r <= self.spec_troops(),
    {
        proof {
            self.lemma_troops_bounded();
        }
        scale_by_ratio(self.troops(), self.attack_ratio)
    }
}

/// `floor(x * ratio / RATIO_SCALE)` is at most `x` when the ratio is at most 1.0.
pub proof fn lemma_scaled_bounded(x: nat, ratio: nat)
    requires
        ratio <= RATIO_SCALE,
    ensures
        (x * ratio) / (RATIO_SCALE as nat) <= x,
{
    assert(x * ratio <= x * 1_000_000) by (nonlinear_arith)
        requires
            ratio <= 1_000_000,
    ;
    assert((x * ratio) / 1_000_000 <= x) by (nonlinear_arith)
        requires
            x * ratio <= x * 1_000_000,
    ;
}

/// `floor(x * ratio)` for a ratio in millionths.
pub fn scale_by_ratio(x: u32, ratio: u32) -> (r: u32)
    requires
        ratio <= RATIO_SCALE,
    ensures
        r == ((x as nat) * (ratio as nat)) / (RATIO_SCALE as nat),
        r <= x,
{
    proof {
        lemma_scaled_bounded(x as nat, ratio as nat);
        assert((x as nat) * (ratio as nat) <= 0xffff_ffff * 1_000_000) by (nonlinear_arith)
            requires
                x <= 0xffff_ffff,
                ratio <= 1_000_000,
        ;
    }
    let wide: u64 = (x as u64) * (ratio as u64) / 1_000_000;
    wide as u32
}

/// Complete game state.
#[derive(Debug, Clone)]
pub struct GameState {
    pub territories: Vec<Territory>,
    pub players: Vec<Player>,
    pub tick: u64,
    /// Speed multiplier in thousandths: 1000 is normal speed.
    pub game_speed: u32,
    pub is_paused: bool,
    /// Elapsed game time in microseconds.
    pub game_time_micros: u64,
}

impl GameState {
    /// Whether some player carries the identifier `id`.
    pub open spec fn has_player(self, id: u128) -> bool {
        exists|i: int| 0 <= i < self.players@.len() && #[trigger] self.players@[i].id == id
    }

    /// Whether some territory carries the identifier `id`.
    pub open spec fn has_territory(self, id: u128) -> bool {
        exists|i: int| 0 <= i < self.territories@.len() && #[trigger] self.territories@[i].id == id
    }

    /// The invariant of a world: identifiers are unique, every territory has
    /// a neighbour, is a neighbour of its neighbours, and is neutral or
    /// owned by a player of this world, every player is valid, the speed is
    /// within its bounds, and the territories can be counted in 32 bits.
    pub open spec fn valid(self) -> bool {
        &&& self.territories@.len() <= u32::MAX
        &&& MIN_SPEED <= self.game_speed <= MAX_SPEED
        &&& forall|i: int, j: int|
            0 <= i < j < self.territories@.len() ==> #[trigger] self.territories@[i].id
                != #[trigger] self.territories@[j].id
        &&& forall|i: int, j: int|
            0 <= i < j < self.players@.len() ==> #[trigger] self.players@[i].id
                != #[trigger] self.players@[j].id
        &&& forall|i: int|
            0 <= i < self.players@.len() ==> (#[trigger] self.players@[i]).valid()
        &&& forall|i: int|
            0 <= i < self.territories@.len() ==> match (#[trigger] self.territories@[i]).owner {
                Some(o) => self.has_player(o),
                None => true,
            }
        &&& forall|i: int|
            0 <= i < self.territories@.len() ==> (#[trigger] self.territories@[i]).neighbors@.len()
                >= 1
        &&& self.neighbors_symmetric()
    }

    /// Whether each territory is a neighbour of its neighbours.
    pub open spec fn neighbors_symmetric(self) -> bool {
        forall|i: int, j: int|
            0 <= i < self.territories@.len() && 0 <= j < self.territories@.len()
                && #[trigger] self.territories@[i].neighbors@.contains(self.territories@[j].id)
                ==> self.territories@[j].neighbors@.contains(self.territories@[i].id)
    }

    /// Elapsed game time in whole seconds.
    pub open spec fn spec_game_time_seconds(self) -> nat {
        (self.game_time_micros as nat) / 1_000_000
    }

    /// Elapsed game time in whole seconds.
    pub fn game_time_seconds(&self) -> (r: u64)
        ensures
            r == self.spec_game_time_seconds(),
    {
        self.game_time_micros / 1_000_000
    }
}

/// Combat result after an attack.
#[derive(Debug, Clone, Copy, PartialEq, Eq, Structural)]
pub struct CombatResult {
    pub attacker_id: u128,
    /// The target's owner before the battle; `None` for a neutral target.
    pub defender_id: Option<u128>,
    pub from_territory: u128,
    pub to_territory: u128,
    pub attacker_troops_committed: u32,
    pub defender_troops: u32,
    pub attacker_losses: u32,
    pub defender_losses: u32,
    pub territory_conquered: bool,
}

/// Game statistics at end of game.
#[derive(Debug, Clone, Copy, PartialEq, Eq, Structural)]
pub struct GameStats {
    pub winner: u128,
    pub game_duration_seconds: u64,
    pub territories_captured: u32,
    pub total_battles: u32,
    pub final_score: u32,
}

/// Notification severity level.
#[derive(Debug, Clone, Copy, PartialEq, Eq, Structural)]
pub enum NotificationLevel {
    Info,
    Warning,
    Error,
    Success,
}

/// Why a command was refused.
#[derive(Debug, Clone, Copy, PartialEq, Eq, Structural)]
pub enum GameError {
    TerritoryNotFound,
    PlayerNotFound,
    NotOwner,
    AlreadyBuilt,
    NotEnoughGold,
    NotAttackerTerritory,
    NotNeighbors,
    OwnTerritory,
    NoTroops,
}

impl GameError {
    /// The text shown to the client that issued the command.
    pub fn message(&self) -> (r: &'static str)
        ensures
            r@ == self.spec_message(),
    {
        match self {
            GameError::TerritoryNotFound => "Territory not found",
            GameError::PlayerNotFound => "Player not found",
            GameError::NotOwner => "You don't own this territory",
            GameError::AlreadyBuilt => "Territory already has a building",
            GameError::NotEnoughGold => "Not enough gold",
            GameError::NotAttackerTerritory => "You don't own the attacking territory",
            GameError::NotNeighbors => "Territories are not neighbors",
            GameError::OwnTerritory => "Can't attack your own territory",
            GameError::NoTroops => "No troops available to attack",
        }
    }

    pub open spec fn spec_message(self) -> Seq<char> {
        match self {
            GameError::TerritoryNotFound => "Territory not found"@,
            GameError::PlayerNotFound => "Player not found"@,
            GameError::NotOwner => "You don't own this territory"@,
            GameError::AlreadyBuilt => "Territory already has a building"@,
            GameError::NotEnoughGold => "Not enough gold"@,
            GameError::NotAttackerTerritory => "You don't own the attacking territory"@,
            GameError::NotNeighbors => "Territories are not neighbors"@,
            GameError::OwnTerritory => "Can't attack your own territory"@,
            GameError::NoTroops => "No troops available to attack"@,
        }
    }
}

/// Parameters of world generation.
#[derive(Debug, Clone, Copy, PartialEq, Eq, Structural)]
pub struct MapGenerator {
    pub territory_count: usize,
    pub player_count: usize,
}

impl MapGenerator {
    pub fn new(territory_count: usize, player_count: usize) -> (r: Self)
        ensures
            r.territory_count == territory_count,
            r.player_count == player_count,
    {
        Self { territory_count, player_count }
    }
}

} // verus!
