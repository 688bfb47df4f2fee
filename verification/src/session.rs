//! The command and event surface: what a client may ask, what the world
//! answers and to whom, and what one round of the game loop announces.
use crate::engine::GameEngine;
use crate::tick::cap64;
use crate::types::{
    BuildingType, CombatResult, GameError, GameState, GameStats, NotificationLevel, Player,
    PlayerId, TerritoryId, MAX_SPEED, MIN_SPEED, RATIO_SCALE,
};
use vstd::prelude::*;

verus! {

/// Messages sent from client to server.
#[derive(Debug, Clone, Copy, PartialEq, Eq, Structural)]
pub enum ClientMessage {
    /// Attack a neighboring territory
    Attack { from: u128, to: u128 },
    /// Build a structure in a territory
    BuildStructure { territory: u128, building_type: BuildingType },
    /// Set the troop/worker ratio, in millionths
    SetTroopRatio { ratio: u32 },
    /// Set the attack commitment ratio, in millionths
    SetAttackRatio { ratio: u32 },
    /// Pause the game
    PauseGame,
    /// Resume the game
    ResumeGame,
    /// Set game speed multiplier, in thousandths
    SetGameSpeed { speed: u32 },
    /// Request full game state
    GetGameState,
}

/// The fixed texts of notifications.
#[derive(Debug, Clone, Copy, PartialEq, Eq, Structural)]
pub enum Notice {
    BuildingCompleted,
}

impl Notice {
    /// The text of the notice.
    pub fn text(&self) -> (r: &'static str)
        ensures
            r@ == "Building completed!"@,
    {
        "Building completed!"
    }
}

/// Messages sent from server to client. A state update stands for the
/// full world at the moment of sending.
#[derive(Debug, Clone, Copy, PartialEq, Eq, Structural)]
pub enum ServerMessage {
    /// Full game state update
    GameStateUpdate,
    /// Result of a combat action
    AttackResult { result: CombatResult },
    /// Territory ownership changed
    TerritoryConquered { territory_id: u128, old_owner: Option<u128>, new_owner: u128 },
    /// Building was constructed
    BuildingCompleted { territory_id: u128, building_type: BuildingType, player_id: u128 },
    /// Player was eliminated
    PlayerEliminated { player_id: u128, eliminated_by: u128 },
    /// Game has ended
    GameOver { stats: GameStats },
    /// General notification
    Notification { message: Notice, severity: NotificationLevel },
    /// Error response
    Error { error: GameError },
}

/// Who receives a message.
#[derive(Debug, Clone, Copy, PartialEq, Eq, Structural)]
pub enum Recipient {
    /// Every registered observer
    Everyone,
    /// Only the client that sent the command
    Sender,
}

/// A message on its way out.
#[derive(Debug, Clone, Copy, PartialEq, Eq, Structural)]
pub struct Outgoing {
    pub to: Recipient,
    pub message: ServerMessage,
}

/// What one round of the game loop announces.
#[derive(Debug, Clone, Copy, PartialEq, Eq, Structural)]
pub enum TickOutcome {
    /// Nothing to send
    Quiet,
    /// A full state update is due
    Snapshot,
    /// One player is left: the loop ends
    GameOver { stats: GameStats },
}

/// Ticks between two full state updates.
pub const SNAPSHOT_PERIOD: u64 = 5;

/// Whether a full state update is due at `tick`: at every fifth, and at no
/// other.
pub fn snapshot_due(tick: u64) -> (r: bool)
    ensures
        r == (tick % SNAPSHOT_PERIOD == 0),
{
    tick % SNAPSHOT_PERIOD == 0
}

impl GameState {
    /// The messages that answer `message` from `player`, in the order of
    /// sending. A refused command is answered to its sender alone.
    pub open spec fn responses(self, player: u128, message: ClientMessage) -> Seq<Outgoing> {
        match message {
            ClientMessage::Attack { from, to } => match self.attack_error(player, from, to) {
                Some(error) => seq![
                    Outgoing { to: Recipient::Sender, message: ServerMessage::Error { error } },
                ],
                None => {
                    let result = self.attack_result(player, from, to);
                    let report = seq![
                        Outgoing {
                            to: Recipient::Everyone,
                            message: ServerMessage::AttackResult { result },
                        },
                    ];
                    if result.territory_conquered {
                        report.push(
                            Outgoing {
                                to: Recipient::Everyone,
                                message: ServerMessage::TerritoryConquered {
                                    territory_id: to,
                                    old_owner: result.defender_id,
                                    new_owner: player,
                                },
                            },
                        )
                    } else {
                        report
                    }
                },
            },
            ClientMessage::BuildStructure { territory, building_type } => match self.build_error(
                player,
                territory,
                building_type,
            ) {
                Some(error) => seq![
                    Outgoing { to: Recipient::Sender, message: ServerMessage::Error { error } },
                ],
                None => seq![
                    Outgoing {
                        to: Recipient::Everyone,
                        message: ServerMessage::BuildingCompleted {
                            territory_id: territory,
                            building_type,
                            player_id: player,
                        },
                    },
                    Outgoing {
                        to: Recipient::Everyone,
                        message: ServerMessage::Notification {
                            message: Notice::BuildingCompleted,
                            severity: NotificationLevel::Success,
                        },
                    },
                ],
            },
            ClientMessage::GetGameState => seq![
                Outgoing { to: Recipient::Sender, message: ServerMessage::GameStateUpdate },
            ],
            _ => Seq::empty(),
        }
    }

    /// The world after `player` has set a ratio is `self`, given that it was
    /// `before`: `troop` tells which of the two ratios.
    pub open spec fn follows_ratio(
        self,
        before: GameState,
        player: u128,
        ratio: u32,
        troop: bool,
    ) -> bool {
        let held = if ratio > RATIO_SCALE {
            RATIO_SCALE
        } else {
            ratio
        };
        &&& self.same_clock(before)
        &&& self.territories == before.territories
        &&& self.players@.len() == before.players@.len()
        &&& forall|i: int|
            0 <= i < before.players@.len() ==> #[trigger] self.players@[i]
                == if before.players@[i].id != player {
                before.players@[i]
            } else if troop {
                Player { troop_ratio: held, ..before.players@[i] }
            } else {
                Player { attack_ratio: held, ..before.players@[i] }
            }
    }

    /// The world after the command `message` from `player` is `self`, given
    /// that it was `before`. A refused command leaves the world as it was.
    pub open spec fn follows_command(
        self,
        before: GameState,
        player: u128,
        message: ClientMessage,
    ) -> bool {
        match message {
            ClientMessage::Attack { from, to } => match before.attack_error(player, from, to) {
                Some(_) => self == before,
                None => self.follows_attack(before, before.attack_result(player, from, to)),
            },
            ClientMessage::BuildStructure { territory, building_type } => match before.build_error(
                player,
                territory,
                building_type,
            ) {
                Some(_) => self == before,
                None => self.follows_build(before, player, territory, building_type),
            },
            ClientMessage::SetTroopRatio { ratio } => self.follows_ratio(
                before,
                player,
                ratio,
                true,
            ),
            ClientMessage::SetAttackRatio { ratio } => self.follows_ratio(
                before,
                player,
                ratio,
                false,
            ),
            ClientMessage::PauseGame => self == (GameState { is_paused: true, ..before }),
            ClientMessage::ResumeGame => self == (GameState { is_paused: false, ..before }),
            ClientMessage::SetGameSpeed { speed } => self == (GameState {
                game_speed: if speed < MIN_SPEED {
                    MIN_SPEED
                } else if speed > MAX_SPEED {
                    MAX_SPEED
                } else {
                    speed
                },
                ..before
            }),
            ClientMessage::GetGameState => self == before,
        }
    }

    /// The world after one round of the game loop is `self`, given that it
    /// was `before`: the tick, then the garrisons and the autonomous
    /// players' turns.
    pub open spec fn follows_round(self, before: GameState, tick_rate_ms: u64) -> bool {
        exists|mid: GameState|
            #![trigger mid.follows_tick(before, tick_rate_ms)]
            mid.follows_tick(before, tick_rate_ms) && self.follows_ai_round(mid)
    }

    /// What a round of the game loop announces once it has brought the
    /// world to `self`: the end of the game when exactly one player is
    /// alive, else a state update at every fifth tick, else nothing.
    pub open spec fn spec_outcome(self) -> TickOutcome {
        match self.spec_game_over() {
            Some(stats) => TickOutcome::GameOver { stats },
            None => if self.tick % SNAPSHOT_PERIOD == 0 {
                TickOutcome::Snapshot
            } else {
                TickOutcome::Quiet
            },
        }
    }
}

impl GameState {
    /// The end of the game is announced exactly when one player is alive,
    /// and then the score is the winner's territories times 100 plus a
    /// tenth of the winner's gold.
    pub proof fn lemma_game_over_with_one_alive(self)
        ensures
            (self.spec_outcome() matches TickOutcome::GameOver { .. }) <==> self.alive_count(
                self.players@.len() as int,
            ) == 1,
            self.spec_outcome() matches TickOutcome::GameOver { stats } ==> exists|i: int|
                0 <= i < self.players@.len() && (#[trigger] self.players@[i]).is_alive
                    && stats.winner == self.players@[i].id && stats.final_score
                    == Self::final_score(self.players@[i]),
    {
        let n = self.players@.len() as int;
        self.lemma_last_alive(n);
        if self.alive_count(n) == 1 {
            let w = self.last_alive(n);
            assert(self.players@[w].is_alive);
        }
    }

    /// Where somebody is alive among the first `n` players, the last of
    /// them is one of the `n` and alive.
    pub proof fn lemma_last_alive(self, n: int)
        requires
            0 <= n <= self.players@.len(),
        ensures
            self.alive_count(n) > 0 ==> 0 <= self.last_alive(n) < n
                && self.players@[self.last_alive(n)].is_alive,
        decreases n,
    {
        if n > 0 {
            self.lemma_last_alive(n - 1);
        }
    }

    /// While the game goes on, a state update is announced at the ticks
    /// that five divides and at no other.
    pub proof fn lemma_snapshot_every_fifth_tick(self)
        requires
            self.spec_game_over().is_none(),
        ensures
            self.spec_outcome() == TickOutcome::Snapshot <==> self.tick % 5 == 0,
            self.spec_outcome() == TickOutcome::Quiet <==> self.tick % 5 != 0,
    {
    }
}

impl GameEngine {
    /// Carry out one client command and say what is to be sent to whom.
    pub fn handle_message(&mut self, player_id: PlayerId, message: ClientMessage) -> (out: Vec<
        Outgoing,
    >)
        requires
            old(self).wf(),
        ensures
            final(self).wf(),
            final(self).same_index(*old(self)),
            final(self).state.follows_command(old(self).state, player_id.0, message),
            old(self).state.owners_alive() ==> final(self).state.owners_alive(),
            out@ == old(self).state.responses(player_id.0, message),
    {
        let mut out: Vec<Outgoing> = Vec::new();
        match message {
            ClientMessage::Attack { from, to } => {
                match self.execute_attack(player_id, TerritoryId(from), TerritoryId(to)) {
                    Ok(result) => {
                        out.push(
                            Outgoing {
                                to: Recipient::Everyone,
                                message: ServerMessage::AttackResult { result },
                            },
                        );
                        if result.territory_conquered {
                            out.push(
                                Outgoing {
                                    to: Recipient::Everyone,
                                    message: ServerMessage::TerritoryConquered {
                                        territory_id: result.to_territory,
                                        old_owner: result.defender_id,
                                        new_owner: result.attacker_id,
                                    },
                                },
                            );
                        }
                    },
                    Err(error) => {
                        out.push(
                            Outgoing {
                                to: Recipient::Sender,
                                message: ServerMessage::Error { error },
                            },
                        );
                    },
                }
            },
            ClientMessage::BuildStructure { territory, building_type } => {
                match self.build_structure(player_id, TerritoryId(territory), building_type) {
                    Ok(_) => {
                        out.push(
                            Outgoing {
                                to: Recipient::Everyone,
                                message: ServerMessage::BuildingCompleted {
                                    territory_id: territory,
                                    building_type,
                                    player_id: player_id.0,
                                },
                            },
                        );
                        out.push(
                            Outgoing {
                                to: Recipient::Everyone,
                                message: ServerMessage::Notification {
                                    message: Notice::BuildingCompleted,
                                    severity: NotificationLevel::Success,
                                },
                            },
                        );
                    },
                    Err(error) => {
                        out.push(
                            Outgoing {
                                to: Recipient::Sender,
                                message: ServerMessage::Error { error },
                            },
                        );
                    },
                }
            },
            ClientMessage::SetTroopRatio { ratio } => {
                let _ = self.set_troop_ratio(player_id, ratio);
            },
            ClientMessage::SetAttackRatio { ratio } => {
                let _ = self.set_attack_ratio(player_id, ratio);
            },
            ClientMessage::PauseGame => {
                self.set_paused(true);
            },
            ClientMessage::ResumeGame => {
                self.set_paused(false);
            },
            ClientMessage::SetGameSpeed { speed } => {
                self.set_game_speed(speed);
            },
            ClientMessage::GetGameState => {
                out.push(
                    Outgoing { to: Recipient::Sender, message: ServerMessage::GameStateUpdate },
                );
            },
        }
        proof {
            assert(out@ =~= old(self).state.responses(player_id.0, message));
            if old(self).state.owners_alive() {
                match message {
                    ClientMessage::Attack { .. } => {},
                    ClientMessage::BuildStructure { .. } => {},
                    _ => {
                        self.state.lemma_owners_kept(old(self).state);
                    },
                }
            }
        }
        out
    }

    /// What is to be announced now that a round has been played.
    pub fn after_tick(&self) -> (r: TickOutcome)
        ensures
            r == self.state.spec_outcome(),
    {
        match self.check_game_over() {
            Some(stats) => TickOutcome::GameOver { stats },
            None => if snapshot_due(self.state.tick) {
                TickOutcome::Snapshot
            } else {
                TickOutcome::Quiet
            },
        }
    }

    /// One round of the game loop: the tick, the autonomous players' turns,
    /// and what is to be announced of the world as it then stands.
    pub fn game_loop_step(&mut self) -> (r: TickOutcome)
        requires
            old(self).wf(),
        ensures
            final(self).wf(),
            final(self).same_index(*old(self)),
            final(self).state.same_entities(old(self).state),
            final(self).state.is_paused == old(self).state.is_paused,
            final(self).state.game_speed == old(self).state.game_speed,
            final(self).state.tick == if old(self).state.is_paused {
                old(self).state.tick
            } else {
                cap64(old(self).state.tick as nat + 1)
            },
            final(self).state.game_time_micros == if old(self).state.is_paused {
                old(self).state.game_time_micros
            } else {
                cap64(
                    old(self).state.game_time_micros as nat + (old(self).tick_rate_ms as nat) * (
                    old(self).state.game_speed as nat),
                )
            },
            forall|i: int|
                0 <= i < old(self).state.players@.len() ==> (#[trigger] final(
                    self
                ).state.players@[i]).is_alive == (old(self).state.players@[i].is_alive && (old(
                    self
                ).state.is_paused || old(self).state.owned(old(self).state.players@[i].id) > 0)),
            final(self).state.follows_round(old(self).state, old(self).tick_rate_ms),
            old(self).state.owners_alive() ==> final(self).state.owners_alive(),
            r == final(self).state.spec_outcome(),
    {
        self.tick();
        let ghost ticked = self.state;
        self.tick_ai();
        proof {
            assert(ticked.follows_tick(old(self).state, old(self).tick_rate_ms)
                && self.state.follows_ai_round(ticked));
        }
        self.after_tick()
    }
}

} // verus!
