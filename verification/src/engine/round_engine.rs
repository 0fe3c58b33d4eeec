//! The round engine: takes a round through its phases.
//!
//! A round starts with its initialization, in which robots that are powered
//! down are repaired and cards are dealt. The players then program their
//! registers. Once all of them have done so the registers are resolved, and
//! unless the game has ended the round is cleaned up: registers are locked by
//! damage and the cards of the other registers go back to the deck.

use vstd::prelude::*;

use crate::engine::player_input::{ProgramInput, ProgramInputView};
use crate::engine::register_engine::{registers_from, RegisterEngine, RegisterEngineError};
use crate::state::cards::{distinct_places, left_cards, taken_cards, ProgramCardDeck};
use crate::state::game_state::{
    active_ids, EGamePhase, EGameResult, EGameResultView, ERoundPhase, Round, RoundView,
};
use crate::state::player::{
    unlocked_cards, EPoweredDown, Player, PlayerView, Robot, MAX_DAMAGE_TOKENS,
};
use crate::state::state::{State, StateView};
use crate::state::{MoveCardID, PlayerID, StateError};

verus! {

/// What a transition of a round or of the game can fail with.
#[allow(inconsistent_fields)]
#[derive(Debug, Copy, Clone, PartialEq, Eq, Structural)]
pub enum EngineError {
    /// The player handed in `actual` cards for `expected` unlocked registers.
    InvalidPlayerInput { player_id: PlayerID, expected: usize, actual: usize },
    GenericAlgorithmError { err: StateError },
    InvalidRoundPhase { expected: ERoundPhase, actual: ERoundPhase },
    InvalidGamePhase { expected: EGamePhase, actual: EGamePhase },
}

/// The robot after the maintenance at the beginning of a round: a robot that
/// is powered down, or is to be from this round on, loses its damage tokens
/// and is powered down.
pub open spec fn serviced(robot: Robot) -> Robot {
    match robot.powered_down {
        EPoweredDown::Yes => Robot { damage: 0, ..robot },
        EPoweredDown::NextRound => Robot { damage: 0, powered_down: EPoweredDown::Yes, ..robot },
        EPoweredDown::No => robot,
    }
}

/// The state after the maintenance of the robots of all active players.
pub open spec fn prepared(s: StateView) -> StateView {
    s.with_robots(
        Seq::new(
            s.players.len(),
            |i: int|
                if s.players[i].active() {
                    serviced(s.players[i].robot)
                } else {
                    s.players[i].robot
                },
        ),
    )
}

/// The number of cards that are dealt to a robot with the given damage from a
/// deck of `available` cards: one for each damage token that the robot can
/// still take, as far as the deck goes.
pub open spec fn cards_to_draw(damage: u32, available: nat) -> nat {
    let wanted: nat = if damage >= MAX_DAMAGE_TOKENS {
        0
    } else {
        (MAX_DAMAGE_TOKENS - damage) as nat
    };
    if wanted <= available {
        wanted
    } else {
        available
    }
}

/// The state after player `k` was dealt the cards at the places `indices` of
/// the deck as the new hand.
pub open spec fn dealt(s: StateView, k: int, indices: Seq<usize>) -> StateView {
    StateView {
        players: s.players.update(
            k,
            PlayerView { program_card_deck: taken_cards(s.deck, indices, 0), ..s.players[k] },
        ),
        deck: left_cards(s.deck, indices, s.deck.len() as int),
        ..s
    }
}

/// The state after the first `k` players were dealt their hands, the active
/// ones among them, player `j` from the places `choices[j]` of the deck.
pub open spec fn dealt_upto(s: StateView, k: int, choices: Seq<Seq<usize>>) -> StateView
    decreases k,
{
    if k <= 0 {
        s
    } else {
        let before = dealt_upto(s, k - 1, choices);
        if before.players[k - 1].active() {
            dealt(before, k - 1, choices[k - 1])
        } else {
            before
        }
    }
}

/// Whether the places are a possible draw for each of the first `k` players:
/// as many places of the deck as the player is to get cards, each named once.
pub open spec fn possible_draws(s: StateView, k: int, choices: Seq<Seq<usize>>) -> bool
    decreases k,
{
    if k <= 0 {
        true
    } else {
        let before = dealt_upto(s, k - 1, choices);
        &&& possible_draws(s, k - 1, choices)
        &&& before.players[k - 1].active() ==> {
            &&& distinct_places(choices[k - 1], before.deck.len() as int)
            &&& choices[k - 1].len() == cards_to_draw(
                before.players[k - 1].robot.damage,
                before.deck.len(),
            )
        }
    }
}

/// Whether `r` is a round with the id `id` that was initialized from the state
/// `s`: after the maintenance of the robots, every active player was dealt a
/// hand from the deck.
pub open spec fn initialized_from(s: StateView, id: u32, r: RoundView) -> bool {
    &&& r.id == id
    &&& r.phase == ERoundPhase::PROGRAMMING
    &&& exists|choices: Seq<Seq<usize>>|
        choices.len() == s.players.len() && possible_draws(
            prepared(s),
            s.players.len() as int,
            choices,
        ) && r.state == #[trigger] dealt_upto(prepared(s), s.players.len() as int, choices)
}

/// Dealing to the first `k` players does not depend on the draws of the
/// others.
proof fn lemma_dealt_prefix(s: StateView, k: int, choices: Seq<Seq<usize>>, more: Seq<usize>)
    requires
        0 <= k <= choices.len(),
        k <= s.players.len(),
    ensures
        dealt_upto(s, k, choices.push(more)) == dealt_upto(s, k, choices),
        possible_draws(s, k, choices.push(more)) == possible_draws(s, k, choices),
        dealt_upto(s, k, choices).players.len() == s.players.len(),
        dealt_upto(s, k, choices).board == s.board,
    decreases k,
{
    if k > 0 {
        lemma_dealt_prefix(s, k - 1, choices, more);
    }
}

/// The state after the cards of the unlocked registers of player `k` went back
/// to the deck.
pub open spec fn discarded(s: StateView, k: int) -> StateView {
    StateView {
        players: s.players.update(k, s.players[k].without_unlocked_cards()),
        deck: s.deck + unlocked_cards(
            s.players[k].registers,
            s.players[k].registers.len() as int,
        ),
        ..s
    }
}

/// The state after the active players among the first `k` discarded the cards
/// of their unlocked registers.
pub open spec fn discarded_upto(s: StateView, k: int) -> StateView
    decreases k,
{
    if k <= 0 {
        s
    } else {
        let before = discarded_upto(s, k - 1);
        if before.players[k - 1].active() {
            discarded(before, k - 1)
        } else {
            before
        }
    }
}

proof fn lemma_discarded_shape(s: StateView, k: int)
    requires
        0 <= k <= s.players.len(),
    ensures
        discarded_upto(s, k).players.len() == s.players.len(),
        discarded_upto(s, k).board == s.board,
    decreases k,
{
    if k > 0 {
        lemma_discarded_shape(s, k - 1);
    }
}

/// The player after the first `n` chosen cards went from the hand into the
/// registers, the `i`-th card into register `i`.
pub open spec fn programmed(player: PlayerView, choices: Seq<MoveCardID>, n: int) -> Result<
    PlayerView,
    StateError,
>
    decreases n,
{
    if n <= 0 {
        Ok(player)
    } else {
        match programmed(player, choices, n - 1) {
            Ok(p) => p.choose_card(n - 1, choices[n - 1]),
            Err(e) => Err(e),
        }
    }
}

/// The player of the input with the registers programmed as the input says.
///
/// Fails where no player has the id of the input, where the input does not
/// hold one card for each unlocked register, and where a card cannot be put
/// into its register.
pub open spec fn with_registers(s: StateView, input: ProgramInputView) -> Result<
    PlayerView,
    EngineError,
> {
    match s.player_index(input.player_id) {
        None => Err(
            EngineError::GenericAlgorithmError {
                err: StateError::PlayerNotFound { player_id: input.player_id },
            },
        ),
        Some(i) => {
            let player = s.players[i];
            if player.unlocked_count() != input.register_cards_choices.len() {
                Err(
                    EngineError::InvalidPlayerInput {
                        player_id: input.player_id,
                        expected: player.unlocked_count() as usize,
                        actual: input.register_cards_choices.len() as usize,
                    },
                )
            } else {
                match programmed(
                    player,
                    input.register_cards_choices,
                    input.register_cards_choices.len() as int,
                ) {
                    Ok(p) => Ok(p),
                    Err(e) => Err(EngineError::GenericAlgorithmError { err: e }),
                }
            }
        },
    }
}

/// Whether every unlocked register of the player holds a card.
pub open spec fn fully_programmed(player: PlayerView) -> bool {
    forall|i: int|
        0 <= i < player.registers.len() && !(#[trigger] player.registers[i]).locked
            ==> player.registers[i].move_card is Some
}

/// Whether every active player has a card in every unlocked register.
pub open spec fn all_programmed(s: StateView) -> bool {
    forall|i: int|
        0 <= i < s.players.len() && (#[trigger] s.players[i]).active() ==> fully_programmed(
            s.players[i],
        )
}

/// The round after a player handed in a program. Once all active players have
/// done so, the round goes on to the execution of the registers.
pub open spec fn program_input(round: RoundView, input: ProgramInputView) -> Result<
    RoundView,
    EngineError,
> {
    if round.phase != ERoundPhase::PROGRAMMING {
        Err(
            EngineError::InvalidRoundPhase {
                expected: ERoundPhase::PROGRAMMING,
                actual: round.phase,
            },
        )
    } else {
        match with_registers(round.state, input) {
            Err(e) => Err(e),
            Ok(player) => {
                let i = round.state.player_index(input.player_id)->Some_0;
                let state = StateView {
                    players: round.state.players.update(i, player),
                    ..round.state
                };
                Ok(
                    RoundView {
                        state,
                        phase: if all_programmed(state) {
                            ERoundPhase::EXECUTION
                        } else {
                            ERoundPhase::PROGRAMMING
                        },
                        ..round
                    },
                )
            },
        }
    }
}

/// How the game stands after the registers were resolved: a draw between the
/// players who were active before where no active player is left, a win for
/// the last active player, and undecided while two or more are active.
pub open spec fn result_after(before: StateView, after: StateView) -> EGameResultView {
    let left = active_ids(after);
    if left.len() == 0 {
        EGameResultView::Draw { player_ids: active_ids(before) }
    } else if left.len() == 1 {
        EGameResultView::Win { player_id: left[0] }
    } else {
        EGameResultView::Undecided
    }
}

/// The round after its cleanup.
pub open spec fn cleaned(round: RoundView) -> Result<RoundView, EngineError> {
    if round.phase != ERoundPhase::CLEANUP {
        Err(EngineError::InvalidRoundPhase { expected: ERoundPhase::CLEANUP, actual: round.phase })
    } else {
        Ok(
            RoundView {
                state: discarded_upto(
                    round.state.locked_by_damage(),
                    round.state.players.len() as int,
                ),
                phase: ERoundPhase::DONE,
                ..round
            },
        )
    }
}

/// The round after the execution of its registers, and how the game stands
/// then. Where the game has ended the round stays as the registers left it;
/// else it is cleaned up.
pub open spec fn executed(round: RoundView) -> Result<(RoundView, EGameResultView), EngineError> {
    if round.phase != ERoundPhase::EXECUTION {
        Err(
            EngineError::InvalidRoundPhase {
                expected: ERoundPhase::EXECUTION,
                actual: round.phase,
            },
        )
    } else {
        match registers_from(round.state, 0, round.state.register_count()) {
            Err(e) => Err(EngineError::GenericAlgorithmError { err: e }),
            Ok(state) => {
                let result = result_after(round.state, state);
                if result is Undecided {
                    match cleaned(RoundView { state, phase: ERoundPhase::CLEANUP, ..round }) {
                        Ok(r) => Ok((r, EGameResultView::Undecided)),
                        Err(e) => Err(e),
                    }
                } else {
                    Ok((RoundView { state, ..round }, result))
                }
            },
        }
    }
}

/// Checks that the round is in the phase `expected`.
pub fn assert_round_phase(round: &Round, expected: ERoundPhase) -> (r: Result<(), EngineError>)
    ensures
        match r {
            Ok(_) => round.phase == expected,
            Err(e) => round.phase != expected && e == (EngineError::InvalidRoundPhase {
                expected,
                actual: round.phase,
            }),
        },
{
    if round.phase != expected {
        return Err(EngineError::InvalidRoundPhase { expected, actual: round.phase });
    }
    Ok(())
}

/// Whether every active player has a card in every unlocked register.
pub fn all_players_provided_input(state: &State) -> (b: bool)
    ensures
        b == all_programmed(state@),
{
    let mut i: usize = 0;
    while i < state.players.len()
        invariant
            i <= state.players@.len(),
            forall|k: int|
                0 <= k < i && (#[trigger] state@.players[k]).active() ==> fully_programmed(
                    state@.players[k],
                ),
        decreases state.players@.len() - i,
    {
        let player: &Player = &state.players[i];
        if player.is_active() {
            let mut k: usize = 0;
            while k < player.registers.len()
                invariant
                    k <= player.registers@.len(),
                    i < state.players@.len(),
                    player@ == state@.players[i as int],
                    player@.active(),
                    forall|j: int|
                        0 <= j < k && !(#[trigger] player@.registers[j]).locked
                            ==> player@.registers[j].move_card is Some,
                decreases player.registers@.len() - k,
            {
                assert(player@.registers[k as int] == player.registers@[k as int]@);
                if !player.registers[k].locked && player.registers[k].move_card.is_none() {
                    return false;
                }
                k += 1;
            }
        }
        i += 1;
    }
    true
}

pub struct RoundEngine {
    pub register_engine: RegisterEngine,
}

impl RoundEngine {
    pub fn new() -> Self {
        RoundEngine { register_engine: RegisterEngine::new() }
    }

    /// Begins a round: repairs the robots that are powered down and deals a
    /// hand of cards, drawn from the deck at random, to every active player.
    pub fn run_round_initialization(&self, round: &Round) -> (r: Result<Round, EngineError>)
        ensures
            match r {
                Ok(next) => round.phase == ERoundPhase::INITIALIZATION && initialized_from(
                    round@.state,
                    round.id,
                    next@,
                ) && next@.state.board == round@.state.board,
                Err(e) => round.phase != ERoundPhase::INITIALIZATION && e
                    == (EngineError::InvalidRoundPhase {
                    expected: ERoundPhase::INITIALIZATION,
                    actual: round.phase,
                }),
            },
    {
        match assert_round_phase(round, ERoundPhase::INITIALIZATION) {
            Ok(_) => {},
            Err(e) => {
                return Err(e);
            },
        }
        let ghost start = round@.state;
        let state: State = (*round.state).clone();
        let count: usize = state.players.len();

        // Robots that are powered down lose their damage tokens.
        let mut robots: Vec<Robot> = state.robots();
        let mut i: usize = 0;
        while i < count
            invariant
                i <= count,
                count == start.players.len(),
                robots@.len() == count,
                state@ == start,
                forall|k: int| 0 <= k < i ==> robots@[k] == prepared(start).players[k].robot,
                forall|k: int| i <= k < count ==> robots@[k] == start.players[k].robot,
            decreases count - i,
        {
            let robot: Robot = robots[i];
            if robot.is_active() {
                match robot.powered_down {
                    EPoweredDown::Yes => {
                        robots[i] = robot.set_damage(0);
                    },
                    EPoweredDown::NextRound => {
                        robots[i] = robot.set_damage(0).set_powered_down(EPoweredDown::Yes);
                    },
                    EPoweredDown::No => {},
                }
            }
            i += 1;
        }
        let mut state: State = state.with_robots(&robots);
        proof {
            assert(state@.players =~= prepared(start).players);
        }
        let ghost base = state@;

        // Every active player gets a new hand.
        let ghost mut choices: Seq<Seq<usize>> = Seq::empty();
        let mut i: usize = 0;
        while i < count
            invariant
                i <= count,
                count == base.players.len(),
                state.players@.len() == count,
                choices.len() == i,
                state@.board == base.board,
                state@ == dealt_upto(base, i as int, choices),
                possible_draws(base, i as int, choices),
            decreases count - i,
        {
            let ghost before = state@;
            if state.players[i].is_active() {
                let damage: u32 = state.players[i].robot.damage;
                let wanted: usize = if damage >= MAX_DAMAGE_TOKENS {
                    0
                } else {
                    (MAX_DAMAGE_TOKENS - damage) as usize
                };
                let available: usize = state.deck.cards.len();
                let amount: usize = if wanted <= available {
                    wanted
                } else {
                    available
                };
                let (deck, cards) = state.deck.take_random_cards(amount as u32);
                let ghost indices = choose|indices: Seq<usize>|
                    indices.len() == amount && distinct_places(indices, before.deck.len() as int)
                        && deck@ == left_cards(before.deck, indices, before.deck.len() as int)
                        && cards.deep_view() == taken_cards(before.deck, indices, 0);
                state.players[i].program_card_deck = cards;
                state.deck = deck;
                proof {
                    lemma_dealt_prefix(base, i as int, choices, indices);
                    choices = choices.push(indices);
                    assert(state@.players =~= dealt(before, i as int, indices).players);
                }
            } else {
                proof {
                    lemma_dealt_prefix(base, i as int, choices, Seq::<usize>::empty());
                    choices = choices.push(Seq::<usize>::empty());
                }
            }
            i += 1;
        }
        let next: Round = round.advance(Box::new(state), ERoundPhase::PROGRAMMING);
        Ok(next)
    }

    /// The player of the input with the chosen cards in the registers.
    pub fn set_registers(&self, state: &State, input: &ProgramInput) -> (r: Result<
        Player,
        EngineError,
    >)
        ensures
            match r {
                Ok(p) => with_registers(state@, input@) == Ok::<PlayerView, EngineError>(p@),
                Err(e) => with_registers(state@, input@) == Err::<PlayerView, EngineError>(e),
            },
    {
        let index: usize = match state.find_player(input.player_id) {
            Some(i) => i,
            None => {
                return Err(
                    EngineError::GenericAlgorithmError {
                        err: StateError::PlayerNotFound { player_id: input.player_id },
                    },
                );
            },
        };
        let player: &Player = &state.players[index];
        let unlocked_registers_count: usize = player.count_unlocked_registers();
        let input_register_count: usize = input.register_cards_choices.len();
        if unlocked_registers_count != input_register_count {
            return Err(
                EngineError::InvalidPlayerInput {
                    player_id: input.player_id,
                    expected: unlocked_registers_count,
                    actual: input_register_count,
                },
            );
        }
        proof {
            player@.registers.lemma_filter_len(|r: crate::state::player::RegisterView| !r.locked);
        }
        let mut new_player: Player = player.clone();
        let mut i: usize = 0;
        while i < input_register_count
            invariant
                i <= input_register_count,
                state@.player_index(input.player_id) == Some(index as int),
                player@ == state@.players[index as int],
                player@.unlocked_count() == input_register_count,
                input_register_count == input@.register_cards_choices.len(),
                input_register_count <= player@.registers.len(),
                new_player@.registers.len() == player@.registers.len(),
                new_player.registers@.len() == player@.registers.len(),
                programmed(player@, input@.register_cards_choices, i as int) == Ok::<
                    PlayerView,
                    StateError,
                >(new_player@),
            decreases input_register_count - i,
        {
            let move_card_id: MoveCardID = input.register_cards_choices[i];
            new_player = match new_player.choose_card(i, move_card_id) {
                Ok(p) => p,
                Err(err) => {
                    proof {
                        lemma_programmed_fails(
                            player@,
                            input@.register_cards_choices,
                            i + 1,
                            input_register_count as int,
                        );
                    }
                    return Err(EngineError::GenericAlgorithmError { err });
                },
            };
            assert(new_player@.registers.len() == new_player.registers@.len());
            i += 1;
        }
        Ok(new_player)
    }

    /// Takes the program of a player. Once all active players have programmed
    /// all their unlocked registers the round goes on to the execution.
    pub fn set_player_program_input(&self, round: &Round, input: &ProgramInput) -> (r: Result<
        Round,
        EngineError,
    >)
        ensures
            match r {
                Ok(next) => program_input(round@, input@) == Ok::<RoundView, EngineError>(next@),
                Err(e) => program_input(round@, input@) == Err::<RoundView, EngineError>(e),
            },
    {
        match assert_round_phase(round, ERoundPhase::PROGRAMMING) {
            Ok(_) => {},
            Err(e) => {
                return Err(e);
            },
        }
        let new_player: Player = match self.set_registers(&round.state, input) {
            Ok(p) => p,
            Err(e) => {
                return Err(e);
            },
        };
        let index: usize = match round.state.find_player(input.player_id) {
            Some(i) => i,
            None => {
                return Err(
                    EngineError::GenericAlgorithmError {
                        err: StateError::PlayerNotFound { player_id: input.player_id },
                    },
                );
            },
        };
        let mut state: State = (*round.state).clone();
        let ghost replacement = new_player@;
        state.players[index] = new_player;
        assert(state@.players =~= round@.state.players.update(index as int, replacement));
        let next_phase: ERoundPhase = if all_players_provided_input(&state) {
            ERoundPhase::EXECUTION
        } else {
            round.phase
        };
        Ok(round.advance(Box::new(state), next_phase))
    }

    /// Resolves the registers of the round and tells how the game stands
    /// then. Unless the game has ended, the round is cleaned up.
    pub fn run_execute(&self, round: Round) -> (r: Result<(Round, EGameResult), EngineError>)
        requires
            round.state.wf(),
        ensures
            match r {
                Ok((next, result)) => executed(round@) == Ok::<
                    (RoundView, EGameResultView),
                    EngineError,
                >((next@, result@)) && next.state.wf(),
                Err(e) => executed(round@) == Err::<(RoundView, EGameResultView), EngineError>(e),
            },
    {
        match assert_round_phase(&round, ERoundPhase::EXECUTION) {
            Ok(_) => {},
            Err(e) => {
                return Err(e);
            },
        }
        let Round { id, phase, state } = round;
        let active_player_ids: Vec<PlayerID> = state.active_player_ids();
        let state: Box<State> = match self.register_engine.execute_registers(state) {
            Ok(s) => s,
            Err(RegisterEngineError::StateError { err }) => {
                return Err(EngineError::GenericAlgorithmError { err });
            },
        };
        let active_player_ids_after: Vec<PlayerID> = state.active_player_ids();
        if active_player_ids_after.len() == 0 {
            return Ok(
                (Round { id, phase, state }, EGameResult::Draw { player_ids: active_player_ids }),
            );
        }
        if active_player_ids_after.len() == 1 {
            return Ok(
                (
                    Round { id, phase, state },
                    EGameResult::Win { player_id: active_player_ids_after[0] },
                ),
            );
        }
        match self.run_cleanup(Round { id, phase: ERoundPhase::CLEANUP, state }) {
            Ok(next) => Ok((next, EGameResult::Undecided)),
            Err(e) => Err(e),
        }
    }

    /// Cleans the round up: locks registers according to the damage of the
    /// robots, and puts the cards of the unlocked registers of the active
    /// players back into the deck.
    pub fn run_cleanup(&self, round: Round) -> (r: Result<Round, EngineError>)
        ensures
            match r {
                Ok(next) => cleaned(round@) == Ok::<RoundView, EngineError>(next@),
                Err(e) => cleaned(round@) == Err::<RoundView, EngineError>(e),
            },
            r matches Ok(next) ==> next@.state.board == round@.state.board,
    {
        match assert_round_phase(&round, ERoundPhase::CLEANUP) {
            Ok(_) => {},
            Err(e) => {
                return Err(e);
            },
        }
        let locked: Box<State> = round.state.lock_registers_according_to_damage();
        let ghost base = locked@;
        let mut state: State = *locked;
        let count: usize = state.players.len();
        let mut i: usize = 0;
        while i < count
            invariant
                i <= count,
                count == base.players.len(),
                state.players@.len() == count,
                state@ == discarded_upto(base, i as int),
            decreases count - i,
        {
            let ghost before = state@;
            if state.players[i].is_active() {
                let (cards, new_player) =
                    state.players[i].take_program_cards_from_unlocked_registers();
                let new_deck: ProgramCardDeck = state.deck.add_cards(cards);
                let ghost replacement = new_player@;
                state.deck = new_deck;
                state.players[i] = new_player;
                assert(state@.players =~= before.players.update(i as int, replacement));
            }
            i += 1;
        }
        proof {
            lemma_discarded_shape(base, count as int);
        }
        Ok(round.advance(Box::new(state), ERoundPhase::DONE))
    }
}

/// Once a chosen card cannot be put into its register, the program as a whole
/// fails the same way.
proof fn lemma_programmed_fails(player: PlayerView, choices: Seq<MoveCardID>, k: int, n: int)
    requires
        0 < k <= n,
        programmed(player, choices, k) is Err,
    ensures
        programmed(player, choices, n) == programmed(player, choices, k),
    decreases n - k,
{
    if k < n {
        lemma_programmed_fails(player, choices, k, n - 1);
    }
}

} // verus!
