//! A game as a whole: its configuration, its rounds and their phases.

use vstd::prelude::*;

use crate::random::{shuffle_ids, thread_rng};
use crate::search::{first_index, lemma_first_index_found, lemma_first_index_none};
use crate::state::board::{Board, BoardConfig};
use crate::state::cards::{deck_of, priorities_valid, ProgramCardDeckConfig, MAX_PRIORITY};
use crate::state::player::{initial_player, PlayerConfig, PlayerView};
use crate::state::state::{State, StateView};
use crate::state::{PlayerID, RoundID, StateError};

verus! {

#[derive(Debug, Default)]
pub struct GameConfig {
    pub deck_config: ProgramCardDeckConfig,
    pub board_config: BoardConfig,
    pub player_config: PlayerConfig,
}

#[derive(Debug, Clone, Copy, PartialEq, Eq, Structural)]
pub enum EGamePhase {
    INITIAL,
    PREPARATION,
    RUNNING,
    ENDED,
}

/// The phases of a round, in their order.
#[derive(Debug, Clone, Copy, PartialEq, Eq, Structural)]
pub enum ERoundPhase {
    /// Cards are dealt, and robots that are powered down are repaired.
    INITIALIZATION,
    /// The players fill their registers with cards from their hands.
    PROGRAMMING,
    /// The registers are resolved.
    EXECUTION,
    /// Registers are locked by damage and the other cards are discarded.
    CLEANUP,
    /// Nothing is left to do in this round.
    DONE,
}

/// How a game ended, if it has.
#[derive(Debug, PartialEq, Eq)]
pub enum EGameResult {
    Draw { player_ids: Vec<PlayerID> },
    Win { player_id: PlayerID },
    Undecided,
}

pub ghost enum EGameResultView {
    Draw { player_ids: Seq<PlayerID> },
    Win { player_id: PlayerID },
    Undecided,
}

impl View for EGameResult {
    type V = EGameResultView;

    open spec fn view(&self) -> EGameResultView {
        match self {
            EGameResult::Draw { player_ids } => EGameResultView::Draw { player_ids: player_ids@ },
            EGameResult::Win { player_id } => EGameResultView::Win { player_id: *player_id },
            EGameResult::Undecided => EGameResultView::Undecided,
        }
    }
}

impl Clone for EGameResult {
    fn clone(&self) -> (r: EGameResult)
        ensures
            r@ == self@,
    {
        match self {
            EGameResult::Draw { player_ids } => EGameResult::Draw {
                player_ids: vstd::slice::slice_to_vec(player_ids.as_slice()),
            },
            EGameResult::Win { player_id } => EGameResult::Win { player_id: *player_id },
            EGameResult::Undecided => EGameResult::Undecided,
        }
    }
}

impl EGameResult {
    /// Whether the game has ended.
    pub fn is_some(&self) -> (b: bool)
        ensures
            b == !(self@ is Undecided),
    {
        match self {
            EGameResult::Undecided => false,
            _ => true,
        }
    }
}

/// One round of the game: the state it has reached and the phase it is in.
#[derive(Debug)]
pub struct Round {
    pub id: RoundID,
    pub phase: ERoundPhase,
    pub state: Box<State>,
}

pub ghost struct RoundView {
    pub id: RoundID,
    pub phase: ERoundPhase,
    pub state: StateView,
}

impl View for Round {
    type V = RoundView;

    open spec fn view(&self) -> RoundView {
        RoundView { id: self.id, phase: self.phase, state: self.state@ }
    }
}

impl DeepView for Round {
    type V = RoundView;

    open spec fn deep_view(&self) -> RoundView {
        self@
    }
}

impl Clone for Round {
    fn clone(&self) -> (r: Round)
        ensures
            r@ == self@,
    {
        let state: State = (*self.state).clone();
        Round { id: self.id, phase: self.phase, state: Box::new(state) }
    }
}

impl Round {
    /// A round at its beginning.
    pub fn new(id: RoundID, state: Box<State>) -> (r: Round)
        ensures
            r@ == (RoundView { id, phase: ERoundPhase::INITIALIZATION, state: state@ }),
    {
        Round { id, phase: ERoundPhase::INITIALIZATION, state }
    }

    /// The same round with another state, in the given phase.
    pub fn advance(&self, state: Box<State>, phase: ERoundPhase) -> (r: Round)
        ensures
            r@ == (RoundView { id: self.id, phase, state: state@ }),
    {
        Round { id: self.id, state, phase }
    }
}

#[derive(Debug)]
pub struct GameState {
    pub phase: EGamePhase,
    pub initial_state: Box<State>,
    pub start_state: Box<State>,
    pub player_precedence: Vec<PlayerID>,
    pub rounds: Vec<Round>,
    pub game_result: EGameResult,
}

pub ghost struct GameStateView {
    pub phase: EGamePhase,
    pub initial_state: StateView,
    pub start_state: StateView,
    pub player_precedence: Seq<PlayerID>,
    pub rounds: Seq<RoundView>,
    pub game_result: EGameResultView,
}

impl View for GameState {
    type V = GameStateView;

    open spec fn view(&self) -> GameStateView {
        GameStateView {
            phase: self.phase,
            initial_state: self.initial_state@,
            start_state: self.start_state@,
            player_precedence: self.player_precedence@,
            rounds: self.rounds.deep_view(),
            game_result: self.game_result@,
        }
    }
}

impl GameStateView {
    /// The state that the next round starts from: the one that the last round
    /// has reached, or the initial state before the first round.
    pub open spec fn latest_state(self) -> StateView {
        if self.rounds.len() == 0 {
            self.initial_state
        } else {
            self.rounds.last().state
        }
    }

    /// Place of the first round with the given id.
    pub open spec fn round_index(self, id: RoundID) -> Option<int> {
        first_index(self.rounds, |r: RoundView| r.id == id)
    }

    /// Place of the first occurrence of a player in the order of precedence.
    pub open spec fn precedence_index(self, id: PlayerID) -> Option<int> {
        self.player_precedence.index_of_first(id)
    }

    /// All boards of the game are well-formed.
    pub open spec fn wf(self) -> bool {
        &&& self.initial_state.wf()
        &&& forall|i: int| 0 <= i < self.rounds.len() ==> (#[trigger] self.rounds[i]).state.wf()
    }
}

impl Clone for GameState {
    fn clone(&self) -> (r: GameState)
        ensures
            r@ == self@,
    {
        let mut rounds: Vec<Round> = Vec::new();
        let mut i: usize = 0;
        while i < self.rounds.len()
            invariant
                i <= self.rounds@.len(),
                rounds@.len() == i,
                forall|k: int| 0 <= k < i ==> rounds@[k]@ == self.rounds@[k]@,
            decreases self.rounds@.len() - i,
        {
            rounds.push(self.rounds[i].clone());
            i += 1;
        }
        assert(rounds.deep_view() =~= self.rounds.deep_view());
        let initial_state: State = (*self.initial_state).clone();
        let start_state: State = (*self.start_state).clone();
        GameState {
            phase: self.phase,
            initial_state: Box::new(initial_state),
            start_state: Box::new(start_state),
            player_precedence: vstd::slice::slice_to_vec(self.player_precedence.as_slice()),
            rounds,
            game_result: self.game_result.clone(),
        }
    }
}

/// The ids of the active players, in the order of the players.
pub open spec fn active_ids(s: StateView) -> Seq<PlayerID> {
    s.active_players().map_values(|p: PlayerView| p.id)
}

impl GameState {
    /// A game on `board`, before its first round. The order of precedence of
    /// the players is drawn at random.
    pub fn create_from(config: &GameConfig, board: Board) -> (g: GameState)
        requires
            config.player_config.player_count <= u32::MAX,
            config.deck_config.total() <= MAX_PRIORITY,
        ensures
            g@.phase == EGamePhase::INITIAL,
            g@.rounds.len() == 0,
            g@.game_result is Undecided,
            g@.start_state == g@.initial_state,
            g@.initial_state.board == board@,
            g@.initial_state.players.len() == config.player_config.player_count,
            forall|i: int|
                0 <= i < g@.initial_state.players.len() ==> #[trigger] g@.initial_state.players[i]
                    == initial_player(i as u32, config.player_config.life_tokens),
            priorities_valid(g@.initial_state.deck),
            exists|priorities: Seq<u32>|
                priorities.len() == config.deck_config.total() && g@.initial_state.deck
                    == deck_of(config.deck_config, priorities),
            g@.player_precedence.to_multiset() == active_ids(g@.initial_state).to_multiset(),
    {
        let initial_state: Box<State> = State::create_from(config, board);
        let player_precedence: Vec<PlayerID> = GameState::random_player_precedence(
            &initial_state,
        );
        let start_state: State = (*initial_state).clone();
        let g = GameState {
            phase: EGamePhase::INITIAL,
            start_state: Box::new(start_state),
            initial_state,
            player_precedence,
            rounds: Vec::new(),
            game_result: EGameResult::Undecided,
        };
        g
    }

    fn find_round(&self, id: RoundID) -> (r: Option<usize>)
        ensures
            match r {
                Some(i) => self@.round_index(id) == Some(i as int) && i < self.rounds@.len(),
                None => self@.round_index(id) is None,
            },
    {
        let ghost p = |r: RoundView| r.id == id;
        let mut i: usize = 0;
        while i < self.rounds.len()
            invariant
                i <= self.rounds@.len(),
                p == (|r: RoundView| r.id == id),
                forall|k: int| 0 <= k < i ==> !p(#[trigger] self@.rounds[k]),
            decreases self.rounds@.len() - i,
        {
            if self.rounds[i].id == id {
                proof {
                    lemma_first_index_found(self@.rounds, p, i as int);
                }
                return Some(i);
            }
            i += 1;
        }
        proof {
            lemma_first_index_none(self@.rounds, p);
        }
        None
    }

    /// Replaces the first round that has the id of `round`.
    pub fn update_round(&mut self, round: Round) -> (r: Result<(), StateError>)
        ensures
            match r {
                Ok(_) => old(self)@.round_index(round.id) matches Some(i) && final(self)@
                    == (GameStateView {
                    rounds: old(self)@.rounds.update(i, round@),
                    ..old(self)@
                }),
                Err(e) => old(self)@.round_index(round.id) is None && e
                    == (StateError::RoundNotFound { round_id: round.id }) && final(self)@ == old(
                    self,
                )@,
            },
    {
        let index: usize = match self.find_round(round.id) {
            Some(i) => i,
            None => {
                return Err(StateError::RoundNotFound { round_id: round.id });
            },
        };
        let ghost replacement = round@;
        let ghost before = self@;
        self.rounds[index] = round;
        assert(self@.rounds =~= before.rounds.update(index as int, replacement));
        Ok(())
    }

    /// Starts a new round from the state that the game has reached. The id of
    /// the round is the number of rounds before it.
    pub fn add_round(&mut self) -> (r: &Round)
        requires
            old(self).rounds@.len() < u32::MAX,
        ensures
            r@ == (RoundView {
                id: old(self)@.rounds.len() as u32,
                phase: ERoundPhase::INITIALIZATION,
                state: old(self)@.latest_state(),
            }),
            final(self)@ == (GameStateView { rounds: old(self)@.rounds.push(r@), ..old(self)@ }),
    {
        let ghost before = self@;
        let count: usize = self.rounds.len();
        let state: State = if count == 0 {
            (*self.initial_state).clone()
        } else {
            (*self.rounds[count - 1].state).clone()
        };
        let round: Round = Round::new(count as u32, Box::new(state));
        let ghost added = round@;
        self.rounds.push(round);
        assert(self@.rounds =~= before.rounds.push(added));
        &self.rounds[count]
    }

    /// The round that the game is in.
    pub fn current_round(&self) -> (r: Result<&Round, StateError>)
        ensures
            match r {
                Ok(round) => self@.rounds.len() > 0 && round@ == self@.rounds.last(),
                Err(e) => self@.rounds.len() == 0 && e == (StateError::GameStateMissingRound {
                    round_id: None,
                }),
            },
    {
        let count: usize = self.rounds.len();
        if count == 0 {
            Err(StateError::GameStateMissingRound { round_id: None })
        } else {
            Ok(&self.rounds[count - 1])
        }
    }

    pub fn all_rounds(&self) -> (r: &Vec<Round>)
        ensures
            r.deep_view() == self@.rounds,
    {
        &self.rounds
    }

    pub fn initial_state(&self) -> (s: &State)
        ensures
            s@ == self@.initial_state,
    {
        &self.initial_state
    }

    /// The player who comes first in the order of precedence.
    pub fn first_player_id_by_precedence(&self) -> (id: PlayerID)
        requires
            self@.player_precedence.len() > 0,
        ensures
            id == self@.player_precedence[0],
    {
        self.player_precedence[0]
    }

    /// The player who comes next after `current_id` in the order of
    /// precedence: none after the last one, and none where `current_id` does
    /// not occur.
    pub fn next_player_id_by_precedence(&self, current_id: PlayerID) -> (r: Option<PlayerID>)
        ensures
            r == match self@.precedence_index(current_id) {
                Some(i) => if i + 1 < self@.player_precedence.len() {
                    Some(self@.player_precedence[i + 1])
                } else {
                    None
                },
                None => None,
            },
    {
        let ghost order = self@.player_precedence;
        let mut i: usize = 0;
        while i < self.player_precedence.len()
            invariant
                i <= self.player_precedence@.len(),
                order == self@.player_precedence,
                forall|k: int| 0 <= k < i ==> order[k] != current_id,
            decreases self.player_precedence@.len() - i,
        {
            if self.player_precedence[i] == current_id {
                proof {
                    order.index_of_first_ensures(current_id);
                }
                if i + 1 < self.player_precedence.len() {
                    return Some(self.player_precedence[i + 1]);
                } else {
                    return None;
                }
            }
            i += 1;
        }
        proof {
            order.index_of_first_ensures(current_id);
        }
        None
    }

    /// The ids of the active players in a random order.
    fn random_player_precedence(state: &State) -> (ids: Vec<PlayerID>)
        ensures
            ids@.to_multiset() == active_ids(state@).to_multiset(),
    {
        let mut rng: rand::rngs::ThreadRng = thread_rng();
        let mut ids: Vec<PlayerID> = state.active_player_ids();
        shuffle_ids(&mut rng, &mut ids);
        ids
    }
}

impl Default for GameState {
    /// A game without a board and without players.
    fn default() -> (g: GameState)
        ensures
            g@.phase == EGamePhase::INITIAL,
            g@.rounds.len() == 0,
            g@.player_precedence.len() == 0,
            g@.game_result is Undecided,
            g@.initial_state.players.len() == 0,
            g@.initial_state.board.tiles.len() == 0,
            g@.start_state == g@.initial_state,
    {
        let initial_state: State = State::new(
            Board { tiles: Vec::new(), size_x: 0, size_y: 0 },
            Vec::new(),
        );
        let start_state: State = initial_state.clone();
        let g = GameState {
            phase: EGamePhase::INITIAL,
            start_state: Box::new(start_state),
            initial_state: Box::new(initial_state),
            player_precedence: Vec::new(),
            rounds: Vec::new(),
            game_result: EGameResult::Undecided,
        };
        g
    }
}

} // verus!
