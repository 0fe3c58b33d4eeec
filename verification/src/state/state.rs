//! The state of a game between two transitions: the board, the players with
//! their robots, and the deck.

use std::sync::Arc;
use vstd::prelude::*;

use crate::search::{first_index, lemma_first_index_found, lemma_first_index_none};
use crate::state::board::{Board, BoardView, Position};
use crate::state::cards::{
    deck_of, insert_card, priorities_valid, sort_by_priority, MoveCard, MoveCardView,
    PlayerCard, ProgramCardDeck, ProgramCardDeckConfig, ProgramCardDeckGenerator, MAX_PRIORITY,
};
use crate::state::game_state::GameConfig;
use crate::state::player::{
    initial_player, lock_by_damage, Player, PlayerIter, PlayerView, Robot,
};
use crate::state::{PlayerID, RobotID, StateError};

verus! {

/// `Arc::clone`: another handle to the same shared value.
#[verifier::external_body]
pub(crate) fn share_board(board: &Arc<Board>) -> (r: Arc<Board>)
    ensures
        r == *board,
{
    Arc::clone(board)
}

#[derive(Debug)]
pub struct State {
    pub board: Arc<Board>,
    pub players: Vec<Player>,
    pub deck: ProgramCardDeck,
}

pub ghost struct StateView {
    pub board: BoardView,
    pub players: Seq<PlayerView>,
    pub deck: Seq<MoveCardView>,
}

impl View for State {
    type V = StateView;

    open spec fn view(&self) -> StateView {
        StateView { board: self.board@, players: self.players.deep_view(), deck: self.deck@ }
    }
}

impl DeepView for State {
    type V = StateView;

    open spec fn deep_view(&self) -> StateView {
        self@
    }
}

/// Place of the first robot that stands at `pos`.
pub open spec fn robot_at(robots: Seq<Robot>, pos: Position) -> Option<int> {
    first_index(robots, |r: Robot| r.position == pos)
}

impl StateView {
/// Whether the board is well-formed.
    pub open spec fn wf(self) -> bool {
        self.board.wf()
    }

    /// The robots, in the order of their players.
    pub open spec fn robots(self) -> Seq<Robot> {
        Seq::new(self.players.len(), |i: int| self.players[i].robot)
    }

    /// The same state with the `i`-th player owning the `i`-th of `robots`.
    pub open spec fn with_robots(self, robots: Seq<Robot>) -> StateView
        recommends
            robots.len() == self.players.len(),
    {
        StateView {
            players: Seq::new(
                self.players.len(),
                |i: int| PlayerView { robot: robots[i], ..self.players[i] },
            ),
            ..self
        }
    }

    /// Place of the first player with the given id.
    pub open spec fn player_index(self, player_id: PlayerID) -> Option<int> {
        first_index(self.players, |p: PlayerView| p.id == player_id)
    }

    /// Place of the first player whose robot has the given id.
    pub open spec fn robot_index(self, robot_id: RobotID) -> Option<int> {
        first_index(self.players, |p: PlayerView| p.robot.id == robot_id)
    }

    /// Place of the first player whose robot stands at `pos`.
    pub open spec fn robot_index_at(self, pos: Position) -> Option<int> {
        robot_at(self.robots(), pos)
    }
}

impl Clone for State {
    fn clone(&self) -> (r: State)
        ensures
            r@ == self@,
    {
        let mut players: Vec<Player> = Vec::new();
        let mut i: usize = 0;
        while i < self.players.len()
            invariant
                i <= self.players@.len(),
                players@.len() == i,
                forall|k: int| 0 <= k < i ==> players@[k]@ == self.players@[k]@,
            decreases self.players@.len() - i,
        {
            players.push(self.players[i].clone());
            i += 1;
        }
        assert(players.deep_view() =~= self.players.deep_view());
        State { board: share_board(&self.board), players, deck: self.deck.clone() }
    }
}

impl State {
/// Whether the board is well-formed.
    pub open spec fn wf(&self) -> bool {
        self@.wf()
    }

    /// A state without a deck.
    pub fn new(board: Board, players: Vec<Player>) -> (s: State)
        ensures
            s@ == (StateView {
                board: board@,
                players: players.deep_view(),
                deck: Seq::<MoveCardView>::empty(),
            }),
    {
        let s = State {
            board: Arc::new(board),
            players,
            deck: ProgramCardDeck { cards: Vec::new() },
        };
        assert(s.deck@ =~= Seq::<MoveCardView>::empty());
        s
    }

/// Place of the first player with the given id.
    pub fn find_player(&self, player_id: PlayerID) -> (r: Option<usize>)
        ensures
            match r {
                Some(i) => self@.player_index(player_id) == Some(i as int) && i
                    < self.players@.len(),
                None => self@.player_index(player_id) is None,
            },
    {
        let ghost p = |p: PlayerView| p.id == player_id;
        let mut i: usize = 0;
        while i < self.players.len()
            invariant
                i <= self.players@.len(),
                p == (|p: PlayerView| p.id == player_id),
                forall|k: int| 0 <= k < i ==> !p(#[trigger] self@.players[k]),
            decreases self.players@.len() - i,
        {
            if self.players[i].id == player_id {
                proof {
                    lemma_first_index_found(self@.players, p, i as int);
                }
                return Some(i);
            }
            i += 1;
        }
        proof {
            lemma_first_index_none(self@.players, p);
        }
        None
    }

/// The first player with the given id.
    pub fn get_player_or_fail(&self, player_id: PlayerID) -> (r: Result<&Player, StateError>)
        ensures
            match r {
                Ok(p) => self@.player_index(player_id) matches Some(i) && p@ == self@.players[i],
                Err(e) => self@.player_index(player_id) is None && e
                    == (StateError::PlayerNotFound { player_id }),
            },
    {
        match self.find_player(player_id) {
            Some(i) => Ok(&self.players[i]),
            None => Err(StateError::PlayerNotFound { player_id }),
        }
    }

    /// The robots, in the order of their players.
    pub fn robots(&self) -> (r: Vec<Robot>)
        ensures
            r@ == self@.robots(),
    {
        let mut r: Vec<Robot> = Vec::new();
        let mut i: usize = 0;
        while i < self.players.len()
            invariant
                i <= self.players@.len(),
                r@.len() == i,
                forall|k: int| 0 <= k < i ==> r@[k] == self.players@[k].robot,
            decreases self.players@.len() - i,
        {
            r.push(self.players[i].robot);
            i += 1;
        }
        r
    }

    /// Hands each player the robot at its place in `robots`.
    pub fn with_robots(self, robots: &Vec<Robot>) -> (s: State)
        requires
            robots@.len() == self.players@.len(),
        ensures
            s@ == self@.with_robots(robots@),
    {
        let mut s: State = self;
        let ghost before = s@;
        let mut i: usize = 0;
        while i < s.players.len()
            invariant
                i <= s.players@.len(),
                robots@.len() == s.players@.len(),
                s.players@.len() == before.players.len(),
                s@.board == before.board,
                s@.deck == before.deck,
                forall|k: int|
                    0 <= k < i ==> (#[trigger] s.players@[k])@ == (PlayerView {
                        robot: robots@[k],
                        ..before.players[k]
                    }),
                forall|k: int|
                    i <= k < s.players@.len() ==> (#[trigger] s.players@[k])@
                        == before.players[k],
            decreases s.players@.len() - i,
        {
            s.players[i].robot = robots[i];
            i += 1;
        }
        assert(s@.players =~= before.with_robots(robots@).players);
        s
    }

    /// The state that a game on `board` starts from: the players of the
    /// configuration and a deck with random priorities.
    pub fn create_from(config: &GameConfig, board: Board) -> (s: Box<State>)
        requires
            config.player_config.player_count <= u32::MAX,
            config.deck_config.total() <= MAX_PRIORITY,
        ensures
            s@.board == board@,
            s@.players.len() == config.player_config.player_count,
            forall|i: int|
                0 <= i < s@.players.len() ==> #[trigger] s@.players[i] == initial_player(
                    i as u32,
                    config.player_config.life_tokens,
                ),
            priorities_valid(s@.deck),
            exists|priorities: Seq<u32>|
                priorities.len() == config.deck_config.total() && s@.deck == deck_of(
                    config.deck_config,
                    priorities,
                ),
    {
        let mut gen: ProgramCardDeckGenerator = ProgramCardDeckGenerator::new();
        let players: Vec<Player> = Player::create_from(&config.player_config);
        let deck: ProgramCardDeck = gen.generate_program_deck(&config.deck_config);
        Box::new(State { board: Arc::new(board), players, deck })
    }

    /// A state with a deck that is generated at random from the default
    /// configuration.
    pub fn new_with_random_deck(board: Board, players: Vec<Player>) -> (s: Box<State>)
        ensures
            s@.board == board@,
            s@.players == players.deep_view(),
            priorities_valid(s@.deck),
            exists|priorities: Seq<u32>|
                priorities.len() == 84 && s@.deck == deck_of(
                    ProgramCardDeckConfig {
                        count_1_move: 18,
                        count_2_move: 12,
                        count_3_move: 6,
                        count_back_up: 6,
                        count_turn_right: 18,
                        count_turn_left: 18,
                        count_uturn: 6,
                    },
                    priorities,
                ),
    {
        let config: ProgramCardDeckConfig = ProgramCardDeckConfig::default();
        let mut gen: ProgramCardDeckGenerator = ProgramCardDeckGenerator::new();
        Box::new(
            State { board: Arc::new(board), players, deck: gen.generate_program_deck(&config) },
        )
    }

/// Place of the first player whose robot has the given id.
    pub fn find_robot(&self, robot_id: RobotID) -> (r: Option<usize>)
        ensures
            match r {
                Some(i) => self@.robot_index(robot_id) == Some(i as int) && i
                    < self.players@.len(),
                None => self@.robot_index(robot_id) is None,
            },
    {
        let ghost p = |p: PlayerView| p.robot.id == robot_id;
        let mut i: usize = 0;
        while i < self.players.len()
            invariant
                i <= self.players@.len(),
                p == (|p: PlayerView| p.robot.id == robot_id),
                forall|k: int| 0 <= k < i ==> !p(#[trigger] self@.players[k]),
            decreases self.players@.len() - i,
        {
            if self.players[i].robot.id == robot_id {
                proof {
                    lemma_first_index_found(self@.players, p, i as int);
                }
                return Some(i);
            }
            i += 1;
        }
        proof {
            lemma_first_index_none(self@.players, p);
        }
        None
    }

    /// The robot of the first player with the given id.
    pub fn get_robot_for(&self, player_id: PlayerID) -> (r: Option<&Robot>)
        ensures
            match r {
                Some(robot) => self@.player_index(player_id) matches Some(i) && *robot
                    == self@.players[i].robot,
                None => self@.player_index(player_id) is None,
            },
    {
        match self.find_player(player_id) {
            Some(i) => Some(&self.players[i].robot),
            None => None,
        }
    }

    /// The first robot with the given id.
    pub fn get_robot(&self, robot_id: RobotID) -> (r: Option<&Robot>)
        ensures
            match r {
                Some(robot) => self@.robot_index(robot_id) matches Some(i) && *robot
                    == self@.players[i].robot,
                None => self@.robot_index(robot_id) is None,
            },
    {
        match self.find_robot(robot_id) {
            Some(i) => Some(&self.players[i].robot),
            None => None,
        }
    }

/// The robot of the first player with the given id.
    pub fn get_robot_by_player_id_or_fail(&self, player_id: PlayerID) -> (r: Result<
        &Robot,
        StateError,
    >)
        ensures
            match r {
                Ok(robot) => self@.player_index(player_id) matches Some(i) && *robot
                    == self@.players[i].robot,
                Err(e) => self@.player_index(player_id) is None && e
                    == (StateError::RobotNotFoundPlayerID { player_id }),
            },
    {
        match self.find_player(player_id) {
            Some(i) => Ok(&self.players[i].robot),
            None => Err(StateError::RobotNotFoundPlayerID { player_id }),
        }
    }

/// The first robot with the given id.
    pub fn get_robot_by_id_or_fail(&self, robot_id: RobotID) -> (r: Result<&Robot, StateError>)
        ensures
            match r {
                Ok(robot) => self@.robot_index(robot_id) matches Some(i) && *robot
                    == self@.players[i].robot,
                Err(e) => self@.robot_index(robot_id) is None && e
                    == (StateError::RobotNotFoundID { robot_id }),
            },
    {
        match self.find_robot(robot_id) {
            Some(i) => Ok(&self.players[i].robot),
            None => Err(StateError::RobotNotFoundID { robot_id }),
        }
    }

    /// The first robot that stands at `pos`.
    pub fn find_robot_at(&self, pos: &Position) -> (r: Option<&Robot>)
        ensures
            match r {
                Some(robot) => self@.robot_index_at(*pos) matches Some(i) && *robot
                    == self@.players[i].robot,
                None => self@.robot_index_at(*pos) is None,
            },
    {
        let ghost p = |r: Robot| r.position == *pos;
        let ghost robots = self@.robots();
        let mut i: usize = 0;
        while i < self.players.len()
            invariant
                i <= self.players@.len(),
                robots == self@.robots(),
                p == (|r: Robot| r.position == *pos),
                forall|k: int| 0 <= k < i ==> !p(#[trigger] robots[k]),
            decreases self.players@.len() - i,
        {
            if self.players[i].robot.position == *pos {
                proof {
                    lemma_first_index_found(robots, p, i as int);
                }
                return Some(&self.players[i].robot);
            }
            i += 1;
        }
        proof {
            lemma_first_index_none(robots, p);
        }
        None
    }

    /// A copy of the state in which the first robot with the id of `new_robot`
    /// is replaced by it.
    pub fn update_robot(&self, new_robot: Robot) -> (r: Result<Box<State>, StateError>)
        ensures
            match r {
                Ok(s) => self@.robot_index(new_robot.id) matches Some(i) && s@ == (StateView {
                    players: self@.players.update(
                        i,
                        PlayerView { robot: new_robot, ..self@.players[i] },
                    ),
                    ..self@
                }),
                Err(e) => self@.robot_index(new_robot.id) is None && e
                    == (StateError::RobotNotFoundID { robot_id: new_robot.id }),
            },
    {
        let index: usize = match self.find_robot(new_robot.id) {
            Some(i) => i,
            None => {
                return Err(StateError::RobotNotFoundID { robot_id: new_robot.id });
            },
        };
        let mut state: State = self.clone();
        state.players[index].robot = new_robot;
        assert(state@.players =~= self@.players.update(
            index as int,
            PlayerView { robot: new_robot, ..self@.players[index as int] },
        ));
        Ok(Box::new(state))
    }

    /// A copy of the state in which the first player with the id of
    /// `new_player` is replaced by it.
    pub fn update_player(&self, new_player: Player) -> (r: Result<Box<State>, StateError>)
        ensures
            match r {
                Ok(s) => self@.player_index(new_player.id) matches Some(i) && s@ == (StateView {
                    players: self@.players.update(i, new_player@),
                    ..self@
                }),
                Err(e) => self@.player_index(new_player.id) is None && e
                    == (StateError::PlayerNotFound { player_id: new_player.id }),
            },
    {
        let index: usize = match self.find_player(new_player.id) {
            Some(i) => i,
            None => {
                return Err(StateError::PlayerNotFound { player_id: new_player.id });
            },
        };
        let mut state: State = self.clone();
        let ghost replacement = new_player@;
        state.players[index] = new_player;
        assert(state@.players =~= self@.players.update(index as int, replacement));
        Ok(Box::new(state))
    }

    /// A copy of the state with another deck.
    pub fn set_deck(&self, new_deck: ProgramCardDeck) -> (s: Box<State>)
        ensures
            s@ == (StateView { deck: new_deck@, ..self@ }),
    {
        let mut state: State = self.clone();
        state.deck = new_deck;
        Box::new(state)
    }

    /// The cards that the players have put into the register `register_index`,
    /// each with the id of its player, in ascending order of priority.
    ///
    /// Fails with the id of the first player who has no card there.
    pub fn get_register_cards_sorted_by_priority(&self, register_index: usize) -> (r: Result<
        Vec<(PlayerID, MoveCard)>,
        StateError,
    >)
        ensures
            match r {
                Ok(cards) => self@.register_cards_sorted(register_index as int) == Ok::<
                    Seq<PlayerCard>,
                    StateError,
                >(cards.deep_view()),
                Err(e) => self@.register_cards_sorted(register_index as int) == Err::<
                    Seq<PlayerCard>,
                    StateError,
                >(e),
            },
    {
        let ghost idx = register_index as int;
        let ghost p = |p: PlayerView| register_card(p, idx) is None;
        let ghost all = self@.register_cards(idx);
        let mut moves: Vec<(PlayerID, MoveCard)> = Vec::new();
        let mut i: usize = 0;
        while i < self.players.len()
            invariant
                i <= self.players@.len(),
                idx == register_index as int,
                p == (|p: PlayerView| register_card(p, idx) is None),
                all == self@.register_cards(idx),
                forall|k: int| 0 <= k < i ==> !p(#[trigger] self@.players[k]),
                moves.deep_view() == sort_by_priority(all.take(i as int)),
            decreases self.players@.len() - i,
        {
            let player: &Player = &self.players[i];
            if register_index >= player.registers.len() {
                proof {
                    lemma_first_index_found(self@.players, p, i as int);
                }
                return Err(StateError::EmptyProgramRegister { player_id: player.id });
            }
            let card: MoveCard = match &player.registers[register_index].move_card {
                Some(card) => card.clone(),
                None => {
                    proof {
                        lemma_first_index_found(self@.players, p, i as int);
                    }
                    return Err(StateError::EmptyProgramRegister { player_id: player.id });
                },
            };
            proof {
                assert(all.take(i + 1).drop_last() =~= all.take(i as int));
            }
            insert_card(&mut moves, (player.id, card));
            i += 1;
        }
        proof {
            lemma_first_index_none(self@.players, p);
            assert(all.take(i as int) =~= all);
        }
        Ok(moves)
    }

    /// The number of registers that are resolved in a round: those of the
    /// first player.
    pub fn register_count(&self) -> (n: usize)
        ensures
            n == self@.register_count(),
    {
        if self.players.len() == 0 {
            0
        } else {
            self.players[0].registers.len()
        }
    }

    pub fn all_players(&self) -> (r: &Vec<Player>)
        ensures
            r.deep_view() == self@.players,
    {
        &self.players
    }

    /// The ids of the active players, in the order of the players.
    pub fn active_player_ids(&self) -> (ids: Vec<PlayerID>)
        ensures
            ids@ == self@.active_players().map_values(|p: PlayerView| p.id),
    {
        let ghost f = |p: PlayerView| p.active();
        let ghost id_of = |p: PlayerView| p.id;
        let mut ids: Vec<PlayerID> = Vec::new();
        let mut i: usize = 0;
        while i < self.players.len()
            invariant
                i <= self.players@.len(),
                f == (|p: PlayerView| p.active()),
                id_of == (|p: PlayerView| p.id),
                ids@ == self@.players.take(i as int).filter(f).map_values(id_of),
            decreases self.players@.len() - i,
        {
            proof {
                let s = self@.players;
                assert(s.take(i + 1).drop_last() =~= s.take(i as int));
                reveal(Seq::filter);
            }
            if self.players[i].is_active() {
                ids.push(self.players[i].id);
            }
            i += 1;
        }
        assert(self@.players.take(i as int) =~= self@.players);
        ids
    }

    /// The active players, in the order of the players.
    pub fn active_players(&self) -> (r: Vec<&Player>)
        ensures
            r.deep_view() == self@.active_players(),
    {
        let ghost f = |p: PlayerView| p.active();
        let mut r: Vec<&Player> = Vec::new();
        let mut i: usize = 0;
        while i < self.players.len()
            invariant
                i <= self.players@.len(),
                f == (|p: PlayerView| p.active()),
                r.deep_view() == self@.players.take(i as int).filter(f),
            decreases self.players@.len() - i,
        {
            proof {
                let s = self@.players;
                assert(s.take(i + 1).drop_last() =~= s.take(i as int));
                reveal(Seq::filter);
            }
            if self.players[i].is_active() {
                r.push(&self.players[i]);
            }
            i += 1;
        }
        assert(self@.players.take(i as int) =~= self@.players);
        r
    }

    /// Copies of the active players, in the order of the players.
    pub fn active_players_cloned(&self) -> (r: PlayerIter)
        ensures
            r.players.deep_view() == self@.active_players(),
    {
        let ghost f = |p: PlayerView| p.active();
        let mut players: Vec<Player> = Vec::new();
        let mut i: usize = 0;
        while i < self.players.len()
            invariant
                i <= self.players@.len(),
                f == (|p: PlayerView| p.active()),
                players.deep_view() == self@.players.take(i as int).filter(f),
            decreases self.players@.len() - i,
        {
            proof {
                let s = self@.players;
                assert(s.take(i + 1).drop_last() =~= s.take(i as int));
                reveal(Seq::filter);
            }
            if self.players[i].is_active() {
                players.push(self.players[i].clone());
            }
            i += 1;
        }
        assert(self@.players.take(i as int) =~= self@.players);
        PlayerIter::new(players)
    }

    /// Locks the registers of every player according to the damage of the
    /// robot: all five registers at nine damage tokens, the last one at five,
    /// none below.
    pub fn lock_registers_according_to_damage(&self) -> (s: Box<State>)
        ensures
            s@ == self@.locked_by_damage(),
    {
        let mut players: Vec<Player> = Vec::new();
        let mut p: usize = 0;
        while p < self.players.len()
            invariant
                p <= self.players@.len(),
                players@.len() == p,
                forall|k: int|
                    0 <= k < p ==> (#[trigger] players@[k])@ == lock_by_damage(self@.players[k]),
            decreases self.players@.len() - p,
        {
            players.push(self.players[p].lock_registers_according_to_damage());
            p += 1;
        }
        let state = State { board: share_board(&self.board), players, deck: self.deck.clone() };
        assert(state@.players =~= self@.locked_by_damage().players);
        Box::new(state)
    }
}

/// The card that a player has put into the register `register_index`.
pub open spec fn register_card(player: PlayerView, register_index: int) -> Option<MoveCardView> {
    if 0 <= register_index < player.registers.len() {
        player.registers[register_index].move_card
    } else {
        None
    }
}

impl StateView {
    /// Place of the first player without a card in the register.
    pub open spec fn first_unprogrammed(self, register_index: int) -> Option<int> {
        first_index(self.players, |p: PlayerView| register_card(p, register_index) is None)
    }

    /// The cards in the register `register_index`, player by player.
    pub open spec fn register_cards(self, register_index: int) -> Seq<PlayerCard> {
        Seq::new(
            self.players.len(),
            |i: int| (self.players[i].id, register_card(self.players[i], register_index).unwrap()),
        )
    }

    /// The cards in the register `register_index` in ascending order of
    /// priority, where every player has put one there.
    pub open spec fn register_cards_sorted(self, register_index: int) -> Result<
        Seq<PlayerCard>,
        StateError,
    > {
        match self.first_unprogrammed(register_index) {
            Some(k) => Err(StateError::EmptyProgramRegister { player_id: self.players[k].id }),
            None => Ok(sort_by_priority(self.register_cards(register_index))),
        }
    }

/// The number of registers that are resolved in a round: those of the
/// first player.
    pub open spec fn register_count(self) -> nat {
        if self.players.len() == 0 {
            0
        } else {
            self.players[0].registers.len()
        }
    }

    /// The players whose robot takes part in the register.
    pub open spec fn active_players(self) -> Seq<PlayerView> {
        self.players.filter(|p: PlayerView| p.active())
    }

/// The state with the registers of all players locked by damage.
    pub open spec fn locked_by_damage(self) -> StateView {
        StateView {
            players: Seq::new(self.players.len(), |i: int| lock_by_damage(self.players[i])),
            ..self
        }
    }
}

} // verus!
