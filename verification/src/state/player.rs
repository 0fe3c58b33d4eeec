//! Players, their robots and their program registers.

use vstd::prelude::*;

use crate::state::board::{EDirection, Position};
use crate::state::cards::{clone_cards, MoveCard, MoveCardView};
use crate::search::{first_index, lemma_first_index_found, lemma_first_index_none};
use crate::state::{MoveCardID, PlayerID, RobotID, StateError};

verus! {

/// The number of program registers of a player.
pub const REGISTER_COUNT: usize = 5;

/// The most damage tokens a robot can carry and still function.
pub const MAX_DAMAGE_TOKENS: u32 = 9;

/// The number of life tokens a robot starts with.
pub const DEFAULT_LIFE_TOKENS: u32 = 3;

#[derive(Debug, Clone, Copy, PartialEq, Eq, Structural)]
pub enum EPoweredDown {
    No,
    NextRound,
    Yes,
}

impl Default for EPoweredDown {
    fn default() -> (p: EPoweredDown)
        ensures
            p == EPoweredDown::No,
    {
        EPoweredDown::No
    }
}

/// Whether a robot is in play. A destroyed robot stays where it fell until it
/// re-enters play; the damage counter says nothing about it.
#[derive(Debug, Clone, Copy, PartialEq, Eq, Structural)]
pub enum ERobotStatus {
    Alive,
    Destroyed,
    Respawned,
}

#[derive(Debug, Clone, Copy, PartialEq, Eq, Structural)]
pub struct Robot {
    pub id: RobotID,
    pub damage: u32,
    pub life_tokens: u32,
    pub position: Position,
    pub direction: EDirection,
    pub powered_down: EPoweredDown,
    pub status: ERobotStatus,
}

impl Default for Robot {
    /// A robot fresh from the box: undamaged, alive, with all its life tokens,
    /// at the origin and facing north.
    fn default() -> (r: Robot)
        ensures
            r == Robot::fresh(),
    {
        Robot {
            id: 0,
            damage: 0,
            life_tokens: DEFAULT_LIFE_TOKENS,
            position: Position { x: 0, y: 0 },
            direction: EDirection::NORTH,
            powered_down: EPoweredDown::No,
            status: ERobotStatus::Alive,
        }
    }
}

impl Robot {
/// A robot that has not played yet.
    pub open spec fn fresh() -> Robot {
        Robot {
            id: 0,
            damage: 0,
            life_tokens: DEFAULT_LIFE_TOKENS,
            position: Position { x: 0, y: 0 },
            direction: EDirection::NORTH,
            powered_down: EPoweredDown::No,
            status: ERobotStatus::Alive,
        }
    }

    pub open spec fn with_position(self, position: Position) -> Robot {
        Robot { position, ..self }
    }

    pub open spec fn with_direction(self, direction: EDirection) -> Robot {
        Robot { direction, ..self }
    }

    /// The robot after its destruction: its damage is cleared and it is out of
    /// play.
    pub open spec fn killed(self) -> Robot {
        Robot { damage: 0, status: ERobotStatus::Destroyed, ..self }
    }

    /// A robot takes part in a register while it has a life token left and is
    /// not destroyed.
    pub open spec fn active(self) -> bool {
        self.life_tokens > 0 && self.status != ERobotStatus::Destroyed
    }

    pub fn set_direction(&self, new_direction: EDirection) -> (r: Robot)
        ensures
            r == self.with_direction(new_direction),
    {
        Robot { direction: new_direction, ..*self }
    }

    pub fn set_position(&self, new_position: Position) -> (r: Robot)
        ensures
            r == self.with_position(new_position),
    {
        Robot { position: new_position, ..*self }
    }

    pub fn set_damage(&self, new_damage: u32) -> (r: Robot)
        ensures
            r == (Robot { damage: new_damage, ..*self }),
    {
        Robot { damage: new_damage, ..*self }
    }

    pub fn set_powered_down(&self, powered_down: EPoweredDown) -> (r: Robot)
        ensures
            r == (Robot { powered_down, ..*self }),
    {
        Robot { powered_down, ..*self }
    }

/// Destroys the robot: its damage is cleared and it is out of play.
    pub fn die(&self) -> (r: Robot)
        ensures
            r == self.killed(),
    {
        Robot { damage: 0, status: ERobotStatus::Destroyed, ..*self }
    }

/// Whether the robot was destroyed and has not re-entered play.
    pub fn is_destroyed(&self) -> (b: bool)
        ensures
            b == (self.status == ERobotStatus::Destroyed),
    {
        self.status == ERobotStatus::Destroyed
    }

/// Whether the robot takes part in the register.
    pub fn is_active(&self) -> (b: bool)
        ensures
            b == self.active(),
    {
        self.life_tokens > 0 && !self.is_destroyed()
    }
}

/// Builds a robot field by field, starting from a fresh one.
#[derive(Debug, Clone, Copy)]
pub struct RobotBuilder {
    pub robot: Robot,
}

impl Default for RobotBuilder {
    fn default() -> (b: RobotBuilder)
        ensures
            b.robot == Robot::fresh(),
    {
        RobotBuilder { robot: Robot::default() }
    }
}

impl RobotBuilder {
    pub fn id(self, id: RobotID) -> (b: RobotBuilder)
        ensures
            b.robot == (Robot { id, ..self.robot }),
    {
        RobotBuilder { robot: Robot { id, ..self.robot } }
    }

    pub fn damage(self, damage: u32) -> (b: RobotBuilder)
        ensures
            b.robot == (Robot { damage, ..self.robot }),
    {
        RobotBuilder { robot: Robot { damage, ..self.robot } }
    }

    pub fn life_tokens(self, life_tokens: u32) -> (b: RobotBuilder)
        ensures
            b.robot == (Robot { life_tokens, ..self.robot }),
    {
        RobotBuilder { robot: Robot { life_tokens, ..self.robot } }
    }

    pub fn position(self, position: Position) -> (b: RobotBuilder)
        ensures
            b.robot == (Robot { position, ..self.robot }),
    {
        RobotBuilder { robot: Robot { position, ..self.robot } }
    }

    pub fn direction(self, direction: EDirection) -> (b: RobotBuilder)
        ensures
            b.robot == (Robot { direction, ..self.robot }),
    {
        RobotBuilder { robot: Robot { direction, ..self.robot } }
    }

    pub fn powered_down(self, powered_down: EPoweredDown) -> (b: RobotBuilder)
        ensures
            b.robot == (Robot { powered_down, ..self.robot }),
    {
        RobotBuilder { robot: Robot { powered_down, ..self.robot } }
    }

    pub fn build(self) -> (r: Result<Robot, String>)
        ensures
            r == Ok::<Robot, String>(self.robot),
    {
        Ok(self.robot)
    }
}

/// One of the program slots of a player.
#[derive(Debug, Default)]
pub struct Register {
    pub move_card: Option<MoveCard>,
    pub locked: bool,
}

pub ghost struct RegisterView {
    pub move_card: Option<MoveCardView>,
    pub locked: bool,
}

impl View for Register {
    type V = RegisterView;

    open spec fn view(&self) -> RegisterView {
        RegisterView { move_card: self.move_card.deep_view(), locked: self.locked }
    }
}

impl DeepView for Register {
    type V = RegisterView;

    open spec fn deep_view(&self) -> RegisterView {
        self@
    }
}

impl Clone for Register {
    fn clone(&self) -> (r: Register)
        ensures
            r@ == self@,
    {
        let move_card: Option<MoveCard> = match &self.move_card {
            Some(card) => Some(card.clone()),
            None => None,
        };
        Register { move_card, locked: self.locked }
    }
}

impl Register {
    /// An unlocked register without a card.
    pub fn empty() -> (r: Register)
        ensures
            r@ == (RegisterView { move_card: None, locked: false }),
    {
        Register { move_card: None, locked: false }
    }
}

/// Copies a list of registers.
pub fn clone_registers(registers: &Vec<Register>) -> (r: Vec<Register>)
    ensures
        r.deep_view() == registers.deep_view(),
{
    let mut r: Vec<Register> = Vec::new();
    let mut i: usize = 0;
    while i < registers.len()
        invariant
            i <= registers@.len(),
            r@.len() == i,
            forall|k: int| 0 <= k < i ==> r@[k]@ == registers@[k]@,
        decreases registers@.len() - i,
    {
        r.push(registers[i].clone());
        i += 1;
    }
    r
}

#[derive(Debug, Clone, Copy, PartialEq, Eq, Structural)]
pub struct PlayerConfig {
    pub player_count: usize,
    pub life_tokens: u32,
}

impl Default for PlayerConfig {
    fn default() -> (c: PlayerConfig)
        ensures
            c == (PlayerConfig { player_count: 2, life_tokens: DEFAULT_LIFE_TOKENS }),
    {
        PlayerConfig { player_count: 2, life_tokens: DEFAULT_LIFE_TOKENS }
    }
}

#[derive(Debug)]
pub struct Player {
    pub id: PlayerID,
    pub robot: Robot,
    pub registers: Vec<Register>,
    pub program_card_deck: Vec<MoveCard>,
}

pub ghost struct PlayerView {
    pub id: PlayerID,
    pub robot: Robot,
    pub registers: Seq<RegisterView>,
    pub program_card_deck: Seq<MoveCardView>,
}

impl View for Player {
    type V = PlayerView;

    open spec fn view(&self) -> PlayerView {
        PlayerView {
            id: self.id,
            robot: self.robot,
            registers: self.registers.deep_view(),
            program_card_deck: self.program_card_deck.deep_view(),
        }
    }
}

impl DeepView for Player {
    type V = PlayerView;

    open spec fn deep_view(&self) -> PlayerView {
        self@
    }
}

impl Clone for Player {
    fn clone(&self) -> (r: Player)
        ensures
            r@ == self@,
    {
        Player {
            id: self.id,
            robot: self.robot,
            registers: clone_registers(&self.registers),
            program_card_deck: clone_cards(&self.program_card_deck),
        }
    }
}

/// `count` unlocked registers without cards.
pub open spec fn empty_registers(count: nat) -> Seq<RegisterView> {
    Seq::new(count, |i: int| RegisterView { move_card: None, locked: false })
}

/// The player that a game starts with: robot and player share the id, the
/// robot is undamaged and waits at the origin, facing south.
pub open spec fn initial_player(id: u32, life_tokens: u32) -> PlayerView {
    PlayerView {
        id,
        robot: Robot {
            id,
            damage: 0,
            life_tokens,
            powered_down: EPoweredDown::No,
            position: Position { x: 0, y: 0 },
            direction: EDirection::SOUTH,
            status: ERobotStatus::Alive,
        },
        registers: empty_registers(REGISTER_COUNT as nat),
        program_card_deck: Seq::empty(),
    }
}

fn new_registers(count: usize) -> (r: Vec<Register>)
    ensures
        r.deep_view() == empty_registers(count as nat),
{
    let mut r: Vec<Register> = Vec::new();
    let mut i: usize = 0;
    while i < count
        invariant
            i <= count,
            r@.len() == i,
            forall|k: int| 0 <= k < i ==> r@[k]@ == empty_registers(count as nat)[k],
        decreases count - i,
    {
        r.push(Register::empty());
        i += 1;
    }
    r
}

impl PlayerView {
    /// The number of registers that are not locked.
    pub open spec fn unlocked_count(self) -> nat {
        self.registers.filter(|r: RegisterView| !r.locked).len()
    }

    /// Place of the first card with the given id in the hand.
    pub open spec fn hand_index(self, move_card_id: MoveCardID) -> Option<int> {
        first_card_with_id(self.program_card_deck, move_card_id)
    }

    pub open spec fn active(self) -> bool {
        self.robot.active()
    }
}

/// Place of the first card with the given id.
pub open spec fn first_card_with_id(cards: Seq<MoveCardView>, id: MoveCardID) -> Option<int> {
    first_index(cards, |c: MoveCardView| c.id == id)
}

/// The cards of the unlocked registers among the first `count` registers, in
/// the order of the registers.
pub open spec fn unlocked_cards(registers: Seq<RegisterView>, count: int) -> Seq<MoveCardView>
    decreases count,
{
    if count <= 0 {
        Seq::empty()
    } else {
        let r = registers[count - 1];
        let before = unlocked_cards(registers, count - 1);
        if !r.locked && r.move_card is Some {
            before.push(r.move_card->Some_0)
        } else {
            before
        }
    }
}

/// The register without its card, unless it is locked.
pub open spec fn cleared(register: RegisterView) -> RegisterView {
    if register.locked {
        register
    } else {
        RegisterView { move_card: None, locked: false }
    }
}

impl PlayerView {
    /// The player after the card with the id `move_card_id` went from the hand
    /// into the register `register_index`.
    ///
    /// Fails where the register is locked or holds a card already, and where
    /// no card in the hand has that id.
    pub open spec fn choose_card(self, register_index: int, move_card_id: MoveCardID) -> Result<
        PlayerView,
        StateError,
    > {
        if self.registers[register_index].locked
            || self.registers[register_index].move_card is Some {
            Err(StateError::DoublePlayerInput { player_id: self.id })
        } else {
            match self.hand_index(move_card_id) {
                None => Err(
                    StateError::InvalidProgramCardChoice { player_id: self.id, move_card_id },
                ),
                Some(k) => Ok(
                    PlayerView {
                        registers: self.registers.update(
                            register_index,
                            RegisterView {
                                move_card: Some(self.program_card_deck[k]),
                                ..self.registers[register_index]
                            },
                        ),
                        program_card_deck: self.program_card_deck.remove(k),
                        ..self
                    },
                ),
            }
        }
    }

    /// The player after the cards of the unlocked registers were taken out.
    pub open spec fn without_unlocked_cards(self) -> PlayerView {
        PlayerView {
            registers: Seq::new(self.registers.len(), |i: int| cleared(self.registers[i])),
            ..self
        }
    }
}

impl Player {
    /// A player with the given robot, `REGISTER_COUNT` empty registers and no
    /// cards in hand.
    pub fn new(id: PlayerID, robot: Robot) -> (p: Player)
        ensures
            p@ == (PlayerView {
                id,
                robot,
                registers: empty_registers(REGISTER_COUNT as nat),
                program_card_deck: Seq::empty(),
            }),
    {
        let p = Player {
            id,
            robot,
            registers: new_registers(REGISTER_COUNT),
            program_card_deck: Vec::new(),
        };
        assert(p.program_card_deck.deep_view() =~= Seq::empty());
        p
    }

    /// The players of a new game, with the ids `0`, `1` and so on.
    pub fn create_from(config: &PlayerConfig) -> (players: Vec<Player>)
        requires
            config.player_count <= u32::MAX,
        ensures
            players@.len() == config.player_count,
            forall|i: int|
                0 <= i < players@.len() ==> (#[trigger] players@[i])@ == initial_player(
                    i as u32,
                    config.life_tokens,
                ),
    {
        let mut players: Vec<Player> = Vec::new();
        let mut id: usize = 0;
        while id < config.player_count
            invariant
                id <= config.player_count <= u32::MAX,
                players@.len() == id,
                forall|i: int|
                    0 <= i < id ==> (#[trigger] players@[i])@ == initial_player(
                        i as u32,
                        config.life_tokens,
                    ),
            decreases config.player_count - id,
        {
            let player = Player {
                id: id as u32,
                robot: Robot {
                    id: id as u32,
                    damage: 0,
                    life_tokens: config.life_tokens,
                    powered_down: EPoweredDown::No,
                    position: Position::new(0, 0),
                    direction: EDirection::SOUTH,
                    status: ERobotStatus::Alive,
                },
                registers: new_registers(REGISTER_COUNT),
                program_card_deck: Vec::new(),
            };
            assert(player.program_card_deck.deep_view() =~= Seq::empty());
            players.push(player);
            id += 1;
        }
        players
    }

    /// A player whose single register holds `move_card`.
    pub fn new_with_move(id: PlayerID, robot: Robot, move_card: MoveCard) -> (p: Player)
        ensures
            p@ == (PlayerView {
                id,
                robot,
                registers: seq![RegisterView { move_card: Some(move_card@), locked: false }],
                program_card_deck: Seq::empty(),
            }),
    {
        let ghost card = move_card@;
        let mut registers: Vec<Register> = Vec::new();
        registers.push(Register { move_card: Some(move_card), locked: false });
        let p = Player { id, robot, registers, program_card_deck: Vec::new() };
        assert(p.program_card_deck.deep_view() =~= Seq::empty());
        assert(p.registers.deep_view() =~= seq![
            RegisterView { move_card: Some(card), locked: false },
        ]);
        p
    }

    /// The same player with another hand of cards.
    pub fn set_program_card_deck(&self, program_card_deck: Vec<MoveCard>) -> (p: Player)
        ensures
            p@ == (PlayerView { program_card_deck: program_card_deck.deep_view(), ..self@ }),
    {
        Player {
            id: self.id,
            robot: self.robot,
            program_card_deck,
            registers: clone_registers(&self.registers),
        }
    }

/// The number of registers that are not locked.
    pub fn count_unlocked_registers(&self) -> (c: usize)
        ensures
            c == self@.unlocked_count(),
    {
        let ghost unlocked = |r: RegisterView| !r.locked;
        let mut c: usize = 0;
        let mut i: usize = 0;
        while i < self.registers.len()
            invariant
                i <= self.registers@.len(),
                unlocked == (|r: RegisterView| !r.locked),
                c == self@.registers.take(i as int).filter(unlocked).len(),
                c <= i,
            decreases self.registers@.len() - i,
        {
            proof {
                let s = self@.registers;
                assert(s.take(i + 1).drop_last() =~= s.take(i as int));
                reveal(Seq::filter);
            }
            if !self.registers[i].locked {
                c += 1;
            }
            i += 1;
        }
        assert(self@.registers.take(i as int) =~= self@.registers);
        c
    }

/// Whether the robot of the player takes part in the register.
    pub fn is_active(&self) -> (b: bool)
        ensures
            b == self@.active(),
    {
        self.robot.is_active()
    }

    /// A copy of the player whose registers are locked according to the
    /// damage of the robot.
    pub fn lock_registers_according_to_damage(&self) -> (p: Player)
        ensures
            p@ == lock_by_damage(self@),
    {
        let damage: u64 = self.robot.damage as u64;
        let mut registers: Vec<Register> = Vec::new();
        let mut i: usize = 0;
        while i < self.registers.len()
            invariant
                i <= self.registers@.len(),
                registers@.len() == i,
                damage == self.robot.damage,
                forall|k: int|
                    0 <= k < i ==> (#[trigger] registers@[k])@ == lock_by_damage(
                        self@,
                    ).registers[k],
            decreases self.registers@.len() - i,
        {
            let register: Register = self.registers[i].clone();
            let locked: bool = if i < REGISTER_COUNT {
                (i as u64) + damage >= (REGISTER_COUNT as u64) + 4
            } else {
                register.locked
            };
            registers.push(Register { move_card: register.move_card, locked });
            i += 1;
        }
        assert(registers.deep_view() =~= lock_by_damage(self@).registers);
        Player {
            id: self.id,
            robot: self.robot,
            registers,
            program_card_deck: clone_cards(&self.program_card_deck),
        }
    }
}

/// The player with the first `REGISTER_COUNT` registers locked or unlocked by
/// the damage of the robot: register `i`, counted from zero, is locked where
/// `i` is at least nine less the damage.
pub open spec fn lock_by_damage(player: PlayerView) -> PlayerView {
    PlayerView {
        registers: Seq::new(
            player.registers.len(),
            |i: int|
                if i < REGISTER_COUNT {
                    RegisterView {
                        locked: i + player.robot.damage >= REGISTER_COUNT + 4,
                        ..player.registers[i]
                    }
                } else {
                    player.registers[i]
                },
        ),
        ..player
    }
}

impl Player {
    /// Puts the card with the id `move_card_id` from the hand into the
    /// register `register_index`.
    pub fn choose_card(&self, register_index: usize, move_card_id: MoveCardID) -> (r: Result<
        Player,
        StateError,
    >)
        requires
            register_index < self.registers@.len(),
        ensures
            match r {
                Ok(p) => self@.choose_card(register_index as int, move_card_id) == Ok::<
                    PlayerView,
                    StateError,
                >(p@),
                Err(e) => self@.choose_card(register_index as int, move_card_id) == Err::<
                    PlayerView,
                    StateError,
                >(e),
            },
    {
        let mut new_player: Player = self.clone();
        assert(new_player@.registers.len() == self@.registers.len());
        if new_player.registers[register_index].locked
            || new_player.registers[register_index].move_card.is_some() {
            return Err(StateError::DoublePlayerInput { player_id: self.id });
        }
        let ghost p = |c: MoveCardView| c.id == move_card_id;
        let ghost hand = self@.program_card_deck;
        let mut card_index: usize = 0;
        let mut found: bool = false;
        while card_index < new_player.program_card_deck.len()
            invariant_except_break
                !found,
                forall|k: int| 0 <= k < card_index ==> !p(#[trigger] hand[k]),
            invariant
                card_index <= new_player.program_card_deck@.len(),
                new_player@ == self@,
                hand == self@.program_card_deck,
                p == (|c: MoveCardView| c.id == move_card_id),
            ensures
                card_index <= new_player.program_card_deck@.len(),
                new_player@ == self@,
                found ==> card_index < new_player.program_card_deck@.len() && first_card_with_id(
                    hand,
                    move_card_id,
                ) == Some(card_index as int),
                !found ==> first_card_with_id(hand, move_card_id) is None,
            decreases new_player.program_card_deck@.len() - card_index,
        {
            if new_player.program_card_deck[card_index].id == move_card_id {
                proof {
                    lemma_first_index_found(hand, p, card_index as int);
                }
                found = true;
                break ;
            }
            card_index += 1;
            proof {
                if card_index == new_player.program_card_deck@.len() {
                    lemma_first_index_none(hand, p);
                }
            }
        }
        if !found {
            return Err(
                StateError::InvalidProgramCardChoice { player_id: self.id, move_card_id },
            );
        }
        let card: MoveCard = new_player.program_card_deck.remove(card_index);
        new_player.registers[register_index] = Register { move_card: Some(card), locked: false };
        proof {
            let expected = self@.choose_card(register_index as int, move_card_id)->Ok_0;
            assert(new_player@.program_card_deck =~= expected.program_card_deck);
            assert(new_player@.registers =~= expected.registers);
        }
        Ok(new_player)
    }

    /// Takes the cards out of the unlocked registers. Gives the cards, in the
    /// order of the registers, and the player without them.
    pub fn take_program_cards_from_unlocked_registers(&self) -> (r: (Vec<MoveCard>, Player))
        ensures
            r.0.deep_view() == unlocked_cards(self@.registers, self@.registers.len() as int),
            r.1@ == self@.without_unlocked_cards(),
    {
        let mut cards: Vec<MoveCard> = Vec::new();
        let mut registers: Vec<Register> = Vec::new();
        let mut i: usize = 0;
        while i < self.registers.len()
            invariant
                i <= self.registers@.len(),
                registers@.len() == i,
                cards.deep_view() == unlocked_cards(self@.registers, i as int),
                forall|k: int|
                    0 <= k < i ==> (#[trigger] registers@[k])@ == cleared(self@.registers[k]),
            decreases self.registers@.len() - i,
        {
            let register: Register = self.registers[i].clone();
            if register.locked {
                registers.push(register);
            } else {
                match register.move_card {
                    Some(card) => {
                        cards.push(card);
                    },
                    None => {},
                }
                registers.push(Register { move_card: None, locked: false });
            }
            i += 1;
        }
        let new_player = Player {
            id: self.id,
            robot: self.robot,
            registers,
            program_card_deck: clone_cards(&self.program_card_deck),
        };
        assert(new_player@.registers =~= self@.without_unlocked_cards().registers);
        (cards, new_player)
    }
}

/// A list of players that can be walked through while the state they were
/// taken from changes.
pub struct PlayerIter {
    pub players: Vec<Player>,
}

impl PlayerIter {
    pub fn new(players: Vec<Player>) -> (r: PlayerIter)
        ensures
            r.players == players,
    {
        PlayerIter { players }
    }

    pub fn iter(&self) -> (it: PlayerIterator<'_>)
        ensures
            it.players@ == self.players@,
            it.next_index == 0,
    {
        PlayerIterator::new(self.players.as_slice())
    }
}

/// A walk through a list of players.
pub struct PlayerIterator<'a> {
    pub players: &'a [Player],
    pub next_index: usize,
}

impl<'a> PlayerIterator<'a> {
    pub fn new(players: &'a [Player]) -> (it: PlayerIterator<'a>)
        ensures
            it.players@ == players@,
            it.next_index == 0,
    {
        PlayerIterator { players, next_index: 0 }
    }

    /// The next player, if one is left.
    pub fn next(&mut self) -> (r: Option<&'a Player>)
        ensures
            final(self).players@ == old(self).players@,
            match r {
                Some(p) => old(self).next_index < old(self).players@.len() && *p == old(
                    self,
                ).players@[old(self).next_index as int] && final(self).next_index == old(
                    self,
                ).next_index + 1,
                None => old(self).next_index >= old(self).players@.len() && final(self).next_index
                    == old(self).next_index,
            },
    {
        if self.next_index < self.players.len() {
            let player: &'a Player = &self.players[self.next_index];
            self.next_index += 1;
            Some(player)
        } else {
            None
        }
    }
}

} // verus!
