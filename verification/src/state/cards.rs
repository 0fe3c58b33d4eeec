//! Move cards and the deck they are dealt from.

use vstd::prelude::*;
use vstd::slice::slice_to_vec;

use crate::random::{sample_indices, thread_rng};
use crate::state::{MoveCardID, PlayerID};

verus! {

/// The smallest priority a generated card can carry.
pub const MIN_PRIORITY: u32 = 1;

/// The largest priority a generated card can carry.
pub const MAX_PRIORITY: u32 = 1000;

/// One step of a move card.
#[derive(Debug, Copy, Clone, PartialEq, Eq, Structural)]
pub enum ESimpleMove {
    Forward,
    Backward,
    StepLeft,
    StepRight,
    TurnRight,
    TurnLeft,
    UTurn,
}

impl ESimpleMove {
/// Whether the step only changes the facing of the robot.
    pub open spec fn turns(self) -> bool {
        self is TurnRight || self is TurnLeft || self is UTurn
    }

    /// Whether the step only changes the facing of the robot.
    pub fn is_turn(&self) -> (b: bool)
        ensures
            b == self.turns(),
    {
        match self {
            ESimpleMove::TurnRight => true,
            ESimpleMove::TurnLeft => true,
            ESimpleMove::UTurn => true,
            _ => false,
        }
    }
}

/// A move: something that unfolds into an ordered chain of simple steps.
pub trait TMove {
    spec fn chain_spec(&self) -> Seq<ESimpleMove>;

    /// The steps of the move, in the order in which they are performed.
    fn steps(&self) -> (v: Vec<ESimpleMove>)
        ensures
            v@ == self.chain_spec(),
    ;
}

/// A move given by its chain of steps.
#[derive(Debug)]
pub struct SimpleMove {
    pub chain: Vec<ESimpleMove>,
}

impl View for SimpleMove {
    type V = Seq<ESimpleMove>;

    open spec fn view(&self) -> Seq<ESimpleMove> {
        self.chain@
    }
}

impl Clone for SimpleMove {
    fn clone(&self) -> (r: SimpleMove)
        ensures
            r@ == self@,
    {
        SimpleMove { chain: slice_to_vec(self.chain.as_slice()) }
    }
}

impl SimpleMove {
    pub fn new(simple_moves: &[ESimpleMove]) -> (m: Box<SimpleMove>)
        ensures
            m@ == simple_moves@,
    {
        Box::new(SimpleMove { chain: slice_to_vec(simple_moves) })
    }

    pub fn single(mmove: ESimpleMove) -> (m: Box<SimpleMove>)
        ensures
            m@ == seq![mmove],
    {
        let mut chain: Vec<ESimpleMove> = Vec::new();
        chain.push(mmove);
        Box::new(SimpleMove { chain })
    }
}

impl TMove for SimpleMove {
    open spec fn chain_spec(&self) -> Seq<ESimpleMove> {
        self@
    }

    fn steps(&self) -> (v: Vec<ESimpleMove>) {
        slice_to_vec(self.chain.as_slice())
    }
}

/// A program card: its steps are performed when its register is resolved,
/// cards of lower priority first.
#[derive(Debug)]
pub struct MoveCard {
    pub id: MoveCardID,
    pub priority: u32,
    pub tmove: SimpleMove,
}

pub ghost struct MoveCardView {
    pub id: MoveCardID,
    pub priority: u32,
    pub moves: Seq<ESimpleMove>,
}

impl View for MoveCard {
    type V = MoveCardView;

    open spec fn view(&self) -> MoveCardView {
        MoveCardView { id: self.id, priority: self.priority, moves: self.tmove@ }
    }
}

impl DeepView for MoveCard {
    type V = MoveCardView;

    open spec fn deep_view(&self) -> MoveCardView {
        self@
    }
}

impl Clone for MoveCard {
    fn clone(&self) -> (r: MoveCard)
        ensures
            r@ == self@,
    {
        MoveCard { id: self.id, priority: self.priority, tmove: self.tmove.clone() }
    }
}

impl MoveCard {
    pub fn new(id: MoveCardID, priority: u32, tmove: Box<SimpleMove>) -> (c: MoveCard)
        ensures
            c@ == (MoveCardView { id, priority, moves: tmove@ }),
    {
        MoveCard { id, priority, tmove: *tmove }
    }

    pub fn new_from_moves(id: MoveCardID, priority: u32, moves: &[ESimpleMove]) -> (c: MoveCard)
        ensures
            c@ == (MoveCardView { id, priority, moves: moves@ }),
    {
        let tmove: Box<SimpleMove> = SimpleMove::new(moves);
        MoveCard::new(id, priority, tmove)
    }
}

/// Copies a list of cards.
pub fn clone_cards(cards: &Vec<MoveCard>) -> (r: Vec<MoveCard>)
    ensures
        r.deep_view() == cards.deep_view(),
{
    let mut r: Vec<MoveCard> = Vec::new();
    let mut i: usize = 0;
    while i < cards.len()
        invariant
            i <= cards@.len(),
            r@.len() == i,
            forall|k: int| 0 <= k < i ==> r@[k]@ == cards@[k]@,
        decreases cards@.len() - i,
    {
        r.push(cards[i].clone());
        i += 1;
    }
    r
}

/// How many cards of each kind a deck holds.
#[derive(Debug, Copy, Clone, PartialEq, Eq, Structural)]
pub struct ProgramCardDeckConfig {
    pub count_1_move: u32,
    pub count_2_move: u32,
    pub count_3_move: u32,
    pub count_back_up: u32,
    pub count_turn_right: u32,
    pub count_turn_left: u32,
    pub count_uturn: u32,
}

impl ProgramCardDeckConfig {
    /// The number of cards in a deck made from this configuration.
    pub open spec fn total(self) -> int {
        self.count_1_move + self.count_2_move + self.count_3_move + self.count_back_up
            + self.count_turn_left + self.count_turn_right + self.count_uturn
    }

    /// The steps of the card at place `slot` of a generated deck: the cards
    /// come kind by kind, one to three steps forward, backing up, turning
    /// left, turning right and turning around.
    pub open spec fn slot_moves(self, slot: int) -> Seq<ESimpleMove> {
        let one = self.count_1_move as int;
        let two = one + self.count_2_move;
        let three = two + self.count_3_move;
        let back = three + self.count_back_up;
        let left = back + self.count_turn_left;
        let right = left + self.count_turn_right;
        if slot < one {
            seq![ESimpleMove::Forward]
        } else if slot < two {
            seq![ESimpleMove::Forward, ESimpleMove::Forward]
        } else if slot < three {
            seq![ESimpleMove::Forward, ESimpleMove::Forward, ESimpleMove::Forward]
        } else if slot < back {
            seq![ESimpleMove::Backward]
        } else if slot < left {
            seq![ESimpleMove::TurnLeft]
        } else if slot < right {
            seq![ESimpleMove::TurnRight]
        } else {
            seq![ESimpleMove::UTurn]
        }
    }

    pub fn card_count(&self) -> (n: u32)
        requires
            self.total() <= u32::MAX,
        ensures
            n == self.total(),
    {
        self.count_1_move + self.count_2_move + self.count_3_move + self.count_back_up
            + self.count_turn_left + self.count_turn_right + self.count_uturn
    }

    fn moves_of_slot(&self, slot: u32) -> (v: Vec<ESimpleMove>)
        requires
            self.total() <= u32::MAX,
        ensures
            v@ == self.slot_moves(slot as int),
    {
        let one: u32 = self.count_1_move;
        let two: u32 = one + self.count_2_move;
        let three: u32 = two + self.count_3_move;
        let back: u32 = three + self.count_back_up;
        let left: u32 = back + self.count_turn_left;
        let right: u32 = left + self.count_turn_right;
        let mut v: Vec<ESimpleMove> = Vec::new();
        if slot < one {
            v.push(ESimpleMove::Forward);
        } else if slot < two {
            v.push(ESimpleMove::Forward);
            v.push(ESimpleMove::Forward);
        } else if slot < three {
            v.push(ESimpleMove::Forward);
            v.push(ESimpleMove::Forward);
            v.push(ESimpleMove::Forward);
        } else if slot < back {
            v.push(ESimpleMove::Backward);
        } else if slot < left {
            v.push(ESimpleMove::TurnLeft);
        } else if slot < right {
            v.push(ESimpleMove::TurnRight);
        } else {
            v.push(ESimpleMove::UTurn);
        }
        v
    }
}

impl Default for ProgramCardDeckConfig {
    fn default() -> (c: ProgramCardDeckConfig)
        ensures
            c == (ProgramCardDeckConfig {
                count_1_move: 18,
                count_2_move: 12,
                count_3_move: 6,
                count_back_up: 6,
                count_turn_right: 18,
                count_turn_left: 18,
                count_uturn: 6,
            }),
    {
        ProgramCardDeckConfig {
            count_1_move: 18,
            count_2_move: 12,
            count_3_move: 6,
            count_back_up: 6,
            count_turn_left: 18,
            count_turn_right: 18,
            count_uturn: 6,
        }
    }
}

/// The pool of cards that are neither in a hand nor in a register.
#[derive(Debug, Default)]
pub struct ProgramCardDeck {
    pub cards: Vec<MoveCard>,
}

impl View for ProgramCardDeck {
    type V = Seq<MoveCardView>;

    open spec fn view(&self) -> Seq<MoveCardView> {
        self.cards.deep_view()
    }
}

impl Clone for ProgramCardDeck {
    fn clone(&self) -> (r: ProgramCardDeck)
        ensures
            r@ == self@,
    {
        ProgramCardDeck { cards: clone_cards(&self.cards) }
    }
}

/// Priorities are pairwise distinct and lie between `MIN_PRIORITY` and
/// `MAX_PRIORITY`.
pub open spec fn priorities_valid(cards: Seq<MoveCardView>) -> bool {
    &&& forall|i: int|
        0 <= i < cards.len() ==> MIN_PRIORITY <= (#[trigger] cards[i]).priority <= MAX_PRIORITY
    &&& forall|i: int, j: int|
        0 <= i < j < cards.len() ==> (#[trigger] cards[i]).priority
            != (#[trigger] cards[j]).priority
}

/// The deck that a configuration and a list of priorities determine: the card
/// at place `i` has id `i`, the `i`-th priority and the steps of its kind.
pub open spec fn deck_of(config: ProgramCardDeckConfig, priorities: Seq<u32>) -> Seq<MoveCardView> {
    Seq::new(
        config.total() as nat,
        |i: int|
            MoveCardView { id: i as u32, priority: priorities[i], moves: config.slot_moves(i) },
    )
}

impl ProgramCardDeck {
    /// Builds the deck of `config` with the given priorities, one per card.
    pub fn from_priorities(config: &ProgramCardDeckConfig, priorities: &Vec<u32>) -> (deck:
        ProgramCardDeck)
        requires
            config.total() <= u32::MAX,
            priorities@.len() == config.total(),
        ensures
            deck@ == deck_of(*config, priorities@),
    {
        let count: u32 = config.card_count();
        let mut cards: Vec<MoveCard> = Vec::new();
        let mut i: u32 = 0;
        while i < count
            invariant
                i <= count,
                count == config.total(),
                priorities@.len() == count,
                cards@.len() == i,
                forall|k: int|
                    0 <= k < i ==> cards@[k]@ == deck_of(*config, priorities@)[k],
            decreases count - i,
        {
            let moves: Vec<ESimpleMove> = config.moves_of_slot(i);
            cards.push(MoveCard::new_from_moves(i, priorities[i as usize], moves.as_slice()));
            i += 1;
        }
        ProgramCardDeck { cards }
    }

    /// The deck followed by `new_cards`.
    pub fn add_cards(&self, new_cards: Vec<MoveCard>) -> (deck: ProgramCardDeck)
        ensures
            deck@ == self@ + new_cards.deep_view(),
    {
        let mut cards: Vec<MoveCard> = clone_cards(&self.cards);
        let mut new_cards: Vec<MoveCard> = new_cards;
        cards.append(&mut new_cards);
        ProgramCardDeck { cards }
    }
}

/// Whether `place` is one of `indices`.
pub open spec fn drawn(indices: Seq<usize>, place: int) -> bool {
    exists|k: int| 0 <= k < indices.len() && #[trigger] indices[k] == place
}

/// The cards at the drawn places from `from` on, the last place first.
pub open spec fn taken_cards(cards: Seq<MoveCardView>, indices: Seq<usize>, from: int) -> Seq<
    MoveCardView,
>
    decreases cards.len() - from,
{
    if from >= cards.len() || from < 0 {
        Seq::empty()
    } else if drawn(indices, from) {
        taken_cards(cards, indices, from + 1).push(cards[from])
    } else {
        taken_cards(cards, indices, from + 1)
    }
}

/// The cards at the places below `upto` that were not drawn, in their order.
pub open spec fn left_cards(cards: Seq<MoveCardView>, indices: Seq<usize>, upto: int) -> Seq<
    MoveCardView,
>
    decreases upto,
{
    if upto <= 0 || upto > cards.len() {
        Seq::empty()
    } else if drawn(indices, upto - 1) {
        left_cards(cards, indices, upto - 1)
    } else {
        left_cards(cards, indices, upto - 1).push(cards[upto - 1])
    }
}

/// Whether the indices are places of a sequence of length `len`, each named
/// once.
pub open spec fn distinct_places(indices: Seq<usize>, len: int) -> bool {
    &&& forall|k: int| 0 <= k < indices.len() ==> (#[trigger] indices[k]) < len
    &&& forall|i: int, j: int|
        0 <= i < j < indices.len() ==> (#[trigger] indices[i]) != (#[trigger] indices[j])
}

/// The places drawn are the last one and those drawn before it, among which
/// the last one is not.
proof fn lemma_drawn_last(indices: Seq<usize>, len: int)
    requires
        indices.len() > 0,
        distinct_places(indices, len),
    ensures
        forall|place: int|
            drawn(indices, place) == (drawn(indices.drop_last(), place) || place
                == indices.last()),
        !drawn(indices.drop_last(), indices.last() as int),
{
    let rest = indices.drop_last();
    let last = indices.last();
    assert forall|place: int| drawn(indices, place) == (drawn(rest, place) || place
        == last) by {
        if drawn(indices, place) {
            let k = choose|k: int| 0 <= k < indices.len() && indices[k] == place;
            if k < indices.len() - 1 {
                assert(rest[k] == place);
            }
        }
    }
    assert(!drawn(rest, last as int));
}

proof fn lemma_taken_without_last_up(cards: Seq<MoveCardView>, indices: Seq<usize>, from: int)
    requires
        indices.len() > 0,
        distinct_places(indices, cards.len() as int),
        0 <= from <= cards.len(),
    ensures
        taken_cards(cards, indices, from).len() == taken_cards(
            cards,
            indices.drop_last(),
            from,
        ).len() + if from <= indices.last() {
            1int
        } else {
            0int
        },
    decreases cards.len() - from,
{
    lemma_drawn_last(indices, cards.len() as int);
    if from < cards.len() {
        lemma_taken_without_last_up(cards, indices, from + 1);
    }
}

proof fn lemma_taken_without_last_down(cards: Seq<MoveCardView>, indices: Seq<usize>, upto: int)
    requires
        indices.len() > 0,
        distinct_places(indices, cards.len() as int),
        0 <= upto <= cards.len(),
    ensures
        left_cards(cards, indices, upto).len() == left_cards(
            cards,
            indices.drop_last(),
            upto,
        ).len() - if indices.last() < upto {
            1int
        } else {
            0int
        },
    decreases upto,
{
    lemma_drawn_last(indices, cards.len() as int);
    if upto > 0 {
        lemma_taken_without_last_down(cards, indices, upto - 1);
    }
}

proof fn lemma_nothing_taken(cards: Seq<MoveCardView>, from: int)
    requires
        0 <= from <= cards.len(),
    ensures
        taken_cards(cards, Seq::<usize>::empty(), from).len() == 0,
    decreases cards.len() - from,
{
    if from < cards.len() {
        lemma_nothing_taken(cards, from + 1);
    }
}

proof fn lemma_all_left(cards: Seq<MoveCardView>, upto: int)
    requires
        0 <= upto <= cards.len(),
    ensures
        left_cards(cards, Seq::<usize>::empty(), upto).len() == upto,
    decreases upto,
{
    if upto > 0 {
        lemma_all_left(cards, upto - 1);
    }
}

/// Drawing at distinct places takes as many cards as there are places and
/// leaves the others.
pub proof fn lemma_drawn_counts(cards: Seq<MoveCardView>, indices: Seq<usize>)
    requires
        distinct_places(indices, cards.len() as int),
    ensures
        taken_cards(cards, indices, 0).len() == indices.len(),
        left_cards(cards, indices, cards.len() as int).len() == cards.len() - indices.len(),
    decreases indices.len(),
{
    if indices.len() == 0 {
        assert(indices =~= Seq::<usize>::empty());
        lemma_nothing_taken(cards, 0);
        lemma_all_left(cards, cards.len() as int);
    } else {
        lemma_drawn_counts(cards, indices.drop_last());
        lemma_taken_without_last_up(cards, indices, 0);
        lemma_taken_without_last_down(cards, indices, cards.len() as int);
    }
}

fn is_drawn(indices: &Vec<usize>, place: usize) -> (b: bool)
    ensures
        b == drawn(indices@, place as int),
{
    let mut k: usize = 0;
    while k < indices.len()
        invariant
            k <= indices@.len(),
            forall|j: int| 0 <= j < k ==> indices@[j] != place,
        decreases indices@.len() - k,
    {
        if indices[k] == place {
            return true;
        }
        k += 1;
    }
    false
}

impl ProgramCardDeck {
    /// Takes the cards at the given places out of the deck. Gives the deck
    /// that is left, and the cards taken, the one from the last place first.
    pub fn take_cards_at(&self, indices: &Vec<usize>) -> (r: (ProgramCardDeck, Vec<MoveCard>))
        ensures
            r.0@ == left_cards(self@, indices@, self@.len() as int),
            r.1.deep_view() == taken_cards(self@, indices@, 0),
    {
        let mut chosen_cards: Vec<MoveCard> = Vec::new();
        let mut i: usize = self.cards.len();
        while i > 0
            invariant
                i <= self.cards@.len(),
                chosen_cards.deep_view() == taken_cards(self@, indices@, i as int),
            decreases i,
        {
            i -= 1;
            if is_drawn(indices, i) {
                chosen_cards.push(self.cards[i].clone());
            }
        }
        let mut cards: Vec<MoveCard> = Vec::new();
        let mut i: usize = 0;
        while i < self.cards.len()
            invariant
                i <= self.cards@.len(),
                cards.deep_view() == left_cards(self@, indices@, i as int),
            decreases self.cards@.len() - i,
        {
            if !is_drawn(indices, i) {
                cards.push(self.cards[i].clone());
            }
            i += 1;
        }
        (ProgramCardDeck { cards }, chosen_cards)
    }

    /// Takes `amount` cards out of the deck, at places drawn at random. Gives
    /// the deck that is left and the cards taken.
    pub fn take_random_cards(&self, amount: u32) -> (r: (ProgramCardDeck, Vec<MoveCard>))
        requires
            amount <= self@.len(),
        ensures
            exists|indices: Seq<usize>|
                indices.len() == amount && distinct_places(indices, self@.len() as int) && r.0@
                    == left_cards(self@, indices, self@.len() as int) && r.1.deep_view()
                    == taken_cards(self@, indices, 0),
            r.0@.len() == self@.len() - amount,
            r.1@.len() == amount,
    {
        let mut rng: rand::rngs::ThreadRng = thread_rng();
        let indices: Vec<usize> = sample_indices(&mut rng, self.cards.len(), amount as usize);
        proof {
            lemma_drawn_counts(self@, indices@);
        }
        self.take_cards_at(&indices)
    }
}

/// Generates decks with random priorities.
pub struct ProgramCardDeckGenerator {
    rng: rand::rngs::ThreadRng,
}

impl ProgramCardDeckGenerator {
    pub fn new() -> ProgramCardDeckGenerator {
        ProgramCardDeckGenerator { rng: thread_rng() }
    }

    /// Generates the deck of `config`. Its priorities are drawn at random,
    /// without repetition, from `MIN_PRIORITY` to `MAX_PRIORITY`.
    pub fn generate_program_deck(&mut self, config: &ProgramCardDeckConfig) -> (deck:
        ProgramCardDeck)
        requires
            config.total() <= MAX_PRIORITY,
        ensures
            exists|priorities: Seq<u32>|
                priorities.len() == config.total() && deck@ == deck_of(*config, priorities),
            priorities_valid(deck@),
    {
        let count: u32 = config.card_count();
        let drawn: Vec<usize> = sample_indices(
            &mut self.rng,
            MAX_PRIORITY as usize,
            count as usize,
        );
        let mut priorities: Vec<u32> = Vec::new();
        let mut i: usize = 0;
        while i < drawn.len()
            invariant
                i <= drawn@.len(),
                priorities@.len() == i,
                forall|k: int| 0 <= k < drawn@.len() ==> drawn@[k] < MAX_PRIORITY,
                forall|k: int| 0 <= k < i ==> priorities@[k] == drawn@[k] + MIN_PRIORITY,
            decreases drawn@.len() - i,
        {
            priorities.push(drawn[i] as u32 + MIN_PRIORITY);
            i += 1;
        }
        let deck: ProgramCardDeck = ProgramCardDeck::from_priorities(config, &priorities);
        deck
    }
}

/// A card together with the id of the player who programmed it.
pub type PlayerCard = (PlayerID, MoveCardView);

/// `sorted` with `card` put behind the last item whose priority is not higher
/// than its own.
pub open spec fn insert_by_priority(sorted: Seq<PlayerCard>, card: PlayerCard) -> Seq<PlayerCard>
    decreases sorted.len(),
{
    if sorted.len() == 0 {
        seq![card]
    } else if sorted.last().1.priority <= card.1.priority {
        sorted.push(card)
    } else {
        insert_by_priority(sorted.drop_last(), card).push(sorted.last())
    }
}

/// The cards in ascending order of priority. Cards of equal priority keep
/// their order.
pub open spec fn sort_by_priority(cards: Seq<PlayerCard>) -> Seq<PlayerCard>
    decreases cards.len(),
{
    if cards.len() == 0 {
        Seq::empty()
    } else {
        insert_by_priority(sort_by_priority(cards.drop_last()), cards.last())
    }
}

/// Whether the priorities never fall along the sequence.
pub open spec fn ascending(cards: Seq<PlayerCard>) -> bool {
    forall|i: int, j: int|
        0 <= i < j < cards.len() ==> (#[trigger] cards[i]).1.priority
            <= (#[trigger] cards[j]).1.priority
}

/// Inserting a card into an ascending sequence keeps it ascending and adds
/// exactly that card.
pub proof fn lemma_insert_by_priority(sorted: Seq<PlayerCard>, card: PlayerCard)
    requires
        ascending(sorted),
    ensures
        ascending(insert_by_priority(sorted, card)),
        insert_by_priority(sorted, card).len() == sorted.len() + 1,
        insert_by_priority(sorted, card).to_multiset() == sorted.to_multiset().insert(card),
    decreases sorted.len(),
{
    broadcast use vstd::seq_lib::group_to_multiset_ensures;

    if sorted.len() > 0 && sorted.last().1.priority > card.1.priority {
        // The card goes somewhere into the front, and the last card stays last.
        let front = sorted.drop_last();
        let inner = insert_by_priority(front, card);
        lemma_insert_by_priority(front, card);
        let result = inner.push(sorted.last());
        assert(sorted =~= front.push(sorted.last()));
        assert forall|i: int, j: int| 0 <= i < j < result.len() implies (
        #[trigger] result[i]).1.priority <= (#[trigger] result[j]).1.priority by {
            if j == result.len() - 1 {
                assert(inner.to_multiset().count(inner[i]) > 0);
            }
        }
    }
}

/// Sorting by priority gives an ascending sequence with the same cards, each
/// as often as before.
pub proof fn lemma_sort_by_priority(cards: Seq<PlayerCard>)
    ensures
        ascending(sort_by_priority(cards)),
        sort_by_priority(cards).len() == cards.len(),
        sort_by_priority(cards).to_multiset() == cards.to_multiset(),
    decreases cards.len(),
{
    broadcast use vstd::seq_lib::group_to_multiset_ensures;

    if cards.len() > 0 {
        lemma_sort_by_priority(cards.drop_last());
        lemma_insert_by_priority(sort_by_priority(cards.drop_last()), cards.last());
        assert(cards =~= cards.drop_last().push(cards.last()));
    }
}

/// Puts `card` into the ascending list `sorted`, behind the cards whose
/// priority is not higher.
pub fn insert_card(sorted: &mut Vec<(PlayerID, MoveCard)>, card: (PlayerID, MoveCard))
    ensures
        final(sorted).deep_view() == insert_by_priority(old(sorted).deep_view(), card.deep_view()),
{
    let ghost before = sorted.deep_view();
    let ghost item = card.deep_view();
    let mut pos: usize = sorted.len();
    assert(before.take(pos as int) =~= before);
    while pos > 0 && sorted[pos - 1].1.priority > card.1.priority
        invariant
            pos <= sorted@.len(),
            sorted.deep_view() == before,
            item == card.deep_view(),
            insert_by_priority(before, item) == insert_by_priority(before.take(pos as int), item)
                + before.skip(pos as int),
        decreases pos,
    {
        proof {
            let prefix = before.take(pos as int);
            assert(prefix.drop_last() =~= before.take(pos - 1));
        }
        pos -= 1;
    }
    sorted.insert(pos, card);
}

} // verus!
