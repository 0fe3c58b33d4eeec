//! Cards handed to the movement engine directly, player by player.

use vstd::prelude::*;

use crate::state::cards::{
    insert_card, sort_by_priority, MoveCard, MoveCardView, PlayerCard,
};
use crate::state::PlayerID;

verus! {

/// The cards of one player.
#[derive(Debug)]
pub struct MoveInput {
    pub player_id: PlayerID,
    pub move_cards: Vec<MoveCard>,
}

pub ghost struct MoveInputView {
    pub player_id: PlayerID,
    pub move_cards: Seq<MoveCardView>,
}

impl View for MoveInput {
    type V = MoveInputView;

    open spec fn view(&self) -> MoveInputView {
        MoveInputView { player_id: self.player_id, move_cards: self.move_cards.deep_view() }
    }
}

impl DeepView for MoveInput {
    type V = MoveInputView;

    open spec fn deep_view(&self) -> MoveInputView {
        self@
    }
}

fn clone_card_slice(cards: &[MoveCard]) -> (r: Vec<MoveCard>)
    ensures
        r.deep_view() == cards.deep_view(),
{
    let mut r: Vec<MoveCard> = Vec::new();
    let mut i: usize = 0;
    while i < cards.len()
        invariant
            i <= cards@.len(),
            r@.len() == i,
            forall|k: int| 0 <= k < i ==> r@[k]@ == cards@[k]@,
        decreases cards@.len() - i,
    {
        r.push(cards[i].clone());
        i += 1;
    }
    r
}

impl Clone for MoveInput {
    fn clone(&self) -> (r: MoveInput)
        ensures
            r@ == self@,
    {
        MoveInput {
            player_id: self.player_id,
            move_cards: clone_card_slice(self.move_cards.as_slice()),
        }
    }
}

impl MoveInput {
    pub fn new(player_id: PlayerID, mmove: &[MoveCard]) -> (input: MoveInput)
        ensures
            input@ == (MoveInputView { player_id, move_cards: mmove.deep_view() }),
    {
        MoveInput { player_id, move_cards: clone_card_slice(mmove) }
    }
}

/// The cards of all players.
#[derive(Debug)]
pub struct MoveInputs {
    pub move_inputs: Vec<MoveInput>,
}

impl View for MoveInputs {
    type V = Seq<MoveInputView>;

    open spec fn view(&self) -> Seq<MoveInputView> {
        self.move_inputs.deep_view()
    }
}

/// The cards of one player, each with the id of the player.
pub open spec fn cards_of(input: MoveInputView) -> Seq<PlayerCard> {
    Seq::new(input.move_cards.len(), |i: int| (input.player_id, input.move_cards[i]))
}

/// All cards, input by input, each with the id of its player.
pub open spec fn all_cards(inputs: Seq<MoveInputView>) -> Seq<PlayerCard>
    decreases inputs.len(),
{
    if inputs.len() == 0 {
        Seq::empty()
    } else {
        all_cards(inputs.drop_last()) + cards_of(inputs.last())
    }
}

impl MoveInputs {
    pub fn from(inputs: &[MoveInput]) -> (r: MoveInputs)
        ensures
            r@ == inputs.deep_view(),
    {
        let mut move_inputs: Vec<MoveInput> = Vec::new();
        let mut i: usize = 0;
        while i < inputs.len()
            invariant
                i <= inputs@.len(),
                move_inputs@.len() == i,
                forall|k: int| 0 <= k < i ==> move_inputs@[k]@ == inputs@[k]@,
            decreases inputs@.len() - i,
        {
            move_inputs.push(inputs[i].clone());
            i += 1;
        }
        MoveInputs { move_inputs }
    }

    /// All cards with the ids of their players, in ascending order of
    /// priority. Cards of equal priority keep the order of the inputs.
    pub fn get_player_cards_sorted_by_priority(&self) -> (moves: Vec<(PlayerID, MoveCard)>)
        ensures
            moves.deep_view() == sort_by_priority(all_cards(self@)),
    {
        let mut moves: Vec<(PlayerID, MoveCard)> = Vec::new();
        let mut i: usize = 0;
        while i < self.move_inputs.len()
            invariant
                i <= self.move_inputs@.len(),
                moves.deep_view() == sort_by_priority(all_cards(self@.take(i as int))),
            decreases self.move_inputs@.len() - i,
        {
            let input: &MoveInput = &self.move_inputs[i];
            let ghost done = all_cards(self@.take(i as int));
            let ghost own = cards_of(input@);
            let mut k: usize = 0;
            while k < input.move_cards.len()
                invariant
                    k <= input.move_cards@.len(),
                    own == cards_of(input@),
                    moves.deep_view() == sort_by_priority(done + own.take(k as int)),
                decreases input.move_cards@.len() - k,
            {
                proof {
                    let next = done + own.take(k + 1);
                    assert(next.drop_last() =~= done + own.take(k as int));
                }
                insert_card(&mut moves, (input.player_id, input.move_cards[k].clone()));
                k += 1;
            }
            proof {
                assert(own.take(k as int) =~= own);
                assert(self@.take(i + 1).drop_last() =~= self@.take(i as int));
            }
            i += 1;
        }
        assert(self@.take(i as int) =~= self@);
        moves
    }
}

} // verus!
