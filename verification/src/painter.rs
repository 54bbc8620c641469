use vstd::prelude::*;

use crate::card::Card;

verus! {

/// Something that shows the game to the players.
pub trait Painter {
    fn print_card(card: Card);

    fn draw_beginning();

    fn update_game();
}

} // verus!
