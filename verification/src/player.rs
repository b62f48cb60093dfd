//! The two players and the display color that a cell's occupancy derives.

use vstd::prelude::*;

verus! {

/// One of the two players. Player `A` always moves first; turns then
/// alternate strictly.
#[derive(Clone, Copy, Debug, PartialEq, Eq, Structural)]
pub enum Player {
    A,
    B,
}

/// The display color of a cell, derived purely from its occupancy:
/// white while unoccupied, blue for player `A`, red for player `B`.
#[derive(Clone, Copy, Debug, PartialEq, Eq, Structural)]
pub enum Color {
    White,
    Blue,
    Red,
}

/// The color that a given occupancy derives.
pub open spec fn spec_color_of(occupancy: Option<Player>) -> Color {
    match occupancy {
        Option::None => Color::White,
        Option::Some(Player::A) => Color::Blue,
        Option::Some(Player::B) => Color::Red,
    }
}

/// The color of a cell with the given occupancy.
pub fn color_of(occupancy: Option<Player>) -> (c: Color)
    ensures
        c == spec_color_of(occupancy),
{
    match occupancy {
        Option::None => Color::White,
        Option::Some(Player::A) => Color::Blue,
        Option::Some(Player::B) => Color::Red,
    }
}

impl Player {
    /// The opponent of this player.
    pub open spec fn spec_other(self) -> Player {
        match self {
            Player::A => Player::B,
            Player::B => Player::A,
        }
    }

    /// Returns the opponent: the player whose turn comes next.
    pub fn other(self) -> (r: Player)
        ensures
            r == self.spec_other(),
    {
        match self {
            Player::A => Player::B,
            Player::B => Player::A,
        }
    }

    /// The player's name as the view layer shows it.
    pub open spec fn spec_name(self) -> Seq<char> {
        match self {
            Player::A => "A"@,
            Player::B => "B"@,
        }
    }

    /// Returns the player's name, `"A"` or `"B"`.
    pub fn name(self) -> (r: String)
        ensures
            r@ == self.spec_name(),
    {
        match self {
            Player::A => "A".to_owned(),
            Player::B => "B".to_owned(),
        }
    }
}

} // verus!
