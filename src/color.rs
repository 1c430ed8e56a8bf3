use vstd::prelude::*;

verus! {

/// The material held by one grid cell.
///
/// `BLUR` marks a cell that was touched during the current physics step; it never
/// survives a whole step. The `Bunker*` tags each mark the footprint of one team's bunker.
#[derive(Clone, Copy, Debug, PartialEq, Eq, Structural)]
pub enum Color {
    EMPTY,
    DIRT,
    ROCK,
    SNOW,
    WATER,
    BETON,
    BLUR,
    BunkerBlue,
    BunkerRed,
    BunkerGreen,
    BunkerYellow,
    BunkerTeal,
    BunkerPurple,
    BunkerGrey,
    BunkerOrange,
}

impl Color {
    /// Loose materials fall and settle under gravity.
    pub open spec fn spec_can_fall(self) -> bool {
        self == Color::DIRT || self == Color::SNOW || self == Color::WATER
    }

    pub open spec fn spec_is_bunker(self) -> bool {
        match self {
            Color::BunkerBlue | Color::BunkerRed | Color::BunkerGreen | Color::BunkerYellow
            | Color::BunkerTeal | Color::BunkerPurple | Color::BunkerGrey
            | Color::BunkerOrange => true,
            _ => false,
        }
    }

    /// Material that physics must carry along: neither empty nor the transient marker.
    pub open spec fn is_solid(self) -> bool {
        self != Color::EMPTY && self != Color::BLUR
    }

    /// Material that physics never moves.
    pub open spec fn is_fixed(self) -> bool {
        self.is_solid() && !self.spec_can_fall()
    }

    pub fn can_fall(&self) -> (r: bool)
        ensures
            r == self.spec_can_fall(),
    {
        match self {
            Color::DIRT | Color::SNOW | Color::WATER => true,
            _ => false,
        }
    }

    /// Only empty cells can receive falling material.
    pub fn can_move_into(&self) -> (r: bool)
        ensures
            r == (*self == Color::EMPTY),
    {
        *self == Color::EMPTY
    }

    pub fn is_bunker(&self) -> (r: bool)
        ensures
            r == self.spec_is_bunker(),
    {
        match self {
            Color::BunkerBlue | Color::BunkerRed | Color::BunkerGreen | Color::BunkerYellow
            | Color::BunkerTeal | Color::BunkerPurple | Color::BunkerGrey
            | Color::BunkerOrange => true,
            _ => false,
        }
    }

    pub fn is_blur(&self) -> (r: bool)
        ensures
            r == (*self == Color::BLUR),
    {
        *self == Color::BLUR
    }

    /// Display color as (red, green, blue, alpha); empty and transient cells are transparent.
    pub fn get_rgba(&self) -> (r: (u8, u8, u8, u8))
        ensures
            r.3 == 0 <==> (*self == Color::EMPTY || *self == Color::BLUR),
    {
        match self {
            Color::EMPTY => (0, 0, 0, 0),
            Color::DIRT => (120, 72, 0, 255),
            Color::ROCK => (100, 100, 100, 255),
            Color::SNOW => (240, 240, 255, 255),
            Color::WATER => (40, 80, 255, 200),
            Color::BETON => (60, 60, 60, 255),
            Color::BLUR => (0, 0, 0, 0),
            Color::BunkerBlue => (0, 0, 255, 255),
            Color::BunkerRed => (255, 0, 0, 255),
            Color::BunkerGreen => (0, 255, 0, 255),
            Color::BunkerYellow => (255, 255, 0, 255),
            Color::BunkerTeal => (0, 128, 128, 255),
            Color::BunkerPurple => (128, 0, 128, 255),
            Color::BunkerGrey => (128, 128, 128, 255),
            Color::BunkerOrange => (255, 165, 0, 255),
        }
    }
}

} // verus!
