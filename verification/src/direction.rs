use vstd::prelude::*;

verus! {

/// One of the four cardinal flight directions.
#[derive(Clone, Copy, Debug, PartialEq, Eq, Structural)]
pub enum Direction {
    North,
    South,
    West,
    East,
}

/// One of the four corner charge groups around the launch point.
#[derive(Clone, Copy, Debug, PartialEq, Eq, Structural)]
pub enum LayoutDirection {
    NorthWest,
    NorthEast,
    SouthWest,
    SouthEast,
}

/// The opposite cardinal direction.
pub open spec fn invert_s(d: Direction) -> Direction {
    match d {
        Direction::North => Direction::South,
        Direction::South => Direction::North,
        Direction::West => Direction::East,
        Direction::East => Direction::West,
    }
}

/// Cardinal encoding of a direction: north 1, south 2, west 4, east 8.
pub open spec fn direction_bits_s(d: Direction) -> u8 {
    match d {
        Direction::North => 1,
        Direction::South => 2,
        Direction::West => 4,
        Direction::East => 8,
    }
}

/// A corner's encoding is the union of its two cardinal components.
pub open spec fn layout_bits_s(l: LayoutDirection) -> u8 {
    match l {
        LayoutDirection::NorthWest => 5,
        LayoutDirection::NorthEast => 9,
        LayoutDirection::SouthWest => 6,
        LayoutDirection::SouthEast => 10,
    }
}

/// The corner whose two cardinal components are both present in `bits`;
/// south-east when no other corner matches.
pub open spec fn bits_to_layout_s(bits: u8) -> LayoutDirection {
    if bits & 5 == 5 {
        LayoutDirection::NorthWest
    } else if bits & 9 == 9 {
        LayoutDirection::NorthEast
    } else if bits & 6 == 6 {
        LayoutDirection::SouthWest
    } else {
        LayoutDirection::SouthEast
    }
}

/// The cardinal a corner faces when it is the leading group.
pub open spec fn direction_from_layout_s(l: LayoutDirection) -> Direction {
    match l {
        LayoutDirection::NorthWest => Direction::North,
        LayoutDirection::NorthEast => Direction::East,
        LayoutDirection::SouthWest => Direction::West,
        LayoutDirection::SouthEast => Direction::South,
    }
}

/// Which corner supplies the red group and which the blue group, for a flight
/// heading and the configured default corners: when the default blue corner
/// shares no cardinal component with the heading it keeps its corner and red
/// takes the corner made of the remaining cardinal and the inverted heading;
/// otherwise red keeps its configured corner and blue is derived the same way.
/// Result is (red, blue).
pub open spec fn resolve_corners_s(
    direction: Direction,
    red_duper: LayoutDirection,
    blue_duper: LayoutDirection,
) -> (LayoutDirection, LayoutDirection) {
    match direction {
        Direction::North => match blue_duper {
            LayoutDirection::SouthWest => (LayoutDirection::SouthEast, LayoutDirection::SouthWest),
            LayoutDirection::SouthEast => (LayoutDirection::SouthWest, LayoutDirection::SouthEast),
            _ => match red_duper {
                LayoutDirection::NorthWest => (LayoutDirection::NorthWest, LayoutDirection::SouthEast),
                LayoutDirection::NorthEast => (LayoutDirection::NorthEast, LayoutDirection::SouthWest),
                LayoutDirection::SouthWest => (LayoutDirection::SouthWest, LayoutDirection::SouthEast),
                LayoutDirection::SouthEast => (LayoutDirection::SouthEast, LayoutDirection::SouthWest),
            },
        },
        Direction::South => match blue_duper {
            LayoutDirection::NorthWest => (LayoutDirection::NorthEast, LayoutDirection::NorthWest),
            LayoutDirection::NorthEast => (LayoutDirection::NorthWest, LayoutDirection::NorthEast),
            _ => match red_duper {
                LayoutDirection::NorthWest => (LayoutDirection::NorthWest, LayoutDirection::NorthEast),
                LayoutDirection::NorthEast => (LayoutDirection::NorthEast, LayoutDirection::NorthWest),
                LayoutDirection::SouthWest => (LayoutDirection::SouthWest, LayoutDirection::NorthEast),
                LayoutDirection::SouthEast => (LayoutDirection::SouthEast, LayoutDirection::NorthWest),
            },
        },
        Direction::West => match blue_duper {
            LayoutDirection::NorthEast => (LayoutDirection::SouthEast, LayoutDirection::NorthEast),
            LayoutDirection::SouthEast => (LayoutDirection::NorthEast, LayoutDirection::SouthEast),
            _ => match red_duper {
                LayoutDirection::NorthWest => (LayoutDirection::NorthWest, LayoutDirection::SouthEast),
                LayoutDirection::NorthEast => (LayoutDirection::NorthEast, LayoutDirection::SouthEast),
                LayoutDirection::SouthWest => (LayoutDirection::SouthWest, LayoutDirection::NorthEast),
                LayoutDirection::SouthEast => (LayoutDirection::SouthEast, LayoutDirection::NorthEast),
            },
        },
        Direction::East => match blue_duper {
            LayoutDirection::NorthWest => (LayoutDirection::SouthWest, LayoutDirection::NorthWest),
            LayoutDirection::SouthWest => (LayoutDirection::NorthWest, LayoutDirection::SouthWest),
            _ => match red_duper {
                LayoutDirection::NorthWest => (LayoutDirection::NorthWest, LayoutDirection::SouthWest),
                LayoutDirection::NorthEast => (LayoutDirection::NorthEast, LayoutDirection::SouthWest),
                LayoutDirection::SouthWest => (LayoutDirection::SouthWest, LayoutDirection::NorthWest),
                LayoutDirection::SouthEast => (LayoutDirection::SouthEast, LayoutDirection::NorthWest),
            },
        },
    }
}

impl Direction {
    /// The opposite direction.
    pub fn invert(self) -> (r: Direction)
        ensures
            r == invert_s(self),
    {
        match self {
            Direction::North => Direction::South,
            Direction::South => Direction::North,
            Direction::West => Direction::East,
            Direction::East => Direction::West,
        }
    }
}

/// Cardinal encoding of a corner.
pub fn layout_direction_to_cardinal_bits(dir: LayoutDirection) -> (r: u8)
    ensures
        r == layout_bits_s(dir),
{
    match dir {
        LayoutDirection::NorthWest => 5,
        LayoutDirection::NorthEast => 9,
        LayoutDirection::SouthWest => 6,
        LayoutDirection::SouthEast => 10,
    }
}

/// The corner contained in an encoding; south-east when no corner matches.
pub fn cardinal_bits_to_layout_direction(bits: u8) -> (r: LayoutDirection)
    ensures
        r == bits_to_layout_s(bits),
{
    if bits & 5 == 5 {
        LayoutDirection::NorthWest
    } else if bits & 9 == 9 {
        LayoutDirection::NorthEast
    } else if bits & 6 == 6 {
        LayoutDirection::SouthWest
    } else {
        LayoutDirection::SouthEast
    }
}

/// The cardinal a corner faces when it is the leading group.
pub fn direction_from_layout(layout: LayoutDirection) -> (r: Direction)
    ensures
        r == direction_from_layout_s(layout),
{
    match layout {
        LayoutDirection::NorthWest => Direction::North,
        LayoutDirection::NorthEast => Direction::East,
        LayoutDirection::SouthWest => Direction::West,
        LayoutDirection::SouthEast => Direction::South,
    }
}

/// Resolve which corner supplies each group; result is (red, blue).
pub fn resolve_corners(
    direction: Direction,
    red_duper: LayoutDirection,
    blue_duper: LayoutDirection,
) -> (r: (LayoutDirection, LayoutDirection))
    ensures
        r == resolve_corners_s(direction, red_duper, blue_duper),
{
    match direction {
        Direction::North => match blue_duper {
            LayoutDirection::SouthWest => (LayoutDirection::SouthEast, LayoutDirection::SouthWest),
            LayoutDirection::SouthEast => (LayoutDirection::SouthWest, LayoutDirection::SouthEast),
            _ => match red_duper {
                LayoutDirection::NorthWest => (LayoutDirection::NorthWest, LayoutDirection::SouthEast),
                LayoutDirection::NorthEast => (LayoutDirection::NorthEast, LayoutDirection::SouthWest),
                LayoutDirection::SouthWest => (LayoutDirection::SouthWest, LayoutDirection::SouthEast),
                LayoutDirection::SouthEast => (LayoutDirection::SouthEast, LayoutDirection::SouthWest),
            },
        },
        Direction::South => match blue_duper {
            LayoutDirection::NorthWest => (LayoutDirection::NorthEast, LayoutDirection::NorthWest),
            LayoutDirection::NorthEast => (LayoutDirection::NorthWest, LayoutDirection::NorthEast),
            _ => match red_duper {
                LayoutDirection::NorthWest => (LayoutDirection::NorthWest, LayoutDirection::NorthEast),
                LayoutDirection::NorthEast => (LayoutDirection::NorthEast, LayoutDirection::NorthWest),
                LayoutDirection::SouthWest => (LayoutDirection::SouthWest, LayoutDirection::NorthEast),
                LayoutDirection::SouthEast => (LayoutDirection::SouthEast, LayoutDirection::NorthWest),
            },
        },
        Direction::West => match blue_duper {
            LayoutDirection::NorthEast => (LayoutDirection::SouthEast, LayoutDirection::NorthEast),
            LayoutDirection::SouthEast => (LayoutDirection::NorthEast, LayoutDirection::SouthEast),
            _ => match red_duper {
                LayoutDirection::NorthWest => (LayoutDirection::NorthWest, LayoutDirection::SouthEast),
                LayoutDirection::NorthEast => (LayoutDirection::NorthEast, LayoutDirection::SouthEast),
                LayoutDirection::SouthWest => (LayoutDirection::SouthWest, LayoutDirection::NorthEast),
                LayoutDirection::SouthEast => (LayoutDirection::SouthEast, LayoutDirection::NorthEast),
            },
        },
        Direction::East => match blue_duper {
            LayoutDirection::NorthWest => (LayoutDirection::SouthWest, LayoutDirection::NorthWest),
            LayoutDirection::SouthWest => (LayoutDirection::NorthWest, LayoutDirection::SouthWest),
            _ => match red_duper {
                LayoutDirection::NorthWest => (LayoutDirection::NorthWest, LayoutDirection::SouthWest),
                LayoutDirection::NorthEast => (LayoutDirection::NorthEast, LayoutDirection::SouthWest),
                LayoutDirection::SouthWest => (LayoutDirection::SouthWest, LayoutDirection::NorthWest),
                LayoutDirection::SouthEast => (LayoutDirection::SouthEast, LayoutDirection::NorthWest),
            },
        },
    }
}

} // verus!
