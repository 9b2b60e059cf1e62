//! How each occupant shows on a map: the character that stands for it, and
//! the state that a map may colour it by.

use crate::grid::Y;
use crate::model::{ArrowInfo, Mobile, Static};
use vstd::prelude::*;

verus! {

/// How a static occupant fares, for a map to colour it by.
#[derive(Clone, Copy, Debug, PartialEq, Eq)]
pub enum Condition {
    /// Nothing to remark.
    Plain,
    /// The goal.
    Precious,
    /// A turret with more than half its health.
    Sound,
    /// A turret with half its health or less.
    Damaged,
    /// A turret without health.
    Broken,
}

/// The character for a static occupant on the row `row_n`: a gate shows as a
/// piece of the side of the border that it is in.
pub open spec fn spec_static_glyph(row_n: usize, stat: Static) -> char {
    match stat {
        Static::Wall => '#',
        Static::Gate => if row_n == 0 || row_n == Y - 1 {
            '-'
        } else {
            '|'
        },
        Static::Goal { .. } => 'Y',
        Static::Turret { .. } => 'O',
        Static::Obstacle { .. } => '=',
    }
}

pub fn static_glyph(row_n: usize, stat: Static) -> (c: char)
    ensures
        c == spec_static_glyph(row_n, stat),
{
    match stat {
        Static::Wall => '#',
        Static::Gate => {
            if row_n == 0 || row_n == Y - 1 {
                '-'
            } else {
                '|'
            }
        },
        Static::Goal { .. } => 'Y',
        Static::Turret { .. } => 'O',
        Static::Obstacle { .. } => '=',
    }
}

/// How a static occupant fares.
pub open spec fn spec_condition(stat: Static) -> Condition {
    match stat {
        Static::Goal { .. } => Condition::Precious,
        Static::Turret { info } => if info.health == 0 {
            Condition::Broken
        } else if info.health <= info.max_health / 2 {
            Condition::Damaged
        } else {
            Condition::Sound
        },
        _ => Condition::Plain,
    }
}

pub fn condition(stat: Static) -> (c: Condition)
    ensures
        c == spec_condition(stat),
{
    match stat {
        Static::Goal { .. } => Condition::Precious,
        Static::Turret { info } => {
            if info.health == 0 {
                Condition::Broken
            } else if info.health <= info.max_health / 2 {
                Condition::Damaged
            } else {
                Condition::Sound
            }
        },
        _ => Condition::Plain,
    }
}

/// The character for an arrow: upright or level where it flies more than
/// three times as far along one axis as along the other, else slanted the
/// way it flies.
pub open spec fn spec_arrow_glyph(info: ArrowInfo) -> char {
    if 10 * info.dx < 3 * info.dy {
        '|'
    } else if 10 * info.dy < 3 * info.dx {
        '-'
    } else if info.dir.0 == info.dir.1 {
        '\\'
    } else {
        '/'
    }
}

/// The character for a mobile occupant.
pub open spec fn spec_mobile_glyph(mob: Mobile) -> char {
    match mob {
        Mobile::Player => '@',
        Mobile::Fiend { info } => info.ch,
        Mobile::Arrow { info } => spec_arrow_glyph(info),
    }
}

pub fn mobile_glyph(mob: Mobile) -> (c: char)
    ensures
        c == spec_mobile_glyph(mob),
{
    match mob {
        Mobile::Player => '@',
        Mobile::Fiend { info } => info.ch,
        Mobile::Arrow { info } => {
            let dx: u128 = info.dx as u128;
            let dy: u128 = info.dy as u128;
            if 10 * dx < 3 * dy {
                '|'
            } else if 10 * dy < 3 * dx {
                '-'
            } else if info.dir.0 == info.dir.1 {
                '\\'
            } else {
                '/'
            }
        },
    }
}

} // verus!
