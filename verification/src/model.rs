//! What stands on the battlefield: structures, the player, creatures and
//! arrows, with the bounds that each keeps.

use crate::grid::X;
use vstd::prelude::*;

verus! {

/// No entity has more health than this. It keeps every path cost that a
/// creature weighs within the range of `usize`.
pub const HEALTH_LIMIT: usize = 1_000_000;

/// A defensive structure that shoots at creatures.
#[derive(Clone, Copy, Debug, PartialEq, Eq)]
pub struct TurretInfo {
    /// Ticks until the turret may fire again.
    pub cooldown: usize,
    /// The cooldown that a shot starts.
    pub max_cooldown: usize,
    /// Largest Chebyshev distance at which the turret fires.
    pub range: usize,
    pub health: usize,
    pub max_health: usize,
    /// Cells that its arrows advance per tick.
    pub arrow_speed: usize,
    /// Damage that its arrows deal.
    pub damage_factor: usize,
}

impl TurretInfo {
    pub open spec fn wf(self) -> bool {
        self.health <= self.max_health <= HEALTH_LIMIT
    }
}

/// The occupant of a cell that does not move. A cell holds at most one.
#[derive(Clone, Copy, Debug, PartialEq, Eq)]
pub enum Static {
    /// Impassable and invulnerable.
    Wall,
    /// Impassable; creatures enter the battlefield here.
    Gate,
    /// What the player defends.
    Goal { health: usize, max_health: usize },
    Turret { info: TurretInfo },
    Obstacle { health: usize, max_health: usize },
}

impl Static {
    /// Health never exceeds its maximum, nor the maximum the limit.
    pub open spec fn wf(self) -> bool {
        match self {
            Static::Wall | Static::Gate => true,
            Static::Goal { health, max_health } => health <= max_health <= HEALTH_LIMIT,
            Static::Turret { info } => info.wf(),
            Static::Obstacle { health, max_health } => health <= max_health <= HEALTH_LIMIT,
        }
    }

    /// Remaining health; walls and gates have none.
    pub open spec fn spec_health(self) -> usize {
        match self {
            Static::Wall | Static::Gate => 0,
            Static::Goal { health, .. } => health,
            Static::Turret { info } => info.health,
            Static::Obstacle { health, .. } => health,
        }
    }

    /// The same structure with another health.
    pub open spec fn with_health(self, health: usize) -> Static {
        match self {
            Static::Wall | Static::Gate => self,
            Static::Goal { max_health, .. } => Static::Goal { health, max_health },
            Static::Turret { info } => Static::Turret { info: TurretInfo { health, ..info } },
            Static::Obstacle { max_health, .. } => Static::Obstacle { health, max_health },
        }
    }

    /// A turret without health is rubble: it blocks nothing.
    pub open spec fn is_rubble(self) -> bool {
        self matches Static::Turret { info } && info.health == 0
    }
}

/// Where the player stands and what the player can do.
#[derive(Clone, Copy, Debug, PartialEq, Eq)]
pub struct PlayerInfo {
    pub location: (usize, usize),
    pub health: usize,
    pub max_health: usize,
    pub damage_factor: usize,
    pub heal_factor: usize,
    pub armour_factor: usize,
}

impl PlayerInfo {
    pub open spec fn wf(self) -> bool {
        self.health <= self.max_health <= HEALTH_LIMIT
    }
}

/// The name of a creature: a title, its species, and an epithet for the
/// greatest of them.
#[derive(Clone, Copy, Debug, PartialEq, Eq, PartialOrd, Ord)]
pub struct FiendName {
    pub prefix: &'static str,
    pub name: &'static str,
    pub suffix: Option<&'static str>,
}

/// A hostile creature.
#[derive(Clone, Copy, Debug, PartialEq, Eq)]
pub struct FiendInfo {
    /// The glyph that stands for it on the map.
    pub ch: char,
    pub name: FiendName,
    pub health: usize,
    pub max_health: usize,
    pub damage_factor: usize,
    pub armour_factor: usize,
    /// It goes for the player within this distance,
    pub player_target_distance: usize,
    /// for the goal within this one,
    pub goal_target_distance: usize,
    /// for the nearest turret within this one,
    pub turret_target_distance: usize,
    /// and for the nearest obstacle within this one.
    pub obstacle_target_distance: usize,
    /// Cash awarded for killing it.
    pub value: usize,
}

impl FiendInfo {
    /// Health within bounds, and a creature can always do damage.
    pub open spec fn wf(self) -> bool {
        &&& self.health <= self.max_health <= HEALTH_LIMIT
        &&& self.damage_factor >= 1
    }
}

/// Every creature of a queue is fit for the battlefield.
pub open spec fn all_fit(queue: Seq<FiendInfo>) -> bool {
    forall|k: int| 0 <= k < queue.len() ==> (#[trigger] queue[k]).wf()
}

/// An arrow in flight, with the state of the line it draws.
#[derive(Clone, Copy, Debug, PartialEq, Eq)]
pub struct ArrowInfo {
    /// Distance to the target along each axis when the arrow was shot.
    pub dx: usize,
    pub dy: usize,
    /// Whether `x` and `y` grow along the flight.
    pub dir: (bool, bool),
    /// The step along the axis of the larger distance.
    pub incx: i8,
    pub incy: i8,
    /// Cells advanced per tick.
    pub speed: usize,
    /// The error term of the line, and what a step adds to it and a
    /// correction takes from it.
    pub err: i32,
    pub err_inc: i32,
    pub err_dec: i32,
    /// The step along the other axis, taken when the error term is not
    /// negative.
    pub corrx: i8,
    pub corry: i8,
    /// Damage dealt to the creature it strikes.
    pub damage_factor: usize,
}

impl ArrowInfo {
    /// The arrow gets on: along one axis it takes a step each time, and no
    /// correction goes against it.
    pub open spec fn advances(self) -> bool {
        (self.incx != 0 && self.corrx == 0) || (self.incy != 0 && self.corry == 0)
    }

    /// Steps are unit steps, the arrow gets on, and the error term stays in
    /// the band that one step and one correction keep it in.
    pub open spec fn wf(self) -> bool {
        &&& -1 <= self.incx <= 1
        &&& -1 <= self.incy <= 1
        &&& -1 <= self.corrx <= 1
        &&& -1 <= self.corry <= 1
        &&& -1 <= self.incx + self.corrx <= 1
        &&& -1 <= self.incy + self.corry <= 1
        &&& self.advances()
        &&& 0 <= self.err_inc <= self.err_dec <= 2 * X
        &&& self.err_inc - self.err_dec <= self.err <= self.err_inc
    }
}

/// The occupant of a cell that moves. A cell holds at most one.
#[allow(inconsistent_fields)]
#[derive(Clone, Copy, Debug, PartialEq, Eq)]
pub enum Mobile {
    Player,
    Fiend { info: FiendInfo },
    Arrow { info: ArrowInfo },
}

impl Mobile {
    pub open spec fn wf(self) -> bool {
        match self {
            Mobile::Player => true,
            Mobile::Fiend { info } => info.wf(),
            Mobile::Arrow { info } => info.wf(),
        }
    }

    pub fn is_player(&self) -> (r: bool)
        ensures
            r == (*self is Player),
    {
        match *self {
            Mobile::Player => true,
            _ => false,
        }
    }
}

/// An entry of the message log.
#[derive(Clone, Copy, Debug, PartialEq, Eq)]
pub enum Message {
    /// The player struck a creature, which was left with `health`.
    Hit { name: FiendName, damage: usize, health: usize, max_health: usize },
    /// An arrow struck a creature, which was left with `health`.
    Shot { name: FiendName, damage: usize, health: usize, max_health: usize },
    /// A creature came through a gate; `proper` where its name is a proper
    /// name and takes no article.
    Appears { name: FiendName, proper: bool },
}

/// The menus of the construction phase.
#[derive(Clone, Copy, Debug, PartialEq, Eq)]
pub enum Menu {
    Root,
    Build,
    /// The list of structures that can be moved, scrolled down by this many
    /// entries.
    Move(usize),
    /// A structure in hand and the cell under the cursor.
    Place(Static, (usize, usize)),
}

} // verus!
