//! Tests at run time whether a world, and a phase of the game, are as the
//! simulation needs them.

use crate::cells::snapshot;
use crate::controller::{GameState, MENU_ENTRIES, MENU_ROWS};
use crate::grid::{cell_index, in_bounds, in_grid, interior, X, Y};
use crate::model::{all_fit, ArrowInfo, FiendInfo, Menu, Mobile, PlayerInfo, Static, TurretInfo, HEALTH_LIMIT};
use crate::world::{
    holds_arrow, holds_barrier, holds_fiend, holds_obstacle, holds_turret, WorldData, WorldView,
};
use std::collections::BTreeSet;
use vstd::prelude::*;

verus! {

/// Whether a cell lies inside the border of the battlefield.
pub fn is_interior(p: (usize, usize)) -> (r: bool)
    ensures
        r == interior(p),
{
    0 < p.0 && p.0 < X - 1 && 0 < p.1 && p.1 < Y - 1
}

impl TurretInfo {
    pub fn is_valid(&self) -> (r: bool)
        ensures
            r == self.wf(),
    {
        self.health <= self.max_health && self.max_health <= HEALTH_LIMIT
    }
}

impl Static {
    pub fn is_valid(&self) -> (r: bool)
        ensures
            r == self.wf(),
    {
        match *self {
            Static::Wall | Static::Gate => true,
            Static::Goal { health, max_health } => health <= max_health && max_health <= HEALTH_LIMIT,
            Static::Turret { info } => info.is_valid(),
            Static::Obstacle { health, max_health } => health <= max_health && max_health
                <= HEALTH_LIMIT,
        }
    }
}

impl PlayerInfo {
    pub fn is_valid(&self) -> (r: bool)
        ensures
            r == self.wf(),
    {
        self.health <= self.max_health && self.max_health <= HEALTH_LIMIT
    }
}

impl FiendInfo {
    pub fn is_valid(&self) -> (r: bool)
        ensures
            r == self.wf(),
    {
        self.health <= self.max_health && self.max_health <= HEALTH_LIMIT && self.damage_factor >= 1
    }
}

impl ArrowInfo {
    pub fn is_valid(&self) -> (r: bool)
        ensures
            r == self.wf(),
    {
        let unit = -1 <= self.incx && self.incx <= 1 && -1 <= self.incy && self.incy <= 1 && -1
            <= self.corrx && self.corrx <= 1 && -1 <= self.corry && self.corry <= 1;
        if !unit {
            return false;
        }
        let sx: i8 = self.incx + self.corrx;
        let sy: i8 = self.incy + self.corry;
        let limit: i32 = 126;
        let gets_on = (self.incx != 0 && self.corrx == 0) || (self.incy != 0 && self.corry == 0);
        gets_on && -1 <= sx && sx <= 1 && -1 <= sy && sy <= 1 && 0 <= self.err_inc && self.err_inc
            <= self.err_dec && self.err_dec <= limit && self.err_inc - self.err_dec <= self.err
            && self.err <= self.err_inc
    }
}

impl Mobile {
    pub fn is_valid(&self) -> (r: bool)
        ensures
            r == self.wf(),
    {
        match *self {
            Mobile::Player => true,
            Mobile::Fiend { info } => info.is_valid(),
            Mobile::Arrow { info } => info.is_valid(),
        }
    }
}

/// Whether every cell of a set lies on the battlefield.
fn within_grid(s: &BTreeSet<(usize, usize)>) -> (r: bool)
    ensures
        r == forall|p: (usize, usize)| s@.contains(p) ==> in_grid(p),
{
    let cells = snapshot(s);
    let mut i: usize = 0;
    while i < cells.len()
        invariant
            i <= cells@.len(),
            crate::cells::lists(cells@, s@),
            forall|k: int| 0 <= k < i ==> in_grid(#[trigger] cells@[k]),
        decreases cells@.len() - i,
    {
        if !in_bounds(cells[i]) {
            assert(cells@.contains(cells@[i as int]));
            return false;
        }
        i = i + 1;
    }
    assert forall|p: (usize, usize)| s@.contains(p) implies in_grid(p) by {
        assert(cells@.contains(p));
    }
    true
}

/// What must hold of a cell of the battlefield: the index sets say what
/// stands on it, its occupants are within their bounds, the player is on it
/// exactly if the world says so, a wall or a gate stands on it if it is on
/// the border, and no arrow is on the border.
pub open spec fn cell_ok(w: WorldView, p: (usize, usize)) -> bool {
    let s = w.statics[cell_index(p)];
    let m = w.mobiles[cell_index(p)];
    &&& w.fiends.contains(p) == holds_fiend(m)
    &&& w.arrows.contains(p) == holds_arrow(m)
    &&& w.turrets.contains(p) == holds_turret(s)
    &&& w.obstacles.contains(p) == holds_obstacle(s)
    &&& w.gates.contains(p) == (s == Some(Static::Gate))
    &&& s matches Some(sta) ==> sta.wf()
    &&& m matches Some(mob) ==> mob.wf()
    &&& (m == Some(Mobile::Player)) == (p == w.player_info.location)
    &&& !interior(p) ==> holds_barrier(s)
    &&& holds_arrow(m) ==> interior(p)
}

impl WorldData {
    /// Whether a cell is as `cell_ok` says.
    fn cell_is_ok(&self, p: (usize, usize)) -> (r: bool)
        requires
            in_grid(p),
        ensures
            r == cell_ok(self@, p),
    {
        let s = self.static_at(p);
        let m = self.mobile_at(p);
        let (is_fiend, is_arrow, is_player, mob_ok) = match m {
            Some(Mobile::Fiend { info }) => (true, false, false, info.is_valid()),
            Some(Mobile::Arrow { info }) => (false, true, false, info.is_valid()),
            Some(Mobile::Player) => (false, false, true, true),
            None => (false, false, false, true),
        };
        let (is_turret, is_obstacle, is_gate, is_barrier, sta_ok) = match s {
            Some(Static::Turret { info }) => (true, false, false, false, info.is_valid()),
            Some(Static::Obstacle { health, max_health }) => (
                false,
                true,
                false,
                false,
                health <= max_health && max_health <= HEALTH_LIMIT,
            ),
            Some(Static::Gate) => (false, false, true, true, true),
            Some(Static::Wall) => (false, false, false, true, true),
            Some(Static::Goal { health, max_health }) => (
                false,
                false,
                false,
                false,
                health <= max_health && max_health <= HEALTH_LIMIT,
            ),
            None => (false, false, false, false, true),
        };
        let inside = is_interior(p);
        let here = p.0 == self.player_info.location.0 && p.1 == self.player_info.location.1;
        self.fiends.contains(&p) == is_fiend && self.arrows.contains(&p) == is_arrow
            && self.turrets.contains(&p) == is_turret && self.obstacles.contains(&p) == is_obstacle
            && self.gates.contains(&p) == is_gate && sta_ok && mob_ok && is_player == here && (inside
            || is_barrier) && (!is_arrow || inside)
    }

    /// Whether the world is as the simulation needs it: whether `wf` holds.
    pub fn is_valid(&self) -> (r: bool)
        ensures
            r == self.wf(),
    {
        if !self.player_info.is_valid() || !is_interior(self.player_info.location) || !is_interior(
            self.goal_location,
        ) {
            return false;
        }
        match self.static_at(self.goal_location) {
            Some(Static::Goal { .. }) => {},
            _ => {
                return false;
            },
        }
        if !within_grid(&self.fiends) {
            proof {
                let p = choose|p: (usize, usize)| self@.fiends.contains(p) && !in_grid(p);
                assert(self@.fiends.contains(p) && !in_grid(p));
            }
            return false;
        }
        if !within_grid(&self.arrows) {
            proof {
                let p = choose|p: (usize, usize)| self@.arrows.contains(p) && !in_grid(p);
                assert(self@.arrows.contains(p) && !in_grid(p));
            }
            return false;
        }
        if !within_grid(&self.turrets) {
            proof {
                let p = choose|p: (usize, usize)| self@.turrets.contains(p) && !in_grid(p);
                assert(self@.turrets.contains(p) && !in_grid(p));
            }
            return false;
        }
        if !within_grid(&self.obstacles) {
            proof {
                let p = choose|p: (usize, usize)| self@.obstacles.contains(p) && !in_grid(p);
                assert(self@.obstacles.contains(p) && !in_grid(p));
            }
            return false;
        }
        if !within_grid(&self.gates) {
            proof {
                let p = choose|p: (usize, usize)| self@.gates.contains(p) && !in_grid(p);
                assert(self@.gates.contains(p) && !in_grid(p));
            }
            return false;
        }
        let mut y: usize = 0;
        while y < Y
            invariant
                y <= Y,
                forall|p: (usize, usize)| in_grid(p) && p.1 < y ==> cell_ok(self@, p),
            decreases Y - y,
        {
            let mut x: usize = 0;
            while x < X
                invariant
                    y < Y,
                    x <= X,
                    forall|p: (usize, usize)|
                        in_grid(p) && (p.1 < y || (p.1 == y && p.0 < x)) ==> cell_ok(self@, p),
                decreases X - x,
            {
                if !self.cell_is_ok((x, y)) {
                    assert(!cell_ok(self@, (x, y)));
                    return false;
                }
                x = x + 1;
            }
            y = y + 1;
        }
        proof {
            assert forall|p: (usize, usize)| in_grid(p) implies cell_ok(self@, p) by {}
            assert(self@.indexed());
            assert(self@.healthy());
            assert(self@.one_player());
            assert(self@.bordered());
        }
        true
    }
}

impl GameState {
    /// Whether the phase fits the world: whether `wf` holds.
    pub fn is_valid(&self, world_data: &WorldData) -> (r: bool)
        requires
            world_data.wf(),
        ensures
            r == self.wf(world_data),
    {
        match self {
            GameState::Construct { menu, menu_index } => match menu {
                Menu::Root | Menu::Build => *menu_index < MENU_ENTRIES,
                Menu::Move(depth) => {
                    let (turrets, obstacles) = world_data.structures();
                    let total: usize = turrets.len() + obstacles.len();
                    *menu_index <= MENU_ROWS && *depth <= total && *menu_index <= total - *depth
                },
                Menu::Place(placement, location) => {
                    let kind = match placement {
                        Static::Turret { .. } => true,
                        Static::Obstacle { .. } => true,
                        _ => false,
                    };
                    is_interior(*location) && placement.is_valid() && kind
                },
            },
            GameState::Fight { to_spawn } => {
                let mut k: usize = 0;
                let mut ok = true;
                while ok && k < to_spawn.len()
                    invariant
                        k <= to_spawn@.len(),
                        ok ==> all_fit(to_spawn@.take(k as int)),
                        !ok ==> k < to_spawn@.len() && !to_spawn@[k as int].wf(),
                    decreases to_spawn@.len() - k + (if ok { 1int } else { 0int }),
                {
                    if to_spawn[k].is_valid() {
                        assert forall|j: int| 0 <= j < k + 1 implies (#[trigger] to_spawn@.take(
                            k + 1,
                        )[j]).wf() by {
                            if j < k {
                                assert(to_spawn@.take(k as int)[j].wf());
                            }
                        }
                        k = k + 1;
                    } else {
                        ok = false;
                    }
                }
                assert(ok ==> to_spawn@.take(k as int) =~= to_spawn@);
                ok
            },
            _ => true,
        }
    }
}

} // verus!
