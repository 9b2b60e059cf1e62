//! The battlefield as a game begins on it.

use crate::grid::{cell_index, in_grid, interior, CELLS, X, Y};
use crate::model::{Mobile, PlayerInfo, Static};
use crate::world::{layer, WorldData, WorldView, LOG_SIZE};
use std::collections::BTreeSet;
use vstd::prelude::*;

verus! {

/// Where the player begins.
pub open spec fn spec_player_start() -> (usize, usize) {
    (20, 20)
}

/// Where the goal stands: in the middle of the battlefield.
pub open spec fn spec_goal_cell() -> (usize, usize) {
    ((X / 2) as usize, (Y / 2) as usize)
}

/// The player as a game begins.
pub open spec fn spec_new_player() -> PlayerInfo {
    PlayerInfo {
        location: spec_player_start(),
        health: 100,
        max_health: 100,
        damage_factor: 1,
        heal_factor: 1,
        armour_factor: 1,
    }
}

/// A gate of the new battlefield: one of the seven cells in the middle of
/// each side of the border.
pub open spec fn is_first_gate(p: (usize, usize)) -> bool {
    ||| (p.1 == 0 || p.1 == Y - 1) && X / 2 - 3 <= p.0 <= X / 2 + 3
    ||| (p.0 == 0 || p.0 == X - 1) && Y / 2 - 3 <= p.1 <= Y / 2 + 3
}

/// What stands on a cell of the new battlefield: gates and walls on the
/// border, the goal in the middle, nothing elsewhere.
pub open spec fn spec_first_static(p: (usize, usize)) -> Option<Static> {
    if is_first_gate(p) {
        Some(Static::Gate)
    } else if !interior(p) {
        Some(Static::Wall)
    } else if p == spec_goal_cell() {
        Some(Static::Goal { health: 10, max_health: 10 })
    } else {
        None
    }
}

/// Who stands on a cell of the new battlefield: the player, and nobody else.
pub open spec fn spec_first_mobile(p: (usize, usize)) -> Option<Mobile> {
    if p == spec_player_start() {
        Some(Mobile::Player)
    } else {
        None
    }
}

/// The world as a game begins: the border closed by walls, with seven gates
/// in the middle of each side, the goal in the middle of the battlefield,
/// the player on its cell, no creature, structure or arrow, no cash, no
/// wave yet and only empty lines in the log.
pub open spec fn is_first_world(w: WorldView) -> bool {
    &&& w.statics.len() == CELLS
    &&& w.mobiles.len() == CELLS
    &&& forall|p: (usize, usize)|
        in_grid(p) ==> #[trigger] w.statics[cell_index(p)] == spec_first_static(p)
    &&& forall|p: (usize, usize)|
        in_grid(p) ==> #[trigger] w.mobiles[cell_index(p)] == spec_first_mobile(p)
    &&& forall|p: (usize, usize)| #[trigger] w.gates.contains(p) <==> in_grid(p) && is_first_gate(p)
    &&& w.fiends == Set::<(usize, usize)>::empty()
    &&& w.turrets == Set::<(usize, usize)>::empty()
    &&& w.arrows == Set::<(usize, usize)>::empty()
    &&& w.obstacles == Set::<(usize, usize)>::empty()
    &&& w.player_info == spec_new_player()
    &&& w.goal_location == spec_goal_cell()
    &&& w.log == Seq::new(LOG_SIZE as nat, |i: int| Seq::<char>::empty())
    &&& w.cash == 0
    &&& w.wave == 0
}

/// What stands on a cell of the new battlefield.
pub fn first_static(p: (usize, usize)) -> (r: Option<Static>)
    requires
        in_grid(p),
    ensures
        r == spec_first_static(p),
{
    let (x, y) = p;
    let on_row = (y == 0 || y == Y - 1) && X / 2 - 3 <= x && x <= X / 2 + 3;
    let on_column = (x == 0 || x == X - 1) && Y / 2 - 3 <= y && y <= Y / 2 + 3;
    if on_row || on_column {
        Some(Static::Gate)
    } else if x == 0 || y == 0 || x == X - 1 || y == Y - 1 {
        Some(Static::Wall)
    } else if x == X / 2 && y == Y / 2 {
        Some(Static::Goal { health: 10, max_health: 10 })
    } else {
        None
    }
}

/// The world as a game begins.
pub fn initial_world() -> (world_data: WorldData)
    ensures
        world_data.wf(),
        is_first_world(world_data@),
{
    let mut statics: [[Option<Static>; X]; Y] = [[None; X]; Y];
    let mut gates: BTreeSet<(usize, usize)> = BTreeSet::new();
    let mut y: usize = 0;
    while y < Y
        invariant
            y <= Y,
            forall|p: (usize, usize)|
                in_grid(p) && p.1 < y ==> #[trigger] layer(statics)[cell_index(p)]
                    == spec_first_static(p),
            forall|p: (usize, usize)| #[trigger]
                gates@.contains(p) <==> in_grid(p) && is_first_gate(p) && p.1 < y,
        decreases Y - y,
    {
        let mut x: usize = 0;
        while x < X
            invariant
                y < Y,
                x <= X,
                forall|p: (usize, usize)|
                    in_grid(p) && (p.1 < y || (p.1 == y && p.0 < x)) ==> #[trigger] layer(
                        statics,
                    )[cell_index(p)] == spec_first_static(p),
                forall|p: (usize, usize)| #[trigger]
                    gates@.contains(p) <==> in_grid(p) && is_first_gate(p) && (p.1 < y || (p.1 == y
                        && p.0 < x)),
            decreases X - x,
        {
            let sta = first_static((x, y));
            match sta {
                Some(Static::Gate) => {
                    gates.insert((x, y));
                },
                _ => {},
            }
            let ghost before = statics;
            statics[y][x] = sta;
            assert(layer(statics) =~= layer(before).update(cell_index((x, y)), sta));
            x = x + 1;
        }
        y = y + 1;
    }
    let mut mobiles: [[Option<Mobile>; X]; Y] = [[None; X]; Y];
    let ghost empty = mobiles;
    mobiles[20][20] = Some(Mobile::Player);
    assert(layer(mobiles) =~= layer(empty).update(
        cell_index((20usize, 20usize)),
        Some(Mobile::Player),
    ));
    let world_data = WorldData {
        statics,
        mobiles,
        player_info: PlayerInfo {
            location: (20, 20),
            health: 100,
            max_health: 100,
            damage_factor: 1,
            heal_factor: 1,
            armour_factor: 1,
        },
        goal_location: (X / 2, Y / 2),
        fiends: BTreeSet::new(),
        turrets: BTreeSet::new(),
        arrows: BTreeSet::new(),
        obstacles: BTreeSet::new(),
        gates,
        log: [String::new(), String::new(), String::new(), String::new(), String::new()],
        cash: 0,
        wave: 0,
    };
    proof {
        assert(world_data@.log =~= Seq::new(LOG_SIZE as nat, |i: int| Seq::<char>::empty()));
        assert(is_first_world(world_data@));
        assert(world_data@.sized());
        assert(world_data@.healthy());
        assert(world_data@.one_player());
        assert(world_data@.bordered());
        assert(world_data@.indexed());
    }
    world_data
}

} // verus!
