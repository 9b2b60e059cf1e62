//! Creatures: each picks a target, asks for the cheapest path to it, and
//! takes the first step of that path.

use crate::cells::{find_nearest, spec_nearest};
use crate::grid::{
    adjacency, cell_index, distance, in_bounds, in_grid, index_of, is_neighbor, spec_distance,
    CELLS, X,
};
use crate::model::{FiendInfo, Mobile, PlayerInfo, Static, TurretInfo, HEALTH_LIMIT};
use crate::player::{hurt, spec_hurt};
use crate::world::{keeps_maxima, WorldData, WorldView};
use vstd::prelude::*;
use vstd::std_specs::iter::IteratorSpec;

verus! {

/// No step of a path costs more than this.
pub const COST_LIMIT: usize = 1_000_001;

/// What it costs a creature with this damage factor to get past the
/// occupants of a cell: the ticks it takes to break a structure or to kill
/// the player, one tick to let another creature go, nothing for free
/// ground. A wall cannot be passed at all.
pub open spec fn spec_entry_cost(
    s: Option<Static>,
    m: Option<Mobile>,
    player_health: usize,
    damage_factor: usize,
) -> Option<int> {
    match s {
        Some(Static::Wall) => None,
        Some(Static::Turret { info }) => Some(info.health as int / damage_factor as int),
        Some(Static::Obstacle { health, .. }) => Some(health as int / damage_factor as int),
        Some(Static::Goal { health, .. }) => Some(health as int / damage_factor as int),
        _ => match m {
            Some(Mobile::Player) => Some(player_health as int / damage_factor as int),
            Some(Mobile::Fiend { .. }) => Some(1),
            _ => Some(0),
        },
    }
}

/// The cost of one step into a cell: one for the step, and what its
/// occupants cost, the sum held within `usize`.
pub open spec fn spec_step_cost(
    s: Option<Static>,
    m: Option<Mobile>,
    player_health: usize,
    damage_factor: usize,
) -> Option<usize> {
    match spec_entry_cost(s, m, player_health, damage_factor) {
        Some(c) => Some(
            if c + 1 > usize::MAX {
                usize::MAX
            } else {
                (c + 1) as usize
            },
        ),
        None => None,
    }
}

/// The cost of one step into a cell with these occupants.
pub fn step_cost(s: Option<Static>, m: Option<Mobile>, player_health: usize, damage_factor: usize) -> (r:
    Option<usize>)
    requires
        damage_factor >= 1,
    ensures
        r == spec_step_cost(s, m, player_health, damage_factor),
{
    let entry: Option<usize> = match s {
        Some(Static::Wall) => None,
        Some(Static::Turret { info }) => Some(info.health / damage_factor),
        Some(Static::Obstacle { health, .. }) => Some(health / damage_factor),
        Some(Static::Goal { health, .. }) => Some(health / damage_factor),
        _ => match m {
            Some(Mobile::Player) => Some(player_health / damage_factor),
            Some(Mobile::Fiend { .. }) => Some(1),
            _ => Some(0),
        },
    };
    match entry {
        Some(c) => Some(
            if c < usize::MAX {
                c + 1
            } else {
                usize::MAX
            },
        ),
        None => None,
    }
}

/// The first estimate of what is left of a path: how far the target lies
/// to the right of a cell and below it, leftward and upward distances
/// counting as nothing.
pub open spec fn spec_heuristic(end: (usize, usize), p: (usize, usize)) -> int {
    (if end.0 > p.0 {
        end.0 - p.0
    } else {
        0
    }) + (if end.1 > p.1 {
        end.1 - p.1
    } else {
        0
    })
}

pub fn heuristic(end: (usize, usize), p: (usize, usize)) -> (r: usize)
    ensures
        r == if spec_heuristic(end, p) > usize::MAX {
            usize::MAX as int
        } else {
            spec_heuristic(end, p)
        },
{
    let right: usize = if end.0 > p.0 { end.0 - p.0 } else { 0 };
    let down: usize = if end.1 > p.1 { end.1 - p.1 } else { 0 };
    if usize::MAX - right >= down {
        right + down
    } else {
        usize::MAX
    }
}

/// `costs` gives a step cost, or none, for each cell of the battlefield,
/// row by row, and none above the limit.
pub open spec fn is_cost_field(costs: Seq<Option<usize>>) -> bool {
    &&& costs.len() == CELLS
    &&& forall|i: int| 0 <= i < CELLS ==> (#[trigger] costs[i] matches Some(c) ==> c <= COST_LIMIT)
}

/// The steps that can be taken from a cell: each neighbour that can be
/// entered, with the cost of entering it, in the order of `adjacency`.
pub open spec fn lists_steps(
    steps: Seq<((usize, usize), usize)>,
    costs: Seq<Option<usize>>,
    p: (usize, usize),
) -> bool {
    &&& forall|i: int|
        0 <= i < steps.len() ==> is_neighbor(p, (#[trigger] steps[i]).0) && costs[cell_index(
            steps[i].0,
        )] == Some(steps[i].1)
    &&& forall|q: (usize, usize)|
        is_neighbor(p, q) && costs[cell_index(q)] is Some ==> exists|i: int|
            0 <= i < steps.len() && (#[trigger] steps[i]).0 == q
    &&& forall|i: int, j: int|
        0 <= i < j < steps.len() ==> crate::grid::cell_lt(
            (#[trigger] steps[i]).0,
            (#[trigger] steps[j]).0,
        )
}

/// The steps that can be taken from a cell of the battlefield. For a cell
/// off the battlefield, or costs that do not cover it, there are none.
pub fn neighbor_costs(costs: &Vec<Option<usize>>, p: (usize, usize)) -> (steps: Vec<
    ((usize, usize), usize),
>)
    ensures
        costs@.len() == CELLS && in_grid(p) ==> lists_steps(steps@, costs@, p),
        !(costs@.len() == CELLS && in_grid(p)) ==> steps@.len() == 0,
{
    let mut steps: Vec<((usize, usize), usize)> = Vec::new();
    if costs.len() != CELLS || !in_bounds(p) {
        return steps;
    }
    let around = adjacency(p);
    let mut i: usize = 0;
    while i < around.len()
        invariant
            costs@.len() == CELLS,
            i <= around@.len(),
            forall|q: (usize, usize)| #[trigger] around@.contains(q) <==> is_neighbor(p, q),
            forall|a: int, b: int|
                0 <= a < b < around@.len() ==> crate::grid::cell_lt(around@[a], around@[b]),
            forall|k: int|
                0 <= k < steps@.len() ==> is_neighbor(p, (#[trigger] steps@[k]).0) && costs@[cell_index(
                    steps@[k].0,
                )] == Some(steps@[k].1),
            forall|k: int|
                0 <= k < steps@.len() ==> exists|a: int|
                    0 <= a < i && around@[a] == (#[trigger] steps@[k]).0,
            forall|a: int|
                0 <= a < i && costs@[cell_index(#[trigger] around@[a])] is Some ==> exists|k: int|
                    0 <= k < steps@.len() && (#[trigger] steps@[k]).0 == around@[a],
            forall|k: int, l: int|
                0 <= k < l < steps@.len() ==> crate::grid::cell_lt(
                    (#[trigger] steps@[k]).0,
                    (#[trigger] steps@[l]).0,
                ),
        decreases around@.len() - i,
    {
        let q = around[i];
        assert(around@.contains(q));
        match costs[index_of(q)] {
            Some(c) => {
                let ghost before = steps@;
                proof {
                    assert forall|k: int| 0 <= k < before.len() implies crate::grid::cell_lt(
                        (#[trigger] before[k]).0,
                        q,
                    ) by {
                        let a = choose|a: int| 0 <= a < i && around@[a] == before[k].0;
                        assert(crate::grid::cell_lt(around@[a], around@[i as int]));
                    }
                }
                steps.push((q, c));
                proof {
                    assert forall|a: int|
                        0 <= a < i + 1 && costs@[cell_index(#[trigger] around@[a])] is Some implies exists|
                        k: int,
                    |
                        0 <= k < steps@.len() && (#[trigger] steps@[k]).0 == around@[a] by {
                        if a < i {
                            let k = choose|k: int|
                                0 <= k < before.len() && (#[trigger] before[k]).0 == around@[a];
                            assert(steps@[k].0 == around@[a]);
                        } else {
                            assert(steps@[before.len() as int].0 == around@[a]);
                        }
                    }
                }
            },
            None => {},
        }
        i = i + 1;
    }
    proof {
        assert forall|q: (usize, usize)|
            is_neighbor(p, q) && costs@[cell_index(q)] is Some implies exists|k: int|
            0 <= k < steps@.len() && (#[trigger] steps@[k]).0 == q by {
            assert(around@.contains(q));
            let a = choose|a: int| 0 <= a < around@.len() && around@[a] == q;
            assert(costs@[cell_index(around@[a])] is Some);
        }
    }
    steps
}

/// A step costs at most one more than the health that has to be worn down.
pub proof fn lemma_step_cost_bounded(
    s: Option<Static>,
    m: Option<Mobile>,
    player_health: usize,
    damage_factor: usize,
)
    requires
        damage_factor >= 1,
        player_health <= HEALTH_LIMIT,
        s matches Some(sta) ==> sta.wf(),
    ensures
        spec_step_cost(s, m, player_health, damage_factor) matches Some(c) ==> 1 <= c <= COST_LIMIT,
{
    assert forall|h: int| 0 <= h implies #[trigger] (h / damage_factor as int) <= h && 0 <= h
        / damage_factor as int by {
        vstd::arithmetic::div_mod::lemma_div_is_ordered_by_denominator(h, 1, damage_factor as int);
        vstd::arithmetic::div_mod::lemma_div_pos_is_pos(h, damage_factor as int);
    }
}

impl WorldView {
    /// For each cell, row by row, what a step into it costs a creature with
    /// this damage factor.
    pub open spec fn cost_field(self, damage_factor: usize) -> Seq<Option<usize>> {
        Seq::new(
            CELLS as nat,
            |i: int|
                spec_step_cost(
                    self.statics[i],
                    self.mobiles[i],
                    self.player_info.health,
                    damage_factor,
                ),
        )
    }
}

impl WorldData {
    /// For each cell, row by row, what a step into it costs a creature with
    /// this damage factor.
    pub fn cost_field(&self, damage_factor: usize) -> (costs: Vec<Option<usize>>)
        requires
            self.wf(),
            damage_factor >= 1,
        ensures
            costs@ == self@.cost_field(damage_factor),
            is_cost_field(costs@),
    {
        let mut costs: Vec<Option<usize>> = Vec::new();
        let mut i: usize = 0;
        while i < CELLS
            invariant
                self.wf(),
                damage_factor >= 1,
                i <= CELLS,
                costs@.len() == i,
                forall|k: int|
                    0 <= k < i ==> #[trigger] costs@[k] == spec_step_cost(
                        self@.statics[k],
                        self@.mobiles[k],
                        self@.player_info.health,
                        damage_factor,
                    ),
                forall|k: int| 0 <= k < i ==> (#[trigger] costs@[k] matches Some(c) ==> c <= COST_LIMIT),
            decreases CELLS - i,
        {
            proof {
                let p = ((i % X) as usize, (i / X) as usize);
                assert(in_grid(p) && cell_index(p) == i);
                lemma_step_cost_bounded(
                    self@.statics[i as int],
                    self@.mobiles[i as int],
                    self@.player_info.health,
                    damage_factor,
                );
            }
            let c = step_cost(
                self.statics[i / X][i % X],
                self.mobiles[i / X][i % X],
                self.player_info.health,
                damage_factor,
            );
            costs.push(c);
            i = i + 1;
        }
        assert(costs@ =~= self@.cost_field(damage_factor));
        costs
    }
}

/// A search for the cheapest path over a field of step costs.
pub struct WorldSearch<'a> {
    pub costs: &'a Vec<Option<usize>>,
    pub start: (usize, usize),
    pub end: (usize, usize),
}

impl<'a> astar::SearchProblem for WorldSearch<'a> {
    type Node = (usize, usize);

    type Cost = usize;

    type Iter = std::vec::IntoIter<((usize, usize), usize)>;

    fn start(&self) -> (r: (usize, usize))
        ensures
            r == self.start,
    {
        self.start
    }

    fn is_end(&self, p: &(usize, usize)) -> (r: bool)
        ensures
            r == (*p == self.end),
    {
        p.0 == self.end.0 && p.1 == self.end.1
    }

    fn heuristic(&self, p: &(usize, usize)) -> (r: usize)
        ensures
            r == if spec_heuristic(self.end, *p) > usize::MAX {
                usize::MAX as int
            } else {
                spec_heuristic(self.end, *p)
            },
    {
        heuristic(self.end, *p)
    }

    fn neighbors(&self, p: &(usize, usize)) -> (steps: std::vec::IntoIter<((usize, usize), usize)>)
        ensures
            self.costs@.len() == CELLS && in_grid(*p) ==> lists_steps(
                steps.remaining(),
                self.costs@,
                *p,
            ),
            !(self.costs@.len() == CELLS && in_grid(*p)) ==> steps.remaining().len() == 0,
    {
        neighbor_costs(self.costs, *p).into_iter()
    }
}

/// What the search hands back for a field of step costs, a start and an
/// end: the cells of a path, or nothing.
pub uninterp spec fn route(costs: Seq<Option<usize>>, start: (usize, usize), end: (usize, usize)) -> Option<
    Seq<(usize, usize)>,
>;

/// `cells` lead from `start` to `end` over a field of step costs: the first
/// is `start`, the last is `end`, and each of the others touches the one
/// before it and can be entered.
pub open spec fn is_path(
    cells: Seq<(usize, usize)>,
    costs: Seq<Option<usize>>,
    start: (usize, usize),
    end: (usize, usize),
) -> bool {
    &&& cells.len() >= 1
    &&& cells[0] == start
    &&& cells.last() == end
    &&& forall|i: int|
        0 < i < cells.len() ==> is_neighbor(cells[i - 1], #[trigger] cells[i]) && costs[cell_index(
            cells[i],
        )] is Some
}

/// A path as contracts see it.
pub open spec fn path_view(path: Option<Vec<(usize, usize)>>) -> Option<Seq<(usize, usize)>> {
    match path {
        Some(cells) => Some(cells@),
        None => None,
    }
}

/// Runs `astar::astar` on the search problem that the field of step costs,
/// the start and the end make, and hands back the cells of the path it
/// found. The search works on these three alone, so its result is a function
/// of them. It builds its path backwards from the cell that `is_end` accepts,
/// each cell after the one whose `neighbors` handed it out, back to the cell
/// that `start` gave: so the path leads from the start to the end by steps
/// that `neighbors` allows. Nothing is claimed of which such path it is. The
/// bound on the costs keeps the sums that the search forms within `usize`.
#[verifier::external_body]
fn search(costs: &Vec<Option<usize>>, start: (usize, usize), end: (usize, usize)) -> (path: Option<
    Vec<(usize, usize)>,
>)
    requires
        is_cost_field(costs@),
        in_grid(start),
        in_grid(end),
    ensures
        path_view(path) == route(costs@, start, end),
        path matches Some(cells) ==> is_path(cells@, costs@, start, end),
{
    let problem = WorldSearch { costs, start, end };
    astar::astar(&problem).map(|found| found.0.into_iter().collect())
}

/// The first step of a path: its second cell, if it has one on the
/// battlefield.
pub open spec fn spec_first_step(path: Option<Seq<(usize, usize)>>) -> Option<(usize, usize)> {
    match path {
        Some(cells) if cells.len() >= 2 && in_grid(cells[1]) => Some(cells[1]),
        _ => None,
    }
}

/// The first step of a path: its second cell, if it has one on the
/// battlefield.
pub fn first_step(path: &Option<Vec<(usize, usize)>>) -> (r: Option<(usize, usize)>)
    ensures
        r == spec_first_step(path_view(*path)),
{
    match path {
        Some(cells) => {
            if cells.len() >= 2 && in_bounds(cells[1]) {
                Some(cells[1])
            } else {
                None
            }
        },
        None => None,
    }
}

impl WorldView {
    /// The cell that a creature on `xy` makes for: the goal if it is near
    /// enough, else the player, else the nearest turret, else the nearest
    /// obstacle, each if near enough; the goal if none is.
    pub open spec fn fiend_target(self, xy: (usize, usize), info: FiendInfo) -> (usize, usize) {
        let goal = self.goal_location;
        let player = self.player_info.location;
        if spec_distance(xy, goal) <= info.goal_target_distance {
            goal
        } else if spec_distance(xy, player) <= info.player_target_distance {
            player
        } else {
            match spec_nearest(self.turrets, xy) {
                Some(t) if spec_distance(xy, t) <= info.turret_target_distance => t,
                _ => match spec_nearest(self.obstacles, xy) {
                    Some(o) if spec_distance(xy, o) <= info.obstacle_target_distance => o,
                    _ => goal,
                },
            }
        }
    }

    /// The first step of the path that a creature on `xy` finds to its
    /// target, if it finds one.
    pub open spec fn fiend_step(self, xy: (usize, usize), info: FiendInfo) -> Option<(usize, usize)> {
        spec_first_step(route(self.cost_field(info.damage_factor), xy, self.fiend_target(xy, info)))
    }

    /// The world after the creature on `from` has tried to go to `to`. A
    /// wall or a gate blocks it. A standing structure takes its damage, and
    /// so does the player; another creature or an arrow makes it wait. Onto
    /// free ground, or rubble, it moves.
    pub open spec fn after_fiend_move(self, from: (usize, usize), info: FiendInfo, to: (usize, usize)) -> WorldView {
        match self.static_at(to) {
            Some(Static::Wall) | Some(Static::Gate) => self,
            Some(s) if !s.is_rubble() => self.with_static(
                to,
                Some(s.with_health(spec_hurt(s.spec_health(), info.damage_factor))),
            ),
            _ => match self.mobile_at(to) {
                Some(Mobile::Arrow { .. }) => self,
                Some(Mobile::Fiend { .. }) => self,
                Some(Mobile::Player) => WorldView {
                    player_info: PlayerInfo {
                        health: spec_hurt(self.player_info.health, info.damage_factor),
                        ..self.player_info
                    },
                    ..self
                },
                None => WorldView {
                    fiends: self.fiends.remove(from).insert(to),
                    ..self.with_mobile(from, None).with_mobile(to, Some(Mobile::Fiend { info }))
                },
            },
        }
    }

    /// The world after the creature on `xy` has had its turn: it takes the
    /// first step of its path, or stays where it is if it has none.
    pub open spec fn after_fiend(self, xy: (usize, usize), info: FiendInfo) -> WorldView {
        match self.fiend_step(xy, info) {
            Some(to) => self.after_fiend_move(xy, info, to),
            None => self,
        }
    }
}

/// Two worlds with the same occupants on every cell and the same health of
/// the player cost a creature the same at every step.
pub proof fn lemma_same_grid_same_costs(a: WorldView, b: WorldView, damage_factor: usize)
    requires
        a.statics == b.statics,
        a.mobiles == b.mobiles,
        a.player_info.health == b.player_info.health,
    ensures
        a.cost_field(damage_factor) == b.cost_field(damage_factor),
{
    assert(a.cost_field(damage_factor) =~= b.cost_field(damage_factor));
}

/// The first step of a creature depends on nothing but the occupants of the
/// cells, the health of the player, where the creature starts and what it
/// makes for: the same of each gives the same step, whenever it is asked
/// for.
pub proof fn lemma_first_step_determined(
    a: WorldView,
    b: WorldView,
    start: (usize, usize),
    target: (usize, usize),
    damage_factor: usize,
)
    requires
        a.statics == b.statics,
        a.mobiles == b.mobiles,
        a.player_info.health == b.player_info.health,
    ensures
        spec_first_step(route(a.cost_field(damage_factor), start, target)) == spec_first_step(
            route(b.cost_field(damage_factor), start, target),
        ),
{
    lemma_same_grid_same_costs(a, b, damage_factor);
}

impl WorldData {
    /// The cell that a creature on `xy` makes for.
    pub fn choose_target(&self, xy: (usize, usize), info: &FiendInfo) -> (target: (usize, usize))
        requires
            self.wf(),
        ensures
            target == self@.fiend_target(xy, *info),
            in_grid(target),
    {
        let goal_xy = self.goal_location;
        let player_xy = self.player_info.location;
        if distance(xy, goal_xy) <= info.goal_target_distance {
            return goal_xy;
        }
        if distance(xy, player_xy) <= info.player_target_distance {
            return player_xy;
        }
        match find_nearest(&self.turrets, xy) {
            Some(t) => {
                if distance(xy, t) <= info.turret_target_distance {
                    return t;
                }
            },
            None => {},
        }
        match find_nearest(&self.obstacles, xy) {
            Some(o) => {
                if distance(xy, o) <= info.obstacle_target_distance {
                    return o;
                }
            },
            None => {},
        }
        goal_xy
    }

    /// The first step of the cheapest path from `my_xy` to `target_xy` for a
    /// creature with this damage factor, as the search finds it.
    pub fn pathfind(&self, my_xy: (usize, usize), target_xy: (usize, usize), damage_factor: usize) -> (r:
        Option<(usize, usize)>)
        requires
            self.wf(),
            in_grid(my_xy),
            in_grid(target_xy),
            damage_factor >= 1,
        ensures
            r == spec_first_step(route(self@.cost_field(damage_factor), my_xy, target_xy)),
            r matches Some(q) ==> is_neighbor(my_xy, q) && self@.cost_field(
                damage_factor,
            )[cell_index(q)] is Some,
    {
        let costs = self.cost_field(damage_factor);
        let path = search(&costs, my_xy, target_xy);
        first_step(&path)
    }

    /// The creature on `from` tries to go to `to`.
    #[verifier::rlimit(50)]
    pub fn move_fiend(&mut self, from: (usize, usize), fiend_info: FiendInfo, to: (usize, usize))
        requires
            old(self).wf(),
            in_grid(from),
            in_grid(to),
            old(self)@.mobile_at(from) == Some(Mobile::Fiend { info: fiend_info }),
        ensures
            final(self).wf(),
            final(self)@ == old(self)@.after_fiend_move(from, fiend_info, to),
            keeps_maxima(old(self)@, Seq::empty(), final(self)@),
    {
        let damage: usize = fiend_info.damage_factor;
        match self.static_at(to) {
            Some(Static::Wall) | Some(Static::Gate) => {
                return ;
            },
            Some(Static::Obstacle { health, max_health }) => {
                self.set_static(to, Some(Static::Obstacle { health: hurt(health, damage), max_health }));
                return ;
            },
            Some(Static::Goal { health, max_health }) => {
                self.set_static(to, Some(Static::Goal { health: hurt(health, damage), max_health }));
                return ;
            },
            Some(Static::Turret { info }) => {
                if info.health > 0 {
                    self.set_static(
                        to,
                        Some(Static::Turret { info: TurretInfo { health: hurt(info.health, damage), ..info } }),
                    );
                    return ;
                }
            },
            None => {},
        }
        match self.mobile_at(to) {
            Some(Mobile::Arrow { .. }) => {},
            Some(Mobile::Fiend { .. }) => {},
            Some(Mobile::Player) => {
                self.player_info.health = hurt(self.player_info.health, damage);
            },
            None => {
                self.fiends.remove(&from);
                self.fiends.insert(to);
                self.set_mobile(from, None);
                self.set_mobile(to, Some(Mobile::Fiend { info: fiend_info }));
            },
        }
    }

    /// The turn of the creature on `old_xy`: it picks its target, finds the
    /// path there and takes the first step of it.
    pub fn step_fiend(&mut self, old_xy: (usize, usize), fiend_info: FiendInfo)
        requires
            old(self).wf(),
            in_grid(old_xy),
            old(self)@.mobile_at(old_xy) == Some(Mobile::Fiend { info: fiend_info }),
        ensures
            final(self).wf(),
            final(self)@ == old(self)@.after_fiend(old_xy, fiend_info),
            old(self)@.fiend_step(old_xy, fiend_info) matches Some(to) ==> is_neighbor(old_xy, to),
            keeps_maxima(old(self)@, Seq::empty(), final(self)@),
    {
        let target_xy = self.choose_target(old_xy, &fiend_info);
        match self.pathfind(old_xy, target_xy, fiend_info.damage_factor) {
            Some(new_xy) => self.move_fiend(old_xy, fiend_info, new_xy),
            None => {},
        }
    }
}

} // verus!
