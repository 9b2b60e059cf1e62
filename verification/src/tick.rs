//! The parts of a tick of the fight: every creature, every turret and every
//! arrow has its turn, the dead are cleared away, and between two waves the
//! battlefield is put in order.

use crate::cells::{listing, lists, snapshot};
use crate::grid::{cell_index, in_grid, CELLS, X};
use crate::model::{Mobile, PlayerInfo, Static, TurretInfo};
use crate::world::{
    holds_arrow, keeps_maxima, lemma_keeps_maxima_itself, lemma_keeps_maxima_on, WorldData,
    WorldView,
};
use vstd::prelude::*;

verus! {

/// A creature without health.
pub open spec fn is_dead_fiend(m: Option<Mobile>) -> bool {
    m matches Some(Mobile::Fiend { info }) && info.health == 0
}

/// An obstacle without health.
pub open spec fn is_broken_obstacle(s: Option<Static>) -> bool {
    s matches Some(Static::Obstacle { health, .. }) && health == 0
}

/// A turret or an obstacle at full health again; anything else as it is.
pub open spec fn restored(s: Option<Static>) -> Option<Static> {
    match s {
        Some(Static::Turret { info }) => Some(
            Static::Turret { info: TurretInfo { health: info.max_health, ..info } },
        ),
        Some(Static::Obstacle { max_health, .. }) => Some(
            Static::Obstacle { health: max_health, max_health },
        ),
        _ => s,
    }
}

impl WorldView {
    /// The world after each cell of `order` that holds a creature when its
    /// turn comes has had that creature's turn.
    pub open spec fn after_fiend_pass(self, order: Seq<(usize, usize)>) -> WorldView
        decreases order.len(),
    {
        if order.len() == 0 {
            self
        } else {
            let next = match self.mobile_at(order[0]) {
                Some(Mobile::Fiend { info }) => self.after_fiend(order[0], info),
                _ => self,
            };
            next.after_fiend_pass(order.drop_first())
        }
    }

    /// The world after each cell of `order` that holds a turret when its
    /// turn comes has had that turret's turn.
    pub open spec fn after_turret_pass(self, order: Seq<(usize, usize)>) -> WorldView
        decreases order.len(),
    {
        if order.len() == 0 {
            self
        } else {
            let next = match self.static_at(order[0]) {
                Some(Static::Turret { info }) => self.after_turret(order[0], info),
                _ => self,
            };
            next.after_turret_pass(order.drop_first())
        }
    }

    /// The world after each cell of `order` that holds an arrow when its
    /// turn comes has had that arrow's turn.
    pub open spec fn after_arrow_pass(self, order: Seq<(usize, usize)>) -> WorldView
        decreases order.len(),
    {
        if order.len() == 0 {
            self
        } else {
            let next = match self.mobile_at(order[0]) {
                Some(Mobile::Arrow { info }) => self.after_arrow(order[0], info),
                _ => self,
            };
            next.after_arrow_pass(order.drop_first())
        }
    }

    /// The world without its dead creatures and its broken obstacles.
    pub open spec fn swept(self) -> WorldView {
        WorldView {
            mobiles: Seq::new(
                CELLS as nat,
                |i: int|
                    if is_dead_fiend(self.mobiles[i]) {
                        None
                    } else {
                        self.mobiles[i]
                    },
            ),
            statics: Seq::new(
                CELLS as nat,
                |i: int|
                    if is_broken_obstacle(self.statics[i]) {
                        None
                    } else {
                        self.statics[i]
                    },
            ),
            fiends: Set::new(
                |p: (usize, usize)| self.fiends.contains(p) && !is_dead_fiend(self.mobile_at(p)),
            ),
            obstacles: Set::new(
                |p: (usize, usize)|
                    self.obstacles.contains(p) && !is_broken_obstacle(self.static_at(p)),
            ),
            ..self
        }
    }

    /// The world put in order for the next wave: no arrow is left, and
    /// turrets, obstacles and the player are at full health.
    pub open spec fn rebuilt(self) -> WorldView {
        WorldView {
            mobiles: Seq::new(
                CELLS as nat,
                |i: int|
                    if holds_arrow(self.mobiles[i]) {
                        None
                    } else {
                        self.mobiles[i]
                    },
            ),
            statics: Seq::new(CELLS as nat, |i: int| restored(self.statics[i])),
            arrows: Set::empty(),
            player_info: PlayerInfo { health: self.player_info.max_health, ..self.player_info },
            ..self
        }
    }
}

/// Where the dead have been cleared away no cell holds a dead creature or a
/// broken obstacle. A creature that comes in afterwards comes as it waited.
pub proof fn lemma_swept_is_clear(w: WorldView, p: (usize, usize))
    requires
        in_grid(p),
    ensures
        !is_dead_fiend(w.swept().mobile_at(p)),
        !is_broken_obstacle(w.swept().static_at(p)),
{
}

/// Every index of a layer is the index of a cell of the battlefield.
pub proof fn lemma_index_has_cell(i: int) -> (p: (usize, usize))
    requires
        0 <= i < CELLS,
    ensures
        in_grid(p),
        cell_index(p) == i,
{
    ((i % X as int) as usize, (i / X as int) as usize)
}

impl WorldView {
    /// The world without its dead creatures.
    pub open spec fn without_dead(self) -> WorldView {
        WorldView { mobiles: self.swept().mobiles, fiends: self.swept().fiends, ..self }
    }

    /// The world without its arrows.
    pub open spec fn without_arrows(self) -> WorldView {
        WorldView { mobiles: self.rebuilt().mobiles, arrows: Set::empty(), ..self }
    }
}

impl WorldData {
    /// Takes the dead creatures off the battlefield.
    fn sweep_fiends(&mut self)
        requires
            old(self).wf(),
        ensures
            final(self).wf(),
            final(self)@ == old(self)@.without_dead(),
    {
        let order = snapshot(&self.fiends);
        let mut i: usize = 0;
        while i < order.len()
            invariant
                self.wf(),
                i <= order@.len(),
                lists(order@, old(self)@.fiends),
                old(self).wf(),
                self@ == (WorldView { mobiles: self@.mobiles, fiends: self@.fiends, ..old(self)@ }),
                forall|p: (usize, usize)|
                    in_grid(p) ==> #[trigger] self@.mobiles[cell_index(p)] == old(
                        self,
                    )@.mobiles[cell_index(p)] || (is_dead_fiend(old(self)@.mobiles[cell_index(p)])
                        && self@.mobiles[cell_index(p)] is None),
                forall|k: int|
                    0 <= k < i ==> !is_dead_fiend(self@.mobiles[cell_index(#[trigger] order@[k])]),
            decreases order@.len() - i,
        {
            let xy = order[i];
            assert(order@.contains(xy));
            assert(old(self)@.fiends.contains(xy));
            match self.mobile_at(xy) {
                Some(Mobile::Fiend { info }) => {
                    if info.health == 0 {
                        self.set_mobile(xy, None);
                        self.fiends.remove(&xy);
                        assert forall|k: int| 0 <= k < i implies !is_dead_fiend(
                            self@.mobiles[cell_index(#[trigger] order@[k])],
                        ) by {
                            assert(order@.contains(order@[k]));
                            assert(old(self)@.fiends.contains(order@[k]));
                        }
                    }
                },
                _ => {},
            }
            i = i + 1;
        }
        proof {
            let goal = old(self)@.without_dead();
            assert forall|j: int| 0 <= j < CELLS implies self@.mobiles[j] == goal.mobiles[j] by {
                let p = lemma_index_has_cell(j);
                if is_dead_fiend(old(self)@.mobiles[cell_index(p)]) {
                    assert(old(self)@.fiends.contains(p));
                    assert(order@.contains(p));
                    let k = choose|k: int| 0 <= k < order@.len() && order@[k] == p;
                    assert(!is_dead_fiend(self@.mobiles[cell_index(order@[k])]));
                }
            }
            assert(self@.mobiles =~= goal.mobiles);
            assert forall|p: (usize, usize)| self@.fiends.contains(p) <==> goal.fiends.contains(
                p,
            ) by {
                if in_grid(p) {
                    let j = cell_index(p);
                    assert(self@.mobiles[j] == goal.mobiles[j]);
                }
            }
            assert(self@.fiends =~= goal.fiends);
        }
    }

    /// Takes the broken obstacles off the battlefield.
    fn sweep_obstacles(&mut self)
        requires
            old(self).wf(),
        ensures
            final(self).wf(),
            final(self)@ == (WorldView {
                statics: old(self)@.swept().statics,
                obstacles: old(self)@.swept().obstacles,
                ..old(self)@
            }),
    {
        let order = snapshot(&self.obstacles);
        let mut i: usize = 0;
        while i < order.len()
            invariant
                self.wf(),
                i <= order@.len(),
                lists(order@, old(self)@.obstacles),
                old(self).wf(),
                self@ == (WorldView { statics: self@.statics, obstacles: self@.obstacles, ..old(self)@ }),
                forall|p: (usize, usize)|
                    in_grid(p) ==> #[trigger] self@.statics[cell_index(p)] == old(
                        self,
                    )@.statics[cell_index(p)] || (is_broken_obstacle(
                        old(self)@.statics[cell_index(p)],
                    ) && self@.statics[cell_index(p)] is None),
                forall|k: int|
                    0 <= k < i ==> !is_broken_obstacle(
                        self@.statics[cell_index(#[trigger] order@[k])],
                    ),
            decreases order@.len() - i,
        {
            let xy = order[i];
            assert(order@.contains(xy));
            assert(old(self)@.obstacles.contains(xy));
            match self.static_at(xy) {
                Some(Static::Obstacle { health, .. }) => {
                    if health == 0 {
                        self.set_static(xy, None);
                        self.obstacles.remove(&xy);
                        assert forall|k: int| 0 <= k < i implies !is_broken_obstacle(
                            self@.statics[cell_index(#[trigger] order@[k])],
                        ) by {
                            assert(order@.contains(order@[k]));
                            assert(old(self)@.obstacles.contains(order@[k]));
                        }
                    }
                },
                _ => {},
            }
            i = i + 1;
        }
        proof {
            let goal = old(self)@.swept();
            assert forall|j: int| 0 <= j < CELLS implies self@.statics[j] == goal.statics[j] by {
                let p = lemma_index_has_cell(j);
                if is_broken_obstacle(old(self)@.statics[cell_index(p)]) {
                    assert(old(self)@.obstacles.contains(p));
                    assert(order@.contains(p));
                    let k = choose|k: int| 0 <= k < order@.len() && order@[k] == p;
                    assert(!is_broken_obstacle(self@.statics[cell_index(order@[k])]));
                }
            }
            assert(self@.statics =~= goal.statics);
            assert forall|p: (usize, usize)| self@.obstacles.contains(p) <==> goal.obstacles.contains(
                p,
            ) by {
                if in_grid(p) {
                    let j = cell_index(p);
                    assert(self@.statics[j] == goal.statics[j]);
                }
            }
            assert(self@.obstacles =~= goal.obstacles);
        }
    }

    /// Clears away what has no health left: dead creatures and broken
    /// obstacles. Rubble stays where the turret stood.
    pub fn sweep(&mut self)
        requires
            old(self).wf(),
        ensures
            final(self).wf(),
            final(self)@ == old(self)@.swept(),
            keeps_maxima(old(self)@, Seq::empty(), final(self)@),
    {
        self.sweep_fiends();
        self.sweep_obstacles();
    }

    /// Takes every arrow off the battlefield.
    fn clear_arrows(&mut self)
        requires
            old(self).wf(),
        ensures
            final(self).wf(),
            final(self)@ == old(self)@.without_arrows(),
    {
        let order = snapshot(&self.arrows);
        let mut i: usize = 0;
        while i < order.len()
            invariant
                self.wf(),
                i <= order@.len(),
                lists(order@, old(self)@.arrows),
                old(self).wf(),
                self@ == (WorldView { mobiles: self@.mobiles, arrows: self@.arrows, ..old(self)@ }),
                forall|p: (usize, usize)|
                    in_grid(p) ==> #[trigger] self@.mobiles[cell_index(p)] == old(
                        self,
                    )@.mobiles[cell_index(p)] || (holds_arrow(old(self)@.mobiles[cell_index(p)])
                        && self@.mobiles[cell_index(p)] is None),
                forall|k: int|
                    0 <= k < i ==> !holds_arrow(self@.mobiles[cell_index(#[trigger] order@[k])]),
            decreases order@.len() - i,
        {
            let xy = order[i];
            assert(order@.contains(xy));
            assert(old(self)@.arrows.contains(xy));
            match self.mobile_at(xy) {
                Some(Mobile::Arrow { .. }) => {
                    self.set_mobile(xy, None);
                    self.arrows.remove(&xy);
                    assert forall|k: int| 0 <= k < i implies !holds_arrow(
                        self@.mobiles[cell_index(#[trigger] order@[k])],
                    ) by {
                        assert(order@.contains(order@[k]));
                        assert(old(self)@.arrows.contains(order@[k]));
                    }
                },
                _ => {},
            }
            i = i + 1;
        }
        proof {
            let goal = old(self)@.without_arrows();
            assert forall|j: int| 0 <= j < CELLS implies self@.mobiles[j] == goal.mobiles[j] by {
                let p = lemma_index_has_cell(j);
                if holds_arrow(old(self)@.mobiles[cell_index(p)]) {
                    assert(old(self)@.arrows.contains(p));
                    assert(order@.contains(p));
                    let k = choose|k: int| 0 <= k < order@.len() && order@[k] == p;
                    assert(!holds_arrow(self@.mobiles[cell_index(order@[k])]));
                }
            }
            assert(self@.mobiles =~= goal.mobiles);
            assert forall|p: (usize, usize)| !self@.arrows.contains(p) by {
                if in_grid(p) {
                    let j = cell_index(p);
                    assert(self@.mobiles[j] == goal.mobiles[j]);
                }
            }
            assert(self@.arrows =~= goal.arrows);
        }
    }

    /// Brings the turrets and obstacles on the cells of `order` back to full
    /// health.
    fn restore(&mut self, order: &Vec<(usize, usize)>)
        requires
            old(self).wf(),
            forall|k: int| 0 <= k < order@.len() ==> in_grid(#[trigger] order@[k]),
        ensures
            final(self).wf(),
            final(self)@ == (WorldView { statics: final(self)@.statics, ..old(self)@ }),
            forall|p: (usize, usize)|
                in_grid(p) ==> #[trigger] final(self)@.statics[cell_index(p)] == old(
                    self,
                )@.statics[cell_index(p)] || final(self)@.statics[cell_index(p)] == restored(
                    old(self)@.statics[cell_index(p)],
                ),
            forall|k: int|
                0 <= k < order@.len() ==> final(self)@.statics[cell_index(#[trigger] order@[k])]
                    == restored(old(self)@.statics[cell_index(order@[k])]),
    {
        let mut i: usize = 0;
        while i < order.len()
            invariant
                self.wf(),
                i <= order@.len(),
                old(self).wf(),
                forall|k: int| 0 <= k < order@.len() ==> in_grid(#[trigger] order@[k]),
                self@ == (WorldView { statics: self@.statics, ..old(self)@ }),
                forall|p: (usize, usize)|
                    in_grid(p) ==> #[trigger] self@.statics[cell_index(p)] == old(
                        self,
                    )@.statics[cell_index(p)] || self@.statics[cell_index(p)] == restored(
                        old(self)@.statics[cell_index(p)],
                    ),
                forall|k: int|
                    0 <= k < i ==> self@.statics[cell_index(#[trigger] order@[k])] == restored(
                        old(self)@.statics[cell_index(order@[k])],
                    ),
            decreases order@.len() - i,
        {
            let xy = order[i];
            match self.static_at(xy) {
                Some(Static::Turret { info }) => {
                    self.set_static(
                        xy,
                        Some(Static::Turret { info: TurretInfo { health: info.max_health, ..info } }),
                    );
                },
                Some(Static::Obstacle { max_health, .. }) => {
                    self.set_static(xy, Some(Static::Obstacle { health: max_health, max_health }));
                },
                _ => {},
            }
            i = i + 1;
        }
    }

    /// Puts the battlefield in order for the next wave: arrows are taken
    /// off, and turrets, obstacles and the player are brought back to full
    /// health.
    pub fn start_construct(&mut self)
        requires
            old(self).wf(),
        ensures
            final(self).wf(),
            final(self)@ == old(self)@.rebuilt(),
            keeps_maxima(old(self)@, Seq::empty(), final(self)@),
    {
        self.clear_arrows();
        let ghost cleared = self@;
        let turrets = snapshot(&self.turrets);
        assert forall|k: int| 0 <= k < turrets@.len() implies in_grid(#[trigger] turrets@[k]) by {
            assert(turrets@.contains(turrets@[k]));
            assert(self@.turrets.contains(turrets@[k]));
        }
        self.restore(&turrets);
        let ghost mended = self@;
        let obstacles = snapshot(&self.obstacles);
        assert forall|k: int| 0 <= k < obstacles@.len() implies in_grid(#[trigger] obstacles@[k]) by {
            assert(obstacles@.contains(obstacles@[k]));
            assert(self@.obstacles.contains(obstacles@[k]));
        }
        self.restore(&obstacles);
        self.player_info.health = self.player_info.max_health;
        proof {
            let goal = old(self)@.rebuilt();
            assert forall|j: int| 0 <= j < CELLS implies self@.statics[j] == goal.statics[j] by {
                let p = lemma_index_has_cell(j);
                let was = cleared.statics[cell_index(p)];
                assert(was == old(self)@.statics[cell_index(p)]);
                if was matches Some(Static::Turret { .. }) {
                    assert(cleared.turrets.contains(p));
                    assert(turrets@.contains(p));
                    let k = choose|k: int| 0 <= k < turrets@.len() && turrets@[k] == p;
                    assert(mended.statics[cell_index(turrets@[k])] == restored(was));
                } else if was matches Some(Static::Obstacle { .. }) {
                    assert(mended.obstacles.contains(p));
                    assert(obstacles@.contains(p));
                    let k = choose|k: int| 0 <= k < obstacles@.len() && obstacles@[k] == p;
                    assert(self@.statics[cell_index(obstacles@[k])] == restored(
                        mended.statics[cell_index(p)],
                    ));
                }
            }
            assert(self@.statics =~= goal.statics);
        }
    }

    /// Every creature that stood on the battlefield when the pass began has
    /// its turn, in the order of the cells they stood on.
    pub fn step_fiends(&mut self)
        requires
            old(self).wf(),
        ensures
            final(self).wf(),
            final(self)@ == old(self)@.after_fiend_pass(listing(old(self)@.fiends)),
            keeps_maxima(old(self)@, Seq::empty(), final(self)@),
    {
        let order = snapshot(&self.fiends);
        assert forall|k: int| 0 <= k < order@.len() implies in_grid(#[trigger] order@[k]) by {
            assert(order@.contains(order@[k]));
            assert(self@.fiends.contains(order@[k]));
        }
        assert(order@.skip(0) =~= order@);
        proof {
            lemma_keeps_maxima_itself(self@, Seq::empty());
        }
        let mut i: usize = 0;
        while i < order.len()
            invariant
                self.wf(),
                i <= order@.len(),
                forall|k: int| 0 <= k < order@.len() ==> in_grid(#[trigger] order@[k]),
                keeps_maxima(old(self)@, Seq::empty(), self@),
                self@.after_fiend_pass(order@.skip(i as int)) == old(self)@.after_fiend_pass(order@),
            decreases order@.len() - i,
        {
            let xy = order[i];
            assert(order@.skip(i as int).drop_first() =~= order@.skip(i + 1));
            assert(order@.skip(i as int)[0] == xy);
            match self.mobile_at(xy) {
                Some(Mobile::Fiend { info }) => {
                    let ghost mid = self@;
                    self.step_fiend(xy, info);
                    proof {
                        lemma_keeps_maxima_on(old(self)@, mid, self@, Seq::empty());
                    }
                },
                _ => {},
            }
            i = i + 1;
        }
        assert(order@.skip(i as int).len() == 0);
    }

    /// Every turret that stood on the battlefield when the pass began has
    /// its turn, in the order of their cells.
    pub fn step_turrets(&mut self)
        requires
            old(self).wf(),
        ensures
            final(self).wf(),
            final(self)@ == old(self)@.after_turret_pass(listing(old(self)@.turrets)),
            keeps_maxima(old(self)@, Seq::empty(), final(self)@),
    {
        let order = snapshot(&self.turrets);
        assert forall|k: int| 0 <= k < order@.len() implies in_grid(#[trigger] order@[k]) by {
            assert(order@.contains(order@[k]));
            assert(self@.turrets.contains(order@[k]));
        }
        assert(order@.skip(0) =~= order@);
        proof {
            lemma_keeps_maxima_itself(self@, Seq::empty());
        }
        let mut i: usize = 0;
        while i < order.len()
            invariant
                self.wf(),
                i <= order@.len(),
                forall|k: int| 0 <= k < order@.len() ==> in_grid(#[trigger] order@[k]),
                keeps_maxima(old(self)@, Seq::empty(), self@),
                self@.after_turret_pass(order@.skip(i as int)) == old(self)@.after_turret_pass(
                    order@,
                ),
            decreases order@.len() - i,
        {
            let xy = order[i];
            assert(order@.skip(i as int).drop_first() =~= order@.skip(i + 1));
            assert(order@.skip(i as int)[0] == xy);
            match self.static_at(xy) {
                Some(Static::Turret { info }) => {
                    let ghost mid = self@;
                    self.step_turret(xy, info);
                    proof {
                        lemma_keeps_maxima_on(old(self)@, mid, self@, Seq::empty());
                    }
                },
                _ => {},
            }
            i = i + 1;
        }
        assert(order@.skip(i as int).len() == 0);
    }

    /// Every arrow that flew when the pass began has its turn, in the order
    /// of the cells they were on.
    pub fn step_arrows(&mut self)
        requires
            old(self).wf(),
        ensures
            final(self).wf(),
            final(self)@ == old(self)@.after_arrow_pass(listing(old(self)@.arrows)),
            keeps_maxima(old(self)@, Seq::empty(), final(self)@),
    {
        let order = snapshot(&self.arrows);
        assert forall|k: int| 0 <= k < order@.len() implies in_grid(#[trigger] order@[k]) by {
            assert(order@.contains(order@[k]));
            assert(self@.arrows.contains(order@[k]));
        }
        assert(order@.skip(0) =~= order@);
        proof {
            lemma_keeps_maxima_itself(self@, Seq::empty());
        }
        let mut i: usize = 0;
        while i < order.len()
            invariant
                self.wf(),
                i <= order@.len(),
                forall|k: int| 0 <= k < order@.len() ==> in_grid(#[trigger] order@[k]),
                keeps_maxima(old(self)@, Seq::empty(), self@),
                self@.after_arrow_pass(order@.skip(i as int)) == old(self)@.after_arrow_pass(order@),
            decreases order@.len() - i,
        {
            let xy = order[i];
            assert(order@.skip(i as int).drop_first() =~= order@.skip(i + 1));
            assert(order@.skip(i as int)[0] == xy);
            match self.mobile_at(xy) {
                Some(Mobile::Arrow { info }) => {
                    let ghost mid = self@;
                    self.step_arrow(xy, info);
                    proof {
                        lemma_keeps_maxima_on(old(self)@, mid, self@, Seq::empty());
                    }
                },
                _ => {},
            }
            i = i + 1;
        }
        assert(order@.skip(i as int).len() == 0);
    }
}

} // verus!
