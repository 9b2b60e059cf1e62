//! The world: two layers of occupants over the battlefield, the index sets
//! that say where each kind stands, and what must hold of them at all times.

use crate::grid::{cell_index, in_grid, interior, CELLS, X, Y};
use crate::model::{FiendInfo, Mobile, PlayerInfo, Static, HEALTH_LIMIT};
use std::collections::BTreeSet;
use vstd::prelude::*;

verus! {

/// Number of entries that the message log keeps.
pub const LOG_SIZE: usize = 5;

/// The whole state of the battlefield. Each layer is an array of rows, each
/// row an array of cells: the cell `(x, y)` is at `[y][x]`.
pub struct WorldData {
    pub statics: [[Option<Static>; X]; Y],
    pub mobiles: [[Option<Mobile>; X]; Y],
    pub player_info: PlayerInfo,
    pub goal_location: (usize, usize),
    pub fiends: BTreeSet<(usize, usize)>,
    pub turrets: BTreeSet<(usize, usize)>,
    pub arrows: BTreeSet<(usize, usize)>,
    pub obstacles: BTreeSet<(usize, usize)>,
    pub gates: BTreeSet<(usize, usize)>,
    /// The latest messages, the most recent first.
    pub log: [String; LOG_SIZE],
    pub cash: usize,
    pub wave: usize,
}

/// A layer as contracts see it: its cells row after row.
pub open spec fn layer<T>(rows: [[T; X]; Y]) -> Seq<T> {
    Seq::new(CELLS as nat, |i: int| rows@[i / (X as int)]@[i % (X as int)])
}

/// The log as contracts see it: the text of each line.
pub open spec fn lines(log: [String; LOG_SIZE]) -> Seq<Seq<char>> {
    Seq::new(LOG_SIZE as nat, |i: int| log@[i]@)
}

/// The world as contracts see it. Both layers are laid out row after row,
/// `X` cells to a row.
pub struct WorldView {
    pub statics: Seq<Option<Static>>,
    pub mobiles: Seq<Option<Mobile>>,
    pub player_info: PlayerInfo,
    pub goal_location: (usize, usize),
    pub fiends: Set<(usize, usize)>,
    pub turrets: Set<(usize, usize)>,
    pub arrows: Set<(usize, usize)>,
    pub obstacles: Set<(usize, usize)>,
    pub gates: Set<(usize, usize)>,
    pub log: Seq<Seq<char>>,
    pub cash: usize,
    pub wave: usize,
}

impl View for WorldData {
    type V = WorldView;

    open spec fn view(&self) -> WorldView {
        WorldView {
            statics: layer(self.statics),
            mobiles: layer(self.mobiles),
            player_info: self.player_info,
            goal_location: self.goal_location,
            fiends: self.fiends@,
            turrets: self.turrets@,
            arrows: self.arrows@,
            obstacles: self.obstacles@,
            gates: self.gates@,
            log: lines(self.log),
            cash: self.cash,
            wave: self.wave,
        }
    }
}

pub open spec fn holds_fiend(m: Option<Mobile>) -> bool {
    m matches Some(Mobile::Fiend { .. })
}

pub open spec fn holds_arrow(m: Option<Mobile>) -> bool {
    m matches Some(Mobile::Arrow { .. })
}

pub open spec fn holds_turret(s: Option<Static>) -> bool {
    s matches Some(Static::Turret { .. })
}

pub open spec fn holds_obstacle(s: Option<Static>) -> bool {
    s matches Some(Static::Obstacle { .. })
}

pub open spec fn holds_goal(s: Option<Static>) -> bool {
    s matches Some(Static::Goal { .. })
}

/// A wall or a gate: what closes the battlefield off.
pub open spec fn holds_barrier(s: Option<Static>) -> bool {
    s == Some(Static::Wall) || s == Some(Static::Gate)
}

/// Cash after an award, held at the largest amount that can be counted.
pub open spec fn spec_award(cash: usize, value: usize) -> usize {
    if cash + value > usize::MAX {
        usize::MAX
    } else {
        (cash + value) as usize
    }
}

impl WorldView {
    /// The static occupant of a cell.
    #[verifier::inline]
    pub open spec fn static_at(self, p: (usize, usize)) -> Option<Static> {
        self.statics[cell_index(p)]
    }

    /// The mobile occupant of a cell.
    #[verifier::inline]
    pub open spec fn mobile_at(self, p: (usize, usize)) -> Option<Mobile> {
        self.mobiles[cell_index(p)]
    }

    /// Both layers cover the battlefield, and the log has its size.
    pub open spec fn sized(self) -> bool {
        &&& self.statics.len() == CELLS
        &&& self.mobiles.len() == CELLS
        &&& self.log.len() == LOG_SIZE
    }

    /// A cell is in an index set exactly if it lies on the battlefield and
    /// holds an occupant of that kind.
    pub open spec fn indexed(self) -> bool {
        &&& forall|p: (usize, usize)|
            #![trigger self.fiends.contains(p)]
            #![trigger self.mobiles[cell_index(p)]]
            self.fiends.contains(p) <==> in_grid(p) && holds_fiend(self.mobiles[cell_index(p)])
        &&& forall|p: (usize, usize)|
            #![trigger self.arrows.contains(p)]
            #![trigger self.mobiles[cell_index(p)]]
            self.arrows.contains(p) <==> in_grid(p) && holds_arrow(self.mobiles[cell_index(p)])
        &&& forall|p: (usize, usize)|
            #![trigger self.turrets.contains(p)]
            #![trigger self.statics[cell_index(p)]]
            self.turrets.contains(p) <==> in_grid(p) && holds_turret(self.statics[cell_index(p)])
        &&& forall|p: (usize, usize)|
            #![trigger self.obstacles.contains(p)]
            #![trigger self.statics[cell_index(p)]]
            self.obstacles.contains(p) <==> in_grid(p) && holds_obstacle(
                self.statics[cell_index(p)],
            )
        &&& forall|p: (usize, usize)|
            #![trigger self.gates.contains(p)]
            #![trigger self.statics[cell_index(p)]]
            self.gates.contains(p) <==> in_grid(p) && self.statics[cell_index(p)] == Some(
                Static::Gate,
            )
    }

    /// Every occupant, and the player, keeps its health within bounds.
    pub open spec fn healthy(self) -> bool {
        &&& self.player_info.wf()
        &&& forall|p: (usize, usize)|
            in_grid(p) ==> (#[trigger] self.statics[cell_index(p)] matches Some(s) ==> s.wf())
        &&& forall|p: (usize, usize)|
            in_grid(p) ==> (#[trigger] self.mobiles[cell_index(p)] matches Some(m) ==> m.wf())
    }

    /// There is one player, where the world says it is, inside the border.
    pub open spec fn one_player(self) -> bool {
        &&& interior(self.player_info.location)
        &&& forall|p: (usize, usize)|
            in_grid(p) ==> (#[trigger] self.mobiles[cell_index(p)] == Some(Mobile::Player) <==> p
                == self.player_info.location)
    }

    /// The border is closed by walls and gates, arrows fly inside it, and
    /// the goal stands inside it.
    pub open spec fn bordered(self) -> bool {
        &&& forall|p: (usize, usize)|
            in_grid(p) && !interior(p) ==> holds_barrier(#[trigger] self.statics[cell_index(p)])
        &&& forall|p: (usize, usize)|
            in_grid(p) && holds_arrow(#[trigger] self.mobiles[cell_index(p)]) ==> interior(p)
        &&& interior(self.goal_location)
        &&& holds_goal(self.statics[cell_index(self.goal_location)])
    }

    /// What holds of the world between any two steps.
    pub open spec fn wf(self) -> bool {
        &&& self.sized()
        &&& self.indexed()
        &&& self.healthy()
        &&& self.one_player()
        &&& self.bordered()
    }

    pub open spec fn with_static(self, p: (usize, usize), s: Option<Static>) -> WorldView {
        WorldView { statics: self.statics.update(cell_index(p), s), ..self }
    }

    pub open spec fn with_mobile(self, p: (usize, usize), m: Option<Mobile>) -> WorldView {
        WorldView { mobiles: self.mobiles.update(cell_index(p), m), ..self }
    }

    /// The log with a message put in front, and what no longer fits dropped
    /// from its end.
    pub open spec fn logged(self, msg: Seq<char>) -> WorldView {
        let all = seq![msg] + self.log;
        WorldView {
            log: if all.len() > LOG_SIZE {
                all.take(LOG_SIZE as int)
            } else {
                all
            },
            ..self
        }
    }

    pub open spec fn paid(self, value: usize) -> WorldView {
        WorldView { cash: spec_award(self.cash, value), ..self }
    }
}

/// In a world as it should be, a cell is in an index set exactly if it
/// lies on the battlefield and holds an occupant of that set's kind; so no
/// cell is in two sets of one layer, and the player's cell is in none of the
/// mobile layer.
pub proof fn lemma_index_sets_agree(w: WorldView, p: (usize, usize))
    requires
        w.wf(),
    ensures
        w.fiends.contains(p) <==> in_grid(p) && holds_fiend(w.mobile_at(p)),
        w.arrows.contains(p) <==> in_grid(p) && holds_arrow(w.mobile_at(p)),
        w.turrets.contains(p) <==> in_grid(p) && holds_turret(w.static_at(p)),
        w.obstacles.contains(p) <==> in_grid(p) && holds_obstacle(w.static_at(p)),
        w.gates.contains(p) <==> in_grid(p) && w.static_at(p) == Some(Static::Gate),
        !(w.fiends.contains(p) && w.arrows.contains(p)),
        !(w.turrets.contains(p) && w.obstacles.contains(p)),
        !(w.turrets.contains(p) && w.gates.contains(p)),
        !(w.obstacles.contains(p) && w.gates.contains(p)),
        p == w.player_info.location ==> !w.fiends.contains(p) && !w.arrows.contains(p),
        in_grid(p) ==> (w.mobile_at(p) == Some(Mobile::Player) <==> p == w.player_info.location),
{
}

/// In a world as it should be, nothing has more health than its maximum,
/// and no maximum is above the limit.
pub proof fn lemma_health_within_bounds(w: WorldView, p: (usize, usize))
    requires
        w.wf(),
        in_grid(p),
    ensures
        w.player_info.health <= w.player_info.max_health <= HEALTH_LIMIT,
        w.static_at(p) matches Some(Static::Goal { health, max_health }) ==> health <= max_health
            <= HEALTH_LIMIT,
        w.static_at(p) matches Some(Static::Obstacle { health, max_health }) ==> health
            <= max_health <= HEALTH_LIMIT,
        w.static_at(p) matches Some(Static::Turret { info }) ==> info.health <= info.max_health
            <= HEALTH_LIMIT,
        w.mobile_at(p) matches Some(Mobile::Fiend { info }) ==> info.health <= info.max_health
            <= HEALTH_LIMIT,
{
    let s = w.statics[cell_index(p)];
    let m = w.mobiles[cell_index(p)];
    assert(s matches Some(sta) ==> sta.wf());
    assert(m matches Some(mob) ==> mob.wf());
}

/// Two creatures are one creature, but for its health.
pub open spec fn same_but_health(now: FiendInfo, was: FiendInfo) -> bool {
    now == (FiendInfo { health: now.health, ..was })
}

/// What stands on a cell now stood there before, with the same maximum of
/// health; or nothing stands there now.
pub open spec fn static_kept(was: Option<Static>, now: Option<Static>) -> bool {
    match now {
        None => true,
        Some(Static::Wall) => was == Some(Static::Wall),
        Some(Static::Gate) => was == Some(Static::Gate),
        Some(Static::Goal { max_health, .. }) => was matches Some(Static::Goal { max_health: m, .. })
            && m == max_health,
        Some(Static::Turret { info }) => was matches Some(Static::Turret { info: i }) && i.max_health
            == info.max_health,
        Some(Static::Obstacle { max_health, .. }) => was matches Some(
            Static::Obstacle { max_health: m, .. },
        ) && m == max_health,
    }
}

/// The mobile occupant `m` is the creature `now`, but for its health.
pub open spec fn is_creature(m: Option<Mobile>, now: FiendInfo) -> bool {
    match m {
        Some(Mobile::Fiend { info: was }) => same_but_health(now, was),
        _ => false,
    }
}

/// The creature `now` was on the battlefield `pre`, or waited in `queue`:
/// there it was the same but for its health.
pub open spec fn has_origin(pre: WorldView, queue: Seq<FiendInfo>, now: FiendInfo) -> bool {
    ||| exists|q: (usize, usize)| in_grid(q) && is_creature(#[trigger] pre.mobiles[cell_index(q)], now)
    ||| exists|k: int| 0 <= k < queue.len() && same_but_health(now, #[trigger] queue[k])
}

/// From the world `pre`, with `queue` waiting, to the world `post` no
/// maximum of health has changed: not the player's, not that of a structure
/// or of the goal, which stand where they stood, and not that of a creature,
/// wherever it stands now.
pub open spec fn keeps_maxima(pre: WorldView, queue: Seq<FiendInfo>, post: WorldView) -> bool {
    &&& post.player_info.max_health == pre.player_info.max_health
    &&& forall|p: (usize, usize)|
        in_grid(p) ==> static_kept(pre.statics[cell_index(p)], #[trigger] post.statics[cell_index(p)])
    &&& forall|p: (usize, usize)|
        in_grid(p) ==> (#[trigger] post.mobiles[cell_index(p)] matches Some(
            Mobile::Fiend { info },
        ) ==> has_origin(pre, queue, info))
}

/// A world keeps the maxima that it has.
pub proof fn lemma_keeps_maxima_itself(w: WorldView, queue: Seq<FiendInfo>)
    ensures
        keeps_maxima(w, queue, w),
{
    assert forall|p: (usize, usize)| in_grid(p) implies (#[trigger] w.mobiles[cell_index(p)] matches Some(
        Mobile::Fiend { info },
    ) ==> has_origin(w, queue, info)) by {
        if let Some(Mobile::Fiend { info }) = w.mobiles[cell_index(p)] {
            assert(same_but_health(info, info));
        }
    }
}

/// What keeps the maxima with nobody waiting keeps them whoever waits.
pub proof fn lemma_keeps_maxima_with(a: WorldView, b: WorldView, queue: Seq<FiendInfo>)
    requires
        keeps_maxima(a, Seq::empty(), b),
    ensures
        keeps_maxima(a, queue, b),
{
    assert forall|p: (usize, usize)| in_grid(p) implies (#[trigger] b.mobiles[cell_index(p)] matches Some(
        Mobile::Fiend { info },
    ) ==> has_origin(a, queue, info)) by {
        if let Some(Mobile::Fiend { info }) = b.mobiles[cell_index(p)] {
            assert(has_origin(a, Seq::empty(), info));
        }
    }
}

/// What keeps the maxima step by step keeps them over all the steps.
pub proof fn lemma_keeps_maxima_on(
    a: WorldView,
    b: WorldView,
    c: WorldView,
    queue: Seq<FiendInfo>,
)
    requires
        keeps_maxima(a, queue, b),
        keeps_maxima(b, queue, c),
    ensures
        keeps_maxima(a, queue, c),
{
    assert forall|p: (usize, usize)| in_grid(p) implies static_kept(
        a.statics[cell_index(p)],
        #[trigger] c.statics[cell_index(p)],
    ) by {
        assert(static_kept(b.statics[cell_index(p)], c.statics[cell_index(p)]));
        assert(static_kept(a.statics[cell_index(p)], b.statics[cell_index(p)]));
    }
    assert forall|p: (usize, usize)| in_grid(p) implies (#[trigger] c.mobiles[cell_index(p)] matches Some(
        Mobile::Fiend { info },
    ) ==> has_origin(a, queue, info)) by {
        if let Some(Mobile::Fiend { info }) = c.mobiles[cell_index(p)] {
            assert(has_origin(b, queue, info));
            if exists|q: (usize, usize)|
                in_grid(q) && is_creature(#[trigger] b.mobiles[cell_index(q)], info) {
                let q = choose|q: (usize, usize)|
                    in_grid(q) && is_creature(#[trigger] b.mobiles[cell_index(q)], info);
                let was = match b.mobiles[cell_index(q)] {
                    Some(Mobile::Fiend { info: was }) => was,
                    _ => info,
                };
                assert(has_origin(a, queue, was));
                if exists|o: (usize, usize)|
                    in_grid(o) && is_creature(#[trigger] a.mobiles[cell_index(o)], was) {
                    let o = choose|o: (usize, usize)|
                        in_grid(o) && is_creature(#[trigger] a.mobiles[cell_index(o)], was);
                    assert(is_creature(a.mobiles[cell_index(o)], info));
                } else {
                    let k = choose|k: int|
                        0 <= k < queue.len() && same_but_health(was, #[trigger] queue[k]);
                    assert(same_but_health(info, queue[k]));
                }
            }
        }
    }
}

impl WorldData {
    pub open spec fn wf(&self) -> bool {
        self@.wf()
    }

    /// The static occupant of a cell.
    pub fn static_at(&self, p: (usize, usize)) -> (r: Option<Static>)
        requires
            in_grid(p),
        ensures
            r == self@.static_at(p),
    {
        self.statics[p.1][p.0]
    }

    /// The mobile occupant of a cell.
    pub fn mobile_at(&self, p: (usize, usize)) -> (r: Option<Mobile>)
        requires
            in_grid(p),
        ensures
            r == self@.mobile_at(p),
    {
        self.mobiles[p.1][p.0]
    }

    pub(crate) fn set_static(&mut self, p: (usize, usize), s: Option<Static>)
        requires
            in_grid(p),
        ensures
            final(self)@ == old(self)@.with_static(p, s),
    {
        self.statics[p.1][p.0] = s;
        assert(layer(self.statics) =~= layer(old(self).statics).update(cell_index(p), s));
    }

    pub(crate) fn set_mobile(&mut self, p: (usize, usize), m: Option<Mobile>)
        requires
            in_grid(p),
        ensures
            final(self)@ == old(self)@.with_mobile(p, m),
    {
        self.mobiles[p.1][p.0] = m;
        assert(layer(self.mobiles) =~= layer(old(self).mobiles).update(cell_index(p), m));
    }

    /// Puts a message in front of the log and drops from its end what no
    /// longer fits.
    pub fn log_msg(&mut self, msg: String)
        ensures
            final(self)@ == old(self)@.logged(msg@),
    {
        self.log[4] = self.log[3].clone();
        self.log[3] = self.log[2].clone();
        self.log[2] = self.log[1].clone();
        self.log[1] = self.log[0].clone();
        self.log[0] = msg;
        assert(self@.log =~= old(self)@.logged(msg@).log);
    }

    /// Awards cash, up to the largest amount that can be counted.
    pub(crate) fn pay(&mut self, value: usize)
        ensures
            final(self)@ == old(self)@.paid(value),
    {
        self.cash = if usize::MAX - self.cash >= value {
            self.cash + value
        } else {
            usize::MAX
        };
    }
}

} // verus!
