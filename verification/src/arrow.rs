//! Arrows: how one is aimed, how it advances along its line, and what
//! happens where it strikes.

use crate::grid::{
    cell_index, in_grid, interior, make_delta, signed_add, spec_gap, spec_signed_add, X, Y,
};
use crate::model::{ArrowInfo, FiendInfo, Message, Mobile, Static};
use crate::player::hurt;
use crate::world::{holds_barrier, keeps_maxima, WorldData, WorldView};
use vstd::prelude::*;

verus! {

/// A unit step along an axis: forth if the coordinate grows, else back.
pub open spec fn spec_unit(grows: bool) -> i8 {
    if grows {
        1i8
    } else {
        -1i8
    }
}

impl ArrowInfo {
    /// The arrow shot from one cell at another. The axis of the larger
    /// distance is stepped along; the other is corrected by the error term.
    pub open spec fn spec_aimed(
        from: (usize, usize),
        to: (usize, usize),
        speed: usize,
        damage_factor: usize,
    ) -> ArrowInfo {
        let dx = spec_gap(from.0 as int, to.0 as int);
        let dy = spec_gap(from.1 as int, to.1 as int);
        let right = from.0 < to.0;
        let down = from.1 < to.1;
        if dx > dy {
            ArrowInfo {
                dx: dx as usize,
                dy: dy as usize,
                dir: (right, down),
                incx: spec_unit(right),
                incy: 0,
                speed,
                err: (2 * dy - dx) as i32,
                err_inc: (2 * dy) as i32,
                err_dec: (2 * dx) as i32,
                corrx: 0,
                corry: spec_unit(down),
                damage_factor,
            }
        } else {
            ArrowInfo {
                dx: dx as usize,
                dy: dy as usize,
                dir: (right, down),
                incx: 0,
                incy: spec_unit(down),
                speed,
                err: (2 * dx - dy) as i32,
                err_inc: (2 * dx) as i32,
                err_dec: (2 * dy) as i32,
                corrx: spec_unit(right),
                corry: 0,
                damage_factor,
            }
        }
    }

    /// Aims an arrow from one cell of the battlefield at another.
    pub fn aimed(from: (usize, usize), to: (usize, usize), speed: usize, damage_factor: usize) -> (r:
        ArrowInfo)
        requires
            in_grid(from),
            in_grid(to),
        ensures
            r == ArrowInfo::spec_aimed(from, to, speed, damage_factor),
            r.wf(),
    {
        let (dx, right) = make_delta(from.0, to.0);
        let (dy, down) = make_delta(from.1, to.1);
        let stepx: i8 = if right { 1 } else { -1 };
        let stepy: i8 = if down { 1 } else { -1 };
        let wx: i32 = dx as i32;
        let wy: i32 = dy as i32;
        if dx > dy {
            ArrowInfo {
                dx,
                dy,
                dir: (right, down),
                incx: stepx,
                incy: 0,
                speed,
                err: 2 * wy - wx,
                err_inc: 2 * wy,
                err_dec: 2 * wx,
                corrx: 0,
                corry: stepy,
                damage_factor,
            }
        } else {
            ArrowInfo {
                dx,
                dy,
                dir: (right, down),
                incx: 0,
                incy: stepy,
                speed,
                err: 2 * wx - wy,
                err_inc: 2 * wx,
                err_dec: 2 * wy,
                corrx: stepx,
                corry: 0,
                damage_factor,
            }
        }
    }

    /// The error term after one step: a correction takes `err_dec` from it
    /// where it was not negative, and the step adds `err_inc`.
    pub open spec fn spec_next_err(self) -> int {
        if self.err >= 0 {
            self.err - self.err_dec + self.err_inc
        } else {
            self.err + self.err_inc
        }
    }

    /// The cell that an arrow at `at` reaches by one step.
    pub open spec fn spec_next_cell(self, at: (usize, usize)) -> (usize, usize) {
        if self.err >= 0 {
            (
                spec_signed_add(spec_signed_add(at.0, self.corrx), self.incx),
                spec_signed_add(spec_signed_add(at.1, self.corry), self.incy),
            )
        } else {
            (spec_signed_add(at.0, self.incx), spec_signed_add(at.1, self.incy))
        }
    }

    /// The arrow after one step.
    pub open spec fn spec_stepped(self) -> ArrowInfo {
        ArrowInfo { err: self.spec_next_err() as i32, ..self }
    }

    /// One step of the arrow at `at`: the cell it reaches, and the arrow
    /// there.
    pub fn advance(&self, at: (usize, usize)) -> (r: ((usize, usize), ArrowInfo))
        requires
            self.wf(),
        ensures
            r.0 == self.spec_next_cell(at),
            r.1 == self.spec_stepped(),
            r.1.wf(),
            interior(at) ==> in_grid(r.0),
    {
        let mut x: usize = at.0;
        let mut y: usize = at.1;
        let mut err: i32 = self.err;
        if err >= 0 {
            err = err - self.err_dec;
            x = signed_add(x, self.corrx);
            y = signed_add(y, self.corry);
        }
        err = err + self.err_inc;
        x = signed_add(x, self.incx);
        y = signed_add(y, self.incy);
        ((x, y), ArrowInfo { err, ..*self })
    }
}

/// An arrow that enters a cell with these occupants ends there.
pub open spec fn stops_arrow(s: Option<Static>, m: Option<Mobile>) -> bool {
    holds_barrier(s) || m is Some
}

impl WorldView {
    /// The world after an arrow struck a creature that was as `info` says:
    /// the shot is logged with the health it leaves, and the creature pays
    /// its value if the shot kills it. A shot at the dead pays nothing.
    pub open spec fn after_shot(self, info: FiendInfo, damage: usize) -> WorldView {
        let left = info.struck(damage);
        let told = self.logged(
            Message::Shot {
                name: info.name,
                damage,
                health: left.health,
                max_health: info.max_health,
            }.spec_text(),
        );
        if info.killed_by(damage) {
            told.paid(info.value)
        } else {
            told
        }
    }

    /// The world with the arrow at `p` taken off.
    pub open spec fn without_arrow(self, p: (usize, usize)) -> WorldView {
        WorldView { arrows: self.arrows.remove(p), ..self.with_mobile(p, None) }
    }

    /// The world with an arrow put on `p`.
    pub open spec fn with_arrow(self, p: (usize, usize), info: ArrowInfo) -> WorldView {
        WorldView {
            arrows: self.arrows.insert(p),
            ..self.with_mobile(p, Some(Mobile::Arrow { info }))
        }
    }

    /// The world after an arrow, taken off the map at `at`, has flown on for
    /// up to `left` steps. Where a step ends on a wall, a gate or a mobile
    /// occupant the arrow is gone, and a creature there is shot; an arrow
    /// that meets nothing is put down where its last step ends.
    pub open spec fn arrow_flight(self, at: (usize, usize), info: ArrowInfo, left: nat) -> WorldView
        decreases left,
    {
        if left == 0 {
            self.with_arrow(at, info)
        } else {
            let next = info.spec_next_cell(at);
            if stops_arrow(self.static_at(next), self.mobile_at(next)) {
                if holds_barrier(self.static_at(next)) {
                    self
                } else {
                    match self.mobile_at(next) {
                        Some(Mobile::Fiend { info: fiend }) => {
                            let hit = fiend.struck(info.damage_factor);
                            self.after_shot(fiend, info.damage_factor).with_mobile(
                                next,
                                Some(Mobile::Fiend { info: hit }),
                            )
                        },
                        _ => self,
                    }
                }
            } else {
                self.arrow_flight(next, info.spec_stepped(), (left - 1) as nat)
            }
        }
    }

    /// The world after the arrow on `xy` has had its turn.
    pub open spec fn after_arrow(self, xy: (usize, usize), info: ArrowInfo) -> WorldView {
        self.without_arrow(xy).arrow_flight(xy, info, info.speed as nat)
    }
}

impl ArrowInfo {
    /// The cell that an arrow at `at` reaches by `n` steps, nothing being in
    /// its way.
    pub open spec fn spec_cell_after(self, at: (usize, usize), n: nat) -> (usize, usize)
        decreases n,
    {
        if n == 0 {
            at
        } else {
            self.spec_stepped().spec_cell_after(self.spec_next_cell(at), (n - 1) as nat)
        }
    }

    /// The arrow after `n` steps.
    pub open spec fn spec_after(self, n: nat) -> ArrowInfo
        decreases n,
    {
        if n == 0 {
            self
        } else {
            self.spec_stepped().spec_after((n - 1) as nat)
        }
    }
}

impl WorldView {
    /// Which of the next `left` steps of an arrow at `at` is the first to
    /// end on a wall, a gate or a mobile occupant; none if none does.
    pub open spec fn first_stop(self, at: (usize, usize), info: ArrowInfo, left: nat) -> Option<nat>
        decreases left,
    {
        if left == 0 {
            None
        } else {
            let next = info.spec_next_cell(at);
            if stops_arrow(self.static_at(next), self.mobile_at(next)) {
                Some(1nat)
            } else {
                match self.first_stop(next, info.spec_stepped(), (left - 1) as nat) {
                    Some(n) => Some(n + 1),
                    None => None,
                }
            }
        }
    }

    /// The world after an arrow with this damage factor has ended its flight
    /// on the cell `on`: behind a wall or a gate nothing is touched; else a
    /// creature there is shot, and any other occupant is left as it is. The
    /// arrow itself is gone.
    pub open spec fn arrow_strike(self, on: (usize, usize), damage: usize) -> WorldView {
        if holds_barrier(self.static_at(on)) {
            self
        } else {
            match self.mobile_at(on) {
                Some(Mobile::Fiend { info: fiend }) => {
                    let hit = fiend.struck(damage);
                    self.after_shot(fiend, damage).with_mobile(on, Some(Mobile::Fiend { info: hit }))
                },
                _ => self,
            }
        }
    }
}

/// An arrow that may fly `left` cells in a tick flies on until one of its
/// steps ends on a wall, a gate or a mobile occupant. If the `n`-th step is
/// the first to do so, `n` is at most `left`, the arrow is gone, and what it
/// struck on the cell it reached is as `arrow_strike` says. If none does, the
/// arrow stands `left` cells further along its line, with the state of its
/// line brought forward by as many steps, and nothing else has changed.
pub proof fn lemma_arrow_flight(w: WorldView, at: (usize, usize), info: ArrowInfo, left: nat)
    ensures
        match w.first_stop(at, info, left) {
            Some(n) => 1 <= n <= left && w.arrow_flight(at, info, left) == w.arrow_strike(
                info.spec_cell_after(at, n),
                info.damage_factor,
            ),
            None => w.arrow_flight(at, info, left) == w.with_arrow(
                info.spec_cell_after(at, left),
                info.spec_after(left),
            ),
        },
    decreases left,
{
    if left > 0 {
        let next = info.spec_next_cell(at);
        if stops_arrow(w.static_at(next), w.mobile_at(next)) {
            assert(info.spec_stepped().spec_cell_after(next, 0) == next);
            assert(info.spec_cell_after(at, 1) == next);
        } else {
            lemma_arrow_flight(w, next, info.spec_stepped(), (left - 1) as nat);
            match w.first_stop(next, info.spec_stepped(), (left - 1) as nat) {
                Some(n) => {
                    assert(info.spec_cell_after(at, n + 1) == info.spec_stepped().spec_cell_after(
                        next,
                        n,
                    ));
                },
                None => {},
            }
        }
    }
}

impl ArrowInfo {
    /// How many steps an arrow at `at` is from the border of the battlefield
    /// along the axis that it gets on by.
    pub open spec fn spec_way_left(self, at: (usize, usize)) -> int {
        if self.incx != 0 && self.corrx == 0 {
            if self.incx > 0 {
                X - 1 - at.0
            } else {
                at.0 as int
            }
        } else {
            if self.incy > 0 {
                Y - 1 - at.1
            } else {
                at.1 as int
            }
        }
    }
}

/// One step of an arrow inside the border ends on the battlefield, one step
/// nearer to the border, and leaves the arrow one that gets on as before.
pub proof fn lemma_step_nearer(info: ArrowInfo, at: (usize, usize))
    requires
        info.wf(),
        interior(at),
    ensures
        in_grid(info.spec_next_cell(at)),
        info.spec_stepped().spec_way_left(info.spec_next_cell(at)) == info.spec_way_left(at) - 1,
        info.spec_stepped().wf(),
        info.spec_stepped().speed == info.speed,
        1 <= info.spec_way_left(at) <= X - 2,
{
}

/// An arrow that flies `left` steps in a world with a closed border and
/// meets nothing has stayed inside the border and is `left` steps nearer to
/// it.
pub proof fn lemma_flight_nearer(w: WorldView, at: (usize, usize), info: ArrowInfo, left: nat)
    requires
        w.sized(),
        w.bordered(),
        info.wf(),
        interior(at),
        w.first_stop(at, info, left) is None,
    ensures
        interior(info.spec_cell_after(at, left)),
        info.spec_after(left).spec_way_left(info.spec_cell_after(at, left)) == info.spec_way_left(
            at,
        ) - left,
        info.spec_after(left).wf(),
        info.spec_after(left).speed == info.speed,
    decreases left,
{
    if left > 0 {
        let next = info.spec_next_cell(at);
        lemma_step_nearer(info, at);
        assert(!holds_barrier(w.statics[cell_index(next)]));
        assert(interior(next));
        lemma_flight_nearer(w, next, info.spec_stepped(), (left - 1) as nat);
    }
}

/// The arrow at `at` has its turn in each of the worlds `turns`, one after
/// the other, and is still there after the last: in none of them a step of
/// it ends on a wall, a gate or a mobile occupant.
pub open spec fn flies_on(turns: Seq<WorldView>, at: (usize, usize), info: ArrowInfo) -> bool
    decreases turns.len(),
{
    if turns.len() == 0 {
        true
    } else {
        turns[0].first_stop(at, info, info.speed as nat) is None && flies_on(
            turns.drop_first(),
            info.spec_cell_after(at, info.speed as nat),
            info.spec_after(info.speed as nat),
        )
    }
}

/// No arrow that moves flies for ever. On a battlefield whose border stays
/// closed an arrow is gone before it has flown as many cells as the
/// battlefield is wide: if it is still there after some turns, the cells it
/// has flown in them, `speed` in each, are fewer than lie between it and the
/// border. So an arrow of speed 1 or more is there for at most
/// `(X - 3) / speed` turns.
pub proof fn lemma_arrow_is_gone_in_time(turns: Seq<WorldView>, at: (usize, usize), info: ArrowInfo)
    requires
        forall|j: int| 0 <= j < turns.len() ==> (#[trigger] turns[j]).sized() && turns[j].bordered(),
        info.wf(),
        interior(at),
        flies_on(turns, at, info),
    ensures
        turns.len() * info.speed < info.spec_way_left(at),
        turns.len() * info.speed <= X - 3,
    decreases turns.len(),
{
    lemma_step_nearer(info, at);
    if turns.len() > 0 {
        let speed = info.speed as nat;
        lemma_flight_nearer(turns[0], at, info, speed);
        let rest = turns.drop_first();
        assert forall|j: int| 0 <= j < rest.len() implies (#[trigger] rest[j]).sized()
            && rest[j].bordered() by {
            assert(rest[j] == turns[j + 1]);
        }
        lemma_arrow_is_gone_in_time(rest, info.spec_cell_after(at, speed), info.spec_after(speed));
        assert(turns.len() * info.speed == rest.len() * info.speed + info.speed) by (nonlinear_arith)
            requires
                turns.len() == rest.len() + 1,
        ;
    } else {
        assert(turns.len() * info.speed == 0) by (nonlinear_arith)
            requires
                turns.len() == 0,
        ;
    }
}

/// A strike leaves no arrow behind and puts none down: the index set of the
/// arrows is as it was.
pub proof fn lemma_strike_keeps_arrows(w: WorldView, on: (usize, usize), damage: usize)
    ensures
        w.arrow_strike(on, damage).arrows == w.arrows,
{
}

impl WorldData {
    /// Logs the shot at a creature that was as `info` says, and awards the
    /// creature's value if the shot kills it.
    pub fn shoot(&mut self, info: FiendInfo, damage_factor: usize)
        ensures
            final(self)@ == old(self)@.after_shot(info, damage_factor),
    {
        let left: usize = hurt(info.health, damage_factor);
        self.log_msg(
            Message::Shot {
                name: info.name,
                damage: damage_factor,
                health: left,
                max_health: info.max_health,
            }.text(),
        );
        if info.health > 0 && left == 0 {
            self.pay(info.value);
        }
    }

    /// An arrow with this damage factor strikes the creature on `on`: the
    /// creature takes the damage, and the shot is logged and paid for as
    /// `after_shot` says.
    pub fn wound(&mut self, on: (usize, usize), fiend: FiendInfo, damage_factor: usize)
        requires
            old(self).wf(),
            in_grid(on),
            old(self)@.mobile_at(on) == Some(Mobile::Fiend { info: fiend }),
        ensures
            final(self).wf(),
            final(self)@ == old(self)@.after_shot(fiend, damage_factor).with_mobile(
                on,
                Some(Mobile::Fiend { info: fiend.struck(damage_factor) }),
            ),
            keeps_maxima(old(self)@, Seq::empty(), final(self)@),
    {
        let hit = FiendInfo { health: hurt(fiend.health, damage_factor), ..fiend };
        self.shoot(fiend, damage_factor);
        self.set_mobile(on, Some(Mobile::Fiend { info: hit }));
    }

    /// The turn of the arrow on `xy`: it advances along its line by up to
    /// `speed` cells. It is gone as soon as a cell it enters holds a wall, a
    /// gate or a mobile occupant, and a creature there takes its damage;
    /// else it stays where it got to, to fly on in the next tick.
    #[verifier::rlimit(50)]
    pub fn step_arrow(&mut self, xy: (usize, usize), arrow_info: ArrowInfo)
        requires
            old(self).wf(),
            in_grid(xy),
            old(self)@.mobile_at(xy) == Some(Mobile::Arrow { info: arrow_info }),
        ensures
            final(self).wf(),
            final(self)@ == old(self)@.after_arrow(xy, arrow_info),
            keeps_maxima(old(self)@, Seq::empty(), final(self)@),
    {
        let mut at = xy;
        let mut info = arrow_info;
        self.set_mobile(xy, None);
        self.arrows.remove(&xy);
        assert(self@ == old(self)@.without_arrow(xy));
        let ghost base = self@;
        assert(keeps_maxima(old(self)@, Seq::empty(), base)) by {
            crate::world::lemma_keeps_maxima_itself(old(self)@, Seq::empty());
        }
        let mut n: usize = 0;
        while n < arrow_info.speed
            invariant
                self.wf(),
                info.wf(),
                self@ == base,
                keeps_maxima(old(self)@, Seq::empty(), base),
                interior(at),
                self@.mobile_at(at) is None,
                n <= arrow_info.speed,
                self@.arrow_flight(at, info, (arrow_info.speed - n) as nat) == old(self)@.after_arrow(
                    xy,
                    arrow_info,
                ),
            decreases arrow_info.speed - n,
        {
            let (next, stepped) = info.advance(at);
            let sta = self.static_at(next);
            let mob = self.mobile_at(next);
            match sta {
                Some(Static::Wall) | Some(Static::Gate) => {
                    return ;
                },
                _ => {},
            }
            match mob {
                Some(Mobile::Fiend { info: fiend }) => {
                    self.wound(next, fiend, info.damage_factor);
                    proof {
                        crate::world::lemma_keeps_maxima_on(
                            old(self)@,
                            base,
                            self@,
                            Seq::empty(),
                        );
                    }
                    return ;
                },
                Some(_) => {
                    return ;
                },
                None => {},
            }
            at = next;
            info = stepped;
            n = n + 1;
        }
        self.arrows.insert(at);
        self.set_mobile(at, Some(Mobile::Arrow { info }));
        assert(self@ == old(self)@.after_arrow(xy, arrow_info));
        proof {
            crate::world::lemma_keeps_maxima_itself(base, Seq::empty());
            assert(keeps_maxima(base, Seq::empty(), self@));
            crate::world::lemma_keeps_maxima_on(old(self)@, base, self@, Seq::empty());
        }
    }
}

} // verus!
