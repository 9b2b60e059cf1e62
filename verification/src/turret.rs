//! Turrets: each waits out its cooldown, then shoots at the nearest
//! creature within range.

use crate::cells::{find_nearest, spec_nearest};
use crate::grid::{distance, in_grid, spec_distance};
use crate::model::{ArrowInfo, Mobile, Static, TurretInfo};
use crate::world::{keeps_maxima, WorldData, WorldView};
use vstd::prelude::*;

verus! {

impl WorldView {
    /// The creature that a turret on `xy` with this range shoots at: the
    /// nearest, if it is near enough.
    pub open spec fn turret_target(self, xy: (usize, usize), range: usize) -> Option<(usize, usize)> {
        match spec_nearest(self.fiends, xy) {
            Some(fiend_xy) if spec_distance(xy, fiend_xy) <= range => Some(fiend_xy),
            _ => None,
        }
    }

    /// The world after the turret on `xy` has had its turn. Rubble does
    /// nothing. A turret that is cooling down cools down by one tick. One
    /// that is ready and whose cell is free of mobile occupants shoots, if it
    /// has a target: an arrow aimed at the target appears on its cell, and
    /// its cooldown starts.
    pub open spec fn after_turret(self, xy: (usize, usize), info: TurretInfo) -> WorldView {
        if info.health == 0 {
            self
        } else if info.cooldown != 0 {
            self.with_static(
                xy,
                Some(Static::Turret { info: TurretInfo { cooldown: (info.cooldown - 1) as usize, ..info } }),
            )
        } else if self.mobile_at(xy) is Some {
            self
        } else {
            match self.turret_target(xy, info.range) {
                Some(fiend_xy) => self.with_arrow(
                    xy,
                    ArrowInfo::spec_aimed(xy, fiend_xy, info.arrow_speed, info.damage_factor),
                ).with_static(
                    xy,
                    Some(Static::Turret { info: TurretInfo { cooldown: info.max_cooldown, ..info } }),
                ),
                None => self,
            }
        }
    }
}

impl WorldData {
    /// The turn of the turret on `xy`.
    pub fn step_turret(&mut self, xy: (usize, usize), turret_info: TurretInfo)
        requires
            old(self).wf(),
            in_grid(xy),
            old(self)@.static_at(xy) == Some(Static::Turret { info: turret_info }),
        ensures
            final(self).wf(),
            final(self)@ == old(self)@.after_turret(xy, turret_info),
            keeps_maxima(old(self)@, Seq::empty(), final(self)@),
    {
        let mut new_turret_info = turret_info;
        if turret_info.health == 0 {
            return ;
        }
        if turret_info.cooldown != 0 {
            new_turret_info.cooldown = turret_info.cooldown - 1;
        } else {
            if self.mobile_at(xy).is_some() {
                return ;
            }
            match find_nearest(&self.fiends, xy) {
                Some(fiend_xy) => {
                    if distance(xy, fiend_xy) <= turret_info.range {
                        let arrow = ArrowInfo::aimed(
                            xy,
                            fiend_xy,
                            turret_info.arrow_speed,
                            turret_info.damage_factor,
                        );
                        self.arrows.insert(xy);
                        self.set_mobile(xy, Some(Mobile::Arrow { info: arrow }));
                        new_turret_info.cooldown = turret_info.max_cooldown;
                    } else {
                        return ;
                    }
                },
                None => {
                    return ;
                },
            }
        }
        self.set_static(xy, Some(Static::Turret { info: new_turret_info }));
    }
}

} // verus!
