//! The player's move: into empty ground, against a structure, which it
//! mends, or against a creature, which it strikes.

use crate::grid::in_grid;
use crate::model::{FiendInfo, Message, Mobile, PlayerInfo, Static, TurretInfo};
use crate::world::{keeps_maxima, WorldData, WorldView};
use vstd::prelude::*;

verus! {

/// The four ways the player can go.
#[derive(Clone, Copy, Debug, PartialEq, Eq)]
pub enum Dir {
    N,
    E,
    S,
    W,
}

impl Dir {
    /// The cell next to `p` in this direction.
    pub open spec fn spec_step(self, p: (usize, usize)) -> (int, int) {
        match self {
            Dir::N => (p.0 as int, p.1 - 1),
            Dir::E => (p.0 + 1, p.1 as int),
            Dir::S => (p.0 as int, p.1 + 1),
            Dir::W => (p.0 - 1, p.1 as int),
        }
    }

    /// The cell next to `p` in this direction.
    pub fn step(self, p: (usize, usize)) -> (q: (usize, usize))
        requires
            0 < p.0 < usize::MAX,
            0 < p.1 < usize::MAX,
        ensures
            (q.0 as int, q.1 as int) == self.spec_step(p),
    {
        match self {
            Dir::N => (p.0, p.1 - 1),
            Dir::E => (p.0 + 1, p.1),
            Dir::S => (p.0, p.1 + 1),
            Dir::W => (p.0 - 1, p.1),
        }
    }
}

/// Health after mending by `heal`: it grows, but not beyond `max_health`.
pub open spec fn spec_mend(health: usize, heal: usize, max_health: usize) -> usize {
    if health + heal >= max_health {
        max_health
    } else {
        (health + heal) as usize
    }
}

/// Health after damage: it shrinks, but not below zero.
pub open spec fn spec_hurt(health: usize, damage: usize) -> usize {
    if health <= damage {
        0
    } else {
        (health - damage) as usize
    }
}

/// Damage never takes health below zero, and never adds to it.
pub proof fn lemma_hurt_saturates(health: usize, damage: usize)
    ensures
        0 <= spec_hurt(health, damage) <= health,
        damage >= health ==> spec_hurt(health, damage) == 0,
        damage < health ==> spec_hurt(health, damage) == health - damage,
{
}

/// A creature pays once: the blow that kills it leaves it dead, and no blow
/// kills the dead.
pub proof fn lemma_killed_once(info: FiendInfo, damage: usize, again: usize)
    ensures
        info.killed_by(damage) ==> info.struck(damage).health == 0,
        info.struck(damage).health == 0 ==> !info.struck(damage).killed_by(again),
        info.health == 0 ==> !info.killed_by(damage),
{
}

/// Mending never takes health above its maximum, and health that was within
/// its maximum never shrinks by it.
pub proof fn lemma_mend_bounded(health: usize, heal: usize, max_health: usize)
    ensures
        spec_mend(health, heal, max_health) <= max_health,
        health <= max_health ==> health <= spec_mend(health, heal, max_health),
{
}

pub fn mend(health: usize, heal: usize, max_health: usize) -> (r: usize)
    ensures
        r == spec_mend(health, heal, max_health),
{
    if health >= max_health || max_health - health <= heal {
        max_health
    } else {
        health + heal
    }
}

pub fn hurt(health: usize, damage: usize) -> (r: usize)
    ensures
        r == spec_hurt(health, damage),
{
    if health <= damage {
        0
    } else {
        health - damage
    }
}

impl Static {
    /// The structure after the player has worked on it: walls and gates are
    /// as before, the others are mended.
    pub open spec fn mended(self, heal: usize) -> Static {
        match self {
            Static::Wall | Static::Gate => self,
            Static::Goal { health, max_health } => Static::Goal {
                health: spec_mend(health, heal, max_health),
                max_health,
            },
            Static::Turret { info } => Static::Turret {
                info: TurretInfo { health: spec_mend(info.health, heal, info.max_health), ..info },
            },
            Static::Obstacle { health, max_health } => Static::Obstacle {
                health: spec_mend(health, heal, max_health),
                max_health,
            },
        }
    }

    /// The player walks into this structure and mends it.
    pub fn player_interact(&mut self, player_info: &PlayerInfo)
        ensures
            *final(self) == old(self).mended(player_info.heal_factor),
    {
        let heal: usize = player_info.heal_factor;
        match *self {
            Static::Wall | Static::Gate => {},
            Static::Goal { health, max_health } => {
                *self = Static::Goal { health: mend(health, heal, max_health), max_health };
            },
            Static::Turret { info } => {
                *self = Static::Turret {
                    info: TurretInfo { health: mend(info.health, heal, info.max_health), ..info },
                };
            },
            Static::Obstacle { health, max_health } => {
                *self = Static::Obstacle { health: mend(health, heal, max_health), max_health };
            },
        }
    }
}

impl FiendInfo {
    /// The creature after a blow.
    pub open spec fn struck(self, damage: usize) -> FiendInfo {
        FiendInfo { health: spec_hurt(self.health, damage), ..self }
    }

    /// The blow kills the creature: it was alive, and the blow leaves it no
    /// health.
    pub open spec fn killed_by(self, damage: usize) -> bool {
        self.health > 0 && spec_hurt(self.health, damage) == 0
    }
}

impl WorldView {
    /// The world after the player's blow on a creature that was as `info`
    /// says: the blow is logged with the health it leaves, and the creature
    /// pays its value if the blow kills it. A blow on the dead pays nothing.
    pub open spec fn after_attack(self, info: FiendInfo, damage: usize) -> WorldView {
        let left = info.struck(damage);
        let told = self.logged(
            Message::Hit {
                name: info.name,
                damage,
                health: left.health,
                max_health: info.max_health,
            }.spec_text(),
        );
        if info.killed_by(damage) {
            told.paid(info.value)
        } else {
            told
        }
    }

    /// The world after the player tried to go one cell in a direction.
    pub open spec fn after_player_move(self, dir: Dir) -> WorldView {
        let from = self.player_info.location;
        let to = dir.spec_step(from);
        let dest = (to.0 as usize, to.1 as usize);
        match self.static_at(dest) {
            Some(s) if !s.is_rubble() => self.with_static(
                dest,
                Some(s.mended(self.player_info.heal_factor)),
            ),
            _ => match self.mobile_at(dest) {
                Some(Mobile::Arrow { .. }) => self,
                Some(Mobile::Player) => self,
                Some(Mobile::Fiend { info }) => {
                    let damage = self.player_info.damage_factor;
                    let left = info.struck(damage);
                    self.after_attack(info, damage).with_mobile(
                        dest,
                        Some(Mobile::Fiend { info: left }),
                    )
                },
                None => WorldView {
                    player_info: PlayerInfo { location: dest, ..self.player_info },
                    ..self.with_mobile(from, None).with_mobile(dest, Some(Mobile::Player))
                },
            },
        }
    }
}

impl WorldData {
    /// Logs the player's blow on a creature that was as `info` says, and
    /// awards the creature's value if the blow kills it.
    pub fn attack(&mut self, info: FiendInfo, damage_factor: usize)
        ensures
            final(self)@ == old(self)@.after_attack(info, damage_factor),
    {
        let left: usize = hurt(info.health, damage_factor);
        self.log_msg(
            Message::Hit {
                name: info.name,
                damage: damage_factor,
                health: left,
                max_health: info.max_health,
            }.text(),
        );
        if info.health > 0 && left == 0 {
            self.pay(info.value);
        }
    }

    /// The player tries to go one cell in a direction. A wall, a gate or an
    /// arrow there blocks the move; a standing structure is mended and a
    /// creature struck, the player staying in place; else the player goes
    /// there.
    #[verifier::rlimit(50)]
    pub fn move_player(&mut self, dir: Dir)
        requires
            old(self).wf(),
        ensures
            final(self).wf(),
            final(self)@ == old(self)@.after_player_move(dir),
            keeps_maxima(old(self)@, Seq::empty(), final(self)@),
    {
        let from = self.player_info.location;
        let dest = dir.step(from);
        assert(in_grid(dest));
        match self.static_at(dest) {
            Some(sta) => {
                let rubble = match sta {
                    Static::Turret { info } => info.health == 0,
                    _ => false,
                };
                if !rubble {
                    let mut sta = sta;
                    sta.player_interact(&self.player_info);
                    self.set_static(dest, Some(sta));
                    return ;
                }
            },
            None => {},
        }
        match self.mobile_at(dest) {
            Some(Mobile::Arrow { .. }) => {},
            Some(Mobile::Player) => {},
            Some(Mobile::Fiend { info }) => {
                let damage_factor: usize = self.player_info.damage_factor;
                let left = FiendInfo { health: hurt(info.health, damage_factor), ..info };
                self.attack(info, damage_factor);
                self.set_mobile(dest, Some(Mobile::Fiend { info: left }));
            },
            None => {
                self.set_mobile(from, None);
                self.set_mobile(dest, Some(Mobile::Player));
                self.player_info.location = dest;
            },
        }
    }
}

} // verus!
