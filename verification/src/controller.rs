//! The phases of the game and what each command does in each of them.

use crate::cells::{lemma_listing_bounded, listing, snapshot};
use crate::grid::{in_grid, interior, X, Y};
use crate::model::{all_fit, FiendInfo, Menu, Static, TurretInfo};
use crate::player::Dir;
use crate::spawn::{admission, spawn_fiends};
use crate::wave::{is_wave, make_wave, MAX_WAVE};
use crate::world::{
    holds_obstacle, holds_turret, keeps_maxima, lemma_keeps_maxima_on, lemma_keeps_maxima_with,
    WorldData, WorldView,
};
use vstd::prelude::*;

verus! {

/// What the player can ask for.
#[derive(Clone, Copy, Debug, PartialEq, Eq)]
pub enum Command {
    North,
    East,
    South,
    West,
    /// Choose the entry under the cursor, or put down what is in hand.
    Confirm,
    /// Go back to the first menu.
    Back,
    Quit,
    /// Anything else: it is ignored.
    Other,
}

impl Command {
    /// The direction that a command asks to go in, if it is one of the four.
    pub open spec fn spec_direction(self) -> Option<Dir> {
        match self {
            Command::North => Some(Dir::N),
            Command::East => Some(Dir::E),
            Command::South => Some(Dir::S),
            Command::West => Some(Dir::W),
            _ => None,
        }
    }

    pub fn direction(self) -> (r: Option<Dir>)
        ensures
            r == self.spec_direction(),
    {
        match self {
            Command::North => Some(Dir::N),
            Command::East => Some(Dir::E),
            Command::South => Some(Dir::S),
            Command::West => Some(Dir::W),
            _ => None,
        }
    }
}

/// The phase that the game is in.
#[derive(Debug, PartialEq, Eq)]
pub enum GameState {
    Startup,
    /// Between waves: the player builds.
    Construct { menu: Menu, menu_index: usize },
    /// A wave is on; `to_spawn` are its creatures that wait outside.
    Fight { to_spawn: Vec<FiendInfo> },
    GameOver { msg: String },
    End,
}

/// The phase as contracts see it.
pub enum Phase {
    Startup,
    Construct { menu: Menu, menu_index: usize },
    Fight { to_spawn: Seq<FiendInfo> },
    GameOver { msg: Seq<char> },
    End,
}

impl View for GameState {
    type V = Phase;

    open spec fn view(&self) -> Phase {
        match *self {
            GameState::Startup => Phase::Startup,
            GameState::Construct { menu, menu_index } => Phase::Construct { menu, menu_index },
            GameState::Fight { to_spawn } => Phase::Fight { to_spawn: to_spawn@ },
            GameState::GameOver { msg } => Phase::GameOver { msg: msg@ },
            GameState::End => Phase::End,
        }
    }
}

/// The rows of the list of structures that are shown below its first.
pub const MENU_ROWS: usize = 37;

/// The entries of the first menu and of the building menu.
pub const MENU_ENTRIES: usize = 3;

/// The turret that the building menu offers.
pub open spec fn spec_new_turret() -> Static {
    Static::Turret {
        info: TurretInfo {
            cooldown: 0,
            max_cooldown: 3,
            range: 50,
            health: 100,
            max_health: 100,
            arrow_speed: 2,
            damage_factor: 300,
        },
    }
}

/// The obstacle that the building menu offers.
pub open spec fn spec_new_obstacle() -> Static {
    Static::Obstacle { health: 300, max_health: 300 }
}

/// What is said when the player has died.
pub open spec fn spec_died() -> Seq<char> {
    "You have died!"@
}

/// What is said when the goal has been destroyed.
pub open spec fn spec_destroyed() -> Seq<char> {
    "The Thing is destroyed!"@
}

impl WorldView {
    /// How many turrets and obstacles stand on the battlefield.
    pub open spec fn structures(self) -> nat {
        listing(self.turrets).len() + listing(self.obstacles).len()
    }

    /// The world with a turret or an obstacle put on a cell.
    pub open spec fn built(self, p: (usize, usize), s: Static) -> WorldView {
        match s {
            Static::Turret { .. } => WorldView {
                turrets: self.turrets.insert(p),
                ..self.with_static(p, Some(s))
            },
            Static::Obstacle { .. } => WorldView {
                obstacles: self.obstacles.insert(p),
                ..self.with_static(p, Some(s))
            },
            _ => self,
        }
    }

    /// The world with the turret or obstacle on a cell taken up.
    pub open spec fn taken(self, p: (usize, usize)) -> WorldView {
        WorldView {
            turrets: self.turrets.remove(p),
            obstacles: self.obstacles.remove(p),
            ..self.with_static(p, None)
        }
    }

    /// The health of the goal; nothing if it does not stand.
    pub open spec fn goal_health(self) -> Option<usize> {
        match self.static_at(self.goal_location) {
            Some(Static::Goal { health, .. }) => Some(health),
            _ => None,
        }
    }
}

impl Phase {
    /// The cursor is on an entry of its menu, what is in hand can be put
    /// down, and the creatures that wait are fit for the battlefield.
    pub open spec fn wf(self, w: WorldView) -> bool {
        match self {
            Phase::Construct { menu, menu_index } => match menu {
                Menu::Root | Menu::Build => menu_index < MENU_ENTRIES,
                Menu::Move(depth) => menu_index <= MENU_ROWS && depth + menu_index <= w.structures(),
                Menu::Place(placement, location) => interior(location) && placement.wf() && (
                placement is Turret || placement is Obstacle),
            },
            Phase::Fight { to_spawn } => all_fit(to_spawn),
            _ => true,
        }
    }
}

/// The command that ends construction and calls the next wave.
pub open spec fn is_continue(phase: Phase, cmd: Command) -> bool {
    phase matches Phase::Construct { menu: Menu::Root, menu_index } && menu_index == 2 && cmd
        == Command::Confirm
}

/// The cursor over the battlefield after a command, kept inside the border.
pub open spec fn spec_cursor(location: (usize, usize), cmd: Command) -> (usize, usize) {
    match cmd {
        Command::South => (
            location.0,
            if location.1 + 1 == Y - 1 {
                (Y - 2) as usize
            } else {
                (location.1 + 1) as usize
            },
        ),
        Command::North => (
            location.0,
            if location.1 - 1 == 0 {
                1usize
            } else {
                (location.1 - 1) as usize
            },
        ),
        Command::West => (
            if location.0 - 1 == 0 {
                1usize
            } else {
                (location.0 - 1) as usize
            },
            location.1,
        ),
        Command::East => (
            if location.0 + 1 == X - 1 {
                (X - 2) as usize
            } else {
                (location.0 + 1) as usize
            },
            location.1,
        ),
        _ => location,
    }
}

/// What a command does while a structure is in hand: the four directions
/// move the cursor, and `Confirm` puts the structure down if the cell under
/// the cursor holds no static occupant.
pub open spec fn spec_place(
    w: WorldView,
    placement: Static,
    location: (usize, usize),
    menu_index: usize,
    cmd: Command,
) -> (WorldView, Phase) {
    match cmd {
        Command::North | Command::East | Command::South | Command::West => (
            w,
            Phase::Construct {
                menu: Menu::Place(placement, spec_cursor(location, cmd)),
                menu_index: 0,
            },
        ),
        Command::Confirm => if w.static_at(location) is Some {
            (w, Phase::Construct { menu: Menu::Place(placement, location), menu_index })
        } else {
            (w.built(location, placement), Phase::Construct { menu: Menu::Root, menu_index: 0 })
        },
        _ => (w, Phase::Construct { menu: Menu::Place(placement, location), menu_index }),
    }
}

/// What a command does in the list of structures. The list shows the
/// turrets, then the obstacles, then an entry that leads back; it scrolls
/// when the cursor leaves it at either end. `Confirm` takes the structure
/// under the cursor in hand.
pub open spec fn spec_move(w: WorldView, depth: usize, index: usize, cmd: Command) -> (
    WorldView,
    Phase,
) {
    let total = w.structures();
    let turrets = listing(w.turrets);
    let obstacles = listing(w.obstacles);
    let first = Phase::Construct { menu: Menu::Move(0), menu_index: 0 };
    match cmd {
        Command::South => if index == MENU_ROWS {
            if depth + MENU_ROWS == total {
                (w, first)
            } else {
                (
                    w,
                    Phase::Construct { menu: Menu::Move((depth + 1) as usize), menu_index: index },
                )
            }
        } else {
            if index + depth == total {
                (w, first)
            } else {
                (
                    w,
                    Phase::Construct { menu: Menu::Move(depth), menu_index: (index + 1) as usize },
                )
            }
        },
        Command::North => if index == 0 {
            if depth == 0 {
                if total > MENU_ROWS {
                    (
                        w,
                        Phase::Construct {
                            menu: Menu::Move((total - MENU_ROWS) as usize),
                            menu_index: MENU_ROWS,
                        },
                    )
                } else {
                    (w, Phase::Construct { menu: Menu::Move(0), menu_index: total as usize })
                }
            } else {
                (w, Phase::Construct { menu: Menu::Move((depth - 1) as usize), menu_index: 0 })
            }
        } else {
            (w, Phase::Construct { menu: Menu::Move(depth), menu_index: (index - 1) as usize })
        },
        Command::Confirm => {
            let chosen = depth + index;
            if chosen == total {
                (w, Phase::Construct { menu: Menu::Root, menu_index: 0 })
            } else {
                let item = if chosen < turrets.len() {
                    turrets[chosen]
                } else {
                    obstacles[chosen - turrets.len()]
                };
                match w.static_at(item) {
                    Some(placement) => (
                        w.taken(item),
                        Phase::Construct { menu: Menu::Place(placement, item), menu_index: 0 },
                    ),
                    None => (w, Phase::Construct { menu: Menu::Move(depth), menu_index: index }),
                }
            }
        },
        _ => (w, Phase::Construct { menu: Menu::Move(depth), menu_index: index }),
    }
}

/// What a command does in the first menu and in the building menu, but for
/// the entry that calls the next wave.
pub open spec fn spec_menu(w: WorldView, menu: Menu, index: usize, cmd: Command) -> (
    WorldView,
    Phase,
) {
    let centre = ((X / 2) as usize, (Y / 2) as usize);
    match cmd {
        Command::South => (
            w,
            Phase::Construct { menu, menu_index: ((index + 1) % (MENU_ENTRIES as int)) as usize },
        ),
        Command::North => (
            w,
            Phase::Construct {
                menu,
                menu_index: if index == 0 {
                    (MENU_ENTRIES - 1) as usize
                } else {
                    (index - 1) as usize
                },
            },
        ),
        Command::Quit => (w, Phase::End),
        Command::Back => (w, Phase::Construct { menu: Menu::Root, menu_index: 0 }),
        Command::Confirm => match menu {
            Menu::Root => if index == 0 {
                (w, Phase::Construct { menu: Menu::Build, menu_index: 0 })
            } else {
                (w, Phase::Construct { menu: Menu::Move(0), menu_index: 0 })
            },
            _ => if index == 0 {
                (
                    w,
                    Phase::Construct {
                        menu: Menu::Place(spec_new_turret(), centre),
                        menu_index: 0,
                    },
                )
            } else if index == 1 {
                (
                    w,
                    Phase::Construct {
                        menu: Menu::Place(spec_new_obstacle(), centre),
                        menu_index: 0,
                    },
                )
            } else {
                (w, Phase::Construct { menu: Menu::Root, menu_index: 0 })
            },
        },
        _ => (w, Phase::Construct { menu, menu_index: index }),
    }
}

/// What a command does during construction, but for the one that calls the
/// next wave.
pub open spec fn spec_construct(w: WorldView, menu: Menu, index: usize, cmd: Command) -> (
    WorldView,
    Phase,
) {
    match menu {
        Menu::Place(placement, location) => spec_place(w, placement, location, index, cmd),
        Menu::Move(depth) => spec_move(w, depth, index, cmd),
        _ => spec_menu(w, menu, index, cmd),
    }
}

/// How a tick of the fight ends, once the creatures that found a gate have
/// come in: the game is over if the player is dead, or else if the goal is
/// destroyed; the wave is over, and the battlefield put in order, if no
/// creature is on it and none waits; else the fight goes on.
pub open spec fn spec_outcome(w: WorldView, queue: Seq<FiendInfo>) -> (WorldView, Phase) {
    if w.player_info.health == 0 {
        (w, Phase::GameOver { msg: spec_died() })
    } else if w.goal_health() == Some(0usize) {
        (w, Phase::GameOver { msg: spec_destroyed() })
    } else if w.fiends =~= Set::empty() && queue.len() == 0 {
        (w.rebuilt(), Phase::Construct { menu: Menu::Root, menu_index: 0 })
    } else {
        (w, Phase::Fight { to_spawn: queue })
    }
}

impl WorldView {
    /// The world after the player has moved and every creature, turret and
    /// arrow has had its turn, each kind in the order of the cells it stood
    /// on when its pass began, and the dead have been cleared away.
    pub open spec fn after_passes(self, dir: Dir) -> WorldView {
        let moved = self.after_player_move(dir);
        let crept = moved.after_fiend_pass(listing(moved.fiends));
        let aimed = crept.after_turret_pass(listing(crept.turrets));
        let flown = aimed.after_arrow_pass(listing(aimed.arrows));
        flown.swept()
    }
}

/// One tick of the fight leads from the world `w` with `queue` waiting to
/// the world `w2` in the phase `next`: after the passes, some creatures of
/// the queue come in through free gates until none waits or no gate is free;
/// the world is then as it should be, and the tick ends as `spec_outcome`
/// says. No maximum of health has changed in all this.
pub open spec fn fight_tick(
    w: WorldView,
    queue: Seq<FiendInfo>,
    dir: Dir,
    w2: WorldView,
    next: Phase,
) -> bool {
    &&& exists|mid: WorldView, rest: Seq<FiendInfo>, steps: nat|
        #![trigger admission(w.after_passes(dir), queue, mid, rest, steps)]
        admission(w.after_passes(dir), queue, mid, rest, steps) && mid.wf() && (rest.len() == 0
            || mid.gates_taken()) && (w2, next) == spec_outcome(mid, rest)
    &&& keeps_maxima(w, queue, w2)
}

/// A command leads from the phase `phase` and the world `w` to the phase
/// `next` and the world `w2`.
pub open spec fn transition(phase: Phase, w: WorldView, cmd: Command, next: Phase, w2: WorldView) -> bool {
    match phase {
        Phase::Startup => w2 == w && next == (Phase::Construct { menu: Menu::Root, menu_index: 0 }),
        Phase::Construct { menu, menu_index } => if is_continue(phase, cmd) {
            &&& w2 == WorldView { wave: (w.wave + 1) as usize, ..w }
            &&& next matches Phase::Fight { to_spawn } && is_wave(to_spawn, w2.wave)
        } else {
            (w2, next) == spec_construct(w, menu, menu_index, cmd)
        },
        Phase::Fight { to_spawn } => match cmd.spec_direction() {
            Some(dir) => fight_tick(w, to_spawn, dir, w2, next),
            None => w2 == w && next == if cmd == Command::Quit {
                Phase::End
            } else {
                phase
            },
        },
        Phase::GameOver { .. } => w2 == w && next == if cmd == Command::Quit {
            Phase::End
        } else {
            phase
        },
        Phase::End => w2 == w && next == phase,
    }
}

/// The turret that the building menu offers.
pub fn new_turret() -> (s: Static)
    ensures
        s == spec_new_turret(),
{
    Static::Turret {
        info: TurretInfo {
            cooldown: 0,
            max_cooldown: 3,
            range: 50,
            health: 100,
            max_health: 100,
            arrow_speed: 2,
            damage_factor: 300,
        },
    }
}

/// The obstacle that the building menu offers.
pub fn new_obstacle() -> (s: Static)
    ensures
        s == spec_new_obstacle(),
{
    Static::Obstacle { health: 300, max_health: 300 }
}

/// The cursor over the battlefield after a command, kept inside the border.
pub fn cursor(location: (usize, usize), cmd: Command) -> (r: (usize, usize))
    requires
        interior(location),
    ensures
        r == spec_cursor(location, cmd),
        interior(r),
{
    let (x, y) = location;
    match cmd {
        Command::South => (x, if y + 1 == Y - 1 { Y - 2 } else { y + 1 }),
        Command::North => (x, if y - 1 == 0 { 1 } else { y - 1 }),
        Command::West => (if x - 1 == 0 { 1 } else { x - 1 }, y),
        Command::East => (if x + 1 == X - 1 { X - 2 } else { x + 1 }, y),
        _ => location,
    }
}

impl WorldData {
    /// The turrets and the obstacles, each in the order of their cells.
    pub fn structures(&self) -> (r: (Vec<(usize, usize)>, Vec<(usize, usize)>))
        requires
            self.wf(),
        ensures
            r.0@ == listing(self@.turrets),
            r.1@ == listing(self@.obstacles),
            r.0@.len() <= crate::grid::CELLS,
            r.1@.len() <= crate::grid::CELLS,
            forall|k: int| 0 <= k < r.0@.len() ==> holds_turret(self@.static_at(#[trigger] r.0@[k])),
            forall|k: int| 0 <= k < r.0@.len() ==> in_grid(#[trigger] r.0@[k]),
            forall|k: int|
                0 <= k < r.1@.len() ==> holds_obstacle(self@.static_at(#[trigger] r.1@[k])),
            forall|k: int| 0 <= k < r.1@.len() ==> in_grid(#[trigger] r.1@[k]),
    {
        let turrets = snapshot(&self.turrets);
        let obstacles = snapshot(&self.obstacles);
        proof {
            lemma_listing_bounded(turrets@, self@.turrets);
            lemma_listing_bounded(obstacles@, self@.obstacles);
            assert forall|k: int| 0 <= k < turrets@.len() implies holds_turret(
                self@.static_at(#[trigger] turrets@[k]),
            ) && in_grid(turrets@[k]) by {
                assert(turrets@.contains(turrets@[k]));
                assert(self@.turrets.contains(turrets@[k]));
            }
            assert forall|k: int| 0 <= k < obstacles@.len() implies holds_obstacle(
                self@.static_at(#[trigger] obstacles@[k]),
            ) && in_grid(obstacles@[k]) by {
                assert(obstacles@.contains(obstacles@[k]));
                assert(self@.obstacles.contains(obstacles@[k]));
            }
        }
        (turrets, obstacles)
    }

    /// How many entries a menu has.
    pub fn current_menu_length(&self, menu: &Menu) -> (r: usize)
        requires
            self.wf(),
        ensures
            r == match *menu {
                Menu::Root | Menu::Build => MENU_ENTRIES as nat,
                Menu::Move(_) => 1 + self@.structures(),
                Menu::Place(_, _) => 0nat,
            },
    {
        match *menu {
            Menu::Root => MENU_ENTRIES,
            Menu::Build => MENU_ENTRIES,
            Menu::Move(_) => {
                let (turrets, obstacles) = self.structures();
                1 + turrets.len() + obstacles.len()
            },
            Menu::Place(_, _) => 0,
        }
    }

    /// Puts a turret or an obstacle on a cell inside the border that holds
    /// no static occupant.
    pub fn build(&mut self, p: (usize, usize), s: Static)
        requires
            old(self).wf(),
            interior(p),
            old(self)@.static_at(p) is None,
            s.wf(),
            s is Turret || s is Obstacle,
        ensures
            final(self).wf(),
            final(self)@ == old(self)@.built(p, s),
    {
        match s {
            Static::Turret { .. } => {
                self.turrets.insert(p);
                self.set_static(p, Some(s));
            },
            Static::Obstacle { .. } => {
                self.obstacles.insert(p);
                self.set_static(p, Some(s));
            },
            _ => {},
        }
        assert(self@ == old(self)@.built(p, s));
    }

    /// Takes up the turret or obstacle that stands on a cell.
    pub fn take(&mut self, p: (usize, usize))
        requires
            old(self).wf(),
            in_grid(p),
            holds_turret(old(self)@.static_at(p)) || holds_obstacle(old(self)@.static_at(p)),
        ensures
            final(self).wf(),
            final(self)@ == old(self)@.taken(p),
    {
        self.turrets.remove(&p);
        self.obstacles.remove(&p);
        self.set_static(p, None);
        assert(self@ == old(self)@.taken(p));
    }
}

impl GameState {
    /// What holds of the phase between any two commands.
    pub open spec fn wf(&self, world_data: &WorldData) -> bool {
        self@.wf(world_data@)
    }

    /// A command while a structure is in hand.
    fn place_handler(
        world_data: &mut WorldData,
        placement: Static,
        location: (usize, usize),
        index: usize,
        i: Command,
    ) -> (next: GameState)
        requires
            old(world_data).wf(),
            (Phase::Construct { menu: Menu::Place(placement, location), menu_index: index }).wf(
                old(world_data)@,
            ),
        ensures
            final(world_data).wf(),
            next.wf(final(world_data)),
            (final(world_data)@, next@) == spec_place(
                old(world_data)@,
                placement,
                location,
                index,
                i,
            ),
    {
        match i {
            Command::North | Command::East | Command::South | Command::West => {
                GameState::Construct { menu: Menu::Place(placement, cursor(location, i)), menu_index: 0 }
            },
            Command::Confirm => {
                if world_data.static_at(location).is_some() {
                    GameState::Construct { menu: Menu::Place(placement, location), menu_index: index }
                } else {
                    world_data.build(location, placement);
                    GameState::Construct { menu: Menu::Root, menu_index: 0 }
                }
            },
            _ => GameState::Construct { menu: Menu::Place(placement, location), menu_index: index },
        }
    }

    /// A command in the list of structures.
    fn move_handler(world_data: &mut WorldData, depth: usize, index: usize, i: Command) -> (next:
        GameState)
        requires
            old(world_data).wf(),
            (Phase::Construct { menu: Menu::Move(depth), menu_index: index }).wf(old(world_data)@),
        ensures
            final(world_data).wf(),
            next.wf(final(world_data)),
            (final(world_data)@, next@) == spec_move(old(world_data)@, depth, index, i),
    {
        let (turrets, obstacles) = world_data.structures();
        let total: usize = turrets.len() + obstacles.len();
        let first = GameState::Construct { menu: Menu::Move(0), menu_index: 0 };
        match i {
            Command::South => {
                if index == MENU_ROWS {
                    if depth + MENU_ROWS == total {
                        first
                    } else {
                        GameState::Construct { menu: Menu::Move(depth + 1), menu_index: index }
                    }
                } else {
                    if index + depth == total {
                        first
                    } else {
                        GameState::Construct { menu: Menu::Move(depth), menu_index: index + 1 }
                    }
                }
            },
            Command::North => {
                if index == 0 {
                    if depth == 0 {
                        if total > MENU_ROWS {
                            GameState::Construct {
                                menu: Menu::Move(total - MENU_ROWS),
                                menu_index: MENU_ROWS,
                            }
                        } else {
                            GameState::Construct { menu: Menu::Move(0), menu_index: total }
                        }
                    } else {
                        GameState::Construct { menu: Menu::Move(depth - 1), menu_index: 0 }
                    }
                } else {
                    GameState::Construct { menu: Menu::Move(depth), menu_index: index - 1 }
                }
            },
            Command::Confirm => {
                let chosen: usize = depth + index;
                if chosen == total {
                    GameState::Construct { menu: Menu::Root, menu_index: 0 }
                } else {
                    let item = if chosen < turrets.len() {
                        turrets[chosen]
                    } else {
                        obstacles[chosen - turrets.len()]
                    };
                    match world_data.static_at(item) {
                        Some(placement) => {
                            world_data.take(item);
                            GameState::Construct { menu: Menu::Place(placement, item), menu_index: 0 }
                        },
                        None => GameState::Construct { menu: Menu::Move(depth), menu_index: index },
                    }
                }
            },
            _ => GameState::Construct { menu: Menu::Move(depth), menu_index: index },
        }
    }

    /// A command in the first menu or in the building menu.
    fn menu_handler(world_data: &mut WorldData, menu: Menu, index: usize, i: Command) -> (next:
        GameState)
        requires
            old(world_data).wf(),
            menu is Root || menu is Build,
            index < MENU_ENTRIES,
            is_continue(Phase::Construct { menu, menu_index: index }, i) ==> old(world_data)@.wave
                < MAX_WAVE,
        ensures
            final(world_data).wf(),
            next.wf(final(world_data)),
            transition(
                Phase::Construct { menu, menu_index: index },
                old(world_data)@,
                i,
                next@,
                final(world_data)@,
            ),
    {
        let centre = (X / 2, Y / 2);
        proof {
            lemma_no_structures_fit(world_data@);
        }
        match i {
            Command::South => GameState::Construct { menu, menu_index: (index + 1) % MENU_ENTRIES },
            Command::North => GameState::Construct {
                menu,
                menu_index: if index == 0 {
                    MENU_ENTRIES - 1
                } else {
                    index - 1
                },
            },
            Command::Quit => GameState::End,
            Command::Back => GameState::Construct { menu: Menu::Root, menu_index: 0 },
            Command::Confirm => match menu {
                Menu::Root => {
                    if index == 0 {
                        GameState::Construct { menu: Menu::Build, menu_index: 0 }
                    } else if index == 1 {
                        GameState::Construct { menu: Menu::Move(0), menu_index: 0 }
                    } else {
                        world_data.wave = world_data.wave + 1;
                        assert(world_data@ == WorldView {
                            wave: world_data@.wave,
                            ..old(world_data)@
                        });
                        GameState::Fight { to_spawn: make_wave(world_data.wave) }
                    }
                },
                _ => {
                    if index == 0 {
                        GameState::Construct { menu: Menu::Place(new_turret(), centre), menu_index: 0 }
                    } else if index == 1 {
                        GameState::Construct {
                            menu: Menu::Place(new_obstacle(), centre),
                            menu_index: 0,
                        }
                    } else {
                        GameState::Construct { menu: Menu::Root, menu_index: 0 }
                    }
                },
            },
            _ => GameState::Construct { menu, menu_index: index },
        }
    }

    /// A command during construction.
    pub fn construct_handler(world_data: &mut WorldData, menu: Menu, index: usize, i: Command) -> (next:
        GameState)
        requires
            old(world_data).wf(),
            (Phase::Construct { menu, menu_index: index }).wf(old(world_data)@),
            is_continue(Phase::Construct { menu, menu_index: index }, i) ==> old(world_data)@.wave
                < MAX_WAVE,
        ensures
            final(world_data).wf(),
            next.wf(final(world_data)),
            transition(
                Phase::Construct { menu, menu_index: index },
                old(world_data)@,
                i,
                next@,
                final(world_data)@,
            ),
    {
        match menu {
            Menu::Place(placement, location) => GameState::place_handler(
                world_data,
                placement,
                location,
                index,
                i,
            ),
            Menu::Move(depth) => GameState::move_handler(world_data, depth, index, i),
            _ => GameState::menu_handler(world_data, menu, index, i),
        }
    }

    /// A command during the fight. `Quit` ends the game and anything but a
    /// direction is ignored. A direction is one tick: the player moves, then
    /// every creature, every turret and every arrow has its turn, the dead
    /// are cleared away, waiting creatures come in through free gates, and
    /// the tick ends as `spec_outcome` says.
    #[verifier::rlimit(50)]
    pub fn fight_handler(world_data: &mut WorldData, to_spawn: Vec<FiendInfo>, i: Command) -> (next:
        GameState)
        requires
            old(world_data).wf(),
            (Phase::Fight { to_spawn: to_spawn@ }).wf(old(world_data)@),
        ensures
            final(world_data).wf(),
            next.wf(final(world_data)),
            transition(
                Phase::Fight { to_spawn: to_spawn@ },
                old(world_data)@,
                i,
                next@,
                final(world_data)@,
            ),
    {
        let dir = match i.direction() {
            Some(dir) => dir,
            None => {
                return match i {
                    Command::Quit => GameState::End,
                    _ => GameState::Fight { to_spawn },
                };
            },
        };
        let ghost queue = to_spawn@;
        let ghost nobody = Seq::<FiendInfo>::empty();
        let mut waiting = to_spawn;
        assert(waiting@ == queue);
        world_data.move_player(dir);
        let ghost moved = world_data@;
        world_data.step_fiends();
        let ghost crept = world_data@;
        world_data.step_turrets();
        let ghost aimed = world_data@;
        world_data.step_arrows();
        let ghost flown = world_data@;
        world_data.sweep();
        let ghost swept = world_data@;
        assert(world_data@ == old(world_data)@.after_passes(dir));
        spawn_fiends(world_data, &mut waiting);
        proof {
            lemma_keeps_maxima_on(old(world_data)@, moved, crept, nobody);
            lemma_keeps_maxima_on(old(world_data)@, crept, aimed, nobody);
            lemma_keeps_maxima_on(old(world_data)@, aimed, flown, nobody);
            lemma_keeps_maxima_on(old(world_data)@, flown, swept, nobody);
            lemma_keeps_maxima_with(old(world_data)@, swept, queue);
            lemma_keeps_maxima_on(old(world_data)@, swept, world_data@, queue);
        }
        let ghost mid = world_data@;
        let ghost rest = waiting@;
        let goal_gone = match world_data.static_at(world_data.goal_location) {
            Some(Static::Goal { health, .. }) => health == 0,
            _ => false,
        };
        let next = if world_data.player_info.health == 0 {
            GameState::GameOver { msg: "You have died!".to_owned() }
        } else if goal_gone {
            GameState::GameOver { msg: "The Thing is destroyed!".to_owned() }
        } else if world_data.fiends.is_empty() && waiting.len() == 0 {
            world_data.start_construct();
            proof {
                lemma_no_structures_fit(world_data@);
                lemma_keeps_maxima_with(mid, world_data@, queue);
                lemma_keeps_maxima_on(old(world_data)@, mid, world_data@, queue);
            }
            GameState::Construct { menu: Menu::Root, menu_index: 0 }
        } else {
            GameState::Fight { to_spawn: waiting }
        };
        assert((world_data@, next@) == spec_outcome(mid, rest));
        assert(fight_tick(old(world_data)@, queue, dir, world_data@, next@));
        next
    }

    /// Takes one command: the game goes on by one step. In the phase `End`
    /// no command is taken.
    pub fn handle(&mut self, world_data: &mut WorldData, i: Command)
        requires
            old(world_data).wf(),
            old(self).wf(old(world_data)),
            !(old(self)@ is End),
            is_continue(old(self)@, i) ==> old(world_data)@.wave < MAX_WAVE,
        ensures
            final(world_data).wf(),
            final(self).wf(final(world_data)),
            transition(old(self)@, old(world_data)@, i, final(self)@, final(world_data)@),
    {
        let mut state = GameState::End;
        std::mem::swap(self, &mut state);
        let next = match state {
            GameState::Startup => GameState::Construct { menu: Menu::Root, menu_index: 0 },
            GameState::Construct { menu, menu_index } => GameState::construct_handler(
                world_data,
                menu,
                menu_index,
                i,
            ),
            GameState::Fight { to_spawn } => GameState::fight_handler(world_data, to_spawn, i),
            GameState::GameOver { msg } => GameState::gameover_handler(msg, i),
            GameState::End => GameState::End,
        };
        *self = next;
    }

    /// A command after the game is over: only `Quit` does anything.
    pub fn gameover_handler(msg: String, i: Command) -> (next: GameState)
        ensures
            next@ == if i == Command::Quit {
                Phase::End
            } else {
                Phase::GameOver { msg: msg@ }
            },
    {
        match i {
            Command::Quit => GameState::End,
            _ => GameState::GameOver { msg },
        }
    }
}

/// The list of structures has an entry at its top, whatever stands on the
/// battlefield.
pub proof fn lemma_no_structures_fit(w: WorldView)
    ensures
        (Phase::Construct { menu: Menu::Move(0), menu_index: 0 }).wf(w),
{
}

} // verus!