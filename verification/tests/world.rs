use thing_protector::grid::{X, Y};
use thing_protector::model::{FiendInfo, FiendName, Message, Mobile, Static, TurretInfo};
use thing_protector::player::Dir;
use thing_protector::setup::initial_world;
use thing_protector::world::WorldData;

fn kobold(health: usize) -> FiendInfo {
    FiendInfo {
        ch: 'k',
        name: FiendName { prefix: "lesser ", name: "kobold", suffix: None },
        health,
        max_health: 15,
        damage_factor: 3,
        armour_factor: 5,
        player_target_distance: 75,
        goal_target_distance: 10,
        turret_target_distance: 5,
        obstacle_target_distance: 5,
        value: 15,
    }
}

fn put_fiend(world: &mut WorldData, p: (usize, usize), info: FiendInfo) {
    world.mobiles[p.1][p.0] = Some(Mobile::Fiend { info });
    world.fiends.insert(p);
}

fn put_obstacle(world: &mut WorldData, p: (usize, usize), health: usize, max_health: usize) {
    world.statics[p.1][p.0] = Some(Static::Obstacle { health, max_health });
    world.obstacles.insert(p);
}

#[test]
fn initial_world_has_walls_gates_goal_and_player() {
    let world = initial_world();
    assert!(world.is_valid());
    assert_eq!(world.statics.len(), Y);
    assert_eq!(world.statics[0].len(), X);
    assert_eq!(world.mobiles.len(), Y);
    assert_eq!(world.mobiles[0].len(), X);
    assert_eq!(world.static_at((0, 0)), Some(Static::Wall));
    assert_eq!(world.static_at((62, 30)), Some(Static::Wall));
    assert_eq!(world.static_at((5, 0)), Some(Static::Wall));
    assert_eq!(world.static_at((0, 5)), Some(Static::Wall));
    assert_eq!(world.static_at((28, 0)), Some(Static::Gate));
    assert_eq!(world.static_at((34, 30)), Some(Static::Gate));
    assert_eq!(world.static_at((27, 0)), Some(Static::Wall));
    assert_eq!(world.static_at((35, 0)), Some(Static::Wall));
    assert_eq!(world.static_at((0, 12)), Some(Static::Gate));
    assert_eq!(world.static_at((62, 18)), Some(Static::Gate));
    assert_eq!(world.static_at((0, 11)), Some(Static::Wall));
    assert_eq!(world.static_at((0, 19)), Some(Static::Wall));
    assert_eq!(world.static_at((31, 15)), Some(Static::Goal { health: 10, max_health: 10 }));
    assert_eq!(world.static_at((20, 20)), None);
    assert_eq!(world.mobile_at((20, 20)), Some(Mobile::Player));
    assert_eq!(world.mobile_at((20, 19)), None);
    assert_eq!(world.gates.len(), 28);
    assert!(world.fiends.is_empty());
    assert!(world.turrets.is_empty());
    assert!(world.obstacles.is_empty());
    assert!(world.arrows.is_empty());
    assert_eq!(world.player_info.location, (20, 20));
    assert_eq!(world.player_info.health, 100);
    assert_eq!(world.goal_location, (31, 15));
    assert_eq!(world.cash, 0);
    assert_eq!(world.wave, 0);
    assert_eq!(world.log, [""; 5]);
}

#[test]
fn player_moves_north_into_empty_space() {
    let mut world = initial_world();
    world.move_player(Dir::N);
    assert_eq!(world.player_info.location, (20, 19));
    assert_eq!(world.mobile_at((20, 19)), Some(Mobile::Player));
    assert_eq!(world.mobile_at((20, 20)), None);
    assert!(world.is_valid());
}

#[test]
fn player_moves_in_each_direction() {
    let mut world = initial_world();
    world.move_player(Dir::E);
    assert_eq!(world.player_info.location, (21, 20));
    world.move_player(Dir::S);
    assert_eq!(world.player_info.location, (21, 21));
    world.move_player(Dir::W);
    assert_eq!(world.player_info.location, (20, 21));
    world.move_player(Dir::N);
    assert_eq!(world.player_info.location, (20, 20));
    assert_eq!(world.mobile_at((20, 20)), Some(Mobile::Player));
    assert_eq!(world.mobile_at((21, 20)), None);
    assert!(world.is_valid());
}

#[test]
fn player_mends_obstacle_and_stays() {
    let mut world = initial_world();
    put_obstacle(&mut world, (20, 19), 100, 300);
    assert!(world.is_valid());
    world.move_player(Dir::N);
    assert_eq!(
        world.static_at((20, 19)),
        Some(Static::Obstacle { health: 101, max_health: 300 })
    );
    assert_eq!(world.player_info.location, (20, 20));
    assert_eq!(world.mobile_at((20, 20)), Some(Mobile::Player));
    assert_eq!(world.mobile_at((20, 19)), None);
    assert!(world.is_valid());
}

#[test]
fn mending_stops_at_full_health() {
    let mut world = initial_world();
    put_obstacle(&mut world, (20, 19), 300, 300);
    world.player_info.heal_factor = 7;
    world.move_player(Dir::N);
    assert_eq!(
        world.static_at((20, 19)),
        Some(Static::Obstacle { health: 300, max_health: 300 })
    );
    put_obstacle(&mut world, (21, 20), 296, 300);
    world.move_player(Dir::E);
    assert_eq!(
        world.static_at((21, 20)),
        Some(Static::Obstacle { health: 300, max_health: 300 })
    );
}

#[test]
fn player_is_blocked_by_wall_and_gate() {
    let mut world = initial_world();
    world.mobiles[20][20] = None;
    world.mobiles[1][1] = Some(Mobile::Player);
    world.player_info.location = (1, 1);
    assert!(world.is_valid());
    world.move_player(Dir::N);
    assert_eq!(world.player_info.location, (1, 1));
    assert_eq!(world.static_at((1, 0)), Some(Static::Wall));
    world.move_player(Dir::W);
    assert_eq!(world.player_info.location, (1, 1));
    world.mobiles[1][1] = None;
    world.mobiles[1][30] = Some(Mobile::Player);
    world.player_info.location = (30, 1);
    world.move_player(Dir::N);
    assert_eq!(world.player_info.location, (30, 1));
    assert_eq!(world.static_at((30, 0)), Some(Static::Gate));
    assert!(world.is_valid());
}

#[test]
fn player_walks_over_rubble_but_mends_a_standing_turret() {
    let mut world = initial_world();
    let rubble = TurretInfo {
        cooldown: 0,
        max_cooldown: 3,
        range: 50,
        health: 0,
        max_health: 100,
        arrow_speed: 2,
        damage_factor: 300,
    };
    world.statics[19][20] = Some(Static::Turret { info: rubble });
    world.turrets.insert((20, 19));
    world.move_player(Dir::N);
    assert_eq!(world.player_info.location, (20, 19));
    assert_eq!(world.static_at((20, 19)), Some(Static::Turret { info: rubble }));
    let standing = TurretInfo { health: 40, ..rubble };
    world.statics[18][20] = Some(Static::Turret { info: standing });
    world.turrets.insert((20, 18));
    world.move_player(Dir::N);
    assert_eq!(world.player_info.location, (20, 19));
    assert_eq!(
        world.static_at((20, 18)),
        Some(Static::Turret { info: TurretInfo { health: 41, ..rubble } })
    );
    assert!(world.is_valid());
}

#[test]
fn player_strikes_a_creature_and_stays() {
    let mut world = initial_world();
    put_fiend(&mut world, (20, 19), kobold(15));
    world.player_info.damage_factor = 4;
    world.move_player(Dir::N);
    assert_eq!(world.player_info.location, (20, 20));
    assert_eq!(world.mobile_at((20, 19)), Some(Mobile::Fiend { info: kobold(11) }));
    assert_eq!(world.cash, 0);
    assert_eq!(
        world.log,
        ["lesser kobold is hit for 4 damage! (11 / 15)", "", "", "", ""]
    );
    assert_eq!(
        world.log[0],
        Message::Hit { name: kobold(1).name, damage: 4, health: 11, max_health: 15 }.text()
    );
    assert!(world.is_valid());
}

#[test]
fn a_killing_blow_saturates_and_pays() {
    let mut world = initial_world();
    put_fiend(&mut world, (20, 19), kobold(3));
    world.player_info.damage_factor = 10;
    world.move_player(Dir::N);
    assert_eq!(world.mobile_at((20, 19)), Some(Mobile::Fiend { info: kobold(0) }));
    assert_eq!(world.cash, 15);
    assert_eq!(
        world.log,
        ["lesser kobold is hit for 10 damage! (dead!)", "", "", "", ""]
    );
    assert_eq!(world.player_info.location, (20, 20));
    assert!(world.is_valid());
}

#[test]
fn log_keeps_the_five_latest_messages_newest_first() {
    let mut world = initial_world();
    world.log_msg("one".to_string());
    assert_eq!(world.log, ["one", "", "", "", ""]);
    world.log_msg("two".to_string());
    assert_eq!(world.log, ["two", "one", "", "", ""]);
    for line in ["three", "four", "five", "six", "seven"] {
        world.log_msg(line.to_string());
    }
    assert_eq!(world.log, ["seven", "six", "five", "four", "three"]);
}

#[test]
fn is_valid_rejects_a_world_out_of_step_with_its_index_sets() {
    let mut world = initial_world();
    world.mobiles[10][10] = Some(Mobile::Fiend { info: kobold(15) });
    assert!(!world.is_valid());
    world.fiends.insert((10, 10));
    assert!(world.is_valid());
    world.fiends.insert((11, 10));
    assert!(!world.is_valid());
    world.fiends.remove(&(11, 10));
    world.fiends.insert((100, 100));
    assert!(!world.is_valid());
}

#[test]
fn is_valid_rejects_health_above_its_maximum() {
    let mut world = initial_world();
    put_obstacle(&mut world, (10, 10), 301, 300);
    assert!(!world.is_valid());
    put_obstacle(&mut world, (10, 10), 300, 300);
    assert!(world.is_valid());
    world.player_info.health = 101;
    assert!(!world.is_valid());
}

#[test]
fn is_valid_rejects_an_open_border_and_a_second_player() {
    let mut world = initial_world();
    world.statics[0][5] = None;
    assert!(!world.is_valid());
    let mut world = initial_world();
    world.mobiles[5][5] = Some(Mobile::Player);
    assert!(!world.is_valid());
}

#[test]
fn a_blow_on_the_dead_pays_nothing() {
    let mut world = initial_world();
    put_fiend(&mut world, (20, 19), kobold(3));
    world.player_info.damage_factor = 10;
    world.move_player(Dir::N);
    assert_eq!(world.cash, 15);
    world.move_player(Dir::N);
    world.move_player(Dir::N);
    assert_eq!(world.mobile_at((20, 19)), Some(Mobile::Fiend { info: kobold(0) }));
    assert_eq!(world.cash, 15);
    assert_eq!(world.log[0], "lesser kobold is hit for 10 damage! (dead!)");
    assert!(world.is_valid());
}

#[test]
fn attack_pays_for_the_kill_only() {
    let mut world = initial_world();
    world.attack(kobold(15), 14);
    assert_eq!(world.cash, 0);
    assert_eq!(world.log[0], "lesser kobold is hit for 14 damage! (1 / 15)");
    world.attack(kobold(1), 100);
    assert_eq!(world.cash, 15);
    world.attack(kobold(0), 100);
    assert_eq!(world.cash, 15);
}
