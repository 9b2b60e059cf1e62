use thing_protector::cells::find_nearest;
use thing_protector::fiend::{first_step, heuristic, neighbor_costs, step_cost};
use thing_protector::grid::{distance, X, Y};
use thing_protector::model::{FiendInfo, FiendName, Mobile, Static, TurretInfo};
use thing_protector::setup::initial_world;
use thing_protector::world::WorldData;
use std::collections::BTreeSet;

fn fiend(damage_factor: usize) -> FiendInfo {
    FiendInfo {
        ch: 'd',
        name: FiendName { prefix: "greater ", name: "demondim", suffix: None },
        health: 150,
        max_health: 150,
        damage_factor,
        armour_factor: 150 - damage_factor,
        player_target_distance: 10,
        goal_target_distance: 75,
        turret_target_distance: 5,
        obstacle_target_distance: 5,
        value: 150,
    }
}

fn put_fiend(world: &mut WorldData, p: (usize, usize), info: FiendInfo) {
    world.mobiles[p.1][p.0] = Some(Mobile::Fiend { info });
    world.fiends.insert(p);
}

fn put_obstacle(world: &mut WorldData, p: (usize, usize), health: usize, max_health: usize) {
    world.statics[p.1][p.0] = Some(Static::Obstacle { health, max_health });
    world.obstacles.insert(p);
}

fn put_turret(world: &mut WorldData, p: (usize, usize), health: usize) {
    let info = TurretInfo {
        cooldown: 0,
        max_cooldown: 3,
        range: 50,
        health,
        max_health: 100,
        arrow_speed: 2,
        damage_factor: 300,
    };
    world.statics[p.1][p.0] = Some(Static::Turret { info });
    world.turrets.insert(p);
}

#[test]
fn find_nearest_takes_the_nearest_and_the_first_among_equals() {
    let mut points = BTreeSet::new();
    assert_eq!(find_nearest(&points, (10, 10)), None);
    points.insert((1, 1));
    assert_eq!(find_nearest(&points, (10, 10)), Some((1, 1)));
    points.insert((12, 14));
    points.insert((14, 12));
    points.insert((30, 30));
    assert_eq!(find_nearest(&points, (10, 10)), Some((12, 14)));
    points.insert((7, 9));
    assert_eq!(find_nearest(&points, (10, 10)), Some((7, 9)));
    points.insert((10, 10));
    assert_eq!(find_nearest(&points, (10, 10)), Some((10, 10)));
}

#[test]
fn step_cost_weighs_what_stands_in_the_way() {
    assert_eq!(step_cost(None, None, 100, 7), Some(1));
    assert_eq!(step_cost(Some(Static::Wall), None, 100, 7), None);
    assert_eq!(step_cost(Some(Static::Wall), Some(Mobile::Player), 100, 7), None);
    assert_eq!(step_cost(Some(Static::Gate), None, 100, 7), Some(1));
    assert_eq!(
        step_cost(Some(Static::Obstacle { health: 300, max_health: 300 }), None, 100, 7),
        Some(43)
    );
    assert_eq!(
        step_cost(Some(Static::Goal { health: 10, max_health: 10 }), None, 100, 3),
        Some(4)
    );
    let turret = TurretInfo {
        cooldown: 0,
        max_cooldown: 3,
        range: 50,
        health: 20,
        max_health: 100,
        arrow_speed: 2,
        damage_factor: 300,
    };
    assert_eq!(step_cost(Some(Static::Turret { info: turret }), None, 100, 7), Some(3));
    assert_eq!(
        step_cost(Some(Static::Turret { info: turret }), Some(Mobile::Player), 100, 7),
        Some(3)
    );
    assert_eq!(step_cost(None, Some(Mobile::Player), 100, 7), Some(15));
    assert_eq!(step_cost(None, Some(Mobile::Fiend { info: fiend(1) }), 100, 7), Some(2));
    assert_eq!(step_cost(None, None, usize::MAX, 1), Some(1));
    assert_eq!(step_cost(None, Some(Mobile::Player), usize::MAX, 1), Some(usize::MAX));
}

#[test]
fn heuristic_counts_only_what_lies_right_and_below() {
    assert_eq!(heuristic((31, 15), (20, 10)), 16);
    assert_eq!(heuristic((31, 15), (40, 10)), 5);
    assert_eq!(heuristic((31, 15), (20, 20)), 11);
    assert_eq!(heuristic((31, 15), (40, 20)), 0);
    assert_eq!(heuristic((31, 15), (31, 15)), 0);
}

#[test]
fn neighbor_costs_leaves_out_walls_and_cells_off_the_field() {
    let world = initial_world();
    let costs = world.cost_field(3);
    assert_eq!(costs.len(), X * Y);
    assert_eq!(
        neighbor_costs(&costs, (1, 1)),
        vec![((1, 2), 1), ((2, 1), 1), ((2, 2), 1)]
    );
    assert_eq!(
        neighbor_costs(&costs, (30, 14)),
        vec![
            ((29, 13), 1),
            ((29, 14), 1),
            ((29, 15), 1),
            ((30, 13), 1),
            ((30, 15), 1),
            ((31, 13), 1),
            ((31, 14), 1),
            ((31, 15), 4)
        ]
    );
    assert_eq!(
        neighbor_costs(&costs, (28, 1)),
        vec![
            ((27, 1), 1),
            ((27, 2), 1),
            ((28, 0), 1),
            ((28, 2), 1),
            ((29, 0), 1),
            ((29, 1), 1),
            ((29, 2), 1)
        ]
    );
    assert_eq!(neighbor_costs(&costs, (63, 5)), vec![]);
    assert_eq!(neighbor_costs(&vec![Some(1); 10], (5, 5)), vec![]);
}

#[test]
fn first_step_is_the_second_cell_of_a_path() {
    assert_eq!(first_step(&None), None);
    assert_eq!(first_step(&Some(vec![])), None);
    assert_eq!(first_step(&Some(vec![(3, 3)])), None);
    assert_eq!(first_step(&Some(vec![(3, 3), (4, 4)])), Some((4, 4)));
    assert_eq!(first_step(&Some(vec![(3, 3), (4, 4), (5, 5)])), Some((4, 4)));
    assert_eq!(first_step(&Some(vec![(3, 3), (63, 4)])), None);
    assert_eq!(first_step(&Some(vec![(3, 3), (4, 31)])), None);
}

#[test]
fn target_is_chosen_in_order_of_goal_player_turret_obstacle() {
    let mut world = initial_world();
    put_turret(&mut world, (50, 25), 100);
    put_turret(&mut world, (45, 28), 100);
    put_obstacle(&mut world, (52, 20), 300, 300);
    let mut info = fiend(50);
    info.goal_target_distance = 10;
    info.player_target_distance = 10;
    info.turret_target_distance = 5;
    info.obstacle_target_distance = 5;
    assert_eq!(world.choose_target((31, 5), &info), (31, 15));
    assert_eq!(world.choose_target((20, 10), &info), (20, 20));
    assert_eq!(world.choose_target((30, 20), &info), (31, 15));
    assert_eq!(world.choose_target((50, 20), &info), (50, 25));
    assert_eq!(world.choose_target((55, 18), &info), (52, 20));
    assert_eq!(world.choose_target((58, 5), &info), (31, 15));
    info.turret_target_distance = 4;
    assert_eq!(world.choose_target((50, 20), &info), (52, 20));
    info.obstacle_target_distance = 1;
    assert_eq!(world.choose_target((50, 20), &info), (31, 15));
}

#[test]
fn pathfind_steps_towards_the_target() {
    let world = initial_world();
    let step = world.pathfind((31, 1), (31, 15), 3).unwrap();
    assert_eq!(distance(step, (31, 1)), 1);
    assert_eq!(distance(step, (31, 15)), 13);
    let step = world.pathfind((10, 10), (12, 12), 3).unwrap();
    assert_eq!(step, (11, 11));
    let step = world.pathfind((31, 14), (31, 15), 3).unwrap();
    assert_eq!(step, (31, 15));
    assert_eq!(world.pathfind((31, 15), (31, 15), 3), None);
}

#[test]
fn pathfind_gives_the_same_step_when_asked_again() {
    let mut world = initial_world();
    for x in 25..38 {
        put_obstacle(&mut world, (x, 10), 300, 300);
    }
    put_fiend(&mut world, (30, 9), fiend(50));
    for start in [(31, 5), (28, 9), (40, 2), (5, 25), (60, 29)] {
        let first = world.pathfind(start, (31, 15), 50);
        for _ in 0..5 {
            assert_eq!(world.pathfind(start, (31, 15), 50), first);
        }
        let step = first.unwrap();
        assert_eq!(distance(step, start), 1);
    }
}

#[test]
fn pathfind_goes_round_what_is_costly_and_through_what_is_cheap() {
    let mut world = initial_world();
    for y in 1..30 {
        if y != 20 {
            world.statics[y][10] = Some(Static::Wall);
        }
    }
    put_obstacle(&mut world, (10, 20), 300, 300);
    let step = world.pathfind((9, 20), (11, 20), 300).unwrap();
    assert_eq!(step, (10, 20));
    let step = world.pathfind((9, 5), (11, 5), 300).unwrap();
    assert_eq!(distance(step, (9, 5)), 1);
    assert_eq!(step.0, 9);
    assert_eq!(step.1, 6);
}

#[test]
fn pathfind_finds_no_way_through_walls() {
    let mut world = initial_world();
    for y in 1..30 {
        world.statics[y][10] = Some(Static::Wall);
    }
    for x in 0..X {
        world.statics[0][x] = Some(Static::Wall);
        world.statics[Y - 1][x] = Some(Static::Wall);
    }
    world.gates.retain(|g| g.1 != 0 && g.1 != Y - 1);
    assert!(world.is_valid());
    assert_eq!(world.pathfind((5, 5), (31, 15), 3), None);
}

#[test]
fn creature_moves_onto_free_ground() {
    let mut world = initial_world();
    let info = fiend(50);
    put_fiend(&mut world, (31, 5), info);
    world.step_fiend((31, 5), info);
    assert_eq!(world.mobile_at((31, 5)), None);
    assert_eq!(world.fiends.len(), 1);
    let at = *world.fiends.iter().next().unwrap();
    assert_eq!(distance(at, (31, 5)), 1);
    assert_eq!(distance(at, (31, 15)), 9);
    assert_eq!(world.mobile_at(at), Some(Mobile::Fiend { info }));
    assert!(world.is_valid());
}

#[test]
fn creature_next_to_the_goal_wears_it_down() {
    let mut world = initial_world();
    let info = fiend(3);
    put_fiend(&mut world, (31, 14), info);
    world.step_fiend((31, 14), info);
    assert_eq!(world.static_at((31, 15)), Some(Static::Goal { health: 7, max_health: 10 }));
    assert_eq!(world.mobile_at((31, 14)), Some(Mobile::Fiend { info }));
    world.step_fiend((31, 14), info);
    world.step_fiend((31, 14), info);
    world.step_fiend((31, 14), info);
    assert_eq!(world.static_at((31, 15)), Some(Static::Goal { health: 0, max_health: 10 }));
    world.step_fiend((31, 14), info);
    assert_eq!(world.static_at((31, 15)), Some(Static::Goal { health: 0, max_health: 10 }));
    assert!(world.is_valid());
}

#[test]
fn move_fiend_follows_the_rules_of_each_destination() {
    let mut world = initial_world();
    let info = fiend(30);
    put_fiend(&mut world, (20, 19), info);
    world.move_fiend((20, 19), info, (20, 20));
    assert_eq!(world.player_info.health, 70);
    assert_eq!(world.mobile_at((20, 19)), Some(Mobile::Fiend { info }));
    assert_eq!(world.mobile_at((20, 20)), Some(Mobile::Player));
    for _ in 0..3 {
        world.move_fiend((20, 19), info, (20, 20));
    }
    assert_eq!(world.player_info.health, 0);

    put_fiend(&mut world, (21, 19), info);
    world.move_fiend((20, 19), info, (21, 19));
    assert_eq!(world.mobile_at((20, 19)), Some(Mobile::Fiend { info }));
    assert_eq!(world.mobile_at((21, 19)), Some(Mobile::Fiend { info }));

    put_obstacle(&mut world, (19, 19), 50, 300);
    world.move_fiend((20, 19), info, (19, 19));
    assert_eq!(
        world.static_at((19, 19)),
        Some(Static::Obstacle { health: 20, max_health: 300 })
    );
    world.move_fiend((20, 19), info, (19, 19));
    assert_eq!(
        world.static_at((19, 19)),
        Some(Static::Obstacle { health: 0, max_health: 300 })
    );
    assert_eq!(world.mobile_at((20, 19)), Some(Mobile::Fiend { info }));

    put_turret(&mut world, (19, 18), 40);
    world.move_fiend((20, 19), info, (19, 18));
    match world.static_at((19, 18)) {
        Some(Static::Turret { info: t }) => assert_eq!(t.health, 10),
        other => panic!("no turret: {:?}", other),
    }
    world.move_fiend((20, 19), info, (19, 18));
    world.move_fiend((20, 19), info, (19, 18));
    assert_eq!(world.mobile_at((19, 18)), Some(Mobile::Fiend { info }));
    assert_eq!(world.mobile_at((20, 19)), None);
    assert!(world.fiends.contains(&(19, 18)));
    assert!(!world.fiends.contains(&(20, 19)));
    assert!(world.is_valid());
}

#[test]
fn creature_is_blocked_by_wall_and_gate() {
    let mut world = initial_world();
    let info = fiend(30);
    put_fiend(&mut world, (30, 1), info);
    world.move_fiend((30, 1), info, (30, 0));
    assert_eq!(world.mobile_at((30, 1)), Some(Mobile::Fiend { info }));
    assert_eq!(world.mobile_at((30, 0)), None);
    world.move_fiend((30, 1), info, (27, 0));
    assert_eq!(world.mobile_at((30, 1)), Some(Mobile::Fiend { info }));
    assert_eq!(world.static_at((27, 0)), Some(Static::Wall));
    assert!(world.is_valid());
}
