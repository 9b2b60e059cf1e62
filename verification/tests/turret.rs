use thing_protector::model::{ArrowInfo, FiendInfo, FiendName, Mobile, Static, TurretInfo};
use thing_protector::setup::initial_world;
use thing_protector::world::WorldData;

fn fiend(health: usize) -> FiendInfo {
    FiendInfo {
        ch: 'w',
        name: FiendName { prefix: "", name: "waynhim", suffix: None },
        health,
        max_health: 40,
        damage_factor: 13,
        armour_factor: 27,
        player_target_distance: 10,
        goal_target_distance: 75,
        turret_target_distance: 5,
        obstacle_target_distance: 5,
        value: 40,
    }
}

fn turret(cooldown: usize, health: usize) -> TurretInfo {
    TurretInfo {
        cooldown,
        max_cooldown: 3,
        range: 50,
        health,
        max_health: 100,
        arrow_speed: 2,
        damage_factor: 300,
    }
}

fn put_turret(world: &mut WorldData, p: (usize, usize), info: TurretInfo) {
    world.statics[p.1][p.0] = Some(Static::Turret { info });
    world.turrets.insert(p);
}

fn put_fiend(world: &mut WorldData, p: (usize, usize), info: FiendInfo) {
    world.mobiles[p.1][p.0] = Some(Mobile::Fiend { info });
    world.fiends.insert(p);
}

fn put_arrow(world: &mut WorldData, p: (usize, usize), info: ArrowInfo) {
    world.mobiles[p.1][p.0] = Some(Mobile::Arrow { info });
    world.arrows.insert(p);
}

#[test]
fn ready_turret_shoots_at_creature_ten_cells_away() {
    let mut world = initial_world();
    put_turret(&mut world, (10, 10), turret(0, 100));
    put_fiend(&mut world, (20, 13), fiend(40));
    assert!(world.is_valid());
    world.step_turret((10, 10), turret(0, 100));
    assert_eq!(world.static_at((10, 10)), Some(Static::Turret { info: turret(3, 100) }));
    let expected = ArrowInfo {
        dx: 10,
        dy: 3,
        dir: (true, true),
        incx: 1,
        incy: 0,
        speed: 2,
        err: -4,
        err_inc: 6,
        err_dec: 20,
        corrx: 0,
        corry: 1,
        damage_factor: 300,
    };
    assert_eq!(world.mobile_at((10, 10)), Some(Mobile::Arrow { info: expected }));
    assert!(world.arrows.contains(&(10, 10)));
    assert_eq!(world.arrows.len(), 1);
    assert!(world.is_valid());
}

#[test]
fn aimed_arrow_steps_along_the_longer_axis() {
    let up_left = ArrowInfo::aimed((10, 10), (8, 3), 4, 9);
    assert_eq!(
        up_left,
        ArrowInfo {
            dx: 2,
            dy: 7,
            dir: (false, false),
            incx: 0,
            incy: -1,
            speed: 4,
            err: -3,
            err_inc: 4,
            err_dec: 14,
            corrx: -1,
            corry: 0,
            damage_factor: 9,
        }
    );
    assert!(up_left.is_valid());
    let diagonal = ArrowInfo::aimed((5, 5), (9, 9), 1, 1);
    assert_eq!((diagonal.incx, diagonal.incy), (0, 1));
    assert_eq!((diagonal.corrx, diagonal.corry), (1, 0));
    assert_eq!((diagonal.err, diagonal.err_inc, diagonal.err_dec), (4, 8, 8));
    let straight = ArrowInfo::aimed((5, 5), (2, 5), 1, 1);
    assert_eq!((straight.incx, straight.incy), (-1, 0));
    assert_eq!((straight.err, straight.err_inc, straight.err_dec), (-3, 0, 6));
}

#[test]
fn cooling_turret_counts_down_and_does_not_shoot() {
    let mut world = initial_world();
    put_turret(&mut world, (10, 10), turret(2, 100));
    put_fiend(&mut world, (12, 10), fiend(40));
    world.step_turret((10, 10), turret(2, 100));
    assert_eq!(world.static_at((10, 10)), Some(Static::Turret { info: turret(1, 100) }));
    assert_eq!(world.mobile_at((10, 10)), None);
    assert!(world.arrows.is_empty());
    assert!(world.is_valid());
}

#[test]
fn turret_does_not_shoot_beyond_its_range() {
    let mut world = initial_world();
    let short = TurretInfo { range: 9, ..turret(0, 100) };
    put_turret(&mut world, (10, 10), short);
    put_fiend(&mut world, (20, 13), fiend(40));
    world.step_turret((10, 10), short);
    assert_eq!(world.static_at((10, 10)), Some(Static::Turret { info: short }));
    assert_eq!(world.mobile_at((10, 10)), None);
    let reach = TurretInfo { range: 10, ..turret(0, 100) };
    put_turret(&mut world, (10, 10), reach);
    world.step_turret((10, 10), reach);
    assert!(world.arrows.contains(&(10, 10)));
}

#[test]
fn turret_without_target_or_with_occupied_cell_or_without_health_does_nothing() {
    let mut world = initial_world();
    put_turret(&mut world, (10, 10), turret(0, 100));
    world.step_turret((10, 10), turret(0, 100));
    assert_eq!(world.static_at((10, 10)), Some(Static::Turret { info: turret(0, 100) }));
    assert!(world.arrows.is_empty());

    put_fiend(&mut world, (10, 10), fiend(40));
    put_fiend(&mut world, (12, 10), fiend(40));
    world.step_turret((10, 10), turret(0, 100));
    assert_eq!(world.mobile_at((10, 10)), Some(Mobile::Fiend { info: fiend(40) }));
    assert!(world.arrows.is_empty());

    let mut world = initial_world();
    put_turret(&mut world, (10, 10), turret(2, 0));
    put_fiend(&mut world, (12, 10), fiend(40));
    world.step_turret((10, 10), turret(2, 0));
    assert_eq!(world.static_at((10, 10)), Some(Static::Turret { info: turret(2, 0) }));
    assert!(world.arrows.is_empty());
}

#[test]
fn turret_shoots_at_the_nearest_creature_first_in_cell_order_among_equals() {
    let mut world = initial_world();
    put_turret(&mut world, (10, 10), turret(0, 100));
    put_fiend(&mut world, (14, 10), fiend(40));
    put_fiend(&mut world, (10, 13), fiend(40));
    put_fiend(&mut world, (7, 10), fiend(40));
    put_fiend(&mut world, (13, 12), fiend(40));
    world.step_turret((10, 10), turret(0, 100));
    match world.mobile_at((10, 10)) {
        Some(Mobile::Arrow { info }) => {
            assert_eq!((info.dx, info.dy), (3, 0));
            assert_eq!(info.dir, (false, false));
        }
        other => panic!("no arrow: {:?}", other),
    }
}

#[test]
fn arrow_advances_by_its_speed_and_stays() {
    let mut world = initial_world();
    let arrow = ArrowInfo::aimed((10, 10), (20, 13), 2, 300);
    put_arrow(&mut world, (10, 10), arrow);
    assert!(world.is_valid());
    world.step_arrow((10, 10), arrow);
    assert_eq!(world.mobile_at((10, 10)), None);
    assert_eq!(
        world.mobile_at((12, 11)),
        Some(Mobile::Arrow { info: ArrowInfo { err: -12, ..arrow } })
    );
    assert!(world.arrows.contains(&(12, 11)));
    assert_eq!(world.arrows.len(), 1);
    let second = ArrowInfo { err: -12, ..arrow };
    world.step_arrow((12, 11), second);
    assert_eq!(world.mobile_at((12, 11)), None);
    assert_eq!(
        world.mobile_at((14, 11)),
        Some(Mobile::Arrow { info: ArrowInfo { err: 0, ..arrow } })
    );
    assert!(world.is_valid());
}

#[test]
fn arrow_reaches_its_target_along_the_line() {
    let mut world = initial_world();
    let mut arrow = ArrowInfo::aimed((10, 10), (20, 13), 1, 0);
    let mut at = (10, 10);
    put_arrow(&mut world, at, arrow);
    let mut path = vec![];
    for _ in 0..10 {
        world.step_arrow(at, arrow);
        assert_eq!(world.arrows.len(), 1);
        at = *world.arrows.iter().next().unwrap();
        arrow = match world.mobile_at(at) {
            Some(Mobile::Arrow { info }) => info,
            other => panic!("no arrow: {:?}", other),
        };
        path.push(at);
    }
    assert_eq!(
        path,
        vec![
            (11, 10),
            (12, 11),
            (13, 11),
            (14, 11),
            (15, 12),
            (16, 12),
            (17, 12),
            (18, 12),
            (19, 13),
            (20, 13)
        ]
    );
}

#[test]
fn arrow_that_strikes_a_creature_is_gone_and_wounds_it() {
    let mut world = initial_world();
    let arrow = ArrowInfo::aimed((10, 10), (13, 10), 5, 25);
    put_arrow(&mut world, (10, 10), arrow);
    put_fiend(&mut world, (13, 10), fiend(40));
    world.step_arrow((10, 10), arrow);
    assert!(world.arrows.is_empty());
    assert_eq!(world.mobile_at((10, 10)), None);
    assert_eq!(world.mobile_at((11, 10)), None);
    assert_eq!(world.mobile_at((12, 10)), None);
    assert_eq!(world.mobile_at((13, 10)), Some(Mobile::Fiend { info: fiend(15) }));
    assert_eq!(world.cash, 0);
    assert_eq!(world.log, ["waynhim is shot for 25 damage! (15 / 40)", "", "", "", ""]);
    assert!(world.is_valid());
}

#[test]
fn arrow_that_kills_saturates_and_pays() {
    let mut world = initial_world();
    let arrow = ArrowInfo::aimed((10, 10), (11, 10), 2, 300);
    put_arrow(&mut world, (10, 10), arrow);
    put_fiend(&mut world, (11, 10), fiend(40));
    world.step_arrow((10, 10), arrow);
    assert!(world.arrows.is_empty());
    assert_eq!(world.mobile_at((11, 10)), Some(Mobile::Fiend { info: fiend(0) }));
    assert_eq!(world.cash, 40);
    assert_eq!(world.log, ["waynhim is shot for 300 damage! (dead!)", "", "", "", ""]);
    assert!(world.is_valid());
}

#[test]
fn arrow_is_gone_at_a_wall_a_gate_the_player_and_another_arrow() {
    let mut world = initial_world();
    let arrow = ArrowInfo::aimed((2, 5), (0, 5), 5, 25);
    put_arrow(&mut world, (2, 5), arrow);
    world.step_arrow((2, 5), arrow);
    assert!(world.arrows.is_empty());
    assert_eq!(world.mobile_at((1, 5)), None);
    assert_eq!(world.static_at((0, 5)), Some(Static::Wall));
    assert!(world.is_valid());

    let arrow = ArrowInfo::aimed((30, 2), (30, 0), 5, 25);
    put_arrow(&mut world, (30, 2), arrow);
    world.step_arrow((30, 2), arrow);
    assert!(world.arrows.is_empty());
    assert_eq!(world.static_at((30, 0)), Some(Static::Gate));

    let arrow = ArrowInfo::aimed((20, 17), (20, 20), 5, 25);
    put_arrow(&mut world, (20, 17), arrow);
    world.step_arrow((20, 17), arrow);
    assert!(world.arrows.is_empty());
    assert_eq!(world.mobile_at((20, 20)), Some(Mobile::Player));
    assert_eq!(world.player_info.health, 100);

    let first = ArrowInfo::aimed((5, 5), (9, 5), 2, 25);
    let other = ArrowInfo::aimed((7, 5), (7, 9), 1, 25);
    put_arrow(&mut world, (5, 5), first);
    put_arrow(&mut world, (7, 5), other);
    world.step_arrow((5, 5), first);
    assert_eq!(world.arrows.len(), 1);
    assert_eq!(world.mobile_at((7, 5)), Some(Mobile::Arrow { info: other }));
    assert_eq!(world.log, [""; 5]);
    assert!(world.is_valid());
}

#[test]
fn arrow_flies_over_structures() {
    let mut world = initial_world();
    world.statics[10][11] = Some(Static::Obstacle { health: 5, max_health: 5 });
    world.obstacles.insert((11, 10));
    let arrow = ArrowInfo::aimed((10, 10), (13, 10), 2, 25);
    put_arrow(&mut world, (10, 10), arrow);
    world.step_arrow((10, 10), arrow);
    assert!(world.arrows.contains(&(12, 10)));
    assert_eq!(
        world.static_at((11, 10)),
        Some(Static::Obstacle { health: 5, max_health: 5 })
    );
    assert!(world.is_valid());
}

#[test]
fn arrow_without_speed_stays_where_it_is() {
    let mut world = initial_world();
    let arrow = ArrowInfo::aimed((10, 10), (13, 10), 0, 25);
    put_arrow(&mut world, (10, 10), arrow);
    world.step_arrow((10, 10), arrow);
    assert_eq!(world.mobile_at((10, 10)), Some(Mobile::Arrow { info: arrow }));
    assert_eq!(world.arrows.len(), 1);
}

#[test]
fn arrow_that_strikes_the_dead_pays_nothing() {
    let mut world = initial_world();
    world.cash = 7;
    let arrow = ArrowInfo::aimed((10, 10), (11, 10), 2, 300);
    put_arrow(&mut world, (10, 10), arrow);
    put_fiend(&mut world, (11, 10), fiend(0));
    world.step_arrow((10, 10), arrow);
    assert!(world.arrows.is_empty());
    assert_eq!(world.mobile_at((11, 10)), Some(Mobile::Fiend { info: fiend(0) }));
    assert_eq!(world.cash, 7);
    assert_eq!(world.log, ["waynhim is shot for 300 damage! (dead!)", "", "", "", ""]);
    assert!(world.is_valid());
}

#[test]
fn shoot_pays_for_the_kill_only() {
    let mut world = initial_world();
    world.shoot(fiend(40), 39);
    assert_eq!(world.cash, 0);
    assert_eq!(world.log[0], "waynhim is shot for 39 damage! (1 / 40)");
    world.shoot(fiend(1), 1);
    assert_eq!(world.cash, 40);
    assert_eq!(world.log[0], "waynhim is shot for 1 damage! (dead!)");
    world.shoot(fiend(0), 5);
    assert_eq!(world.cash, 40);
    world.shoot(fiend(0), 0);
    assert_eq!(world.cash, 40);
    world.shoot(fiend(3), 0);
    assert_eq!(world.cash, 40);
    assert_eq!(world.log[0], "waynhim is shot for 0 damage! (3 / 40)");
}

#[test]
fn every_arrow_is_gone_before_it_has_crossed_the_battlefield() {
    let shots = [
        ((1, 1), (61, 29), 1),
        ((1, 15), (61, 15), 1),
        ((61, 29), (1, 1), 2),
        ((31, 29), (31, 1), 1),
        ((1, 29), (61, 1), 3),
        ((30, 15), (31, 15), 7),
        ((5, 5), (5, 5), 1),
    ];
    for (from, to, speed) in shots {
        let mut world = initial_world();
        world.mobiles[20][20] = None;
        world.mobiles[2][2] = Some(Mobile::Player);
        world.player_info.location = (2, 2);
        world.statics[15][31] = None;
        world.statics[3][3] = Some(Static::Goal { health: 10, max_health: 10 });
        world.goal_location = (3, 3);
        let mut arrow = ArrowInfo::aimed(from, to, speed, 1);
        let mut at = from;
        put_arrow(&mut world, at, arrow);
        assert!(world.is_valid());
        let mut turns = 0;
        while !world.arrows.is_empty() {
            world.step_arrow(at, arrow);
            assert!(world.is_valid());
            turns += 1;
            assert!((turns - 1) * speed <= 60, "{:?} {:?}", from, to);
            if let Some(next) = world.arrows.iter().next() {
                assert!(thing_protector::grid::distance(at, *next) <= speed);
                at = *next;
                arrow = match world.mobile_at(at) {
                    Some(Mobile::Arrow { info }) => info,
                    other => panic!("no arrow: {:?}", other),
                };
            }
        }
    }
}

#[test]
fn an_arrow_that_does_not_get_on_is_not_valid() {
    let aimed = ArrowInfo::aimed((10, 10), (20, 13), 2, 1);
    assert!(aimed.is_valid());
    assert!(!ArrowInfo { incx: 0, ..aimed }.is_valid());
    assert!(!ArrowInfo { corrx: -1, ..aimed }.is_valid());
    assert!(ArrowInfo { incx: -1, ..aimed }.is_valid());
    assert!(!ArrowInfo { incx: 2, ..aimed }.is_valid());
    assert!(!ArrowInfo { err: 7, ..aimed }.is_valid());
    assert!(ArrowInfo::aimed((5, 5), (5, 5), 1, 1).is_valid());
}
