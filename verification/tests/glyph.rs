use thing_protector::controller::{new_obstacle, new_turret};
use thing_protector::glyph::{condition, mobile_glyph, static_glyph, Condition};
use thing_protector::model::{ArrowInfo, FiendInfo, FiendName, Mobile, Static, TurretInfo};

#[test]
fn static_glyphs() {
    assert_eq!(static_glyph(4, Static::Wall), '#');
    assert_eq!(static_glyph(0, Static::Gate), '-');
    assert_eq!(static_glyph(30, Static::Gate), '-');
    assert_eq!(static_glyph(15, Static::Gate), '|');
    assert_eq!(static_glyph(15, Static::Goal { health: 1, max_health: 10 }), 'Y');
    assert_eq!(static_glyph(3, new_turret()), 'O');
    assert_eq!(static_glyph(3, new_obstacle()), '=');
}

#[test]
fn conditions() {
    let turret = |health| Static::Turret {
        info: TurretInfo {
            cooldown: 0,
            max_cooldown: 3,
            range: 50,
            health,
            max_health: 100,
            arrow_speed: 2,
            damage_factor: 300,
        },
    };
    assert_eq!(condition(turret(100)), Condition::Sound);
    assert_eq!(condition(turret(51)), Condition::Sound);
    assert_eq!(condition(turret(50)), Condition::Damaged);
    assert_eq!(condition(turret(1)), Condition::Damaged);
    assert_eq!(condition(turret(0)), Condition::Broken);
    assert_eq!(condition(Static::Goal { health: 0, max_health: 10 }), Condition::Precious);
    assert_eq!(condition(Static::Wall), Condition::Plain);
    assert_eq!(condition(Static::Gate), Condition::Plain);
    assert_eq!(condition(new_obstacle()), Condition::Plain);
}

#[test]
fn mobile_glyphs() {
    assert_eq!(mobile_glyph(Mobile::Player), '@');
    let fiend = FiendInfo {
        ch: 'G',
        name: FiendName { prefix: "ur-", name: "giant", suffix: None },
        health: 1,
        max_health: 1,
        damage_factor: 1,
        armour_factor: 0,
        player_target_distance: 0,
        goal_target_distance: 0,
        turret_target_distance: 0,
        obstacle_target_distance: 0,
        value: 1,
    };
    assert_eq!(mobile_glyph(Mobile::Fiend { info: fiend }), 'G');
    let arrow = |from, to| Mobile::Arrow { info: ArrowInfo::aimed(from, to, 1, 1) };
    assert_eq!(mobile_glyph(arrow((10, 10), (10, 20))), '|');
    assert_eq!(mobile_glyph(arrow((10, 10), (12, 2))), '|');
    assert_eq!(mobile_glyph(arrow((10, 10), (20, 10))), '-');
    assert_eq!(mobile_glyph(arrow((10, 10), (0, 12))), '-');
    assert_eq!(mobile_glyph(arrow((10, 10), (15, 15))), '\\');
    assert_eq!(mobile_glyph(arrow((10, 10), (5, 5))), '\\');
    assert_eq!(mobile_glyph(arrow((10, 10), (15, 5))), '/');
    assert_eq!(mobile_glyph(arrow((10, 10), (5, 15))), '/');
    assert_eq!(mobile_glyph(arrow((10, 10), (13, 20))), '\\');
    assert_eq!(mobile_glyph(arrow((10, 10), (12, 20))), '|');
}

#[test]
fn arrow_glyph_agrees_with_three_tenths_in_floating_point() {
    for dx in 0..63usize {
        for dy in 0..63usize {
            for dir in [(true, true), (true, false), (false, true), (false, false)] {
                let info = ArrowInfo { dx, dy, dir, ..ArrowInfo::aimed((0, 0), (1, 1), 1, 1) };
                let expected = if (dx as f64) < 0.3 * dy as f64 {
                    '|'
                } else if (dy as f64) < 0.3 * dx as f64 {
                    '-'
                } else if dir.0 == dir.1 {
                    '\\'
                } else {
                    '/'
                };
                assert_eq!(mobile_glyph(Mobile::Arrow { info }), expected, "{} {}", dx, dy);
            }
        }
    }
}
