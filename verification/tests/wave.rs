use thing_protector::model::{FiendInfo, FiendName};
use thing_protector::wave::{
    build_fiend, can_pay, choices_for, enlist, log_round, make_boss, make_fiend, make_fiend_from,
    make_wave, max_types, species, variants, wave_points, LAST_WAVE, MIN_POINTS,
};

fn cost_of(roster: &[FiendInfo]) -> usize {
    roster.iter().map(|f| f.value).sum()
}

#[test]
fn log_round_is_the_rounded_natural_logarithm() {
    for wave in 1..=200_000usize {
        let expected = (wave as f64).ln().round() as usize;
        assert_eq!(log_round(wave), expected, "wave {}", wave);
    }
    let turns = [
        268_337usize,
        729_416,
        1_982_759,
        5_389_698,
        14_650_719,
        39_824_784,
        108_254_987,
    ];
    for turn in turns {
        for wave in turn - 2_000..turn + 2_000 {
            let expected = (wave as f64).ln().round() as usize;
            assert_eq!(log_round(wave), expected, "wave {}", wave);
        }
    }
    let mut wave = 1usize;
    while wave <= LAST_WAVE {
        let expected = (wave as f64).ln().round() as usize;
        assert_eq!(log_round(wave), expected, "wave {}", wave);
        wave += 9_973;
    }
    assert_eq!(log_round(LAST_WAVE), 19);
    assert_eq!(log_round(0), 0);
}

#[test]
fn wave_points_grow_with_the_wave() {
    assert_eq!(wave_points(0), 25);
    assert_eq!(wave_points(1), 25);
    assert_eq!(wave_points(2), 27);
    assert_eq!(wave_points(4), 29);
    assert_eq!(wave_points(5), 35);
    assert_eq!(wave_points(10), 45);
    assert_eq!(wave_points(13), 64);
    assert_eq!(wave_points(100), 525);
    assert_eq!(wave_points(10_000), 90_025);
    assert_eq!(wave_points(13_359), 120_256);
    assert_eq!(wave_points(13_360), 133_625);
    assert_eq!(wave_points(36_316), 399_501);
    assert_eq!(wave_points(90_906), 999_991);
    assert_eq!(wave_points(90_907), 1_000_002);
    assert_eq!(wave_points(LAST_WAVE), 4_294_967_277);
    let mut last = 0;
    for wave in 0..=200_000 {
        let points = wave_points(wave);
        assert!(points >= last);
        last = points;
    }
}

#[test]
fn max_types_follows_the_wave() {
    assert_eq!(max_types(1), 1);
    assert_eq!(max_types(2), 2);
    assert_eq!(max_types(4), 2);
    assert_eq!(max_types(5), 3);
    assert_eq!(max_types(14), 3);
    assert_eq!(max_types(15), 5);
    assert_eq!(max_types(29), 5);
    assert_eq!(max_types(30), 10);
    assert_eq!(max_types(1000), 10);
}

#[test]
fn can_pay_compares_the_scaled_cost_with_the_points() {
    assert!(can_pay(15, 1, 8));
    assert!(!can_pay(15, 1, 7));
    assert!(can_pay(15, 2, 15));
    assert!(!can_pay(15, 2, 14));
    assert!(can_pay(150, 10, 750));
    assert!(!can_pay(150, 10, 749));
    assert!(!can_pay(usize::MAX, usize::MAX, usize::MAX));
    assert!(can_pay(0, usize::MAX, 0));
}

#[test]
fn choices_list_what_can_be_afforded() {
    let none: Vec<&'static str> = vec![];
    assert_eq!(choices_for(7, &species(), &variants(), &none), vec![]);
    assert_eq!(
        choices_for(8, &species(), &variants(), &none),
        vec![
            ('k', FiendName { prefix: "lesser ", name: "kobold", suffix: None }),
            ('w', FiendName { prefix: "lesser ", name: "waynhim", suffix: None })
        ]
    );
    let at_forty = choices_for(40, &species(), &variants(), &none);
    assert_eq!(at_forty.len(), 7);
    assert_eq!(at_forty[2], ('k', FiendName { prefix: "greater ", name: "kobold", suffix: None }));
    assert_eq!(at_forty[6], ('d', FiendName { prefix: "lesser ", name: "demondim", suffix: None }));
    let adorned = choices_for(8, &species(), &variants(), &vec![" the Grim", "-in"]);
    assert_eq!(adorned.len(), 6);
    assert_eq!(
        adorned[1],
        ('k', FiendName { prefix: "lesser ", name: "kobold", suffix: Some(" the Grim") })
    );
    assert_eq!(
        adorned[5],
        ('w', FiendName { prefix: "lesser ", name: "waynhim", suffix: Some("-in") })
    );
    assert_eq!(choices_for(1000, &species(), &variants(), &none).len(), 20);
}

#[test]
fn build_fiend_puts_all_points_to_use() {
    let name = FiendName { prefix: "ur-", name: "vile", suffix: None };
    let fiend = build_fiend(500, ('v', name), 200, (75, 10, 5, 6));
    assert_eq!(
        fiend,
        FiendInfo {
            ch: 'v',
            name,
            health: 500,
            max_health: 500,
            damage_factor: 200,
            armour_factor: 300,
            player_target_distance: 75,
            goal_target_distance: 10,
            turret_target_distance: 5,
            obstacle_target_distance: 6,
            value: 500,
        }
    );
}

#[test]
fn make_fiend_needs_the_least_cost() {
    for points in 0..MIN_POINTS {
        assert_eq!(make_fiend(points), None);
    }
    for points in MIN_POINTS..200 {
        for _ in 0..20 {
            let fiend = make_fiend(points).unwrap();
            assert_eq!(fiend.health, points);
            assert_eq!(fiend.max_health, points);
            assert_eq!(fiend.value, points);
            assert!(points / 3 <= fiend.damage_factor && fiend.damage_factor <= points);
            assert_eq!(fiend.armour_factor, points - fiend.damage_factor);
            assert!(fiend.is_valid());
            let role = (
                fiend.player_target_distance,
                fiend.goal_target_distance,
                fiend.turret_target_distance,
                fiend.obstacle_target_distance,
            );
            assert!([(75, 10, 5, 5), (10, 75, 5, 5), (5, 5, 25, 25)].contains(&role));
            assert_eq!(fiend.name.suffix, None);
            let cost = match fiend.name.name {
                "kobold" => {
                    assert_eq!(fiend.ch, 'k');
                    15
                }
                "waynhim" => {
                    assert_eq!(fiend.ch, 'w');
                    15
                }
                "demondim" => {
                    assert_eq!(fiend.ch, 'd');
                    75
                }
                "vile" => {
                    assert_eq!(fiend.ch, 'v');
                    100
                }
                "giant" => {
                    assert_eq!(fiend.ch, 'G');
                    150
                }
                other => panic!("unknown species {}", other),
            };
            let halves = match fiend.name.prefix {
                "lesser " => 1,
                "" => 2,
                "greater " => 4,
                "ur-" => 10,
                other => panic!("unknown variant {}", other),
            };
            assert!(cost * halves <= 2 * points);
        }
    }
}

#[test]
fn make_fiend_from_finds_nothing_in_empty_tables() {
    let roles = vec![(1, 2, 3, 4)];
    assert_eq!(make_fiend_from(100, &vec![], &variants(), &vec![], &roles), None);
    assert_eq!(make_fiend_from(100, &species(), &vec![], &vec![], &roles), None);
    let one = make_fiend_from(100, &vec![(7, 'x', "thing")], &vec![(2, "the ")], &vec![], &roles).unwrap();
    assert_eq!(one.ch, 'x');
    assert_eq!(one.name, FiendName { prefix: "the ", name: "thing", suffix: None });
    assert_eq!(one.player_target_distance, 1);
    assert_eq!(one.obstacle_target_distance, 4);
}

#[test]
fn make_boss_is_great_every_tenth_wave() {
    assert_eq!(make_boss(29, 10), None);
    assert_eq!(make_boss(14, 5), None);
    for _ in 0..50 {
        let boss = make_boss(45, 10).unwrap();
        assert_eq!(boss.value, 45);
        assert!(["Immolator", "Behemoth"].contains(&boss.name.name));
        assert!(["ak-Haru ", "Lord ", "Ur-Lord ", "Darth ", "na-Mhoram "].contains(&boss.name.prefix));
        if let Some(suffix) = boss.name.suffix {
            assert!(
                [" the Despirer", " the Appointed", " the Guardian", " the Grim", "-cro", "-in"]
                    .contains(&suffix)
            );
        }
        let role = (
            boss.player_target_distance,
            boss.goal_target_distance,
            boss.turret_target_distance,
            boss.obstacle_target_distance,
        );
        assert!([(150, 5, 5, 5), (5, 150, 5, 5), (5, 5, 150, 150)].contains(&role));
        let boss = make_boss(35, 5).unwrap();
        assert_eq!(boss.value, 35);
        assert!(["kobold", "waynhim"].contains(&boss.name.name));
        assert!(["great ", "potent ", "dark ", "mighty ", "grim "].contains(&boss.name.prefix));
        assert_eq!(boss.name.suffix, None);
    }
}

#[test]
fn enlist_buys_as_many_as_the_points_pay_for() {
    let fiend = make_fiend(10).unwrap();
    let mut roster = vec![];
    assert_eq!(enlist(&mut roster, fiend, 35, 10), 5);
    assert_eq!(roster, vec![fiend, fiend, fiend]);
    assert_eq!(enlist(&mut roster, fiend, 9, 10), 9);
    assert_eq!(roster.len(), 3);
    assert_eq!(enlist(&mut roster, fiend, 10, 10), 0);
    assert_eq!(roster.len(), 4);
}

#[test]
fn wave_ten_is_one_creature_worth_the_whole_budget() {
    for _ in 0..50 {
        let roster = make_wave(10);
        assert_eq!(roster.len(), 1);
        assert_eq!(roster[0].value, 45);
        assert_eq!(roster[0].value, wave_points(10));
        assert_eq!(roster[0].health, 45);
        assert!(["Immolator", "Behemoth"].contains(&roster[0].name.name));
    }
}

#[test]
fn every_fifth_wave_is_one_boss() {
    for wave in [5, 15, 25, 35, 95] {
        let roster = make_wave(wave);
        assert_eq!(roster.len(), 1);
        assert_eq!(roster[0].value, wave_points(wave));
        assert!(["great ", "potent ", "dark ", "mighty ", "grim "].contains(&roster[0].name.prefix));
    }
    for wave in [20, 30, 100] {
        let roster = make_wave(wave);
        assert_eq!(roster.len(), 1);
        assert_eq!(roster[0].value, wave_points(wave));
        assert!(roster[0].name.prefix.ends_with(' '));
    }
}

#[test]
fn a_roster_never_costs_more_than_the_wave_has_points() {
    for wave in 1..=120 {
        for _ in 0..20 {
            let roster = make_wave(wave);
            assert!(!roster.is_empty());
            assert!(cost_of(&roster) <= wave_points(wave), "wave {}", wave);
            assert!(
                wave_points(wave) - cost_of(&roster) < roster.last().unwrap().value,
                "wave {}",
                wave
            );
            for fiend in &roster {
                assert!(fiend.is_valid());
                assert_eq!(fiend.health, fiend.max_health);
                assert_eq!(fiend.max_health, fiend.value);
                assert!(fiend.value >= MIN_POINTS);
                assert_eq!(fiend.damage_factor + fiend.armour_factor, fiend.value);
            }
            if wave % 5 != 0 {
                let mut kinds = roster.clone();
                kinds.dedup();
                assert!(kinds.len() <= max_types(wave), "wave {}", wave);
            }
        }
    }
}

#[test]
fn the_last_wave_can_be_drawn() {
    let roster = make_wave(90_905);
    assert_eq!(roster.len(), 1);
    assert_eq!(roster[0].value, 999_980);
    assert!(roster[0].is_valid());
    let roster = make_wave(90_906);
    assert!(cost_of(&roster) <= 999_991);
    for fiend in &roster {
        assert!(fiend.is_valid());
    }
    let roster = make_wave(226_050_905);
    assert_eq!(roster.len(), 1);
    assert_eq!(roster[0].value, 4_294_967_220);
    assert_eq!(roster[0].health, 4_294_967_220);
    assert!(!roster[0].is_valid());
}

#[test]
fn draws_vary_within_their_bounds() {
    let mut damages = std::collections::BTreeSet::new();
    let mut names = std::collections::BTreeSet::new();
    let mut roles = std::collections::BTreeSet::new();
    for _ in 0..300 {
        let fiend = make_fiend(300).unwrap();
        assert!(100 <= fiend.damage_factor && fiend.damage_factor <= 300);
        damages.insert(fiend.damage_factor);
        names.insert(fiend.name);
        roles.insert(fiend.goal_target_distance);
    }
    assert!(damages.len() > 1);
    assert!(names.len() > 1);
    assert!(roles.len() > 1);
}
