//! The waves of creatures: how many points a wave may spend, which
//! creatures can be had for how many points, and how a wave is drawn.

use crate::model::{all_fit, FiendInfo, FiendName, HEALTH_LIMIT};
use rand::Rng;
use vstd::prelude::*;

verus! {

/// The least that a creature costs.
pub const MIN_POINTS: usize = 8;

/// The last wave whose creatures keep within the health limit.
pub const MAX_WAVE: usize = 90_906;

/// The last wave whose points can be counted on every machine: they fit in
/// 32 bits.
pub const LAST_WAVE: usize = 226_050_908;

/// The natural logarithm of a wave's number, rounded to the nearest whole
/// number, for waves up to `LAST_WAVE`.
pub open spec fn spec_log_round(wave: usize) -> usize {
    if wave <= 1 {
        0
    } else if wave <= 4 {
        1
    } else if wave <= 12 {
        2
    } else if wave <= 33 {
        3
    } else if wave <= 90 {
        4
    } else if wave <= 244 {
        5
    } else if wave <= 665 {
        6
    } else if wave <= 1808 {
        7
    } else if wave <= 4914 {
        8
    } else if wave <= 13359 {
        9
    } else if wave <= 36315 {
        10
    } else if wave <= 98715 {
        11
    } else if wave <= 268337 {
        12
    } else if wave <= 729416 {
        13
    } else if wave <= 1982759 {
        14
    } else if wave <= 5389698 {
        15
    } else if wave <= 14650719 {
        16
    } else if wave <= 39824784 {
        17
    } else if wave <= 108254987 {
        18
    } else {
        19
    }
}

/// The points that a wave may spend on creatures.
pub open spec fn spec_wave_points(wave: usize) -> int {
    25 + wave * spec_log_round(wave)
}

pub fn log_round(wave: usize) -> (r: usize)
    requires
        wave <= LAST_WAVE,
    ensures
        r == spec_log_round(wave),
{
    if wave <= 1 {
        0
    } else if wave <= 4 {
        1
    } else if wave <= 12 {
        2
    } else if wave <= 33 {
        3
    } else if wave <= 90 {
        4
    } else if wave <= 244 {
        5
    } else if wave <= 665 {
        6
    } else if wave <= 1808 {
        7
    } else if wave <= 4914 {
        8
    } else if wave <= 13359 {
        9
    } else if wave <= 36315 {
        10
    } else if wave <= 98715 {
        11
    } else if wave <= 268337 {
        12
    } else if wave <= 729416 {
        13
    } else if wave <= 1982759 {
        14
    } else if wave <= 5389698 {
        15
    } else if wave <= 14650719 {
        16
    } else if wave <= 39824784 {
        17
    } else if wave <= 108254987 {
        18
    } else {
        19
    }
}

/// The budget grows with the wave. It fits in 32 bits, and up to `MAX_WAVE`
/// it stays within the health limit.
pub proof fn lemma_wave_points_bounds(wave: usize)
    requires
        wave <= LAST_WAVE,
    ensures
        25 <= spec_wave_points(wave) <= 25 + 19 * LAST_WAVE,
        wave <= MAX_WAVE ==> spec_wave_points(wave) <= HEALTH_LIMIT,
        wave >= 2 ==> spec_wave_points(wave) >= 25 + wave,
        wave >= 5 ==> spec_wave_points(wave) >= 25 + 2 * wave,
        wave >= 13 ==> spec_wave_points(wave) >= 25 + 3 * wave,
{
    let k = spec_log_round(wave);
    assert(0 <= wave * k <= 19 * wave) by (nonlinear_arith)
        requires
            0 <= k <= 19,
            0 <= wave,
    ;
    assert(wave <= MAX_WAVE ==> wave * k <= 11 * wave) by (nonlinear_arith)
        requires
            wave <= MAX_WAVE ==> k <= 11,
            0 <= wave,
            0 <= k,
    ;
    assert(wave >= 2 ==> wave * k >= wave) by (nonlinear_arith)
        requires
            wave >= 2 ==> k >= 1,
            0 <= wave,
    ;
    assert(wave >= 5 ==> wave * k >= 2 * wave) by (nonlinear_arith)
        requires
            wave >= 5 ==> k >= 2,
            0 <= wave,
    ;
    assert(wave >= 13 ==> wave * k >= 3 * wave) by (nonlinear_arith)
        requires
            wave >= 13 ==> k >= 3,
            0 <= wave,
    ;
}

/// A later wave never has fewer points.
pub proof fn lemma_wave_points_monotonic(a: usize, b: usize)
    requires
        a <= b <= LAST_WAVE,
    ensures
        spec_wave_points(a) <= spec_wave_points(b),
{
    let ka = spec_log_round(a);
    let kb = spec_log_round(b);
    assert(a * ka <= b * kb) by (nonlinear_arith)
        requires
            0 <= a <= b,
            0 <= ka <= kb,
    ;
}

/// The points that a wave may spend on creatures.
pub fn wave_points(wave: usize) -> (points: usize)
    requires
        wave <= LAST_WAVE,
    ensures
        points == spec_wave_points(wave),
{
    let k: usize = log_round(wave);
    proof {
        lemma_wave_points_bounds(wave);
    }
    25 + wave * k
}

/// Draws a number from `lo` up to, but not including, `hi`, by
/// `rand::Rng::gen_range` on `rand::thread_rng()`. Which number comes is
/// left open; `gen_range` panics unless `lo < hi`.
#[verifier::external_body]
pub(crate) fn gen_range(lo: usize, hi: usize) -> (r: usize)
    requires
        lo < hi,
    ensures
        lo <= r < hi,
{
    rand::thread_rng().gen_range(lo, hi)
}

/// The species of ordinary creatures: the least cost, the glyph and the name
/// of each.
pub open spec fn spec_species() -> Seq<(usize, char, &'static str)> {
    seq![
        (15usize, 'k', "kobold"),
        (15usize, 'w', "waynhim"),
        (75usize, 'd', "demondim"),
        (100usize, 'v', "vile"),
        (150usize, 'G', "giant"),
    ]
}

pub fn species() -> (t: Vec<(usize, char, &'static str)>)
    ensures
        t@ == spec_species(),
{
    vec![
        (15usize, 'k', "kobold"),
        (15usize, 'w', "waynhim"),
        (75usize, 'd', "demondim"),
        (100usize, 'v', "vile"),
        (150usize, 'G', "giant"),
    ]
}

/// The species of the great bosses.
pub open spec fn spec_bigboss_species() -> Seq<(usize, char, &'static str)> {
    seq![
        (30usize, 'I', "Immolator"),
        (30usize, 'B', "Behemoth"),
        (80usize, 'M', "Morgoth"),
        (80usize, 'K', "Kenaustin Ardenol"),
        (120usize, 'F', "Findail"),
        (120usize, 'V', "Vain"),
        (170usize, 'C', "Covenant"),
        (170usize, 'F', "Foul"),
    ]
}

pub fn bigboss_species() -> (t: Vec<(usize, char, &'static str)>)
    ensures
        t@ == spec_bigboss_species(),
{
    vec![
        (30usize, 'I', "Immolator"),
        (30usize, 'B', "Behemoth"),
        (80usize, 'M', "Morgoth"),
        (80usize, 'K', "Kenaustin Ardenol"),
        (120usize, 'F', "Findail"),
        (120usize, 'V', "Vain"),
        (170usize, 'C', "Covenant"),
        (170usize, 'F', "Foul"),
    ]
}

/// The variants of ordinary creatures: by how many halves each scales the
/// least cost of a species, and its title.
pub open spec fn spec_variants() -> Seq<(usize, &'static str)> {
    seq![(1usize, "lesser "), (2usize, ""), (4usize, "greater "), (10usize, "ur-")]
}

pub fn variants() -> (t: Vec<(usize, &'static str)>)
    ensures
        t@ == spec_variants(),
{
    vec![(1usize, "lesser "), (2usize, ""), (4usize, "greater "), (10usize, "ur-")]
}

/// The variants of bosses.
pub open spec fn spec_boss_variants() -> Seq<(usize, &'static str)> {
    seq![
        (2usize, "great "),
        (2usize, "potent "),
        (2usize, "dark "),
        (2usize, "mighty "),
        (2usize, "grim "),
    ]
}

pub fn boss_variants() -> (t: Vec<(usize, &'static str)>)
    ensures
        t@ == spec_boss_variants(),
{
    vec![
        (2usize, "great "),
        (2usize, "potent "),
        (2usize, "dark "),
        (2usize, "mighty "),
        (2usize, "grim "),
    ]
}

/// The variants of the great bosses.
pub open spec fn spec_bigboss_variants() -> Seq<(usize, &'static str)> {
    seq![
        (2usize, "ak-Haru "),
        (2usize, "Lord "),
        (2usize, "Ur-Lord "),
        (2usize, "Darth "),
        (2usize, "na-Mhoram "),
    ]
}

pub fn bigboss_variants() -> (t: Vec<(usize, &'static str)>)
    ensures
        t@ == spec_bigboss_variants(),
{
    vec![
        (2usize, "ak-Haru "),
        (2usize, "Lord "),
        (2usize, "Ur-Lord "),
        (2usize, "Darth "),
        (2usize, "na-Mhoram "),
    ]
}

/// The epithets of the great bosses.
pub open spec fn bigboss_suffixes_spec() -> Seq<&'static str> {
    seq![" the Despirer", " the Appointed", " the Guardian", " the Grim", "-cro", "-in"]
}

pub fn bigboss_suffixes() -> (t: Vec<&'static str>)
    ensures
        t@ == bigboss_suffixes_spec(),
{
    vec![" the Despirer", " the Appointed", " the Guardian", " the Grim", "-cro", "-in"]
}

/// The roles of ordinary creatures: within which distance each goes for the
/// player, the goal, a turret and an obstacle.
pub open spec fn spec_archetypes() -> Seq<(usize, usize, usize, usize)> {
    seq![
        (75usize, 10usize, 5usize, 5usize),
        (10usize, 75usize, 5usize, 5usize),
        (5usize, 5usize, 25usize, 25usize),
    ]
}

pub fn archetypes() -> (t: Vec<(usize, usize, usize, usize)>)
    ensures
        t@ == spec_archetypes(),
{
    vec![
        (75usize, 10usize, 5usize, 5usize),
        (10usize, 75usize, 5usize, 5usize),
        (5usize, 5usize, 25usize, 25usize),
    ]
}

/// The roles of bosses.
pub open spec fn spec_boss_archetypes() -> Seq<(usize, usize, usize, usize)> {
    seq![
        (150usize, 5usize, 5usize, 5usize),
        (5usize, 150usize, 5usize, 5usize),
        (5usize, 5usize, 150usize, 150usize),
    ]
}

pub fn boss_archetypes() -> (t: Vec<(usize, usize, usize, usize)>)
    ensures
        t@ == spec_boss_archetypes(),
{
    vec![
        (150usize, 5usize, 5usize, 5usize),
        (5usize, 150usize, 5usize, 5usize),
        (5usize, 5usize, 150usize, 150usize),
    ]
}

/// A species in a variant can be had for `points`: its least cost, scaled by
/// the variant's halves, is within them.
pub open spec fn affordable(min_cost: usize, halves: usize, points: usize) -> bool {
    min_cost * halves <= 2 * points
}

pub fn can_pay(min_cost: usize, halves: usize, points: usize) -> (r: bool)
    ensures
        r == affordable(min_cost, halves, points),
{
    let wide_cost: u128 = min_cost as u128;
    let wide_halves: u128 = halves as u128;
    let wide_points: u128 = points as u128;
    assert(wide_cost * wide_halves <= 0xffff_ffff_ffff_ffff * 0xffff_ffff_ffff_ffff) by (nonlinear_arith)
        requires
            0 <= wide_cost <= 0xffff_ffff_ffff_ffff,
            0 <= wide_halves <= 0xffff_ffff_ffff_ffff,
    ;
    wide_cost * wide_halves <= 2 * wide_points
}

/// Some species in some variant can be had for `points`.
pub open spec fn can_afford(
    points: usize,
    species: Seq<(usize, char, &'static str)>,
    variants: Seq<(usize, &'static str)>,
) -> bool {
    exists|s: int, v: int|
        0 <= s < species.len() && 0 <= v < variants.len() && affordable(
            (#[trigger] species[s]).0,
            (#[trigger] variants[v]).0,
            points,
        )
}

/// `c` is the glyph and name of a creature of one species in one variant
/// that can be had for `points`, with or without one of the epithets.
pub open spec fn is_choice_of(
    c: (char, FiendName),
    points: usize,
    species: (usize, char, &'static str),
    variant: (usize, &'static str),
    suffixes: Seq<&'static str>,
) -> bool {
    &&& affordable(species.0, variant.0, points)
    &&& c.0 == species.1
    &&& c.1.name == species.2
    &&& c.1.prefix == variant.1
    &&& c.1.suffix matches Some(d) ==> suffixes.contains(d)
}

/// `c` is the glyph and name of a creature that can be had for `points`: an
/// affordable species in an affordable variant of it, with or without one of
/// the epithets.
pub open spec fn is_choice(
    c: (char, FiendName),
    points: usize,
    species: Seq<(usize, char, &'static str)>,
    variants: Seq<(usize, &'static str)>,
    suffixes: Seq<&'static str>,
) -> bool {
    exists|s: int, v: int|
        0 <= s < species.len() && 0 <= v < variants.len() && is_choice_of(
            c,
            points,
            #[trigger] species[s],
            #[trigger] variants[v],
            suffixes,
        )
}

/// Every choice of the species and variants before the `s`-th species, and
/// of the `s`-th species in the variants before the `v`-th, is in `choices`.
pub open spec fn choices_cover(
    choices: Seq<(char, FiendName)>,
    points: usize,
    species: Seq<(usize, char, &'static str)>,
    variants: Seq<(usize, &'static str)>,
    suffixes: Seq<&'static str>,
    s: int,
    v: int,
) -> bool {
    forall|c: (char, FiendName), a: int, b: int|
        0 <= a < species.len() && 0 <= b < variants.len() && (a < s || (a == s && b < v))
            && is_choice_of(c, points, #[trigger] species[a], #[trigger] variants[b], suffixes)
            ==> #[trigger] choices.contains(c)
}

/// A longer list covers what a list covers that it begins with.
proof fn lemma_cover_grows(
    before: Seq<(char, FiendName)>,
    choices: Seq<(char, FiendName)>,
    points: usize,
    species: Seq<(usize, char, &'static str)>,
    variants: Seq<(usize, &'static str)>,
    suffixes: Seq<&'static str>,
    s: int,
    v: int,
)
    requires
        choices_cover(before, points, species, variants, suffixes, s, v),
        before.len() <= choices.len(),
        forall|i: int| 0 <= i < before.len() ==> before[i] == choices[i],
    ensures
        choices_cover(choices, points, species, variants, suffixes, s, v),
{
    assert forall|c: (char, FiendName), a: int, b: int|
        0 <= a < species.len() && 0 <= b < variants.len() && (a < s || (a == s && b < v))
            && is_choice_of(
            c,
            points,
            #[trigger] species[a],
            #[trigger] variants[b],
            suffixes,
        ) implies #[trigger] choices.contains(c) by {
        assert(before.contains(c));
        let i = choose|i: int| 0 <= i < before.len() && before[i] == c;
        assert(choices[i] == c);
    }
}

/// The creatures that can be had for `points`, by glyph and name: every
/// affordable species in every affordable variant of it, without an epithet
/// and with each of the epithets. There is none exactly if no species can be
/// afforded in any variant.
pub fn choices_for(
    points: usize,
    species: &Vec<(usize, char, &'static str)>,
    variants: &Vec<(usize, &'static str)>,
    suffixes: &Vec<&'static str>,
) -> (choices: Vec<(char, FiendName)>)
    ensures
        forall|c: (char, FiendName)|
            #[trigger] choices@.contains(c) <==> is_choice(
                c,
                points,
                species@,
                variants@,
                suffixes@,
            ),
        choices@.len() == 0 <==> !can_afford(points, species@, variants@),
{
    let mut choices: Vec<(char, FiendName)> = Vec::new();
    let mut s: usize = 0;
    while s < species.len()
        invariant
            s <= species@.len(),
            forall|i: int|
                0 <= i < choices@.len() ==> is_choice(
                    #[trigger] choices@[i],
                    points,
                    species@,
                    variants@,
                    suffixes@,
                ),
            choices_cover(choices@, points, species@, variants@, suffixes@, s as int, 0),
        decreases species@.len() - s,
    {
        let (min_cost, ch, name) = species[s];
        let mut v: usize = 0;
        while v < variants.len()
            invariant
                s < species@.len(),
                v <= variants@.len(),
                species@[s as int] == (min_cost, ch, name),
                forall|i: int|
                    0 <= i < choices@.len() ==> is_choice(
                        #[trigger] choices@[i],
                        points,
                        species@,
                        variants@,
                        suffixes@,
                    ),
                choices_cover(choices@, points, species@, variants@, suffixes@, s as int, v as int),
            decreases variants@.len() - v,
        {
            let (halves, title) = variants[v];
            let ghost at_pair = choices@;
            if can_pay(min_cost, halves, points) {
                let plain = (ch, FiendName { prefix: title, name, suffix: None });
                assert(is_choice(plain, points, species@, variants@, suffixes@)) by {
                    assert(is_choice_of(
                        plain,
                        points,
                        species@[s as int],
                        variants@[v as int],
                        suffixes@,
                    ));
                }
                choices.push(plain);
                assert(choices@[choices@.len() - 1] == plain);
                let mut d: usize = 0;
                while d < suffixes.len()
                    invariant
                        s < species@.len(),
                        v < variants@.len(),
                        d <= suffixes@.len(),
                        species@[s as int] == (min_cost, ch, name),
                        variants@[v as int] == (halves, title),
                        affordable(min_cost, halves, points),
                        at_pair.len() < choices@.len(),
                        forall|i: int| 0 <= i < at_pair.len() ==> at_pair[i] == choices@[i],
                        forall|i: int|
                            0 <= i < choices@.len() ==> is_choice(
                                #[trigger] choices@[i],
                                points,
                                species@,
                                variants@,
                                suffixes@,
                            ),
                        choices@.contains((ch, FiendName { prefix: title, name, suffix: None })),
                        forall|e: int|
                            0 <= e < d ==> choices@.contains(
                                (
                                    ch,
                                    FiendName {
                                        prefix: title,
                                        name,
                                        suffix: Some(#[trigger] suffixes@[e]),
                                    },
                                ),
                            ),
                    decreases suffixes@.len() - d,
                {
                    let descriptor = suffixes[d];
                    let adorned = (ch, FiendName { prefix: title, name, suffix: Some(descriptor) });
                    assert(is_choice(adorned, points, species@, variants@, suffixes@)) by {
                        assert(suffixes@[d as int] == descriptor);
                        assert(is_choice_of(
                            adorned,
                            points,
                            species@[s as int],
                            variants@[v as int],
                            suffixes@,
                        ));
                    }
                    let ghost before = choices@;
                    choices.push(adorned);
                    proof {
                        assert forall|c: (char, FiendName)| before.contains(c) implies choices@.contains(
                            c,
                        ) by {
                            vstd::seq_lib::lemma_seq_contains_after_push(before, adorned, c);
                        }
                        vstd::seq_lib::lemma_seq_contains_after_push(before, adorned, adorned);
                    }
                    d = d + 1;
                }
            }
            proof {
                lemma_cover_grows(
                    at_pair,
                    choices@,
                    points,
                    species@,
                    variants@,
                    suffixes@,
                    s as int,
                    v as int,
                );
                assert forall|c: (char, FiendName), a: int, b: int|
                    0 <= a < species@.len() && 0 <= b < variants@.len() && (a < s || (a == s && b < v
                        + 1)) && is_choice_of(
                        c,
                        points,
                        #[trigger] species@[a],
                        #[trigger] variants@[b],
                        suffixes@,
                    ) implies #[trigger] choices@.contains(c) by {
                    if a == s && b == v {
                        match c.1.suffix {
                            Some(descriptor) => {
                                let e = choose|e: int|
                                    0 <= e < suffixes@.len() && suffixes@[e] == descriptor;
                                assert(c == (
                                    ch,
                                    FiendName { prefix: title, name, suffix: Some(suffixes@[e]) },
                                ));
                            },
                            None => {
                                assert(c == (ch, FiendName { prefix: title, name, suffix: None }));
                            },
                        }
                    }
                }
            }
            v = v + 1;
        }
        s = s + 1;
    }
    proof {
        assert forall|c: (char, FiendName)|
            is_choice(c, points, species@, variants@, suffixes@) implies #[trigger] choices@.contains(
            c,
        ) by {
            let (a, b) = choose|a: int, b: int|
                0 <= a < species@.len() && 0 <= b < variants@.len() && is_choice_of(
                    c,
                    points,
                    #[trigger] species@[a],
                    #[trigger] variants@[b],
                    suffixes@,
                );
            assert(is_choice_of(c, points, species@[a], variants@[b], suffixes@));
        }
        if choices@.len() > 0 {
            let c = choices@[0];
            assert(is_choice(c, points, species@, variants@, suffixes@));
            let (a, b) = choose|a: int, b: int|
                0 <= a < species@.len() && 0 <= b < variants@.len() && is_choice_of(
                    c,
                    points,
                    #[trigger] species@[a],
                    #[trigger] variants@[b],
                    suffixes@,
                );
            assert(affordable(species@[a].0, variants@[b].0, points));
        } else {
            assert forall|a: int, b: int|
                0 <= a < species@.len() && 0 <= b < variants@.len() implies !affordable(
                (#[trigger] species@[a]).0,
                (#[trigger] variants@[b]).0,
                points,
            ) by {
                let c = (species@[a].1, FiendName {
                    prefix: variants@[b].1,
                    name: species@[a].2,
                    suffix: None,
                });
                if affordable(species@[a].0, variants@[b].0, points) {
                    assert(is_choice_of(c, points, species@[a], variants@[b], suffixes@));
                    assert(choices@.contains(c));
                }
            }
        }
    }
    choices
}

/// The creature that `points` buy, once its glyph and name, its damage
/// factor and its role are drawn: all points go into its health, they are
/// split between damage and armour, and they are what it is worth.
pub open spec fn spec_build_fiend(
    points: usize,
    choice: (char, FiendName),
    damage_factor: usize,
    archetype: (usize, usize, usize, usize),
) -> FiendInfo {
    FiendInfo {
        ch: choice.0,
        name: choice.1,
        health: points,
        max_health: points,
        damage_factor,
        armour_factor: (points - damage_factor) as usize,
        player_target_distance: archetype.0,
        goal_target_distance: archetype.1,
        turret_target_distance: archetype.2,
        obstacle_target_distance: archetype.3,
        value: points,
    }
}

/// The creature that `points` buy, once its glyph and name, its damage
/// factor and its role are drawn.
pub fn build_fiend(
    points: usize,
    choice: (char, FiendName),
    damage_factor: usize,
    archetype: (usize, usize, usize, usize),
) -> (fiend: FiendInfo)
    requires
        damage_factor <= points,
    ensures
        fiend == spec_build_fiend(points, choice, damage_factor, archetype),
{
    FiendInfo {
        ch: choice.0,
        name: choice.1,
        health: points,
        max_health: points,
        damage_factor,
        armour_factor: points - damage_factor,
        player_target_distance: archetype.0,
        goal_target_distance: archetype.1,
        turret_target_distance: archetype.2,
        obstacle_target_distance: archetype.3,
        value: points,
    }
}

/// `fiend` is a creature that `points` buy from these tables: one of the
/// choices, at full health, worth its points, with a damage factor between a
/// third of them and all of them, the rest in armour, in one of the roles.
pub open spec fn made_from(
    fiend: FiendInfo,
    points: usize,
    species: Seq<(usize, char, &'static str)>,
    variants: Seq<(usize, &'static str)>,
    suffixes: Seq<&'static str>,
    archetypes: Seq<(usize, usize, usize, usize)>,
) -> bool {
    &&& is_choice((fiend.ch, fiend.name), points, species, variants, suffixes)
    &&& fiend.health == points
    &&& fiend.max_health == points
    &&& fiend.value == points
    &&& points / 3 <= fiend.damage_factor <= points
    &&& fiend.armour_factor == points - fiend.damage_factor
    &&& archetypes.contains(
        (
            fiend.player_target_distance,
            fiend.goal_target_distance,
            fiend.turret_target_distance,
            fiend.obstacle_target_distance,
        ),
    )
}

/// Draws a creature for `points` from the given tables; none if nothing in
/// them can be afforded.
pub fn make_fiend_from(
    points: usize,
    species: &Vec<(usize, char, &'static str)>,
    variants: &Vec<(usize, &'static str)>,
    suffixes: &Vec<&'static str>,
    archetypes: &Vec<(usize, usize, usize, usize)>,
) -> (r: Option<FiendInfo>)
    requires
        points < usize::MAX,
        archetypes@.len() > 0,
    ensures
        r is None <==> !can_afford(points, species@, variants@),
        r matches Some(fiend) ==> made_from(
            fiend,
            points,
            species@,
            variants@,
            suffixes@,
            archetypes@,
        ),
{
    let choices = choices_for(points, species, variants, suffixes);
    if choices.len() == 0 {
        return None;
    }
    let choice = choices[gen_range(0, choices.len())];
    assert(choices@.contains(choice));
    let damage_factor: usize = gen_range(points / 3, 1 + points);
    let archetype = archetypes[gen_range(0, archetypes.len())];
    assert(archetypes@.contains(archetype));
    Some(build_fiend(points, choice, damage_factor, archetype))
}

/// Draws an ordinary creature for `points`.
pub fn make_fiend(points: usize) -> (r: Option<FiendInfo>)
    requires
        points < usize::MAX,
    ensures
        r is None <==> points < MIN_POINTS,
        r matches Some(fiend) ==> made_from(
            fiend,
            points,
            spec_species(),
            spec_variants(),
            Seq::empty(),
            spec_archetypes(),
        ),
{
    proof {
        lemma_ordinary_afford(points);
    }
    let none: Vec<&'static str> = Vec::new();
    make_fiend_from(points, &species(), &variants(), &none, &archetypes())
}

/// An ordinary creature can be had for exactly `MIN_POINTS` or more.
pub proof fn lemma_ordinary_afford(points: usize)
    ensures
        can_afford(points, spec_species(), spec_variants()) <==> points >= MIN_POINTS,
{
    let species = spec_species();
    let variants = spec_variants();
    if points >= MIN_POINTS {
        assert(affordable(species[0].0, variants[0].0, points));
    } else {
        assert forall|s: int, v: int|
            0 <= s < species.len() && 0 <= v < variants.len() implies !affordable(
            (#[trigger] species[s]).0,
            (#[trigger] variants[v]).0,
            points,
        ) by {
            assert(species[s].0 >= 15 && variants[v].0 >= 1);
            assert(species[s].0 * variants[v].0 >= 15) by (nonlinear_arith)
                requires
                    species[s].0 >= 15 && variants[v].0 >= 1,
            ;
        }
    }
}

/// A boss of an ordinary species can be had for 15 points or more.
pub proof fn lemma_boss_afford(points: usize)
    ensures
        can_afford(points, spec_species(), spec_boss_variants()) <==> points >= 15,
{
    let species = spec_species();
    let variants = spec_boss_variants();
    if points >= 15 {
        assert(affordable(species[0].0, variants[0].0, points));
    } else {
        assert forall|s: int, v: int|
            0 <= s < species.len() && 0 <= v < variants.len() implies !affordable(
            (#[trigger] species[s]).0,
            (#[trigger] variants[v]).0,
            points,
        ) by {
            assert(species[s].0 >= 15 && variants[v].0 == 2);
        }
    }
}

/// A great boss can be had for 30 points or more.
pub proof fn lemma_bigboss_afford(points: usize)
    ensures
        can_afford(points, spec_bigboss_species(), spec_bigboss_variants()) <==> points >= 30,
{
    let species = spec_bigboss_species();
    let variants = spec_bigboss_variants();
    if points >= 30 {
        assert(affordable(species[0].0, variants[0].0, points));
    } else {
        assert forall|s: int, v: int|
            0 <= s < species.len() && 0 <= v < variants.len() implies !affordable(
            (#[trigger] species[s]).0,
            (#[trigger] variants[v]).0,
            points,
        ) by {
            assert(species[s].0 >= 30 && variants[v].0 == 2);
        }
    }
}

/// Draws the boss of a wave that has one: a great boss for every tenth
/// wave, else an ordinary species in a boss's variant and role.
pub fn make_boss(points: usize, wave: usize) -> (r: Option<FiendInfo>)
    requires
        points < usize::MAX,
    ensures
        wave % 10 == 0 ==> (r is None <==> points < 30),
        wave % 10 != 0 ==> (r is None <==> points < 15),
        wave % 10 == 0 ==> (r matches Some(fiend) ==> made_from(
            fiend,
            points,
            spec_bigboss_species(),
            spec_bigboss_variants(),
            bigboss_suffixes_spec(),
            spec_boss_archetypes(),
        )),
        wave % 10 != 0 ==> (r matches Some(fiend) ==> made_from(
            fiend,
            points,
            spec_species(),
            spec_boss_variants(),
            Seq::empty(),
            spec_boss_archetypes(),
        )),
{
    if wave % 10 == 0 {
        proof {
            lemma_bigboss_afford(points);
        }
        make_fiend_from(
            points,
            &bigboss_species(),
            &bigboss_variants(),
            &bigboss_suffixes(),
            &boss_archetypes(),
        )
    } else {
        proof {
            lemma_boss_afford(points);
        }
        let none: Vec<&'static str> = Vec::new();
        make_fiend_from(points, &species(), &boss_variants(), &none, &boss_archetypes())
    }
}

/// What a roster cost: the sum of the values of its creatures.
pub open spec fn spec_roster_cost(roster: Seq<FiendInfo>) -> int
    decreases roster.len(),
{
    if roster.len() == 0 {
        0
    } else {
        spec_roster_cost(roster.drop_last()) + roster.last().value
    }
}

/// One more creature costs its value more.
pub proof fn lemma_roster_cost_push(roster: Seq<FiendInfo>, fiend: FiendInfo)
    ensures
        spec_roster_cost(roster.push(fiend)) == spec_roster_cost(roster) + fiend.value,
{
    assert(roster.push(fiend).drop_last() =~= roster);
}

/// How many runs of equal creatures a roster is made of.
pub open spec fn spec_kinds(roster: Seq<FiendInfo>) -> nat
    decreases roster.len(),
{
    if roster.len() == 0 {
        0
    } else if roster.len() == 1 {
        1
    } else {
        spec_kinds(roster.drop_last()) + if roster.last() == roster[roster.len() - 2] {
            0nat
        } else {
            1nat
        }
    }
}

/// One more creature begins a new run unless it equals the last.
pub proof fn lemma_kinds_push(roster: Seq<FiendInfo>, fiend: FiendInfo)
    ensures
        spec_kinds(roster.push(fiend)) == spec_kinds(roster) + if roster.len() > 0 && roster.last()
            == fiend {
            0nat
        } else {
            1nat
        },
{
    assert(roster.push(fiend).drop_last() =~= roster);
}

/// How many kinds of creature a wave has at most.
pub open spec fn spec_max_types(wave: usize) -> usize {
    if wave < 2 {
        1
    } else if wave < 5 {
        2
    } else if wave < 15 {
        3
    } else if wave < 30 {
        5
    } else {
        10
    }
}

pub fn max_types(wave: usize) -> (r: usize)
    ensures
        r == spec_max_types(wave),
{
    if wave < 2 {
        1
    } else if wave < 5 {
        2
    } else if wave < 15 {
        3
    } else if wave < 30 {
        5
    } else {
        10
    }
}

/// An ordinary creature of a wave: drawn from the ordinary tables for what
/// it is worth, which is at least `MIN_POINTS`.
pub open spec fn is_ordinary(fiend: FiendInfo) -> bool {
    &&& fiend.value >= MIN_POINTS
    &&& made_from(
        fiend,
        fiend.value,
        spec_species(),
        spec_variants(),
        Seq::empty(),
        spec_archetypes(),
    )
}

/// Puts as many copies of a creature on the roster as `allocated` points
/// pay for at `cost` points each, and gives back the points left over.
pub fn enlist(fiends: &mut Vec<FiendInfo>, fiend: FiendInfo, allocated: usize, cost: usize) -> (left:
    usize)
    requires
        cost >= 1,
        fiend.value == cost,
    ensures
        left < cost,
        final(fiends)@.len() >= old(fiends)@.len(),
        (final(fiends)@.len() - old(fiends)@.len()) * cost + left == allocated,
        final(fiends)@.subrange(0, old(fiends)@.len() as int) == old(fiends)@,
        forall|k: int| old(fiends)@.len() <= k < final(fiends)@.len() ==> final(fiends)@[k] == fiend,
        spec_roster_cost(final(fiends)@) + left == spec_roster_cost(old(fiends)@) + allocated,
        spec_kinds(final(fiends)@) <= spec_kinds(old(fiends)@) + 1,
{
    let mut my_remaining: usize = allocated;
    let ghost before = fiends@;
    assert(fiends@.subrange(0, before.len() as int) =~= before);
    while my_remaining >= cost
        invariant
            cost >= 1,
            fiend.value == cost,
            my_remaining <= allocated,
            fiends@.len() >= before.len(),
            (fiends@.len() - before.len()) * cost + my_remaining == allocated,
            fiends@.subrange(0, before.len() as int) == before,
            forall|k: int| before.len() <= k < fiends@.len() ==> fiends@[k] == fiend,
            spec_roster_cost(fiends@) + my_remaining == spec_roster_cost(before) + allocated,
            fiends@.len() == before.len() ==> spec_kinds(fiends@) == spec_kinds(before),
            fiends@.len() > before.len() ==> fiends@.last() == fiend && spec_kinds(fiends@)
                <= spec_kinds(before) + 1,
        decreases my_remaining,
    {
        proof {
            lemma_roster_cost_push(fiends@, fiend);
            lemma_kinds_push(fiends@, fiend);
            assert(fiends@.len() == before.len() ==> fiends@ =~= before);
            let n = fiends@.len() - before.len();
            assert((n + 1) * cost == n * cost + cost) by (nonlinear_arith);
        }
        let ghost prev = fiends@;
        fiends.push(fiend);
        my_remaining = my_remaining - cost;
        assert(fiends@.subrange(0, before.len() as int) =~= prev.subrange(0, before.len() as int));
    }
    my_remaining
}

/// A roster as a wave may have it: not empty, every creature at full health
/// and able to do damage, and all of them together within the wave's points.
/// Up to `MAX_WAVE` every creature is fit for the battlefield.
pub open spec fn is_roster(roster: Seq<FiendInfo>, wave: usize) -> bool {
    &&& roster.len() >= 1
    &&& spec_roster_cost(roster) <= spec_wave_points(wave)
    &&& wave <= MAX_WAVE ==> all_fit(roster)
    &&& forall|k: int|
        0 <= k < roster.len() ==> (#[trigger] roster[k]).health == roster[k].max_health
            && roster[k].max_health == roster[k].value && roster[k].damage_factor >= 1
}

/// A roster as the wave with this number may have it. Every tenth wave is
/// one great boss and every other fifth wave one boss, each worth all the
/// points of the wave; any other wave is made of ordinary creatures, of no
/// more kinds than the wave allows. The points are used up: what is left of
/// them would not buy one more creature of the last kind.
pub open spec fn is_wave(roster: Seq<FiendInfo>, wave: usize) -> bool {
    &&& is_roster(roster, wave)
    &&& wave % 5 == 0 ==> roster.len() == 1 && roster[0].value == spec_wave_points(wave)
    &&& wave % 10 == 0 ==> made_from(
        roster[0],
        roster[0].value,
        spec_bigboss_species(),
        spec_bigboss_variants(),
        bigboss_suffixes_spec(),
        spec_boss_archetypes(),
    )
    &&& wave % 5 == 0 && wave % 10 != 0 ==> made_from(
        roster[0],
        roster[0].value,
        spec_species(),
        spec_boss_variants(),
        Seq::empty(),
        spec_boss_archetypes(),
    )
    &&& wave % 5 != 0 ==> forall|k: int| 0 <= k < roster.len() ==> is_ordinary(#[trigger] roster[k])
    &&& spec_kinds(roster) <= spec_max_types(wave)
    &&& spec_wave_points(wave) - spec_roster_cost(roster) < roster.last().value
}

/// Draws the creatures of a wave. Every tenth wave is one great boss, every
/// other fifth wave one boss, each bought with all the points of the wave.
/// Any other wave is made of up to `spec_max_types(wave)` kinds of ordinary
/// creature: the points are dealt out among the kinds, a price is drawn for
/// each kind, and as many creatures of the kind come as its share pays for.
pub fn make_wave(wave: usize) -> (roster: Vec<FiendInfo>)
    requires
        1 <= wave <= LAST_WAVE,
    ensures
        is_wave(roster@, wave),
{
    let points: usize = wave_points(wave);
    proof {
        lemma_wave_points_bounds(wave);
    }
    let mut fiends: Vec<FiendInfo> = Vec::new();
    if wave % 5 == 0 {
        match make_boss(points, wave) {
            Some(boss) => {
                proof {
                    lemma_roster_cost_push(fiends@, boss);
                }
                fiends.push(boss);
            },
            None => {},
        }
        return fiends;
    }
    let fiend_types: usize = 1 + gen_range(0, max_types(wave));
    let mut remaining: usize = points;
    let mut i: usize = 0;
    while i < fiend_types
        invariant
            i <= fiend_types <= 10,
            points == spec_wave_points(wave),
            points <= 25 + 19 * LAST_WAVE,
            wave <= MAX_WAVE ==> points <= HEALTH_LIMIT,
            remaining >= (fiend_types - i) * MIN_POINTS,
            remaining <= points,
            spec_roster_cost(fiends@) + remaining == points,
            spec_kinds(fiends@) <= i,
            fiend_types <= spec_max_types(wave),
            i > 0 ==> fiends@.len() >= 1,
            i == fiend_types ==> remaining < fiends@.last().value,
            forall|k: int|
                0 <= k < fiends@.len() ==> is_ordinary(#[trigger] fiends@[k]) && (wave <= MAX_WAVE
                    ==> fiends@[k].wf()) && fiends@[k].damage_factor >= 1 && fiends@[k].health
                    == fiends@[k].max_health && fiends@[k].max_health == fiends@[k].value,
        decreases fiend_types - i,
    {
        let max_points: usize = remaining - (fiend_types - i - 1) * MIN_POINTS;
        let allocated: usize = if i == fiend_types - 1 {
            remaining
        } else {
            gen_range(MIN_POINTS, 1 + max_points)
        };
        remaining = remaining - allocated;
        let third: usize = allocated / 3;
        let top: usize = if third > MIN_POINTS { third } else { MIN_POINTS };
        let cost: usize = gen_range(MIN_POINTS, 1 + top);
        match make_fiend(cost) {
            Some(fiend) => {
                let ghost before = fiends@;
                let left: usize = enlist(&mut fiends, fiend, allocated, cost);
                proof {
                    let n = fiends@.len() - before.len();
                    assert(n >= 1 && left <= allocated) by (nonlinear_arith)
                        requires
                            n * cost + left == allocated,
                            left < cost,
                            cost <= allocated,
                            n >= 0,
                    ;
                    assert(is_ordinary(fiend) && (wave <= MAX_WAVE ==> fiend.wf())
                        && fiend.damage_factor >= 1);
                    assert(fiends@.last() == fiend);
                    assert forall|k: int| 0 <= k < fiends@.len() implies is_ordinary(
                        #[trigger] fiends@[k],
                    ) && (wave <= MAX_WAVE ==> fiends@[k].wf()) && fiends@[k].damage_factor >= 1
                        && fiends@[k].health == fiends@[k].max_health && fiends@[k].max_health
                        == fiends@[k].value by {
                        if k < before.len() {
                            assert(fiends@[k] == fiends@.subrange(0, before.len() as int)[k]);
                        }
                    }
                }
                remaining = remaining + left;
            },
            None => {
                remaining = remaining + allocated;
            },
        }
        i = i + 1;
    }
    fiends
}

} // verus!
