//! Experience, chances and random numbers, held against floating point.

use tradscape::combat::{roll_hit, roll_mob_drops};
use tradscape::defs::{fish_catch_chance, fish_min_level};
use tradscape::gather::gather_success;
use tradscape::levels::{level_from_xp, xp_threshold_for_level, xp_with_bonus};
use tradscape::rounding::{chance_quotient, rand_range, rand_u64, round_to};
use tradscape::sim::{chebyshev, manhattan, RNG_START};

fn float_threshold(level: i32) -> i64 {
    if level <= 1 {
        return 0;
    }
    let steps = (level - 1) as f64;
    (50.0 * (1.17f64.powf(steps) - 1.0) / (1.17f64 - 1.0)).floor() as i64
}

fn float_rand(state: &mut u64) -> f32 {
    (rand_u64(state) as f64 / u64::MAX as f64) as f32
}

#[test]
fn thresholds_follow_the_curve() {
    for level in -3..=99 {
        assert_eq!(xp_threshold_for_level(level), float_threshold(level), "level {}", level);
    }
    assert_eq!(xp_threshold_for_level(2), 50);
    assert_eq!(xp_threshold_for_level(3), 108);
}

#[test]
fn thresholds_beyond_the_last_level() {
    for level in [100, 120, 150, 200, 240, 242, 243, 300, 1000, i32::MAX] {
        assert_eq!(xp_threshold_for_level(level), float_threshold(level), "level {}", level);
    }
}

#[test]
fn levels_are_bracketed_by_thresholds() {
    assert_eq!(level_from_xp(0), 1);
    assert_eq!(level_from_xp(-5), 1);
    assert_eq!(level_from_xp(49), 1);
    assert_eq!(level_from_xp(50), 2);
    assert_eq!(level_from_xp(i32::MAX), 99);
    for xp in (0..2_000_000).step_by(997) {
        let level = level_from_xp(xp);
        assert!(xp_threshold_for_level(level) <= xp as i64);
        assert!(level == 99 || (xp as i64) < xp_threshold_for_level(level + 1));
    }
}

#[test]
fn more_experience_never_means_a_lower_level() {
    let mut last = 0;
    for xp in (0..i32::MAX).step_by(1_234_567) {
        let level = level_from_xp(xp);
        assert!(last <= level);
        last = level;
    }
}

#[test]
fn bonus_is_rounded_like_a_double() {
    let bases = [0, 1, 3, 8, 20, 55, 130, 320, 512, 999, 12345, i32::MAX, -7, -50, i32::MIN];
    let points = [0, 1, 2, 7, 50, 99, 100, 149, 150, 1000, 123456, i32::MAX, -1, -50, -150, i32::MIN];
    for base in bases {
        for p in points {
            let expected = ((base as f64) * (1.0 + p as f64 * 0.01)).round() as i32;
            assert_eq!(xp_with_bonus(base, p), expected, "base {} points {}", base, p);
        }
    }
    assert_eq!(xp_with_bonus(20, 50), 30);
    assert_eq!(xp_with_bonus(8, 0), 8);
}

#[test]
fn points_never_take_experience_away() {
    assert_eq!(xp_with_bonus(100, 25), 125);
    for base in [0, 1, 3, 8, 20, 55, 999, 12345, i32::MAX] {
        assert_eq!(xp_with_bonus(base, 0), base);
        let mut last = base;
        for points in [0, 1, 2, 7, 50, 99, 100, 149, 1000, 123_456, i32::MAX] {
            let xp = xp_with_bonus(base, points);
            assert!(last <= xp, "base {} points {}", base, points);
            last = xp;
        }
    }
    for base in [-7, -50, i32::MIN] {
        assert_eq!(xp_with_bonus(base, 0), base);
    }
}

#[test]
fn every_level_needs_more_than_the_one_before() {
    for level in 1..99 {
        assert!(xp_threshold_for_level(level) < xp_threshold_for_level(level + 1));
    }
}

#[test]
fn rounding_keeps_the_order() {
    assert_eq!(round_to(1001, 64), 1008);
    assert_eq!(round_to(1000, 64), 992);
    assert_eq!(round_to(63 << 40, 64), 63 << 40);
    let mut last = 0;
    for x in 0..5000 {
        let r = round_to(x, 64);
        assert!(last <= r);
        last = r;
    }
}

#[test]
fn random_numbers_start_where_they_should() {
    let mut state = RNG_START;
    let mut x: u64 = 0xdead_beef_cafe_babe;
    for _ in 0..1000 {
        x ^= x << 13;
        x ^= x >> 7;
        x ^= x << 17;
        assert_eq!(rand_u64(&mut state), x);
    }
    let mut zero = 0u64;
    let mut one = 1u64;
    assert_eq!(rand_u64(&mut zero), rand_u64(&mut one));
}

#[test]
fn random_ranges_stay_inside() {
    let mut state = RNG_START;
    for n in 1..500 {
        let r = rand_range(&mut state, n);
        assert!(0 <= r && r < n);
    }
    let before = state;
    assert_eq!(rand_range(&mut state, 0), 0);
    assert_eq!(rand_range(&mut state, -4), 0);
    assert_eq!(state, before);
}

#[test]
fn gathering_matches_single_precision() {
    let mut ours = RNG_START;
    let mut floats = RNG_START;
    for k in 0..40_000 {
        let skill = k % 120 - 10;
        let tier = (k / 7) % 5;
        let target = 1 + (tier - 1) * 8;
        let chance = (0.45f32 + (skill - target) as f32 * 0.035).clamp(0.18, 0.92);
        let expected = float_rand(&mut floats) < chance;
        assert_eq!(gather_success(&mut ours, skill, tier), expected, "skill {} tier {}", skill, tier);
        assert_eq!(ours, floats);
    }
}

fn float_hit(state: &mut u64, atk: i32, def: i32, strength: i32) -> i32 {
    let acc = (atk as f32 + 8.0) / (atk as f32 + def as f32 + 16.0);
    if float_rand(state) < acc {
        let max = 1 + strength / 4;
        if max <= 0 {
            1
        } else {
            1 + (rand_u64(state) % max as u64) as i32
        }
    } else {
        0
    }
}

#[test]
fn hits_match_single_precision() {
    let mut ours = RNG_START;
    let mut floats = RNG_START;
    for k in 0..40_000 {
        let atk = k % 180;
        let def = (k / 3) % 330;
        let strength = (k / 5) % 180;
        let expected = float_hit(&mut floats, atk, def, strength);
        assert_eq!(roll_hit(&mut ours, atk, def, strength), expected);
        assert_eq!(ours, floats);
    }
}

#[test]
fn hits_of_any_size_match_single_precision() {
    let sizes = [
        0, 1, 3, 7, 8, -1, -7, -8, -9, -16, -17, -100, 1000, 16777215, 16777216, 16777217, 33554435,
        1_000_000_007, i32::MAX, i32::MIN, i32::MIN + 1, -1_000_000_007,
    ];
    let mut ours = RNG_START;
    let mut floats = RNG_START;
    for atk in sizes {
        for def in sizes {
            for strength in [0, 3, 4, 400, -3, -4, -8, i32::MAX, i32::MIN] {
                for _ in 0..3 {
                    let expected = float_hit(&mut floats, atk, def, strength);
                    let got = roll_hit(&mut ours, atk, def, strength);
                    assert_eq!(got, expected, "atk {} def {} strength {}", atk, def, strength);
                    assert_eq!(ours, floats);
                }
            }
        }
    }
}

#[test]
fn drops_match_single_precision() {
    let mut ours = RNG_START;
    let mut floats = RNG_START;
    let mut seen = 0;
    for k in 0..60_000 {
        let tier = 1 + k % 4;
        let chance = 0.05_f32 / 4.0_f32.powi(tier);
        let mut expected: Vec<i32> = Vec::new();
        for _ in 0..2 {
            expected.push((float_rand(&mut floats) < chance) as i32);
        }
        let drops = roll_mob_drops(&mut ours, tier);
        assert_eq!(drops.len() as i32, expected.iter().sum::<i32>());
        assert!(drops.iter().all(|t| t.tier == tier));
        assert_eq!(ours, floats);
        seen += drops.len();
    }
    assert!(seen > 0);
}

fn float_catch(state: &mut u64, level: i32, tier: i32) -> bool {
    let net = level.wrapping_sub(10i32.wrapping_mul(tier)).max(0) as f32;
    let denom = 1u32.wrapping_shl(tier as u32) as f32;
    let chance = (net / denom / 100.0).min(1.0);
    float_rand(state) < chance
}

#[test]
fn catching_matches_single_precision() {
    let mut ours = RNG_START;
    let mut floats = RNG_START;
    for k in 0..40_000 {
        let tier = k % 4;
        let level = fish_min_level(tier) + (k / 4) % 99;
        let (n, d) = fish_catch_chance(level, tier);
        let expected = float_catch(&mut floats, level, tier);
        assert_eq!(chance_quotient(&mut ours, n, d), expected, "level {} tier {}", level, tier);
        assert_eq!(ours, floats);
    }
    assert_eq!(fish_min_level(0), 1);
    assert_eq!(fish_min_level(3), 31);
    assert_eq!(fish_catch_chance(15, 1), (5, 200));
    assert_eq!(fish_catch_chance(99, 9), (9, 51200));
}

#[test]
fn catching_at_any_tier_matches_single_precision() {
    let mut ours = RNG_START;
    let mut floats = RNG_START;
    for tier in -70..70 {
        for level in [0, 1, 50, 99, 700, 16777219, 2_000_000_001, i32::MAX, i32::MIN, -30] {
            let (n, d) = fish_catch_chance(level, tier);
            let expected = float_catch(&mut floats, level, tier);
            assert_eq!(chance_quotient(&mut ours, n, d), expected, "level {} tier {}", level, tier);
            assert_eq!(ours, floats);
        }
    }
}

#[test]
fn creatures_of_no_tier_drop_nothing() {
    let mut state = RNG_START;
    for tier in [-1, 0, 5, i32::MAX, i32::MIN] {
        assert!(roll_mob_drops(&mut state, tier).is_empty());
    }
    assert_eq!(state, RNG_START);
}

#[test]
fn distances_between_cells() {
    assert_eq!(manhattan((1, 2), (4, -2)), 7);
    assert_eq!(chebyshev((1, 2), (4, -2)), 4);
    assert_eq!(chebyshev((5, 5), (5, 5)), 0);
}
