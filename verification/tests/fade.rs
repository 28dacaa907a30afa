use room_lights::fade::{FadePattern, Spark, FAINTEST, FULL, STEP};
use room_lights::pattern::{Pattern, Pixel};

const DARK: Pixel = [0, 0, 0, 0];
const SEED: [u8; 32] = [7; 32];

fn seed_of(n: u8) -> [u8; 32] {
    let mut seed = [0u8; 32];
    seed[0] = n;
    seed[31] = n.wrapping_mul(31).wrapping_add(5);
    seed
}

fn glow(base: u8, level: u32) -> u8 {
    (base as u64 * level as u64 / 1_000_000) as u8
}

#[test]
fn fade_starts_with_nothing_alight() {
    let p = FadePattern::new(20, [10, 20, 30, 0], 4, SEED);
    assert_eq!(p.tick_rate(), 20);
    assert_eq!(p.tick_cycle(), None);
    assert!(p.lights.is_empty());
    assert_eq!(p.num_dots, 4);
    assert_eq!(p.color, [10, 20, 30, 0]);
}

#[test]
fn fade_never_holds_more_sparks_than_allowed() {
    let mut p = FadePattern::new(20, [255, 255, 255, 0], 3, SEED);
    let mut leds = vec![DARK; 50];
    for tick in 0..200u128 {
        assert!(p.tick(tick, &mut leds));
        assert!(p.lights.len() <= 3);
        for s in p.lights.iter() {
            assert!(s.pos < 50);
            assert!(s.level > 0 && s.level < FULL - STEP);
        }
    }
}

#[test]
fn fade_spawns_one_spark_per_tick_in_range() {
    let mut p = FadePattern::new(20, [255, 255, 255, 0], 100, SEED);
    let mut leds = vec![DARK; 8];
    p.tick(0, &mut leds);
    assert_eq!(p.lights.len(), 1);
    let s = p.lights[0];
    assert!(s.pos < 8);
    assert!(s.level >= FAINTEST - STEP && s.level < FULL - STEP);
    assert_eq!(leds[s.pos], [glow(255, s.level), glow(255, s.level), glow(255, s.level), 0]);
    for (i, led) in leds.iter().enumerate() {
        if i != s.pos {
            assert_eq!(*led, DARK);
        }
    }
}

#[test]
fn fade_dims_each_spark_by_one_step() {
    let mut p = FadePattern::new(20, [200, 100, 50, 9], 2, SEED);
    p.lights = vec![Spark { pos: 1, level: 500_000 }, Spark { pos: 3, level: 120_000 }];
    let mut leds = vec![[1, 1, 1, 1]; 5];
    assert!(p.tick(0, &mut leds));
    assert_eq!(p.lights.len(), 2);
    assert_eq!((p.lights[0].pos, p.lights[0].level), (1, 450_000));
    assert_eq!((p.lights[1].pos, p.lights[1].level), (3, 70_000));
    assert_eq!(leds[1], [90, 45, 22, 0]);
    assert_eq!(leds[3], [14, 7, 3, 0]);
    assert_eq!(leds[0], [1, 1, 1, 1]);
    assert_eq!(leds[2], [1, 1, 1, 1]);
    assert_eq!(leds[4], [1, 1, 1, 1]);
}

#[test]
fn fade_drops_a_spark_that_went_out() {
    let mut p = FadePattern::new(20, [200, 100, 50, 0], 3, SEED);
    p.lights = vec![
        Spark { pos: 0, level: STEP },
        Spark { pos: 1, level: STEP + 1 },
        Spark { pos: 2, level: 20_000 },
    ];
    let mut leds = vec![[9, 9, 9, 9]; 3];
    p.tick(0, &mut leds);
    assert_eq!(p.lights.len(), 1);
    assert_eq!((p.lights[0].pos, p.lights[0].level), (1, 1));
    assert_eq!(leds, vec![DARK, DARK, DARK]);
}

#[test]
fn fade_last_spark_on_a_pixel_shows() {
    let mut p = FadePattern::new(20, [100, 100, 100, 0], 2, SEED);
    p.lights = vec![Spark { pos: 0, level: 550_000 }, Spark { pos: 0, level: 30_000 }];
    let mut leds = vec![[9, 9, 9, 9]; 2];
    p.tick(0, &mut leds);
    // the second spark went out and darkened the pixel the first had lit
    assert_eq!(leds, vec![DARK, [9, 9, 9, 9]]);
    assert_eq!(p.lights.len(), 1);
    assert_eq!(p.lights[0].level, 500_000);
}

#[test]
fn fade_sparks_burn_out_after_their_steps() {
    let mut p = FadePattern::new(20, [255, 255, 255, 0], 1, SEED);
    let mut leds = vec![DARK; 4];
    p.tick(0, &mut leds);
    assert_eq!(p.lights.len(), 1);
    let first = p.lights[0];
    // a spark that starts below full is out within twenty ticks
    let mut level = first.level;
    let mut ticks = 0;
    while p.lights.len() == 1 && p.lights[0].pos == first.pos && p.lights[0].level == level && ticks < 25 {
        p.tick(ticks + 1, &mut leds);
        level = level.saturating_sub(STEP);
        ticks += 1;
    }
    assert!(ticks <= 20);
}

#[test]
fn fade_with_no_sparks_allowed_changes_nothing() {
    let mut p = FadePattern::new(20, [255, 255, 255, 0], 0, SEED);
    let mut leds = vec![[3, 3, 3, 3]; 4];
    assert!(p.tick(0, &mut leds));
    assert!(p.lights.is_empty());
    assert_eq!(leds, vec![[3, 3, 3, 3]; 4]);
    let mut none: Vec<Pixel> = Vec::new();
    assert!(p.tick(1, &mut none));
}

#[test]
fn fade_places_and_levels_vary() {
    // One spark per pattern, sixty patterns: were every draw the lower bound,
    // all would sit on pixel 0 at the faintest level.
    let mut places = Vec::new();
    let mut levels = Vec::new();
    for n in 0..60u8 {
        let mut p = FadePattern::new(20, [255, 255, 255, 0], 1, seed_of(n));
        let mut leds = vec![DARK; 1000];
        p.tick(0, &mut leds);
        places.push(p.lights[0].pos);
        levels.push(p.lights[0].level);
    }
    assert!(places.iter().any(|&pos| pos != 0));
    assert!(places.iter().all(|&pos| pos < 1000));
    assert!(levels.iter().any(|&l| l != FAINTEST - STEP));
    assert!(levels.iter().all(|&l| l >= FAINTEST - STEP && l < FULL - STEP));
}

#[test]
fn fade_fits_a_strip_that_holds_its_sparks() {
    let mut p = FadePattern::new(20, [1, 2, 3, 0], 2, SEED);
    assert!(p.fits(5));
    assert!(!p.fits(0));
    p.lights = vec![Spark { pos: 4, level: FULL }];
    assert!(p.fits(5));
    assert!(!p.fits(4));
    p.lights = vec![Spark { pos: 0, level: FULL + 1 }];
    assert!(!p.fits(5));
    p.lights = vec![Spark { pos: 0, level: 1 }; 3];
    assert!(!p.fits(5));
    let none = FadePattern::new(20, [1, 2, 3, 0], 0, SEED);
    assert!(none.fits(0));
}

#[test]
fn fade_with_the_same_seed_goes_the_same_way() {
    let mut a = FadePattern::new(20, [255, 255, 255, 0], 5, seed_of(3));
    let mut b = FadePattern::new(20, [255, 255, 255, 0], 5, seed_of(3));
    let mut la = vec![DARK; 100];
    let mut lb = vec![DARK; 100];
    for tick in 0..40u128 {
        a.tick(tick, &mut la);
        b.tick(tick, &mut lb);
        assert_eq!(la, lb);
        assert_eq!(a.lights.len(), b.lights.len());
        for (x, y) in a.lights.iter().zip(b.lights.iter()) {
            assert_eq!((x.pos, x.level), (y.pos, y.level));
        }
    }
}

#[test]
fn fade_with_another_seed_goes_another_way() {
    let mut a = FadePattern::new(20, [255, 255, 255, 0], 8, seed_of(1));
    let mut b = FadePattern::new(20, [255, 255, 255, 0], 8, seed_of(2));
    let mut la = vec![DARK; 1000];
    let mut lb = vec![DARK; 1000];
    for tick in 0..8u128 {
        a.tick(tick, &mut la);
        b.tick(tick, &mut lb);
    }
    assert_ne!(la, lb);
}

#[test]
fn fade_takes_the_spark_it_is_given() {
    let mut p = FadePattern::new(20, [200, 100, 50, 9], 2, SEED);
    let mut leds = vec![[1, 1, 1, 1]; 4];
    p.fade(Spark { pos: 2, level: 650_000 }, &mut leds);
    assert_eq!(p.lights.len(), 1);
    assert_eq!((p.lights[0].pos, p.lights[0].level), (2, 600_000));
    assert_eq!(leds, vec![[1, 1, 1, 1], [1, 1, 1, 1], [120, 60, 30, 0], [1, 1, 1, 1]]);
    p.fade(Spark { pos: 0, level: FAINTEST }, &mut leds);
    assert_eq!(p.lights.len(), 2);
    assert_eq!((p.lights[0].pos, p.lights[0].level), (2, 550_000));
    assert_eq!((p.lights[1].pos, p.lights[1].level), (0, 50_000));
    assert_eq!(leds, vec![[10, 5, 2, 0], [1, 1, 1, 1], [110, 55, 27, 0], [1, 1, 1, 1]]);
}

#[test]
fn fade_at_capacity_leaves_the_given_spark_out() {
    let mut p = FadePattern::new(20, [200, 100, 50, 0], 1, SEED);
    p.lights = vec![Spark { pos: 1, level: 300_000 }];
    let mut leds = vec![DARK; 3];
    p.fade(Spark { pos: 0, level: 900_000 }, &mut leds);
    assert_eq!(p.lights.len(), 1);
    assert_eq!((p.lights[0].pos, p.lights[0].level), (1, 250_000));
    assert_eq!(leds, vec![DARK, [50, 25, 12, 0], DARK]);
}

#[test]
fn fade_faintest_spark_lasts_one_tick() {
    let mut p = FadePattern::new(20, [255, 255, 255, 0], 1, SEED);
    p.num_dots = 1;
    let mut leds = vec![DARK; 2];
    p.fade(Spark { pos: 1, level: FAINTEST }, &mut leds);
    assert_eq!(leds[1], [12, 12, 12, 0]);
    assert_eq!(p.lights.len(), 1);
    // at capacity now: the spark given is left out, and the one alight goes out
    p.fade(Spark { pos: 0, level: FULL - 1 }, &mut leds);
    assert!(p.lights.is_empty());
    assert_eq!(leds, vec![DARK, DARK]);
}
