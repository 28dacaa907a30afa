use room_lights::any::AnyPattern;
use room_lights::composite::balance;
use room_lights::crawl::FadingCrawl;
use room_lights::manager::{PatternManager, PatternStore};
use room_lights::pattern::{Pattern, Pixel};
use room_lights::rainbow::SolidTimeVaryingRainbow;
use room_lights::solid::SolidPattern;

const DARK: Pixel = [0, 0, 0, 0];
const SECOND: u128 = 1_000_000_000;
const MILLI: u128 = 1_000_000;

const MARK: Pixel = [9, 9, 9, 9];
const LIT: Pixel = [80, 80, 80, 0];

/// A comet of one pixel: at tick `t` it lights pixel `t + 1` and darkens
/// pixel `t`, so that a buffer shows which ticks were painted, and in which
/// order.
fn comet(rate: u128) -> FadingCrawl {
    FadingCrawl::new(rate, 1, LIT, 0)
}

fn store_of(
    pattern: FadingCrawl,
    len: usize,
    curr_tick: u128,
    start_time: u128,
) -> PatternStore<FadingCrawl> {
    PatternStore { name: "comet".to_string(), pattern, leds: vec![MARK; len], curr_tick, start_time }
}

#[test]
fn blend_of_two_bright_pixels_is_scaled_as_a_whole() {
    let mut m: PatternManager<SolidPattern> = PatternManager::new(18, 1);
    m.add_pattern("a".to_string(), SolidPattern::new([200, 200, 200, 0]), 0);
    m.add_pattern("b".to_string(), SolidPattern::new([100, 100, 100, 0]), 0);
    assert!(m.increment_ticks(SECOND));
    assert_eq!(m.frame(), &vec![[255, 255, 255, 0]]);
}

#[test]
fn blend_keeps_the_balance_of_the_colour() {
    let mut m: PatternManager<SolidPattern> = PatternManager::new(18, 2);
    m.add_pattern("a".to_string(), SolidPattern::new([250, 100, 0, 9]), 0);
    m.add_pattern("b".to_string(), SolidPattern::new([250, 100, 10, 9]), 0);
    assert!(m.increment_ticks(SECOND));
    // sums 500, 200, 10: scaled by 255 / 500
    assert_eq!(m.frame(), &vec![[255, 102, 5, 0]; 2]);
}

#[test]
fn blend_within_range_is_the_plain_sum() {
    let mut m: PatternManager<SolidPattern> = PatternManager::new(18, 3);
    m.add_pattern("a".to_string(), SolidPattern::new([100, 20, 3, 50]), 0);
    m.add_pattern("b".to_string(), SolidPattern::new([155, 20, 4, 50]), 0);
    assert!(m.increment_ticks(SECOND));
    assert_eq!(m.frame(), &vec![[255, 40, 7, 0]; 3]);
}

#[test]
fn blend_leaves_the_fourth_channel_dark() {
    let mut m: PatternManager<SolidPattern> = PatternManager::new(18, 1);
    m.add_pattern("a".to_string(), SolidPattern::new([1, 2, 3, 255]), 0);
    m.add_pattern("b".to_string(), SolidPattern::new([1, 2, 3, 255]), 0);
    m.increment_ticks(SECOND);
    assert_eq!(m.frame()[0], [2, 4, 6, 0]);
}

#[test]
fn balance_scales_by_the_brightest_channel() {
    assert_eq!(balance(300, 300, 300), (255, 255, 255));
    assert_eq!(balance(510, 255, 0), (255, 127, 0));
    assert_eq!(balance(0, 256, 1), (0, 255, 0));
    assert_eq!(balance(255, 254, 0), (255, 254, 0));
    assert_eq!(balance(0, 0, 0), (0, 0, 0));
    assert_eq!(balance(1, 2, 1000), (0, 0, 255));
}

#[test]
fn tick_blends_what_the_buffers_hold() {
    let mut m: PatternManager<SolidPattern> = PatternManager::new(18, 2);
    m.tick();
    assert_eq!(m.frame(), &vec![DARK; 2]);
    m.add_pattern("a".to_string(), SolidPattern::new([10, 20, 30, 0]), 0);
    // not ticked yet: the buffer is still dark
    m.tick();
    assert_eq!(m.frame(), &vec![DARK; 2]);
    m.increment_ticks(SECOND);
    assert_eq!(m.frame(), &vec![[10, 20, 30, 0]; 2]);
}

#[test]
fn catch_up_replays_every_tick_in_order() {
    let mut store = store_of(comet(1000), 10, 5, 0);
    assert!(store.catch_up(8));
    assert_eq!(store.curr_tick, 8);
    // ticks 6, 7 and 8 darkened pixels 6, 7 and 8 in turn; the last lit 9.
    // Tick 8 alone would have left 6 and 7 as they were, and the three in
    // another order would have left one of 7 and 8 alight.
    assert_eq!(store.leds, vec![MARK, MARK, MARK, MARK, MARK, MARK, DARK, DARK, DARK, LIT]);
}

#[test]
fn catch_up_by_one_tick() {
    let mut store = store_of(comet(1000), 10, 5, 0);
    assert!(store.catch_up(6));
    assert_eq!(store.curr_tick, 6);
    assert_eq!(store.leds, vec![MARK, MARK, MARK, MARK, MARK, MARK, DARK, LIT, MARK, MARK]);
}

#[test]
fn catch_up_to_an_earlier_tick_does_nothing() {
    let mut store = store_of(comet(1000), 4, 5, 0);
    assert!(!store.catch_up(5));
    assert!(!store.catch_up(3));
    assert_eq!(store.curr_tick, 5);
    assert_eq!(store.leds, vec![MARK; 4]);
}

#[test]
fn catch_up_reduces_each_tick_by_the_cycle() {
    let mut p = comet(1000);
    p.tick_cycle = Some(4);
    let mut store = store_of(p, 10, 2, 0);
    store.catch_up(9);
    assert_eq!(store.curr_tick, 9);
    // the ticks handed on are 3, 0, 1, 2, 3, 0, 1: the comet never gets
    // past pixel 4, which stays alight when the tick wraps, and ends
    // lighting 2 and darkening 1
    assert_eq!(store.leds, vec![DARK, DARK, LIT, DARK, LIT, MARK, MARK, MARK, MARK, MARK]);
}

#[test]
fn advance_moves_from_five_to_eight() {
    // 1000 ticks a second, started at 2 ms, now 10 ms and a bit: tick 8
    let mut store = store_of(comet(1000), 10, 5, 2 * MILLI);
    assert!(store.can_reach(10 * MILLI + 999_999));
    assert!(store.advance(10 * MILLI + 999_999));
    assert_eq!(store.curr_tick, 8);
    assert_eq!(store.leds, vec![MARK, MARK, MARK, MARK, MARK, MARK, DARK, DARK, DARK, LIT]);
}

#[test]
fn advance_before_the_start_does_nothing() {
    let mut store = store_of(comet(1000), 3, 0, 5 * SECOND);
    assert!(!store.advance(SECOND));
    assert_eq!(store.curr_tick, 0);
    assert_eq!(store.leds, vec![MARK; 3]);
}

#[test]
fn advance_drops_fractions_of_a_tick() {
    // 60 ticks a second: 999 ms are 59 ticks, 1000 ms are 60
    let mut store = store_of(comet(60), 100, 0, 0);
    store.advance(999 * MILLI);
    assert_eq!(store.curr_tick, 59);
    assert_eq!(store.leds[60], LIT);
    store.advance(1000 * MILLI);
    assert_eq!(store.curr_tick, 60);
    assert_eq!(store.leds[60], DARK);
    assert_eq!(store.leds[61], LIT);
}

#[test]
fn can_reach_tells_when_the_tick_does_not_fit() {
    let store = store_of(comet(u128::MAX), 1, 0, 0);
    assert!(store.can_reach(MILLI));
    assert!(!store.can_reach(2 * MILLI));
    let mut m: PatternManager<FadingCrawl> = PatternManager::new(18, 1);
    m.add_pattern("fits".to_string(), comet(10), 0);
    assert!(m.can_reach(u128::MAX));
    m.add_pattern("bursts".to_string(), comet(u128::MAX), 0);
    assert!(m.can_reach(MILLI));
    assert!(!m.can_reach(2 * MILLI));
}

#[test]
fn increment_ticks_renders_only_on_change() {
    let mut m: PatternManager<FadingCrawl> = PatternManager::new(18, 10);
    m.add_pattern("first".to_string(), comet(1000), 0);
    // no tick is due yet
    assert!(!m.increment_ticks(MILLI - 1));
    assert_eq!(m.frame(), &vec![DARK; 10]);
    m.add_pattern("second".to_string(), comet(1000), 3 * MILLI);
    assert!(m.increment_ticks(5 * MILLI));
    // the first stands at tick 5 and lights pixel 6, the second at tick 2
    let mut want = vec![DARK; 10];
    want[6] = LIT;
    want[3] = LIT;
    assert_eq!(m.frame(), &want);
    // nothing is due at the same instant again
    assert!(!m.increment_ticks(5 * MILLI));
    assert_eq!(m.frame(), &want);
}

#[test]
fn increment_ticks_counts_from_each_start() {
    let mut m: PatternManager<AnyPattern> = PatternManager::new(18, 10);
    m.add_pattern(
        "comet".to_string(),
        AnyPattern::FadeCrawl(comet(2)),
        SECOND,
    );
    assert!(!m.increment_ticks(SECOND + 499 * MILLI));
    assert_eq!(m.frame(), &vec![DARK; 10]);
    assert!(m.increment_ticks(3 * SECOND + 600 * MILLI));
    // five ticks done, the last with the head at 5 + 1 + 0 = 6
    let mut want = vec![DARK; 10];
    want[6] = LIT;
    assert_eq!(m.frame(), &want);
}

#[test]
fn add_pattern_starts_dark_at_tick_zero() {
    let mut m: PatternManager<FadingCrawl> = PatternManager::new(18, 10);
    m.add_pattern("comet".to_string(), comet(1000), 0);
    assert!(m.increment_ticks(4 * MILLI));
    let mut want = vec![DARK; 10];
    want[5] = LIT;
    assert_eq!(m.frame(), &want);
    // the same name again: the old store is gone with its buffer and its count
    m.add_pattern("comet".to_string(), comet(1000), 4 * MILLI);
    assert_eq!(m.get_patterns(), vec!["comet".to_string()]);
    m.tick();
    assert_eq!(m.frame(), &vec![DARK; 10]);
    assert!(m.increment_ticks(6 * MILLI));
    let mut again = vec![DARK; 10];
    again[3] = LIT;
    assert_eq!(m.frame(), &again);
}

#[test]
fn add_pattern_under_a_used_name_keeps_the_others() {
    let mut m: PatternManager<SolidPattern> = PatternManager::new(18, 1);
    m.add_pattern("a".to_string(), SolidPattern::new([1, 0, 0, 0]), 0);
    m.add_pattern("b".to_string(), SolidPattern::new([0, 2, 0, 0]), 0);
    m.add_pattern("c".to_string(), SolidPattern::new([0, 0, 3, 0]), 0);
    m.add_pattern("b".to_string(), SolidPattern::new([0, 20, 0, 0]), 0);
    let mut names = m.get_patterns();
    names.sort();
    assert_eq!(names, vec!["a".to_string(), "b".to_string(), "c".to_string()]);
    m.increment_ticks(SECOND);
    assert_eq!(m.frame(), &vec![[1, 20, 3, 0]]);
}

#[test]
fn remove_pattern_says_whether_it_was_there() {
    let mut m: PatternManager<SolidPattern> = PatternManager::new(18, 1);
    assert!(!m.remove_pattern("a".to_string()));
    m.add_pattern("a".to_string(), SolidPattern::new([1, 0, 0, 0]), 0);
    m.add_pattern("b".to_string(), SolidPattern::new([0, 2, 0, 0]), 0);
    assert!(!m.remove_pattern("c".to_string()));
    assert!(m.remove_pattern("a".to_string()));
    assert!(!m.remove_pattern("a".to_string()));
    assert_eq!(m.get_patterns(), vec!["b".to_string()]);
    m.increment_ticks(SECOND);
    assert_eq!(m.frame(), &vec![[0, 2, 0, 0]]);
}

#[test]
fn clear_leaves_a_dark_frame() {
    let mut m: PatternManager<SolidPattern> = PatternManager::new(18, 4);
    m.add_pattern("a".to_string(), SolidPattern::new([200, 100, 50, 0]), 0);
    m.increment_ticks(SECOND);
    assert_eq!(m.frame(), &vec![[200, 100, 50, 0]; 4]);
    m.clear();
    assert!(m.get_patterns().is_empty());
    assert_eq!(m.frame(), &vec![DARK; 4]);
    assert!(!m.increment_ticks(2 * SECOND));
}

#[test]
fn clear_with_nothing_active_still_blends_a_dark_frame() {
    let mut m: PatternManager<SolidPattern> = PatternManager::new(18, 2);
    m.clear();
    assert!(m.get_patterns().is_empty());
    assert_eq!(m.frame(), &vec![DARK; 2]);
}

#[test]
fn new_manager_has_the_documented_settings() {
    let mut m: PatternManager<SolidPattern> = PatternManager::new(18, 240);
    assert_eq!(m.pin(), 18);
    assert_eq!(m.num_leds(), 240);
    assert_eq!(m.brightness(), 255);
    assert_eq!(m.sleep_time(), 1_000);
    assert_eq!(m.frame(), &vec![DARK; 240]);
    assert!(m.get_patterns().is_empty());
    m.set_brightness(40);
    assert_eq!(m.brightness(), 40);
    m.set_sleep_time(250);
    assert_eq!(m.sleep_time(), 250);
    assert_eq!(m.num_leds(), 240);
}

#[test]
fn manager_of_an_empty_strip() {
    let mut m: PatternManager<SolidPattern> = PatternManager::new(18, 0);
    m.add_pattern("a".to_string(), SolidPattern::new([1, 2, 3, 0]), 0);
    assert!(m.increment_ticks(SECOND));
    assert!(m.frame().is_empty());
}

#[test]
fn any_pattern_wraps_by_the_cycle_of_what_it_holds() {
    let palette: Vec<Pixel> = (0..360u32).map(|h| [(h % 256) as u8, (h / 256) as u8, 0, 0]).collect();
    let mut p = AnyPattern::SolidRainbow(SolidTimeVaryingRainbow::new(3, palette));
    assert_eq!(p.tick_rate(), 3);
    assert_eq!(p.tick_cycle(), Some(359));
    let mut leds = vec![DARK; 2];
    assert!(p.start_tick(360, &mut leds));
    assert_eq!(leds, vec![[1, 0, 0, 0]; 2]);
    let mut q = AnyPattern::Solid(SolidPattern::new([5, 6, 7, 0]));
    assert_eq!(q.tick_rate(), 60);
    assert_eq!(q.tick_cycle(), None);
    assert!(q.start_tick(360, &mut leds));
    assert_eq!(leds, vec![[5, 6, 7, 0]; 2]);
}

#[test]
fn any_pattern_is_ready_for_a_strip_it_can_paint() {
    let palette: Vec<Pixel> = vec![DARK; 360];
    let short: Vec<Pixel> = vec![DARK; 359];
    assert!(AnyPattern::Solid(SolidPattern::new(DARK)).ready_for(0));
    assert!(AnyPattern::FadeCrawl(comet(1)).ready_for(1));
    assert!(!AnyPattern::FadeCrawl(comet(1)).ready_for(0));
    assert!(AnyPattern::SolidRainbow(SolidTimeVaryingRainbow::new(1, palette)).ready_for(0));
    assert!(!AnyPattern::SolidRainbow(SolidTimeVaryingRainbow::new(1, short)).ready_for(9));
    let mut stuck = comet(1);
    stuck.tick_cycle = Some(0);
    assert!(!AnyPattern::FadeCrawl(stuck).ready_for(9));
}
