//! Scrolling of the message list: the anchor, the mounted window, the pill.

use gander::chat::message_list::{sync_visibility, target_bottom_scroll, MessageListState};
use gander::chat::scroll::{at_bottom_from_metrics, AT_BOTTOM_EPSILON_PX};
use gander::chat::types::ChatMessage;
use gander::chat::virtual_list::{
    visible_window, RunningMean, VisibleWindow, INITIAL_AVERAGE_HEIGHT_PX, VIRTUAL_OVERSCAN,
};

/// Units of length in a pixel.
const PX: i64 = 64;

/// Pixels in units.
fn px(n: f64) -> i64 {
    (n * PX as f64) as i64
}

/// A spacer in pixels.
fn spacer(n: i128) -> f64 {
    n as f64 / PX as f64
}

/// The heights of `total` messages, each `h` pixels tall.
fn flat(total: usize, h: f64) -> Vec<i64> {
    vec![px(h); total]
}

fn at_bottom(scroll_top: f64, scroll_height: f64, client_height: f64) -> bool {
    at_bottom_from_metrics(px(scroll_top), px(scroll_height), px(client_height), PX)
}

#[test]
fn empty_or_short_content_is_at_bottom() {
    assert!(at_bottom(0.0, 100.0, 600.0));
    assert!(at_bottom(0.0, 600.0, 600.0));
}

#[test]
fn pinned_to_bottom_is_at_bottom() {
    assert!(at_bottom(1400.0, 2000.0, 600.0));
}

#[test]
fn within_epsilon_is_at_bottom() {
    assert!(at_bottom(1370.0, 2000.0, 600.0));
}

#[test]
fn beyond_epsilon_is_not_at_bottom() {
    assert!(!at_bottom(1280.0, 2000.0, 600.0));
}

#[test]
fn scrolled_to_top_is_not_at_bottom() {
    assert!(!at_bottom(0.0, 2000.0, 600.0));
}

#[test]
fn fractional_pixel_jitter_does_not_unanchor() {
    assert!(at_bottom(1399.5_f64, 2000.0_f64, 600.0_f64));
}

#[test]
fn the_bottom_ends_at_the_epsilon() {
    let floor = 1400.0;
    let epsilon = AT_BOTTOM_EPSILON_PX as f64;
    assert!(!at_bottom(floor - epsilon, 2000.0, 600.0));
    assert!(at_bottom(floor - epsilon + 1.0, 2000.0, 600.0));
}

#[test]
fn the_unit_of_length_is_free() {
    for unit in [1, 3, 64, 1 << 40] {
        assert!(at_bottom_from_metrics(1370 * unit, 2000 * unit, 600 * unit, unit));
        assert!(!at_bottom_from_metrics(1340 * unit, 2000 * unit, 600 * unit, unit));
        assert_eq!(target_bottom_scroll(10, 600 * unit, unit), 600 * unit);
    }
    assert!(at_bottom_from_metrics(1340 * 3 + 1, 2000 * 3, 600 * 3, 3));
}

#[test]
fn half_a_pixel_is_no_scrolling() {
    let mut list = MessageListState::new(PX);
    list.on_install(px(100.0), px(600.0), 10);
    list.on_scroll(px(100.5), px(2000.0), px(600.0), 10);
    assert_eq!(list.scroll_top, px(100.0));
    list.on_scroll(px(100.5) + 1, px(2000.0), px(600.0), 10);
    assert_eq!(list.scroll_top, px(100.5) + 1);
}

#[test]
fn empty_list_yields_empty_window() {
    let w = visible_window(px(0.0), px(600.0), &Vec::new(), VIRTUAL_OVERSCAN);
    assert_eq!(w, VisibleWindow::empty());
}

#[test]
fn whole_short_list_fits_inside_overscan() {
    let w = visible_window(px(0.0), px(600.0), &flat(10, 100.0), VIRTUAL_OVERSCAN);
    assert_eq!(w.first, 0);
    assert_eq!(w.last, 10);
    assert_eq!(spacer(w.leading_spacer), 0.0);
    assert_eq!(spacer(w.trailing_spacer), 0.0);
}

#[test]
fn anchored_to_bottom_long_list_mounts_only_tail_plus_overscan() {
    let w = visible_window(px(49_400.0), px(600.0), &flat(500, 100.0), VIRTUAL_OVERSCAN);
    assert_eq!(w.first, 474);
    assert_eq!(w.last, 500);
    assert!((spacer(w.leading_spacer) - 47_400.0).abs() < 1.0);
    assert_eq!(spacer(w.trailing_spacer), 0.0);
}

#[test]
fn scrolled_to_top_long_list_mounts_head_plus_overscan() {
    let w = visible_window(px(0.0), px(600.0), &flat(500, 100.0), VIRTUAL_OVERSCAN);
    assert_eq!(w.first, 0);
    assert_eq!(w.last, 26);
    assert_eq!(spacer(w.leading_spacer), 0.0);
    assert!((spacer(w.trailing_spacer) - 47_400.0).abs() < 1.0);
}

#[test]
fn scrolled_to_middle_mounts_window_around_visible() {
    let w = visible_window(px(20_000.0), px(600.0), &flat(500, 100.0), VIRTUAL_OVERSCAN);
    assert_eq!(w.first, 180);
    assert_eq!(w.last, 226);
    assert!((spacer(w.leading_spacer) - 18_000.0).abs() < 1.0);
    assert!((spacer(w.trailing_spacer) - 27_400.0).abs() < 1.0);
}

#[test]
fn variable_heights_compute_correct_spacers() {
    let heights = [50.0, 800.0, 50.0, 50.0, 50.0, 800.0, 50.0, 50.0, 50.0, 50.0];
    let list: Vec<i64> = heights.iter().map(|h| px(*h)).collect();
    let w = visible_window(px(100.0), px(600.0), &list, 0);
    assert_eq!(w.first, 1);
    assert_eq!(w.last, 2);
    assert_eq!(spacer(w.leading_spacer), 50.0);
    let trailing: f64 = heights[2..].iter().sum();
    assert!((spacer(w.trailing_spacer) - trailing).abs() < 1.0);
}

#[test]
fn overscan_clamps_at_list_bounds() {
    let w = visible_window(px(99_999.0), px(600.0), &flat(4, 100.0), 10);
    assert_eq!(w.first, 0);
    assert_eq!(w.last, 4);
    assert_eq!(spacer(w.leading_spacer), 0.0);
    assert_eq!(spacer(w.trailing_spacer), 0.0);
}

#[test]
fn negative_metrics_are_clamped_to_zero() {
    let w = visible_window(px(-100.0), px(-600.0), &flat(50, 100.0), VIRTUAL_OVERSCAN);
    assert_eq!(w.first, 0);
    assert_eq!(w.last, 20);
}

#[test]
fn spacers_and_mounted_messages_add_up() {
    let heights = flat(500, 100.0);
    let w = visible_window(px(20_000.0), px(600.0), &heights, VIRTUAL_OVERSCAN);
    let mounted: i128 = heights[w.first..w.last].iter().map(|h| *h as i128).sum();
    let total: i128 = heights.iter().map(|h| *h as i128).sum();
    assert_eq!(w.leading_spacer + mounted + w.trailing_spacer, total);
}

/// The mean in pixels.
fn mean(m: &RunningMean) -> f64 {
    let (sum, count) = m.mean(PX as u64);
    sum as f64 / count as f64 / PX as f64
}

#[test]
fn running_mean_bootstraps_to_initial_average() {
    let m = RunningMean::new();
    assert_eq!(mean(&m), INITIAL_AVERAGE_HEIGHT_PX as f64);
    assert_eq!(m.n(), 0);
}

#[test]
fn running_mean_first_observation_replaces_bootstrap() {
    let mut m = RunningMean::new();
    m.observe(px(200.0));
    assert!((mean(&m) - 200.0).abs() < 1e-9);
    assert_eq!(m.n(), 1);
}

#[test]
fn running_mean_converges_to_steady_state() {
    let mut m = RunningMean::new();
    for i in 0..1000 {
        m.observe(px(if i % 2 == 0 { 140.0 } else { 160.0 }));
    }
    let mean = mean(&m);
    assert!(
        (mean - 150.0).abs() < 0.5,
        "running mean should track to 150, got {}",
        mean
    );
}

#[test]
fn running_mean_clamps_negative_observations() {
    let mut m = RunningMean::new();
    m.observe(px(-50.0));
    assert!((mean(&m) - 0.0).abs() < 1e-9);
    assert_eq!(m.n(), 1);
}

#[test]
fn running_mean_is_that_of_all_heights() {
    let mut m = RunningMean::new();
    for sample in [100.0, -30.0, 50.0, 51.0] {
        m.observe(px(sample));
    }
    assert_eq!(m.n(), 4);
    assert_eq!(m.mean(PX as u64), (px(201.0) as u128, 4));
    assert_eq!(mean(&m), 50.25);
}

#[test]
fn the_pill_counts_what_arrived_below() {
    let mut list = MessageListState::new(PX);
    list.on_install(px(0.0), px(600.0), 0);
    assert!(list.on_messages(3));
    assert_eq!(list.pill_label(), None);

    list.on_scroll(px(0.0), px(2000.0), px(600.0), 3);
    assert!(!list.on_messages(5));
    let label = list.pill_label().unwrap();
    assert!(label.contains('2'), "{label}");

    list.on_scroll(px(1400.0), px(2000.0), px(600.0), 5);
    assert_eq!(list.pill_label(), None);
}

#[test]
fn the_tail_is_mounted_at_the_bottom() {
    let total = 100;
    let bottom = target_bottom_scroll(total, px(600.0), PX);
    let heights = flat(total, INITIAL_AVERAGE_HEIGHT_PX as f64);
    let w = visible_window(bottom, px(600.0), &heights, VIRTUAL_OVERSCAN);
    assert_eq!(w.last, total);
}

#[test]
fn only_mounted_messages_are_visible() {
    let mut messages: Vec<ChatMessage> =
        (0..4).map(|i| ChatMessage::new_user(i, "m")).collect();
    let mut w = VisibleWindow::empty();
    w.first = 1;
    w.last = 3;
    sync_visibility(&mut messages, w);
    let visible: Vec<bool> = messages.iter().map(|m| m.visible).collect();
    assert_eq!(visible, [false, true, true, false]);
}
