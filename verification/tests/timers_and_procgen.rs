use kitchen_fire::fire::{flame_fan_indices, pick_palette_index, FireFlicker};
use kitchen_fire::procgen::{all_kinds, iter_cells, random_object_kind, ObjectKind};
use kitchen_fire::timer::{OnceTimer, RepeatingTimer};

#[test]
fn timer_counts_up_within_a_period() {
    let mut t = RepeatingTimer::new(500);
    assert_eq!(t.duration_ns(), 500);
    t.tick(300);
    assert_eq!(t.elapsed_ns(), 300);
    assert_eq!(t.times_finished_this_tick(), 0);
    assert!(!t.just_finished());
}

#[test]
fn timer_wraps_around_its_period() {
    let mut t = RepeatingTimer::new(500);
    t.tick(300);
    t.tick(300);
    assert_eq!(t.elapsed_ns(), 100);
    assert_eq!(t.times_finished_this_tick(), 1);
    assert!(t.just_finished());
    t.tick(1250);
    assert_eq!(t.elapsed_ns(), 350);
    assert_eq!(t.times_finished_this_tick(), 2);
    t.tick(0);
    assert_eq!(t.elapsed_ns(), 350);
    assert!(!t.just_finished());
}

#[test]
fn timer_exactly_at_period_finishes() {
    let mut t = RepeatingTimer::new(500_000_000);
    t.tick(500_000_000);
    assert_eq!(t.elapsed_ns(), 0);
    assert_eq!(t.times_finished_this_tick(), 1);
}

#[test]
fn zero_period_timer_always_finishes() {
    let mut t = RepeatingTimer::new(0);
    t.tick(10);
    assert_eq!(t.elapsed_ns(), 0);
    assert_eq!(t.times_finished_this_tick(), u32::MAX);
}

#[test]
fn timer_reset_restarts_period() {
    let mut t = RepeatingTimer::new(500);
    t.tick(700);
    assert!(t.just_finished());
    t.reset();
    assert_eq!(t.elapsed_ns(), 0);
    assert!(!t.just_finished());
    assert_eq!(t.duration_ns(), 500);
}

#[test]
fn cells_are_row_major() {
    let cells = iter_cells(2, 3);
    assert_eq!(cells, vec![(0, 0), (0, 1), (0, 2), (1, 0), (1, 1), (1, 2)]);
}

#[test]
fn empty_grids_have_no_cells() {
    assert!(iter_cells(0, 5).is_empty());
    assert!(iter_cells(4, 0).is_empty());
}

#[test]
fn room_grid_has_every_cell_once() {
    let cells = iter_cells(19, 15);
    assert_eq!(cells.len(), 285);
    for r in 0..19 {
        for c in 0..15 {
            assert_eq!(cells[r * 15 + c], (r, c));
        }
    }
}

#[test]
fn all_kinds_in_order() {
    assert_eq!(
        all_kinds(),
        vec![
            ObjectKind::Table,
            ObjectKind::Chair,
            ObjectKind::KitchenCounter,
            ObjectKind::Fridge,
            ObjectKind::Stove
        ]
    );
}

#[test]
fn random_kind_is_a_known_kind() {
    let kinds = all_kinds();
    let mut seen = Vec::new();
    for _ in 0..500 {
        let k = random_object_kind();
        assert!(kinds.contains(&k));
        if !seen.contains(&k) {
            seen.push(k);
        }
    }
    assert!(seen.len() > 1);
}

#[test]
fn palette_index_in_range() {
    assert_eq!(pick_palette_index(1), 0);
    let mut seen = [false; 5];
    for _ in 0..500 {
        let i = pick_palette_index(5);
        assert!(i < 5);
        seen[i] = true;
    }
    assert!(seen.iter().filter(|s| **s).count() > 1);
}

#[test]
fn flame_fan_of_ten_outline_vertices() {
    let mut expected: Vec<u32> = Vec::new();
    let n = 10u32;
    for i in 1..=n {
        expected.push(0);
        expected.push(i);
        expected.push(if i == n { 1 } else { i + 1 });
    }
    assert_eq!(flame_fan_indices(10), expected);
    assert_eq!(&flame_fan_indices(10)[27..30], &[0, 10, 1]);
}

#[test]
fn flame_fan_edge_cases() {
    assert!(flame_fan_indices(0).is_empty());
    assert_eq!(flame_fan_indices(1), vec![0, 1, 1]);
    assert_eq!(flame_fan_indices(3), vec![0, 1, 2, 0, 2, 3, 0, 3, 1]);
}

#[test]
fn flicker_changes_colour_when_period_completes() {
    let mut f = FireFlicker::new(80);
    assert_eq!(f.flicker(50, 5), None);
    let pick = f.flicker(50, 5);
    assert!(matches!(pick, Some(i) if i < 5));
    assert_eq!(f.timer.elapsed_ns(), 20);
    assert_eq!(f.flicker(10, 5), None);
}

#[test]
fn once_timer_runs_out_and_stays_out() {
    let mut t = OnceTimer::new(2_000);
    assert!(!t.is_finished());
    assert!(!t.expired_after(1_500));
    assert_eq!(t.elapsed_ns(), 1_500);
    assert!(t.expired_after(700));
    assert_eq!(t.elapsed_ns(), 2_000);
    assert!(t.is_finished());
    assert!(t.expired_after(0));
    assert_eq!(t.elapsed_ns(), 2_000);
}

#[test]
fn once_timer_finishes_exactly_at_duration() {
    let mut t = OnceTimer::new(2_000_000_000);
    t.tick(1_999_999_999);
    assert!(!t.is_finished());
    t.tick(1);
    assert!(t.is_finished());
}
