//! The catalog of modes and the choice of the best mode.

use x11_edid_auto::mode::{Mode, ModeCatalog};

fn mode(id: u32, width: u16, height: u16, dot_clock: u32) -> Mode {
    Mode { id, width, height, dot_clock }
}

fn best(modes: &[Mode], supported: &[u32]) -> Option<Mode> {
    ModeCatalog::new(&modes.to_vec()).best_mode(&supported.to_vec()).ok()
}

#[test]
fn slower_clock_wins_among_equal_sizes() {
    let a = mode(1, 1920, 1080, 148_500_000);
    let b = mode(2, 1920, 1080, 138_500_000);
    assert_eq!(best(&[a, b], &[1, 2]), Some(b));
    assert_eq!(best(&[a, b], &[2, 1]), Some(b));
}

#[test]
fn wider_mode_wins_whatever_its_height_and_clock() {
    let narrow = mode(1, 1920, 2000, 1);
    let wide = mode(2, 1921, 100, 900_000_000);
    assert_eq!(best(&[narrow, wide], &[1, 2]), Some(wide));
    assert_eq!(best(&[narrow, wide], &[2, 1]), Some(wide));
}

#[test]
fn taller_mode_wins_among_equal_widths() {
    let low = mode(1, 1920, 1080, 1);
    let tall = mode(2, 1920, 1200, 900_000_000);
    assert_eq!(best(&[low, tall], &[1, 2]), Some(tall));
    assert_eq!(best(&[low, tall], &[2, 1]), Some(tall));
}

#[test]
fn later_mode_wins_a_full_tie() {
    let first = mode(1, 1920, 1080, 148_500_000);
    let second = mode(2, 1920, 1080, 148_500_000);
    let third = mode(3, 1920, 1080, 148_500_000);
    assert_eq!(best(&[first, second, third], &[1, 2, 3]), Some(third));
    assert_eq!(best(&[first, second, third], &[3, 1, 2]), Some(second));
    assert_eq!(best(&[first, second, third], &[2, 3, 1]), Some(first));
}

#[test]
fn order_of_the_output_decides_not_that_of_the_catalog() {
    let a = mode(7, 800, 600, 40_000_000);
    let b = mode(3, 800, 600, 40_000_000);
    assert_eq!(best(&[a, b], &[3, 7]), Some(a));
    assert_eq!(best(&[b, a], &[3, 7]), Some(a));
}

#[test]
fn modes_unknown_to_the_catalog_are_passed_over() {
    let known = mode(5, 640, 480, 25_175_000);
    assert_eq!(best(&[known], &[9, 5, 11]), Some(known));
}

#[test]
fn no_mode_is_found_when_the_catalog_knows_none() {
    let known = mode(5, 640, 480, 25_175_000);
    assert!(ModeCatalog::new(&vec![known]).best_mode(&vec![1, 2, 3]).is_err());
    assert!(ModeCatalog::new(&vec![known]).best_mode(&vec![]).is_err());
    assert!(ModeCatalog::new(&vec![]).best_mode(&vec![5]).is_err());
}

#[test]
fn best_of_many() {
    let modes = [
        mode(1, 1280, 720, 74_250_000),
        mode(2, 1920, 1080, 148_500_000),
        mode(3, 1920, 1200, 154_000_000),
        mode(4, 1920, 1200, 193_250_000),
        mode(5, 1600, 1200, 162_000_000),
    ];
    assert_eq!(best(&modes, &[4, 1, 2, 5, 3]), Some(modes[2]));
    assert_eq!(best(&modes, &[1, 2, 5]), Some(modes[1]));
}

#[test]
fn catalog_holds_each_mode_under_its_id() {
    let catalog = ModeCatalog::new(&vec![mode(1, 10, 20, 30), mode(2, 40, 50, 60)]);
    assert_eq!(catalog.get(1), Some(mode(1, 10, 20, 30)));
    assert_eq!(catalog.get(2), Some(mode(2, 40, 50, 60)));
    assert_eq!(catalog.get(3), None);
}

#[test]
fn later_mode_replaces_an_earlier_one_of_the_same_id() {
    let catalog = ModeCatalog::new(&vec![mode(1, 10, 20, 30), mode(1, 40, 50, 60)]);
    assert_eq!(catalog.get(1), Some(mode(1, 40, 50, 60)));
}

#[test]
fn a_mode_is_better_by_width_then_height_then_slower_clock() {
    let base = mode(1, 100, 100, 100);
    assert!(mode(2, 101, 1, 999).is_better_than(&base));
    assert!(!mode(2, 99, 999, 1).is_better_than(&base));
    assert!(mode(2, 100, 101, 999).is_better_than(&base));
    assert!(!mode(2, 100, 99, 1).is_better_than(&base));
    assert!(mode(2, 100, 100, 99).is_better_than(&base));
    assert!(!mode(2, 100, 100, 101).is_better_than(&base));
    assert!(!mode(2, 100, 100, 100).is_better_than(&base));
}
