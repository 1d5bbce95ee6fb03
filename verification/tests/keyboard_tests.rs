use workbench::keyboard::{classify_nav_key, navigate_index, NavDirection, Orientation};

fn none_disabled(count: usize) -> Vec<bool> {
    vec![false; count]
}

#[test]
fn navigate_next_wraps() {
    assert_eq!(navigate_index(4, NavDirection::Next, 5, &none_disabled(5)), 0);
    assert_eq!(navigate_index(2, NavDirection::Next, 5, &none_disabled(5)), 3);
}

#[test]
fn navigate_prev_wraps() {
    assert_eq!(navigate_index(0, NavDirection::Previous, 5, &none_disabled(5)), 4);
    assert_eq!(navigate_index(3, NavDirection::Previous, 5, &none_disabled(5)), 2);
}

#[test]
fn navigate_first_last() {
    assert_eq!(navigate_index(3, NavDirection::First, 5, &none_disabled(5)), 0);
    assert_eq!(navigate_index(1, NavDirection::Last, 5, &none_disabled(5)), 4);
}

#[test]
fn navigate_skips_disabled() {
    // Items 0, 2 are disabled
    let disabled = vec![true, false, true, false, false];
    assert_eq!(navigate_index(1, NavDirection::Next, 5, &disabled), 3);
    assert_eq!(navigate_index(1, NavDirection::Previous, 5, &disabled), 4);
    assert_eq!(navigate_index(3, NavDirection::First, 5, &disabled), 1);
    assert_eq!(navigate_index(1, NavDirection::Last, 5, &disabled), 4);
}

#[test]
fn navigate_all_disabled_returns_current() {
    assert_eq!(navigate_index(2, NavDirection::Next, 5, &vec![true; 5]), 2);
}

#[test]
fn navigate_empty_list() {
    assert_eq!(navigate_index(0, NavDirection::Next, 0, &none_disabled(0)), 0);
}

#[test]
fn navigate_single_item() {
    assert_eq!(navigate_index(0, NavDirection::Next, 1, &none_disabled(1)), 0);
    assert_eq!(navigate_index(0, NavDirection::Previous, 1, &none_disabled(1)), 0);
}

#[test]
fn vertical_arrows_classify() {
    assert_eq!(classify_nav_key("up", Orientation::Vertical), Some(NavDirection::Previous));
    assert_eq!(classify_nav_key("down", Orientation::Vertical), Some(NavDirection::Next));
    assert_eq!(classify_nav_key("home", Orientation::Vertical), Some(NavDirection::First));
    assert_eq!(classify_nav_key("end", Orientation::Vertical), Some(NavDirection::Last));
    assert_eq!(classify_nav_key("left", Orientation::Vertical), None);
}

#[test]
fn horizontal_arrows_classify() {
    assert_eq!(classify_nav_key("left", Orientation::Horizontal), Some(NavDirection::Previous));
    assert_eq!(classify_nav_key("right", Orientation::Horizontal), Some(NavDirection::Next));
    assert_eq!(classify_nav_key("up", Orientation::Horizontal), None);
}
