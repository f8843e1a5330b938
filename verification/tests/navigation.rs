//! Cursor/scroll navigation and the cyclic tab selector.

use oled::nav::{ListNav, Tab};

fn invariant_holds(nav: &ListNav) -> bool {
    if nav.item_count == 0 {
        nav.cursor == 0 && nav.scroll == 0
    } else {
        nav.cursor < nav.item_count && nav.scroll <= nav.cursor
            && nav.cursor < nav.scroll + nav.visible_count
    }
}

#[test]
fn nine_moves_down_land_on_cursor_nine_scroll_four() {
    let mut nav = ListNav::new(6, 10);
    for _ in 0..9 {
        nav.move_cursor(1);
        assert!(invariant_holds(&nav));
    }
    assert_eq!(nav.cursor, 9);
    assert_eq!(nav.scroll, 4);
}

#[test]
fn moves_hold_the_invariant_under_mixed_deltas() {
    let mut nav = ListNav::new(6, 10);
    let moves: [i64; 14] = [1, 1, 1, 1, 1, 1, 1, -1, -1, -1, -1, -1, 1, -1];
    for d in moves {
        nav.move_cursor(d);
        assert!(invariant_holds(&nav));
    }
}

#[test]
fn cursor_clamps_at_both_ends() {
    let mut nav = ListNav::new(6, 3);
    nav.move_cursor(-1);
    assert_eq!(nav.cursor, 0);
    assert_eq!(nav.scroll, 0);
    nav.move_cursor(1);
    nav.move_cursor(1);
    nav.move_cursor(1);
    assert_eq!(nav.cursor, 2);
    assert_eq!(nav.scroll, 0);
}

#[test]
fn moves_on_an_empty_list_do_nothing() {
    let mut nav = ListNav::new(6, 0);
    nav.move_cursor(1);
    nav.move_cursor(-1);
    assert_eq!(nav.cursor, 0);
    assert_eq!(nav.scroll, 0);
    assert_eq!(nav.item_count, 0);
}

#[test]
fn zero_delta_move_is_idempotent() {
    let mut a = ListNav::new(6, 10);
    for _ in 0..7 {
        a.move_cursor(1);
    }
    let mut b = a;
    a.move_cursor(0);
    b.move_cursor(0);
    b.move_cursor(0);
    assert_eq!(a, b);
}

#[test]
fn set_item_count_clamps_cursor_and_scroll() {
    let mut nav = ListNav::new(6, 10);
    for _ in 0..9 {
        nav.move_cursor(1);
    }
    assert_eq!((nav.cursor, nav.scroll), (9, 4));
    nav.set_item_count(3);
    assert_eq!(nav.item_count, 3);
    assert_eq!(nav.cursor, 2);
    assert!(invariant_holds(&nav));
    nav.set_item_count(0);
    assert_eq!((nav.cursor, nav.scroll), (0, 0));
}

#[test]
fn reset_returns_to_the_top() {
    let mut nav = ListNav::new(6, 10);
    for _ in 0..9 {
        nav.move_cursor(1);
    }
    nav.reset();
    assert_eq!((nav.cursor, nav.scroll), (0, 0));
    assert_eq!(nav.item_count, 10);
}

#[test]
fn four_rights_cycle_the_tabs() {
    let mut t = Tab::Files;
    let mut seen = Vec::new();
    for _ in 0..4 {
        t = t.next();
        seen.push(t);
    }
    assert_eq!(seen, vec![Tab::Network, Tab::Bluetooth, Tab::Player, Tab::Files]);
}

#[test]
fn left_undoes_right_on_every_tab() {
    for t in [Tab::Files, Tab::Network, Tab::Bluetooth, Tab::Player] {
        assert_eq!(t.next().prev(), t);
        assert_eq!(t.prev().next(), t);
    }
}
