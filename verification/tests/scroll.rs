use simplide::scroll::{follow, line_number_width, max_scroll, wheel, Area};
use simplide::sidebar::{handle_sidebar_click, handle_sidebar_scroll, SidebarHit};
use simplide::width::{char_columns, saturating_sum};

#[test]
fn follow_keeps_the_position_in_the_window() {
    assert_eq!(follow(10, 4, 5), 4);
    assert_eq!(follow(10, 10, 5), 10);
    assert_eq!(follow(10, 14, 5), 10);
    assert_eq!(follow(10, 15, 5), 11);
    assert_eq!(follow(0, 3, 10), 0);
    assert_eq!(follow(7, 3, 0), 7);
    assert_eq!(follow(usize::MAX, usize::MAX, 3), usize::MAX);
}

#[test]
fn wheel_clamps_at_both_ends() {
    assert_eq!(wheel(5, -2, 100), 3);
    assert_eq!(wheel(5, -20, 100), 0);
    assert_eq!(wheel(5, 2, 100), 7);
    assert_eq!(wheel(99, 2, 100), 100);
    assert_eq!(wheel(500, -1, 100), 100);
    assert_eq!(wheel(500, 1, 100), 100);
    assert_eq!(wheel(0, i16::MIN, 100), 0);
    assert_eq!(wheel(40000, i16::MIN, 100000), 40000 - 32768);
    assert_eq!(wheel(3, 4, 0), 0);
}

#[test]
fn max_scroll_saturates_at_zero() {
    assert_eq!(max_scroll(30, 10), 20);
    assert_eq!(max_scroll(10, 10), 0);
    assert_eq!(max_scroll(3, 10), 0);
}

#[test]
fn gutter_is_digits_and_a_blank() {
    assert_eq!(line_number_width(0), 2);
    assert_eq!(line_number_width(1), 2);
    assert_eq!(line_number_width(9), 2);
    assert_eq!(line_number_width(10), 3);
    assert_eq!(line_number_width(99), 3);
    assert_eq!(line_number_width(100), 4);
    assert_eq!(line_number_width(12345), 6);
    assert_eq!(line_number_width(usize::MAX), usize::MAX.to_string().len() + 1);
}

#[test]
fn area_inner_and_contains() {
    let a = Area { x: 5, y: 3, width: 10, height: 4 };
    assert_eq!(a.inner_height(), 2);
    assert_eq!(a.inner_width(), 8);
    assert!(a.contains(5, 3));
    assert!(a.contains(14, 6));
    assert!(!a.contains(15, 6));
    assert!(!a.contains(14, 7));
    assert!(!a.contains(4, 3));
    let tiny = Area { x: 0, y: 0, width: 1, height: 1 };
    assert_eq!(tiny.inner_height(), 0);
    assert_eq!(tiny.inner_width(), 0);
    let far = Area { x: 65535, y: 65535, width: 65535, height: 65535 };
    assert!(far.contains(65535, 65535));
}

#[test]
fn character_widths_come_from_the_tables() {
    assert_eq!(char_columns('a'), 1);
    assert_eq!(char_columns('漢'), 2);
    assert_eq!(char_columns('\u{301}'), 0);
    assert_eq!(char_columns('\t'), 1);
    assert_eq!(char_columns('\n'), 1);
}

#[test]
fn saturating_sum_holds_at_the_top() {
    assert_eq!(saturating_sum(2, 3), 5);
    assert_eq!(saturating_sum(usize::MAX, 1), usize::MAX);
    assert_eq!(saturating_sum(usize::MAX - 1, 1), usize::MAX);
}

#[test]
fn sidebar_click_finds_the_entry() {
    let area = Area { x: 0, y: 0, width: 20, height: 10 };
    assert_eq!(handle_sidebar_click(3, 0, &area, 0, 5, false), SidebarHit::Outside);
    assert_eq!(handle_sidebar_click(3, 1, &area, 0, 5, false), SidebarHit::Entry(0));
    assert_eq!(handle_sidebar_click(3, 5, &area, 0, 5, false), SidebarHit::Entry(4));
    assert_eq!(handle_sidebar_click(3, 6, &area, 0, 5, false), SidebarHit::Blank);
    assert_eq!(handle_sidebar_click(3, 8, &area, 0, 50, false), SidebarHit::Entry(7));
    assert_eq!(handle_sidebar_click(3, 9, &area, 0, 50, false), SidebarHit::Outside);
    assert_eq!(handle_sidebar_click(20, 3, &area, 0, 50, false), SidebarHit::Outside);
    assert_eq!(handle_sidebar_click(3, 1, &area, 0, 5, true), SidebarHit::Parent);
    assert_eq!(handle_sidebar_click(3, 2, &area, 0, 5, true), SidebarHit::Entry(0));
    assert_eq!(handle_sidebar_click(3, 1, &area, 4, 50, true), SidebarHit::Entry(3));
    assert_eq!(handle_sidebar_click(3, 1, &area, usize::MAX, 50, true), SidebarHit::Blank);
}

#[test]
fn sidebar_wheel_scrolls_inside_the_area_only() {
    let area = Area { x: 0, y: 0, width: 20, height: 10 };
    assert_eq!(handle_sidebar_scroll(3, 3, 1, &area, 0, 20, false), 1);
    assert_eq!(handle_sidebar_scroll(3, 3, 1, &area, 12, 20, false), 12);
    assert_eq!(handle_sidebar_scroll(3, 3, 1, &area, 12, 20, true), 13);
    assert_eq!(handle_sidebar_scroll(3, 3, -1, &area, 12, 20, true), 11);
    assert_eq!(handle_sidebar_scroll(3, 3, -1, &area, 0, 20, true), 0);
    assert_eq!(handle_sidebar_scroll(3, 3, -1, &area, 40, 20, true), 39);
    assert_eq!(handle_sidebar_scroll(30, 3, 1, &area, 5, 20, true), 5);
    assert_eq!(handle_sidebar_scroll(3, 3, 1, &area, 0, 3, false), 0);
}
