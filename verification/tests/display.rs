//! The score counters and their display text.

use pong_core::score::{score_changed, score_text, Score};

#[test]
fn counters_move_one_at_a_time() {
    let mut s = Score::new();
    assert_eq!(s.left, 0);
    assert_eq!(s.right, 0);
    s.add_right();
    assert_eq!(s.left, 0);
    assert_eq!(s.right, 1);
    s.add_left();
    s.add_left();
    assert_eq!(s.left, 2);
    assert_eq!(s.right, 1);
}

#[test]
fn change_detection_compares_both_sides() {
    let a = Score { left: 1, right: 2 };
    assert!(!score_changed(&a, &Score { left: 1, right: 2 }));
    assert!(score_changed(&a, &Score { left: 2, right: 2 }));
    assert!(score_changed(&a, &Score { left: 1, right: 3 }));
}

#[test]
fn decimal_text_of_small_numbers() {
    assert_eq!(score_text(0), "0");
    assert_eq!(score_text(7), "7");
    assert_eq!(score_text(9), "9");
}

#[test]
fn decimal_text_of_larger_numbers() {
    assert_eq!(score_text(10), "10");
    assert_eq!(score_text(305), "305");
    assert_eq!(score_text(4_294_967_295), "4294967295");
}
