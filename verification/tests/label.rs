use whack_core::label::{decimal_text, enemy_text, hole_text, Entity};

#[test]
fn decimal_text_writes_single_digits() {
    for (n, s) in [(0u64, "0"), (1, "1"), (2, "2"), (3, "3"), (4, "4"), (5, "5"), (6, "6"), (7, "7"), (8, "8"), (9, "9")] {
        assert_eq!(decimal_text(n), s);
    }
}

#[test]
fn decimal_text_writes_without_padding() {
    assert_eq!(decimal_text(10), "10");
    assert_eq!(decimal_text(42), "42");
    assert_eq!(decimal_text(100), "100");
    assert_eq!(decimal_text(1_000_005), "1000005");
    assert_eq!(decimal_text(4_294_967_295), "4294967295");
    assert_eq!(decimal_text(u64::MAX), "18446744073709551615");
}

#[test]
fn decimal_text_agrees_with_the_standard_formatter() {
    for n in 0u64..2_000 {
        assert_eq!(decimal_text(n), format!("{}", n));
    }
}

#[test]
fn labels_follow_the_naming_convention() {
    assert_eq!(Entity::Striker.label(), "player");
    assert_eq!(Entity::Hole(0).label(), "hole_0");
    assert_eq!(Entity::Hole(2).label(), "hole_2");
    assert_eq!(Entity::Enemy(0).label(), "enemy_0");
    assert_eq!(Entity::Enemy(3).label(), "enemy_3");
    assert_eq!(hole_text(12), "hole_12");
    assert_eq!(enemy_text(107), "enemy_107");
}
