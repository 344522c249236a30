use hyperwasm::Tag;
use hyperwasm::TagCounter;

#[test]
fn fresh_tags_strictly_increase_and_avoid_reserved_values() {
    let mut counter = TagCounter::new();
    let mut previous: i64 = 128;
    for _ in 0..100 {
        let t = Tag::new(&mut counter);
        assert!(t.id() > previous);
        assert!(t.id() > 128);
        assert_ne!(t.id(), 0);
        assert!(!(64 <= t.id() && t.id() <= 128));
        previous = t.id();
    }
}

#[test]
fn first_allocated_tag_is_129() {
    let mut counter = TagCounter::new();
    let t = Tag::new(&mut counter);
    assert_eq!(t.id(), 129);
}

#[test]
fn special_returns_a_tag_exactly_in_reserved_range() {
    assert!(Tag::special(63).is_none());
    assert!(Tag::special(64).is_some());
    assert_eq!(Tag::special(64).unwrap().id(), 64);
    assert!(Tag::special(100).is_some());
    assert_eq!(Tag::special(100).unwrap().id(), 100);
    assert!(Tag::special(128).is_some());
    assert_eq!(Tag::special(128).unwrap().id(), 128);
    assert!(Tag::special(129).is_none());
    assert!(Tag::special(0).is_none());
    assert!(Tag::special(-5).is_none());
    assert!(Tag::special(i64::MAX).is_none());
}

#[test]
fn none_is_the_zero_tag() {
    assert_eq!(Tag::none().id(), 0);
}

#[test]
fn tags_compare_by_value() {
    assert_eq!(Tag::none(), Tag::none());
    assert_eq!(Tag::special(70), Tag::special(70));
    assert_ne!(Tag::special(70).unwrap(), Tag::special(71).unwrap());
    let mut c1 = TagCounter::new();
    let mut c2 = TagCounter::new();
    assert_eq!(Tag::new(&mut c1), Tag::new(&mut c2));
}
