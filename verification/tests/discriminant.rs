use bzipper::discriminant::{Discriminant, DiscriminantIter};

#[test]
fn test_discriminants_count_from_zero() {
    let mut it = DiscriminantIter::new();
    assert_eq!(it.next(None), Discriminant(0));
    assert_eq!(it.next(None), Discriminant(1));
    assert_eq!(it.next(None), Discriminant(2));
}

#[test]
fn test_discriminants_follow_explicit() {
    let mut it = DiscriminantIter::new();
    assert_eq!(it.next(Some(Discriminant(0x45))), Discriminant(0x45));
    assert_eq!(it.next(Some(Discriminant(127))), Discriminant(127));
    assert_eq!(it.next(None), Discriminant(128));
    assert_eq!(it.next(Some(Discriminant(-3))), Discriminant(-3));
    assert_eq!(it.next(None), Discriminant(-2));
}
