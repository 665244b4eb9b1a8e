use bzipper::SizedSlice;

#[test]
fn test_sized_iter_double_ended() {
    let data = SizedSlice::from([
        'H', 'E', 'L', 'L', 'O', ' ', 'W', 'O',
        'R', 'L', 'D',
    ]);

    let mut data = data.into_iter();

    assert_eq!(data.next(),      Some('H'));
    assert_eq!(data.next_back(), Some('D'));
    assert_eq!(data.next(),      Some('E'));
    assert_eq!(data.next_back(), Some('L'));
    assert_eq!(data.next(),      Some('L'));
    assert_eq!(data.next_back(), Some('R'));
    assert_eq!(data.next(),      Some('L'));
    assert_eq!(data.next_back(), Some('O'));
    assert_eq!(data.next(),      Some('O'));
    assert_eq!(data.next_back(), Some('W'));
    assert_eq!(data.next(),      Some(' '));
}

#[test]
fn test_sized_iter_exhausted() {
    let data = SizedSlice::from([1u8, 2]);
    let mut it = data.into_iter();
    assert_eq!(it.len(), 2);
    assert_eq!(it.next_back(), Some(2));
    assert_eq!(it.as_slice(), [1u8].as_slice());
    assert_eq!(it.next(), Some(1));
    assert_eq!(it.next(), None);
    assert_eq!(it.next_back(), None);
}

#[test]
fn test_fixed_iter() {
    let mut it = bzipper::FixedIter::<char, 4>::new(vec!['a', 'b']);
    assert_eq!(it.next(), Some('a'));
    assert_eq!(it.next(), Some('b'));
    assert_eq!(it.next(), None);
}
