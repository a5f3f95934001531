use music_player::stream::Cursor;

#[test]
fn read_advances_and_stops_at_the_end() {
    let mut cur = Cursor::new(vec![1, 2, 3, 4, 5]);
    assert_eq!(vec![1, 2], cur.read(2));
    assert_eq!(2, cur.position());
    assert_eq!(vec![3, 4, 5], cur.read(10));
    assert_eq!(5, cur.position());
    assert_eq!(Vec::<u8>::new(), cur.read(3));
    assert_eq!(5, cur.position());
    assert!(cur.at_eof());
}

#[test]
fn read_beyond_the_end_yields_nothing() {
    let mut cur = Cursor::new(vec![1, 2, 3]);
    cur.set_position(9);
    assert_eq!(Vec::<u8>::new(), cur.read(2));
    assert_eq!(9, cur.position());
    assert_eq!(3, cur.len());
}

#[test]
fn read_exact_is_all_or_nothing() {
    let mut cur = Cursor::new(vec![1, 2, 3]);
    assert_eq!(Some(vec![1, 2]), cur.read_exact(2));
    assert_eq!(None, cur.read_exact(2));
    assert_eq!(2, cur.position());
    assert_eq!(Some(vec![3]), cur.read_exact(1));
    assert_eq!(Some(vec![]), cur.read_exact(0));
}
