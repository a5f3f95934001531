use music_player::library::order::{
    check_move, find_position, permute, shuffle_order, shuffle_with, splice_order,
};
use music_player::library::PlaylistError;

#[test]
fn check_move_accepts_permutations_only() {
    assert_eq!(Ok(()), check_move(&vec![], 0));
    assert_eq!(Ok(()), check_move(&vec![2, 0, 1], 3));
    assert_eq!(Err(PlaylistError::MoveLengthMismatch), check_move(&vec![0], 2));
    assert_eq!(Err(PlaylistError::IndexOutOfBounds), check_move(&vec![0, 2], 2));
    assert_eq!(Err(PlaylistError::MoveDuplicateIndices), check_move(&vec![1, 1], 2));
}

#[test]
fn permute_takes_each_item_from_its_index() {
    assert_eq!(vec!['c', 'a', 'b'], permute(vec!['a', 'b', 'c'], &vec![2, 0, 1]));
    assert_eq!(
        vec!["z".to_string(), "y".to_string()],
        permute(vec!["y".to_string(), "z".to_string()], &vec![1, 0])
    );
    assert_eq!(Vec::<u8>::new(), permute(vec![], &vec![]));
}

#[test]
fn find_position_finds_the_first() {
    assert_eq!(Some(1), find_position(&vec![4, 7, 7], 7));
    assert_eq!(None, find_position(&vec![4, 7, 7], 5));
}

#[test]
fn splice_orders() {
    assert_eq!(vec![2, 3, 0, 1, 4], splice_order(5, 2, 4, 0));
    assert_eq!(vec![0, 3, 4, 1, 2], splice_order(5, 1, 3, 5));
    assert_eq!(vec![0, 3, 1, 2, 4], splice_order(5, 1, 3, 4));
    assert_eq!(vec![0, 1, 2], splice_order(3, 1, 1, 1));
    assert_eq!(vec![0, 1, 2], splice_order(3, 0, 3, 3));
}

#[test]
fn shuffle_with_follows_the_draws() {
    // Left [0,1,2,3]: 5 % 4 = 1 picks 1; left [0,2,3]: 3 % 3 = 0 picks 0;
    // left [2,3]: 7 % 2 = 1 picks 3; left [2]: picks 2.
    assert_eq!(vec![1, 0, 3, 2], shuffle_with(4, &vec![5, 3, 7, 100]));
    assert_eq!(vec![0, 1, 2], shuffle_with(3, &vec![0, 0, 0, 9]));
    assert_eq!(Vec::<usize>::new(), shuffle_with(0, &vec![]));
}

#[test]
fn shuffle_order_is_a_permutation() {
    for len in [0usize, 1, 2, 17] {
        let mut order = shuffle_order(len);
        order.sort();
        assert_eq!((0..len).collect::<Vec<_>>(), order);
    }
}

#[test]
fn shuffle_order_draws_anew() {
    let first = shuffle_order(64);
    let differs = (0..8).any(|_| shuffle_order(64) != first);
    assert!(differs);
}
