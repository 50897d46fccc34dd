use turing::LookAhead;
use turing::VecSource;

#[test]
fn test_peek() {
    let tmp = vec![23, 7, 15, 6, 4, 26, 17, 9, 11, 2, 5, 35, 16];
    let it = VecSource::new(tmp.clone());
    let mut ahead = LookAhead::new(it);
    assert_eq!(ahead.peek(0), None);
    assert_eq!(ahead.source().peek(), Some(23));
    assert_eq!(ahead.peek(2), Some(7));
    assert_eq!(ahead.source().peek(), Some(15));
    assert_eq!(ahead.peek(7), Some(17));
    assert_eq!(ahead.source().peek(), Some(9));
    assert_eq!(ahead.peek(2), Some(7));
    assert_eq!(ahead.source().peek(), Some(9));

    assert_eq!(ahead.next(), Some(23));

    assert_eq!(ahead.peek(1), Some(7));
    assert_eq!(ahead.peek(8), Some(11));
    assert_eq!(ahead.peek(6), Some(17));
    assert_eq!(ahead.source().peek(), Some(2));

    for i in 1..10 {
        assert_eq!(ahead.peek(1), Some(tmp[i]));
        assert_eq!(ahead.next(), Some(tmp[i]));
    }

    assert_eq!(ahead.peek(1), Some(5));
    assert_eq!(ahead.next(), Some(5));
    assert_eq!(ahead.next(), Some(35));
    assert_eq!(ahead.peek(1), Some(16));
    assert_eq!(ahead.peek(2), None);
}

#[test]
fn scenario_lookahead() {
    let src = VecSource::new(vec![23, 7, 15, 6, 4, 26, 17, 9, 11, 2, 5, 35, 16]);
    let mut ahead = LookAhead::new(src);
    assert_eq!(ahead.peek(2), Some(7));
    assert_eq!(ahead.next(), Some(23));
    assert_eq!(ahead.peek(1), Some(7));
    assert_eq!(ahead.peek(8), Some(11));
}

#[test]
fn peek_zero_is_always_the_sentinel() {
    let mut ahead = LookAhead::new(VecSource::new(vec![1, 2, 3]));
    assert_eq!(ahead.peek(0), None);
    assert_eq!(ahead.peek(1), Some(1));
    assert_eq!(ahead.peek(0), None);
    assert_eq!(ahead.next(), Some(1));
    assert_eq!(ahead.peek(0), None);
    while ahead.next().is_some() {}
    assert_eq!(ahead.peek(0), None);
}

#[test]
fn exhaustion_is_idempotent() {
    let mut ahead = LookAhead::new(VecSource::new(vec![4, 5]));
    assert_eq!(ahead.next(), Some(4));
    assert_eq!(ahead.next(), Some(5));
    assert_eq!(ahead.next(), None);
    assert_eq!(ahead.next(), None);
    assert_eq!(ahead.peek(1), None);
    assert_eq!(ahead.peek(3), None);
    assert_eq!(ahead.next(), None);
}

#[test]
fn compaction_is_transparent() {
    let mut ahead = LookAhead::new(VecSource::new(vec![10, 20, 30, 40, 50]));
    assert_eq!(ahead.peek(5), Some(50));
    assert_eq!(ahead.next(), Some(10));
    ahead.clean();
    assert_eq!(ahead.peek(1), Some(20));
    assert_eq!(ahead.peek(4), Some(50));
    ahead.clean();
    assert_eq!(ahead.next(), Some(20));
    assert_eq!(ahead.next(), Some(30));
    ahead.clean();
    ahead.clean();
    assert_eq!(ahead.peek(2), Some(50));
    assert_eq!(ahead.next(), Some(40));
    assert_eq!(ahead.next(), Some(50));
    assert_eq!(ahead.next(), None);
}

#[test]
fn load_and_with_capacity_do_not_change_observations() {
    let mut ahead = LookAhead::with_capacity(VecSource::new(vec![7, 8, 9]), 16);
    ahead.load(2);
    assert_eq!(ahead.source().peek(), Some(9));
    ahead.load(10);
    assert_eq!(ahead.source().peek(), None);
    assert_eq!(ahead.peek(3), Some(9));
    assert_eq!(ahead.next(), Some(7));
    assert_eq!(ahead.next(), Some(8));
    assert_eq!(ahead.next(), Some(9));
    assert_eq!(ahead.next(), None);
}

#[test]
fn peek_past_the_end_returns_the_sentinel() {
    let mut ahead = LookAhead::new(VecSource::new(vec!['a', 'b']));
    assert_eq!(ahead.peek(3), None);
    assert_eq!(ahead.peek(2), Some('b'));
    assert_eq!(ahead.next(), Some('a'));
    assert_eq!(ahead.peek(2), None);
}
