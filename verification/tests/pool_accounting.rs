use blog_core::pool::{BorrowOutcome, ConnPool};

#[test]
fn single_connection_pool_blocks_second_borrower() {
    let mut pool = ConnPool::open(Some(1));
    assert_eq!(pool.try_borrow(), BorrowOutcome::Granted);
    assert_eq!(pool.try_borrow(), BorrowOutcome::MustWait);
    pool.give_back();
    assert_eq!(pool.try_borrow(), BorrowOutcome::Granted);
}

#[test]
fn bounded_pool_grants_up_to_its_bound() {
    let mut pool = ConnPool::open(Some(3));
    assert_eq!(pool.try_borrow(), BorrowOutcome::Granted);
    assert_eq!(pool.try_borrow(), BorrowOutcome::Granted);
    assert_eq!(pool.try_borrow(), BorrowOutcome::Granted);
    assert_eq!(pool.try_borrow(), BorrowOutcome::MustWait);
    pool.give_back();
    assert_eq!(pool.try_borrow(), BorrowOutcome::Granted);
}

#[test]
fn unbounded_pool_never_blocks() {
    let mut pool = ConnPool::open(None);
    for _ in 0..100 {
        assert_eq!(pool.try_borrow(), BorrowOutcome::Granted);
    }
}

#[test]
fn zero_connection_pool_grants_nothing() {
    let mut pool = ConnPool::open(Some(0));
    assert_eq!(pool.try_borrow(), BorrowOutcome::MustWait);
}
