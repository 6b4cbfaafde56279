use wflos_boot::spinlock::Spinlock;

#[test]
fn lock_release_and_relock_is_repeatable() {
    let lock = Spinlock::new(0u32);
    for i in 0..1000u32 {
        let mut guard = lock.lock();
        assert_eq!(*guard.get(), i);
        *guard.get_mut() += 1;
        guard.release();
    }
    let guard = lock.lock();
    assert_eq!(*guard.get(), 1000);
    guard.release();
}

#[test]
fn writes_under_the_lock_are_seen_by_the_next_holder() {
    let lock = Spinlock::new(vec![1u8, 2, 3]);
    let mut guard = lock.lock();
    guard.get_mut().push(4);
    guard.release();
    let guard = lock.lock();
    assert_eq!(guard.get(), &vec![1u8, 2, 3, 4]);
    guard.release();
}
