use object_pool::{Counter, Pool, PoolItem};

#[test]
fn it_works() {
    let mut pool = Pool::<Counter>::new();
    let mut item = pool.get();
    item.inc();

    assert_eq!(item.get(), 1);

    item.release(&mut pool);

    let item_2 = pool.get();

    assert_eq!(item_2.get(), 0);
}

#[test]
fn new_pool_is_empty() {
    let pool = Pool::<Counter>::new();
    assert_eq!(pool.idle_len(), 0);
}

#[test]
fn checkout_from_empty_pool_keeps_it_empty() {
    let mut pool = Pool::<Counter>::new();
    let item = pool.get();
    assert_eq!(item.get(), 0);
    assert_eq!(pool.idle_len(), 0);
}

#[test]
fn counter_reset_returns_to_fresh_state() {
    let fresh = Counter::new();
    let mut c = Counter::new();
    c.inc();
    c.inc();
    c.inc();
    assert_eq!(c.get(), 3);
    c.reset();
    assert_eq!(c.get(), fresh.get());
    c.reset();
    assert_eq!(c.get(), 0);
}

#[test]
fn mutations_do_not_leak_across_uses() {
    let mut pool = Pool::<Counter>::new();
    let mut item = pool.get();
    for _ in 0..10 {
        item.inc();
    }
    assert_eq!(item.get(), 10);
    item.release(&mut pool);
    assert_eq!(pool.idle_len(), 1);
    let again = pool.get();
    assert_eq!(again.get(), 0);
    assert_eq!(pool.idle_len(), 0);
}

#[test]
fn simultaneous_checkouts_are_independent() {
    let mut pool = Pool::<Counter>::new();
    let mut c1 = pool.get();
    let c2 = pool.get();
    c1.inc();
    assert_eq!(c1.get(), 1);
    assert_eq!(c2.get(), 0);
    c2.release(&mut pool);
    c1.release(&mut pool);
    assert_eq!(pool.idle_len(), 2);
}

#[test]
fn many_simultaneous_checkouts_are_distinct() {
    let mut pool = Pool::<Counter>::new();
    let mut guards = Vec::new();
    for _ in 0..5 {
        guards.push(pool.get());
    }
    assert_eq!(pool.idle_len(), 0);
    for (i, g) in guards.iter_mut().enumerate() {
        for _ in 0..i {
            g.inc();
        }
    }
    for (i, g) in guards.iter().enumerate() {
        assert_eq!(g.get(), i);
    }
    for g in guards {
        g.release(&mut pool);
    }
    assert_eq!(pool.idle_len(), 5);
    for _ in 0..5 {
        let g = pool.get();
        assert_eq!(g.get(), 0);
    }
}

#[test]
fn sequential_cycles_keep_one_idle_instance() {
    let mut pool = Pool::<Counter>::new();
    for n in 1..=8usize {
        let mut g = pool.get();
        assert_eq!(g.get(), 0);
        g.inc();
        g.release(&mut pool);
        assert_eq!(pool.idle_len(), 1);
        assert!(pool.idle_len() <= n);
    }
}

#[test]
fn release_adds_exactly_one_idle_instance() {
    let mut pool = Pool::<Counter>::new();
    let a = pool.get();
    let b = pool.get();
    let c = pool.get();
    a.release(&mut pool);
    assert_eq!(pool.idle_len(), 1);
    b.release(&mut pool);
    assert_eq!(pool.idle_len(), 2);
    let d = pool.get();
    assert_eq!(pool.idle_len(), 1);
    d.release(&mut pool);
    c.release(&mut pool);
    assert_eq!(pool.idle_len(), 3);
}
