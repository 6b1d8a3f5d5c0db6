use simple_caro_app::id_pool::{IdPool, NO_ID};

#[test]
fn fresh_pool_hands_out_one_two_three() {
    let mut pool = IdPool::<i32>::new();
    assert_eq!(pool.alloc_id(), 1);
    assert_eq!(pool.alloc_id(), 2);
    assert_eq!(pool.alloc_id(), 3);
}

#[test]
fn released_id_is_handed_out_again_before_larger_ones() {
    let mut pool = IdPool::<i32>::new();
    for expected in 1..=5 {
        assert_eq!(pool.alloc_id(), expected);
    }
    assert!(pool.dealloc_id(2));
    assert!(pool.dealloc_id(4));
    assert_eq!(pool.alloc_id(), 2);
    assert_eq!(pool.alloc_id(), 4);
    assert_eq!(pool.alloc_id(), 6);
}

#[test]
fn releasing_an_id_that_is_not_held_reports_false() {
    let mut pool = IdPool::<i32>::new();
    assert!(!pool.dealloc_id(1));
    assert_eq!(pool.alloc_id(), 1);
    assert!(pool.dealloc_id(1));
    assert!(!pool.dealloc_id(1));
    assert!(!pool.dealloc_id(NO_ID));
    assert!(!pool.dealloc_id(0));
}

#[test]
fn no_live_id_is_issued_twice() {
    let mut pool = IdPool::<i32>::new();
    let mut live: Vec<i32> = Vec::new();
    for round in 0..200 {
        let id = pool.alloc_id();
        assert!(id >= 1);
        assert!(!live.contains(&id));
        let smallest = (1..).find(|candidate| !live.contains(candidate)).unwrap();
        assert_eq!(id, smallest);
        live.push(id);
        if round % 3 == 0 {
            let victim = live.remove(live.len() / 2);
            assert!(pool.dealloc_id(victim));
        }
    }
}

#[test]
fn wide_pool_behaves_like_the_narrow_one() {
    let mut pool = IdPool::<i64>::new();
    assert_eq!(pool.alloc_id(), 1);
    assert_eq!(pool.alloc_id(), 2);
    assert!(pool.dealloc_id(1));
    assert!(!pool.dealloc_id(7));
    assert_eq!(pool.alloc_id(), 1);
    assert_eq!(pool.alloc_id(), 3);
}

#[test]
fn the_sentinel_is_minus_one() {
    assert_eq!(NO_ID, -1);
}
