use denocore::arena::RawArena;
use denocore::arena::RawArenaPtr;

#[test]
fn test_add_remove_many() {
    let mut arena = RawArena::<usize, 1024>::default();
    for i in 0..2000 {
        let v = arena.allocate(i);
        assert_eq!(arena.remaining(), 1023);
        assert_eq!(*arena.get(&v), i);
        arena.recycle(v);
        assert_eq!(arena.remaining(), 1024);
    }
}

#[test]
fn test_add_clear_many() {
    let mut arena = RawArena::<usize, 1024>::default();
    for i in 0..2000 {
        _ = arena.allocate(i);
        assert_eq!(arena.remaining(), 1023);
        arena.clear_allocated();
        assert_eq!(arena.remaining(), 1024);
    }
}

#[test]
fn test_add_remove_many_separate() {
    let mut arena = RawArena::<usize, 1024>::default();
    let mut nodes = vec![];
    // This will spill over into memory allocations
    for i in 0..2000 {
        nodes.push(arena.allocate(i));
    }
    assert_eq!(arena.remaining(), 0);
    for i in (0..2000).rev() {
        let node = nodes.pop().unwrap();
        assert_eq!(*arena.get(&node), i);
        arena.recycle(node);
    }
    assert_eq!(arena.remaining(), 1024);
}

#[test]
fn test_droppable() {
    // Make sure we correctly drop all the items in this arena if they are droppable
    let mut arena = RawArena::<Box<dyn std::future::Future<Output = ()>>, 16>::default();
    let mut nodes = vec![];
    // This will spill over into memory allocations
    for _ in 0..20 {
        let node = arena.allocate(Box::new(std::future::pending()));
        nodes.push(node);
    }
    assert_eq!(arena.remaining(), 0);
    for node in nodes {
        arena.recycle(node);
    }
    assert_eq!(arena.remaining(), 16);
}

#[test]
fn arena_reuses_the_last_freed_slot() {
    let mut arena = RawArena::<u32, 4>::new();
    let a = arena.allocate(10);
    let b = arena.allocate(20);
    let slot_a = match &a {
        RawArenaPtr::Internal(i) => *i,
        RawArenaPtr::External(_) => panic!("the arena has room"),
    };
    assert_eq!(arena.recycle(a), 10);
    let c = arena.allocate(30);
    match &c {
        RawArenaPtr::Internal(i) => assert_eq!(*i, slot_a),
        RawArenaPtr::External(_) => panic!("the arena has room"),
    }
    assert_eq!(*arena.get(&b), 20);
    assert_eq!(*arena.get(&c), 30);
    assert_eq!(arena.remaining(), 2);
}

#[test]
fn arena_spills_when_full() {
    let mut arena = RawArena::<u8, 1>::new();
    let a = arena.allocate(1);
    let b = arena.allocate(2);
    assert!(matches!(a, RawArenaPtr::Internal(0)));
    assert!(matches!(b, RawArenaPtr::External(_)));
    assert_eq!(arena.remaining(), 0);
    assert_eq!(arena.recycle(b), 2);
    assert_eq!(arena.remaining(), 0);
    assert_eq!(arena.recycle(a), 1);
    assert_eq!(arena.remaining(), 1);
}

fn slot(p: &RawArenaPtr<u32>) -> usize {
    match p {
        RawArenaPtr::Internal(i) => *i,
        RawArenaPtr::External(_) => panic!("expected a slot of the arena"),
    }
}

#[test]
fn arena_reuses_the_most_recently_freed_slot() {
    let mut arena = RawArena::<u32, 8>::new();
    let a = arena.allocate(1);
    let b = arena.allocate(2);
    let c = arena.allocate(3);
    assert_eq!((slot(&a), slot(&b), slot(&c)), (0, 1, 2));
    arena.recycle(a);
    arena.recycle(c);
    let d = arena.allocate(4);
    assert_eq!(slot(&d), 2);
    let e = arena.allocate(5);
    assert_eq!(slot(&e), 0);
    let f = arena.allocate(6);
    assert_eq!(slot(&f), 3);
}
