use block_drop::catalog::{BoxIndex, BoxPos};
use block_drop::play_box::{IndexGen, PlayBox};
use block_drop::timer::{CountDownTimer, RepeatTimer};

#[test]
fn play_box_lifecycle() {
    let mut b = PlayBox::default();
    assert!(!b.is_valid());
    assert_eq!(b.index(), None);
    b.move_to(BoxPos::new(3, 3));
    assert_eq!(*b.pos(), BoxPos::new(0, 0));
    let i = BoxIndex { type_index: 1, rotate_index: 3 };
    b.init(i, BoxPos::new(5, 2), vec![1, 2, 3, 4]);
    assert!(b.is_valid());
    assert_eq!(b.index(), Some(&i));
    b.init(BoxIndex { type_index: 0, rotate_index: 0 }, BoxPos::new(0, 0), vec![]);
    assert_eq!(b.index(), Some(&i));
    assert_eq!(*b.pos(), BoxPos::new(5, 2));
    b.move_to(BoxPos::new(4, 2));
    assert_eq!(*b.pos(), BoxPos::new(4, 2));
    b.rotate();
    assert_eq!(b.index(), Some(&BoxIndex { type_index: 1, rotate_index: 0 }));
}

#[test]
fn transfer_takes_the_piece() {
    let mut waiting = PlayBox::default();
    waiting.init(BoxIndex { type_index: 0, rotate_index: 2 }, BoxPos::new(0, 0), vec![7, 8]);
    let mut active = PlayBox::default();
    active.transfer(&mut waiting, BoxPos::new(9, 4));
    assert!(!waiting.is_valid());
    assert!(waiting.entities.is_empty());
    assert_eq!(active.index(), Some(&BoxIndex { type_index: 0, rotate_index: 2 }));
    assert_eq!(*active.pos(), BoxPos::new(9, 4));
    assert_eq!(active.entities, vec![7, 8]);
}

#[test]
fn random_indices_stay_in_range() {
    let mut g = IndexGen::new(7, 4);
    let mut types = [false; 7];
    for _ in 0..2000 {
        let b = g.rand_box();
        assert!(b.type_index < 7);
        assert!(b.rotate_index < 4);
        types[b.type_index] = true;
    }
    assert!(types.iter().all(|t| *t));
}

#[test]
fn same_seed_same_pieces() {
    let mut a = IndexGen::with_seed(7, 4, 12345);
    let mut b = IndexGen::with_seed(7, 4, 12345);
    assert_eq!(a.seed(), 12345);
    let xs: Vec<BoxIndex> = (0..50).map(|_| a.rand_box()).collect();
    let ys: Vec<BoxIndex> = (0..50).map(|_| b.rand_box()).collect();
    assert_eq!(xs, ys);
    let mut c = IndexGen::with_seed(7, 4, 54321);
    let zs: Vec<BoxIndex> = (0..50).map(|_| c.rand_box()).collect();
    assert_ne!(xs, zs);
}

#[test]
fn entropy_seeds_differ() {
    let seeds: Vec<u64> = (0..4).map(|_| IndexGen::new(2, 4).seed()).collect();
    assert!(seeds.iter().any(|s| *s != seeds[0]));
}

#[test]
fn repeat_timer_keeps_the_remainder() {
    let mut t = RepeatTimer::new(100);
    t.tick(60);
    assert!(!t.is_finished());
    assert_eq!(t.elapsed, 60);
    t.tick(70);
    assert!(t.is_finished());
    assert_eq!(t.elapsed, 30);
    t.tick(10);
    assert!(!t.is_finished());
    t.tick(u64::MAX);
    assert!(t.is_finished());
    assert_eq!(t.elapsed, ((40u128 + u64::MAX as u128) % 100) as u64);
}

#[test]
fn paused_repeat_timer_stands_still() {
    let mut t = RepeatTimer::new(100);
    t.tick(50);
    t.pause();
    t.tick(500);
    assert!(!t.is_finished());
    assert_eq!(t.elapsed, 50);
    t.unpause();
    t.tick(50);
    assert!(t.is_finished());
    assert_eq!(t.elapsed, 0);
}

#[test]
fn count_down_timer_counts_its_steps() {
    let mut t = CountDownTimer::new(10, 2);
    assert!(!t.update(100));
    assert!(!t.is_finished());
    t.start();
    assert!(!t.update(5));
    assert!(t.update(5));
    assert!(!t.is_finished());
    assert!(t.update(25));
    assert_eq!(t.elapsed, 5);
    assert!(t.is_finished());
    assert!(!t.update(100));
    t.stop();
    assert!(!t.is_finished());
    assert_eq!(t.steps, 0);
}

#[test]
fn count_down_timer_without_steps_is_finished_at_start() {
    let mut t = CountDownTimer::new(10, 0);
    t.start();
    assert!(t.is_finished());
    assert!(!t.update(10));
}
