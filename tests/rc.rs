use std::cell::Cell;
use std::rc::Rc;

use my_cells::rc::{MyRc, MyRcInner};

#[derive(Debug)]
struct Foo {
    bar: usize,
    drops: Rc<Cell<usize>>,
}

impl Drop for Foo {
    fn drop(&mut self) {
        self.drops.set(self.drops.get() + 1);
    }
}

fn foo(bar: usize) -> (Foo, Rc<Cell<usize>>) {
    let drops = Rc::new(Cell::new(0));
    (Foo { bar, drops: drops.clone() }, drops)
}

#[test]
fn rc_it_works() {
    let (foo, drops) = foo(1);

    let mut rc = MyRc::new(foo);
    assert_eq!(rc.get().bar, 1);
    assert_eq!(rc.count(), 1);

    rc.clone_handle();
    assert_eq!(rc.count(), 2);
    assert_eq!(rc.get().bar, 1);

    assert!(!rc.drop_handle());
    assert_eq!(rc.count(), 1);
    assert_eq!(rc.get().bar, 1);
    assert_eq!(drops.get(), 0, "Foo should NOT have been dropped yet!");

    assert!(rc.drop_handle());
    assert_eq!(drops.get(), 1, "Foo should have been dropped by now!");
    assert_eq!(rc.count(), 0);
}

#[test]
fn rc_cleanup_runs_once_after_many_clones() {
    let (foo, drops) = foo(9);
    let mut rc = MyRc::new(foo);
    for i in 0..10usize {
        rc.clone_handle();
        assert_eq!(rc.count(), i + 2);
    }
    for i in 0..10usize {
        assert!(!rc.drop_handle());
        assert_eq!(rc.count(), 10 - i);
        assert_eq!(drops.get(), 0);
        assert_eq!(rc.get().bar, 9);
    }
    assert!(rc.drop_handle());
    assert_eq!(drops.get(), 1);
    assert_eq!(rc.count(), 0);
    drop(rc);
    assert_eq!(drops.get(), 1);
}

#[test]
fn rc_interleaved_clones_and_drops() {
    let (foo, drops) = foo(3);
    let mut rc = MyRc::new(foo);
    rc.clone_handle();
    assert!(!rc.drop_handle());
    rc.clone_handle();
    rc.clone_handle();
    assert_eq!(rc.count(), 3);
    assert!(!rc.drop_handle());
    assert!(!rc.drop_handle());
    assert_eq!(drops.get(), 0);
    assert!(rc.drop_handle());
    assert_eq!(drops.get(), 1);
}

#[test]
fn rc_inner_block_can_be_built() {
    let (foo, drops) = foo(4);
    let inner = MyRcInner::new(foo);
    drop(inner);
    assert_eq!(drops.get(), 1);
}
