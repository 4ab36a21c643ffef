use voltec_website::signal::{Batch, Signal};

fn add_ten(n: &i32) -> i32 {
    *n + 10
}

#[test]
fn new_signal_holds_its_value() {
    let mut s = Signal::new(5i32);
    assert_eq!(*s.get_untracked(), 5);
    assert_eq!(s.get(None), 5);
    assert!(s.set(6).is_empty());
}

#[test]
fn readers_become_dependents_once() {
    let mut s = Signal::new(1i32);
    assert_eq!(s.get(Some(7)), 1);
    assert_eq!(s.get(Some(3)), 1);
    assert_eq!(s.get(Some(7)), 1);
    s.track(3);
    assert_eq!(s.set(2), vec![7, 3]);
    assert_eq!(*s.get_untracked(), 2);
}

#[test]
fn untracked_reads_register_nothing() {
    let mut s = Signal::new(1i32);
    s.get(None);
    assert!(s.set(9).is_empty());
}

#[test]
fn update_applies_the_function_and_notifies() {
    let mut s = Signal::new(12847i32);
    s.get(Some(1));
    assert_eq!(s.update(add_ten), vec![1]);
    assert_eq!(*s.get_untracked(), 12857);
    assert_eq!(s.update(|n| *n * 2), vec![1]);
    assert_eq!(*s.get_untracked(), 25714);
}

#[test]
fn set_keeps_dependents_registered() {
    let mut s = Signal::new(false);
    s.get(Some(4));
    assert_eq!(s.set(true), vec![4]);
    assert_eq!(s.set(false), vec![4]);
}

#[test]
fn batch_runs_each_dependent_once() {
    let mut b = Batch::new();
    b.schedule(&vec![1, 2]);
    b.schedule(&vec![2, 3, 1]);
    b.schedule(&vec![3, 3]);
    assert_eq!(b.take(), vec![1, 2, 3]);
    assert!(b.take().is_empty());
}

#[test]
fn scheduling_twice_equals_once() {
    let mut once = Batch::new();
    once.schedule(&vec![5, 6]);
    let mut twice = Batch::new();
    twice.schedule(&vec![5, 6]);
    twice.schedule(&vec![5, 6]);
    assert_eq!(once.take(), twice.take());
}
