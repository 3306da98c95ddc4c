use indexed_vec::{IndexedVec, InstanceCounter, DEFAULT_CAPACITY};
use std::rc::Rc;

fn arena<T>(counter: &mut InstanceCounter) -> IndexedVec<T> {
    IndexedVec::new(counter)
}

#[test]
fn push_take_add_scenario() {
    let mut counter = InstanceCounter::new();
    let mut a: IndexedVec<i32> = arena(&mut counter);
    let a1 = a.push(10);
    let a2 = a.push(20);
    assert_eq!(*a.get(&a1), 10);
    assert_eq!(*a.get(&a2), 20);
    let freed = a1.position();
    let v = a.take(a1);
    assert_eq!(v, 10);
    let a3 = a.add(30);
    assert_eq!(a3.position(), freed);
    assert_eq!(*a.get(&a3), 30);
    assert_eq!(*a.get(&a2), 20);
    assert_eq!(a.len(), 2);
}

#[test]
fn take_returns_latest_stored_value() {
    let mut counter = InstanceCounter::new();
    let mut a: IndexedVec<String> = arena(&mut counter);
    let mut i = a.add(String::from("first"));
    let j = a.push(String::from("other"));
    let old = a.swap(&mut i, String::from("second"));
    assert_eq!(old, "first");
    *a.get_mut(&mut i) = String::from("third");
    let k = a.add(String::from("more"));
    a.remove(k);
    assert_eq!(a.take(i), "third");
    assert_eq!(a.take(j), "other");
}

#[test]
fn add_reuses_lowest_hole() {
    let mut counter = InstanceCounter::new();
    let mut a: IndexedVec<u8> = arena(&mut counter);
    let i0 = a.add(0);
    let i1 = a.add(1);
    let i2 = a.add(2);
    let i3 = a.add(3);
    assert_eq!(i3.position(), 3);
    a.remove(i2);
    a.remove(i0);
    let n = a.add(9);
    assert_eq!(n.position(), 0);
    let m = a.add(8);
    assert_eq!(m.position(), 2);
    let e = a.add(7);
    assert_eq!(e.position(), 4);
    assert_eq!(*a.get(&i1), 1);
    assert_eq!(a.len(), 5);
}

#[test]
fn push_appends_while_capacity_allows() {
    let mut counter = InstanceCounter::new();
    let mut a: IndexedVec<u8> = IndexedVec::with_capacity(3, &mut counter);
    let i0 = a.push(0);
    let _i1 = a.push(1);
    a.remove(i0);
    let i2 = a.push(2);
    assert_eq!(i2.position(), 2);
    let i3 = a.push(3);
    assert_eq!(i3.position(), 0);
    assert_eq!(a.len(), 3);
    assert_eq!(a.capacity(), 3);
    let i4 = a.push(4);
    assert_eq!(i4.position(), 3);
    assert_eq!(a.capacity(), 4);
}

#[test]
fn arenas_from_one_counter_have_distinct_tags() {
    let mut counter = InstanceCounter::new();
    let mut a: IndexedVec<u8> = arena(&mut counter);
    let b: IndexedVec<u8> = arena(&mut counter);
    let c: IndexedVec<u8> = IndexedVec::with_capacity(1, &mut counter);
    assert_eq!(a.instance(), 0);
    assert_eq!(b.instance(), 1);
    assert_eq!(c.instance(), 2);
    assert_eq!(counter.issue(), 3);
    let i = a.add(5);
    assert_eq!(i.position(), 0);
    assert_eq!(*a.get(&i), 5);
}

#[test]
fn teardown_finalizes_each_held_value_once() {
    let probe = Rc::new(());
    let mut counter = InstanceCounter::new();
    let mut a: IndexedVec<Rc<()>> = arena(&mut counter);
    let mut kept = Vec::new();
    let mut gone = Vec::new();
    for k in 0..5 {
        let i = a.add(Rc::clone(&probe));
        if k % 2 == 0 {
            gone.push(i);
        } else {
            kept.push(i);
        }
    }
    assert_eq!(Rc::strong_count(&probe), 6);
    for i in gone {
        a.remove(i);
    }
    assert_eq!(Rc::strong_count(&probe), 3);
    let extra = a.add(Rc::clone(&probe));
    let back = a.take(extra);
    assert_eq!(Rc::strong_count(&probe), 4);
    drop(back);
    drop(kept);
    drop(a);
    assert_eq!(Rc::strong_count(&probe), 1);
}

#[test]
fn growth_keeps_issued_indices_valid() {
    let mut counter = InstanceCounter::new();
    let mut a: IndexedVec<u32> = IndexedVec::with_capacity(2, &mut counter);
    let mut issued = Vec::new();
    for k in 0..50u32 {
        issued.push(if k % 2 == 0 { a.push(k * 7) } else { a.add(k * 7) });
    }
    for (k, i) in issued.iter().enumerate() {
        assert_eq!(*a.get(i), k as u32 * 7);
        assert_eq!(i.position(), k);
    }
    assert!(a.capacity() >= 50);
}

#[test]
fn growth_adds_about_a_third() {
    let mut counter = InstanceCounter::new();
    let mut a: IndexedVec<u8> = IndexedVec::with_capacity(0, &mut counter);
    let mut caps = Vec::new();
    for _ in 0..7 {
        a.add(0);
        caps.push(a.capacity());
    }
    assert_eq!(caps, vec![1, 2, 3, 4, 5, 6, 8]);
    let b: IndexedVec<u8> = arena(&mut counter);
    assert_eq!(b.capacity(), DEFAULT_CAPACITY);
    assert_eq!(b.len(), 0);
}
