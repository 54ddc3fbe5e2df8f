use basics::arith::add;
use basics::container::Container;
use basics::transform::{Transform, Wrapper};

#[test]
fn add_sums_two_integers() {
    assert_eq!(add(1, 13), 14);
    assert_eq!(add(-5, 2), -3);
    assert_eq!(add(i32::MAX, 0), i32::MAX);
}

#[test]
fn match_on_present_binds_value() {
    let c = Container::construct_present(String::from("hello"));
    assert_eq!(c.match_on(), Some(String::from("hello")));
}

#[test]
fn match_on_absent_binds_nothing() {
    let c: Container<u8> = Container::construct_absent();
    assert_eq!(c.match_on(), None);
}

#[test]
fn transform_keeps_present_value() {
    let c = Container::construct_present(1i32);
    let t = c.transform();
    assert_eq!(t.match_on(), Some(1));
}

#[test]
fn transform_keeps_absent() {
    let c: Container<i32> = Container::construct_absent();
    assert!(!c.transform().is_present());
}

#[test]
fn wrapper_transforms_into_present() {
    let w = Wrapper::new(vec![1u8, 2]);
    assert_eq!(w.transform().match_on(), Some(vec![1u8, 2]));
    assert_eq!(Wrapper::new(1).get(), 1);
}

#[test]
fn exclusive_borrow_adds_two() {
    let mut c = Container::construct_present(4);
    {
        let b = &mut c;
        b.add_in_place(2);
    }
    assert_eq!(c.match_on(), Some(6));
}

#[test]
fn present_mut_writes_through() {
    let mut c = Container::construct_present(4);
    if let Some(v) = c.present_mut() {
        *v += 2;
    }
    assert_eq!(c.peek(), Some(&6));
    let mut a: Container<i32> = Container::construct_absent();
    assert!(a.present_mut().is_none());
    a.add_in_place(2);
    assert!(!a.is_present());
}

#[test]
fn shared_borrow_leaves_owner_usable() {
    let c = Container::construct_present(3);
    {
        let r = &c;
        assert_eq!(r.peek(), Some(&3));
    }
    assert!(c.is_present());
    assert_eq!(c.match_on(), Some(3));
}

#[test]
fn shared_borrows_observe_same_value() {
    let c = Container::construct_present(9u64);
    let r1 = c.peek();
    let r2 = c.peek();
    let r3 = (&c).peek();
    assert_eq!(r1, Some(&9));
    assert_eq!(r1, r2);
    assert_eq!(r2, r3);
}

#[test]
fn duplicate_copies_held_value() {
    let c = Container::construct_present(5u8);
    let d = c.duplicate();
    assert_eq!(d.match_on(), Some(5));
    assert_eq!(c.match_on(), Some(5));
    let a: Container<u8> = Container::construct_absent();
    assert_eq!(a.duplicate().match_on(), None);
}
