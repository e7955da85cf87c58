use growvec::Vec;

#[test]
fn push_len_and_read_each_slot() {
    let vals: [i32; 6] = [4, 9, -2, 0, 7, 7];
    let mut v: Vec<i32> = Vec::new();
    let mut n: usize = 0;
    while n < vals.len() {
        v.push(vals[n]);
        n += 1;
        assert_eq!(v.len, n);
    }
    let mut i: usize = 0;
    while i < vals.len() {
        assert_eq!(*v.get(i), vals[i]);
        i += 1;
    }
}

#[test]
fn push_then_pop_is_inverse() {
    let mut v: Vec<i32> = Vec::new();
    v.push(1);
    v.push(2);
    let before: usize = v.len;
    v.push(42);
    assert_eq!(v.pop(), Some(42));
    assert_eq!(v.len, before);
    assert_eq!(*v.get(0), 1);
    assert_eq!(*v.get(1), 2);
}

#[test]
fn pop_on_empty_is_none() {
    let mut v: Vec<i32> = Vec::new();
    assert_eq!(v.pop(), None);
    assert_eq!(v.len, 0);
}

#[test]
fn scenario_five_pushes_then_pop() {
    let mut v: Vec<i32> = Vec::new();
    v.push(10);
    v.push(11);
    v.push(12);
    v.push(13);
    v.push(14);
    assert_eq!(v.len, 5);
    let mut i: usize = 0;
    while i < 5 {
        assert_eq!(*v.get(i), 10 + i as i32);
        i += 1;
    }
    assert_eq!(v.pop(), Some(14));
    assert_eq!(v.len, 4);
}

#[test]
fn insert_in_the_middle() {
    let mut v: Vec<i32> = Vec::new();
    v.push(1);
    v.push(2);
    v.insert(1, 3);
    assert_eq!(v.len, 3);
    assert_eq!(*v.get(0), 1);
    assert_eq!(*v.get(1), 3);
    assert_eq!(*v.get(2), 2);
}

#[test]
fn insert_at_front_and_at_end_keeps_order() {
    let mut v: Vec<i32> = Vec::new();
    v.push(5);
    v.push(6);
    v.insert(0, 4);
    v.insert(3, 7);
    assert_eq!(v.len, 4);
    let mut i: usize = 0;
    while i < 4 {
        assert_eq!(*v.get(i), 4 + i as i32);
        i += 1;
    }
}

#[test]
fn remove_only_element_then_pop_is_none() {
    let mut v: Vec<i32> = Vec::new();
    v.push(1);
    assert_eq!(v.remove(0), 1);
    assert_eq!(v.len, 0);
    assert_eq!(v.pop(), None);
}

#[test]
fn remove_middle_keeps_relative_order() {
    let mut v: Vec<i32> = Vec::new();
    v.push(1);
    v.push(2);
    v.push(3);
    assert_eq!(v.remove(1), 2);
    assert_eq!(v.len, 2);
    assert_eq!(*v.get(0), 1);
    assert_eq!(*v.get(1), 3);
}

#[test]
fn set_overwrites_one_slot() {
    let mut v: Vec<i32> = Vec::new();
    v.push(8);
    v.push(9);
    v.set(0, 80);
    assert_eq!(*v.get(0), 80);
    assert_eq!(*v.get(1), 9);
    assert_eq!(v.len, 2);
}

#[test]
fn equal_contents_compare_equal() {
    let mut a: Vec<i32> = Vec::new();
    let mut b: Vec<i32> = Vec::new();
    let mut c: Vec<i32> = Vec::new();
    a.push(1);
    a.push(2);
    a.push(3);
    b.push(1);
    b.push(2);
    b.push(3);
    c.push(1);
    c.push(2);
    c.push(4);
    assert!(a.eq(&b));
    assert!(b.eq(&a));
    assert!(!a.eq(&c));
    assert!(!b.eq(&c));
    assert!(!c.eq(&a));
}

#[test]
fn different_lengths_compare_unequal() {
    let mut a: Vec<i32> = Vec::new();
    let mut b: Vec<i32> = Vec::new();
    a.push(1);
    b.push(1);
    b.push(1);
    assert!(!a.eq(&b));
    let empty: Vec<i32> = Vec::new();
    assert!(empty.eq(&Vec::new()));
}
