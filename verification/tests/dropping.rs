use growvec::Vec;
use std::cell::Cell;
use std::rc::Rc;

struct Counted {
    drops: Rc<Cell<usize>>,
}

impl Drop for Counted {
    fn drop(&mut self) {
        self.drops.set(self.drops.get() + 1);
    }
}

fn five_counted(drops: &Rc<Cell<usize>>) -> Vec<Counted> {
    let mut v: Vec<Counted> = Vec::new();
    let mut i: usize = 0;
    while i < 5 {
        v.push(Counted { drops: Rc::clone(drops) });
        i += 1;
    }
    v
}

#[test]
fn abandoned_into_iter_drops_every_unyielded_element() {
    let drops: Rc<Cell<usize>> = Rc::new(Cell::new(0));
    let v = five_counted(&drops);
    let mut it = v.into_iter();
    let a = it.next();
    let b = it.next_back();
    assert_eq!(drops.get(), 0);
    drop(a);
    drop(b);
    assert_eq!(drops.get(), 2);
    drop(it);
    assert_eq!(drops.get(), 5);
}

#[test]
fn abandoned_drain_drops_every_unyielded_element() {
    let drops: Rc<Cell<usize>> = Rc::new(Cell::new(0));
    let mut v = five_counted(&drops);
    let mut d = v.drain();
    let a = d.next();
    assert_eq!(drops.get(), 0);
    drop(a);
    assert_eq!(drops.get(), 1);
    drop(d);
    assert_eq!(drops.get(), 5);
    assert_eq!(v.len, 0);
    drop(v);
    assert_eq!(drops.get(), 5);
}

#[test]
fn dropping_the_container_drops_every_live_element() {
    let drops: Rc<Cell<usize>> = Rc::new(Cell::new(0));
    let mut v = five_counted(&drops);
    let taken = v.pop();
    assert_eq!(drops.get(), 0);
    drop(taken);
    assert_eq!(drops.get(), 1);
    drop(v);
    assert_eq!(drops.get(), 5);
}

#[test]
fn removed_and_overwritten_elements_drop_exactly_once() {
    let drops: Rc<Cell<usize>> = Rc::new(Cell::new(0));
    let mut v = five_counted(&drops);
    let taken = v.remove(2);
    assert_eq!(drops.get(), 0);
    drop(taken);
    assert_eq!(drops.get(), 1);
    v.set(0, Counted { drops: Rc::clone(&drops) });
    assert_eq!(drops.get(), 2);
    drop(v);
    assert_eq!(drops.get(), 6);
}
