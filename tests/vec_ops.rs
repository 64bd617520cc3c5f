use growvec::IntoIter;
use growvec::Vec;
use std::cell::Cell;
use std::rc::Rc;

#[test]
fn test() {
    let mut v = Vec::<i32>::new();
    assert_eq!(v.pop(), None);

    v.push(1);
    v.push(2);
    v.push(3);
    assert_eq!(v.pop(), Some(3));
    assert_eq!(v.pop(), Some(2));
    assert_eq!(v.pop(), Some(1));
    assert_eq!(v.pop(), None);
}

#[test]
fn deref() {
    let mut v = Vec::<i32>::new();

    assert_eq!(v.as_slice()[..], []);

    v.push(1);
    v.push(2);
    v.push(3);

    assert_eq!(v.as_slice()[1..][0], 2);
    *v.get_mut(0) = 4;
    assert_eq!(v.as_slice()[0], 4);
}

#[test]
fn insert_remove() {
    let mut v = Vec::<i32>::new();

    v.insert(0, 1);
    assert_eq!(v.as_slice()[0], 1);

    v.insert(0, 2);
    assert_eq!(v.as_slice()[..], [2, 1]);

    v.remove(0);
    assert_eq!(v.as_slice()[..], [1]);
}

#[test]
fn into_iter() {
    let mut v = Vec::new();

    v.push(1);
    v.push(2);
    v.push(3);

    let mut iter: IntoIter<i32> = v.into_iter();

    assert_eq!(iter.next(), Some(3));
    assert_eq!(iter.next_back(), Some(1));
    assert_eq!(iter.next(), Some(2));
    assert_eq!(iter.next(), None);
}

#[test]
fn pops_come_back_in_reverse_push_order() {
    let mut v = Vec::<u64>::new();
    for i in 0..100u64 {
        v.push(i * 7);
    }
    for i in (0..100u64).rev() {
        assert_eq!(v.pop(), Some(i * 7));
    }
    assert_eq!(v.pop(), None);
    assert_eq!(v.pop(), None);
}

#[test]
fn new_array_is_empty_without_capacity() {
    let v = Vec::<u8>::new();
    assert_eq!(v.len(), 0);
    assert_eq!(v.capacity(), 0);
}

#[test]
fn capacity_doubles_on_each_growth() {
    let mut v = Vec::<u32>::new();
    let mut seen = std::vec::Vec::new();
    for i in 0..9u32 {
        v.push(i);
        seen.push(v.capacity());
        assert!(v.capacity() >= v.len());
    }
    assert_eq!(seen, vec![1, 2, 4, 4, 8, 8, 8, 8, 16]);
}

#[test]
fn pop_keeps_capacity() {
    let mut v = Vec::<u32>::new();
    v.push(1);
    v.push(2);
    v.push(3);
    assert_eq!(v.capacity(), 4);
    v.pop();
    v.pop();
    v.pop();
    assert_eq!(v.len(), 0);
    assert_eq!(v.capacity(), 4);
}

#[test]
fn insert_grows_when_full() {
    let mut v = Vec::<u32>::new();
    v.insert(0, 5);
    assert_eq!(v.capacity(), 1);
    v.insert(1, 6);
    assert_eq!(v.capacity(), 2);
    v.insert(1, 7);
    assert_eq!(v.capacity(), 4);
    assert_eq!(v.as_slice()[..], [5, 7, 6]);
}

#[test]
fn insert_then_remove_restores_elements() {
    for i in 0..=5usize {
        let mut v = Vec::<i32>::new();
        for x in [10, 20, 30, 40, 50] {
            v.push(x);
        }
        v.insert(i, 99);
        assert_eq!(v.len(), 6);
        assert_eq!(v.as_slice()[i], 99);
        assert_eq!(v.remove(i), 99);
        assert_eq!(v.as_slice()[..], [10, 20, 30, 40, 50]);
    }
}

#[test]
fn insert_at_length_appends() {
    let mut v = Vec::<i32>::new();
    v.push(1);
    v.push(2);
    v.insert(2, 3);
    assert_eq!(v.as_slice()[..], [1, 2, 3]);
}

#[test]
fn insert_in_the_middle_shifts_up() {
    let mut v = Vec::<i32>::new();
    for x in [1, 2, 4, 5] {
        v.push(x);
    }
    v.insert(2, 3);
    assert_eq!(v.as_slice()[..], [1, 2, 3, 4, 5]);
}

#[test]
fn remove_shifts_down() {
    let mut v = Vec::<i32>::new();
    for x in [1, 2, 3, 4, 5] {
        v.push(x);
    }
    assert_eq!(v.remove(1), 2);
    assert_eq!(v.as_slice()[..], [1, 3, 4, 5]);
    assert_eq!(v.remove(3), 5);
    assert_eq!(v.as_slice()[..], [1, 3, 4]);
    assert_eq!(v.remove(0), 1);
    assert_eq!(v.as_slice()[..], [3, 4]);
}

#[test]
fn slice_follows_push_order() {
    let mut v = Vec::<i32>::new();
    let values = [3, 1, 4, 1, 5, 9, 2, 6];
    for (k, x) in values.iter().enumerate() {
        v.push(*x);
        assert_eq!(v.as_slice().len(), v.len());
        assert_eq!(v.as_slice()[..], values[..k + 1]);
    }
    assert_eq!(v.as_slice()[2..5], [4, 1, 5]);
}

#[test]
fn get_mut_writes_one_element() {
    let mut v = Vec::<i32>::new();
    v.push(1);
    v.push(2);
    v.push(3);
    *v.get_mut(2) += 10;
    assert_eq!(v.as_slice()[..], [1, 2, 13]);
}

#[test]
fn iterator_yields_every_element_once() {
    let mut v = Vec::<u32>::new();
    for i in 0..10u32 {
        v.push(i);
    }
    let mut it = v.into_iter();
    let mut out = std::vec::Vec::new();
    let mut back = false;
    loop {
        let r = if back { it.next_back() } else { it.next() };
        match r {
            Some(x) => out.push(x),
            None => break,
        }
        back = !back;
    }
    assert_eq!(out, vec![9, 0, 8, 1, 7, 2, 6, 3, 5, 4]);
    out.sort();
    assert_eq!(out, (0..10u32).collect::<std::vec::Vec<u32>>());
    assert_eq!(it.next(), None);
    assert_eq!(it.next_back(), None);
    assert_eq!(it.next(), None);
}

#[test]
fn iterator_over_empty_array() {
    let v = Vec::<u32>::new();
    let mut it = v.into_iter();
    assert_eq!(it.next(), None);
    assert_eq!(it.next_back(), None);
}

#[test]
fn next_back_walks_front_to_back() {
    let mut v = Vec::<u32>::new();
    v.push(1);
    v.push(2);
    v.push(3);
    let mut it = v.into_iter();
    assert_eq!(it.next_back(), Some(1));
    assert_eq!(it.next_back(), Some(2));
    assert_eq!(it.next_back(), Some(3));
    assert_eq!(it.next_back(), None);
}

struct Counted {
    drops: Rc<Cell<usize>>,
}

impl Drop for Counted {
    fn drop(&mut self) {
        self.drops.set(self.drops.get() + 1);
    }
}

#[test]
fn dropping_the_array_drops_each_element_once() {
    let drops = Rc::new(Cell::new(0));
    let mut v = Vec::new();
    for _ in 0..5 {
        v.push(Counted { drops: drops.clone() });
    }
    assert_eq!(drops.get(), 0);
    drop(v);
    assert_eq!(drops.get(), 5);
}

#[test]
fn popped_element_is_dropped_by_its_new_owner() {
    let drops = Rc::new(Cell::new(0));
    let mut v = Vec::new();
    v.push(Counted { drops: drops.clone() });
    v.push(Counted { drops: drops.clone() });
    let last = v.pop();
    assert_eq!(drops.get(), 0);
    drop(last);
    assert_eq!(drops.get(), 1);
    drop(v);
    assert_eq!(drops.get(), 2);
}

#[test]
fn dropping_a_partly_used_iterator_drops_the_rest_once() {
    let drops = Rc::new(Cell::new(0));
    let mut v = Vec::new();
    for _ in 0..4 {
        v.push(Counted { drops: drops.clone() });
    }
    let mut it = v.into_iter();
    drop(it.next());
    drop(it.next_back());
    assert_eq!(drops.get(), 2);
    drop(it);
    assert_eq!(drops.get(), 4);
}
