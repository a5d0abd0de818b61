use myvec::MyVec;
use std::cell::Cell;
use std::rc::Rc;

fn contents<T: Clone>(v: &MyVec<T>) -> Vec<T> {
    (0..v.len()).map(|i| v.index(i).clone()).collect()
}

#[test]
fn new_is_empty() {
    let v: MyVec<i32> = MyVec::new();
    assert_eq!(v.len(), 0);
    assert_eq!(v.cap(), 0);
    assert!(v.is_empty());
    assert!(v.get(0).is_none());
}

#[test]
fn pushes_double_the_capacity_from_one() {
    let mut v = MyVec::new();
    let mut caps = Vec::new();
    for i in 0..9u64 {
        v.push(i);
        caps.push(v.cap());
    }
    assert_eq!(caps, vec![1, 2, 4, 4, 8, 8, 8, 8, 16]);
    assert_eq!(v.len(), 9);
    assert_eq!(contents(&v), (0..9u64).collect::<Vec<_>>());
}

#[test]
fn pops_in_reverse_order() {
    let mut v = MyVec::new();
    v.push(1);
    v.push(2);
    v.push(3);
    assert_eq!(v.pop(), Some(3));
    assert_eq!(v.pop(), Some(2));
    assert_eq!(v.pop(), Some(1));
    assert_eq!(v.pop(), None);
    assert_eq!(v.cap(), 4);
}

#[test]
fn push_after_pop_reuses_capacity() {
    let mut v = MyVec::new();
    v.push(1);
    v.push(2);
    v.push(3);
    assert_eq!(v.pop(), Some(3));
    v.push(4);
    v.push(5);
    assert_eq!(contents(&v), vec![1, 2, 4, 5]);
    assert_eq!(v.cap(), 4);
}

#[test]
fn insert_then_read_and_remove() {
    let mut v = MyVec::new();
    for x in [1, 2, 3, 4] {
        v.push(x);
    }
    assert_eq!(v.cap(), 4);
    v.insert(2, 10);
    assert_eq!(*v.index(2), 10);
    assert_eq!(v.len(), 5);
    assert_eq!(v.cap(), 8);
    assert_eq!(contents(&v), vec![1, 2, 10, 3, 4]);
    assert_eq!(v.remove(1), 2);
    assert_eq!(v.len(), 4);
    assert_eq!(v.cap(), 8);
    assert_eq!(contents(&v), vec![1, 10, 3, 4]);
}

#[test]
fn insert_at_both_ends() {
    let mut v = MyVec::new();
    v.insert(0, "b");
    v.insert(0, "a");
    v.insert(2, "c");
    assert_eq!(contents(&v), vec!["a", "b", "c"]);
    assert_eq!(v.remove(2), "c");
    assert_eq!(v.remove(0), "a");
    assert_eq!(contents(&v), vec!["b"]);
}

#[test]
fn get_and_index_mut() {
    let mut v = MyVec::new();
    v.push("hello".to_string());
    v.push(",".to_string());
    v.push("world".to_string());
    v.push("!".to_string());
    assert_eq!(v.index(3), "!");
    assert_eq!(v.get(1).map(|s| s.as_str()), Some(","));
    assert!(v.get(4).is_none());
    v.index_mut(3).push('?');
    assert_eq!(v.index(3), "!?");
}

#[test]
fn consuming_iterator_round_trip() {
    let mut v = MyVec::new();
    v.push("a");
    v.push("b");
    v.push("c");
    let mut it = v.into_iter();
    assert_eq!(it.size_hint(), (3, Some(3)));
    let mut out = Vec::new();
    while let Some(x) = it.next() {
        out.push(x);
    }
    assert_eq!(out, vec!["a", "b", "c"]);
    assert_eq!(it.size_hint(), (0, Some(0)));
    assert_eq!(it.next(), None);
    assert_eq!(it.next_back(), None);
}

#[test]
fn consuming_iterator_from_both_ends_visits_each_once() {
    let n = 6;
    for split in 0..=n {
        let mut v = MyVec::new();
        for i in 0..n {
            v.push(i);
        }
        let mut it = v.into_iter();
        let mut front = Vec::new();
        let mut back = Vec::new();
        // alternate while both sides still have steps left
        let (mut f, mut b) = (split, n - split);
        while f > 0 || b > 0 {
            if f > 0 {
                front.push(it.next().unwrap());
                f -= 1;
            }
            if b > 0 {
                back.push(it.next_back().unwrap());
                b -= 1;
            }
        }
        assert_eq!(it.next(), None);
        assert_eq!(it.next_back(), None);
        back.reverse();
        front.extend(back);
        assert_eq!(front, (0..n).collect::<Vec<_>>());
    }
}

#[test]
fn drain_empties_at_once_and_keeps_capacity() {
    let mut v = MyVec::new();
    for s in ["hello", ",", "world", "!"] {
        v.push(s.to_string());
    }
    let mut d = v.drain();
    assert_eq!(d.size_hint(), (4, Some(4)));
    assert_eq!(d.next().as_deref(), Some("hello"));
    assert_eq!(d.next_back().as_deref(), Some("!"));
    drop(d);
    assert_eq!(v.len(), 0);
    assert_eq!(v.cap(), 4);
    v.push("again".to_string());
    assert_eq!(contents(&v), vec!["again".to_string()]);
}

#[test]
fn drain_yields_everything_in_order() {
    let mut v = MyVec::new();
    for i in 0..5 {
        v.push(i);
    }
    let mut d = v.drain();
    let mut out = Vec::new();
    while let Some(x) = d.next() {
        out.push(x);
    }
    assert_eq!(out, vec![0, 1, 2, 3, 4]);
    assert_eq!(d.next(), None);
}

#[test]
fn drain_of_empty_container() {
    let mut v: MyVec<u8> = MyVec::new();
    let mut d = v.drain();
    assert_eq!(d.next(), None);
    drop(d);
    assert_eq!(v.len(), 0);
    assert_eq!(v.cap(), 0);
}

struct Counted(Rc<Cell<usize>>);

impl Drop for Counted {
    fn drop(&mut self) {
        self.0.set(self.0.get() + 1);
    }
}

fn counted(n: usize, drops: &Rc<Cell<usize>>) -> MyVec<Counted> {
    let mut v = MyVec::new();
    for _ in 0..n {
        v.push(Counted(drops.clone()));
    }
    v
}

#[test]
fn container_drop_destroys_each_element_once() {
    let drops = Rc::new(Cell::new(0));
    let mut v = counted(5, &drops);
    drop(v.pop());
    drop(v.remove(0));
    assert_eq!(drops.get(), 2);
    drop(v);
    assert_eq!(drops.get(), 5);
}

#[test]
fn abandoned_consuming_iterator_destroys_the_rest() {
    for k in 0..=5 {
        let drops = Rc::new(Cell::new(0));
        let mut it = counted(5, &drops).into_iter();
        for _ in 0..k {
            drop(it.next().unwrap());
        }
        assert_eq!(drops.get(), k);
        drop(it);
        assert_eq!(drops.get(), 5);
    }
}

#[test]
fn abandoned_drain_destroys_the_rest() {
    for k in 0..=5 {
        let drops = Rc::new(Cell::new(0));
        let mut v = counted(5, &drops);
        let mut d = v.drain();
        for _ in 0..k {
            drop(d.next_back().unwrap());
        }
        drop(d);
        assert_eq!(drops.get(), 5);
        assert_eq!(v.len(), 0);
        drop(v);
        assert_eq!(drops.get(), 5);
    }
}

#[test]
fn raw_buffer_starts_empty() {
    let _b: myvec::RawVec<u32> = myvec::RawVec::new();
}
