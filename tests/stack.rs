use lockfree_stack::{node_from_frag_vec, NodeRef, Stack, StackIter};

fn collect(mut it: StackIter<'_, i32>) -> Vec<i32> {
    let mut out = Vec::new();
    while let Some(v) = it.next() {
        out.push(*v);
    }
    out
}

#[test]
fn basic_functionality() {
    let mut ll: Stack<i32> = Stack::default();
    assert_eq!(ll.pop(), None);
    ll.push(1);
    ll.push(2);
    ll.push(3);
    ll.push(4);
    ll.push(5);
    assert_eq!(ll.pop(), Some(5));
    assert_eq!(ll.pop(), Some(4));
    assert_eq!(ll.pop(), Some(3));
    assert_eq!(ll.pop(), Some(2));
    assert_eq!(ll.pop(), Some(1));
    assert_eq!(ll.pop(), None);
}

#[test]
fn three_pushes_drain_in_reverse() {
    let mut s = Stack::new();
    s.push("v1");
    s.push("v2");
    s.push("v3");
    assert_eq!(s.pop_all(), vec!["v3", "v2", "v1"]);
    assert!(s.is_empty());
}

#[test]
fn pop_on_empty_is_none() {
    let mut s: Stack<u8> = Stack::new();
    assert_eq!(s.pop(), None);
    assert_eq!(s.pop(), None);
    assert_eq!(s.len(), 0);
    assert_eq!(s.head(), None);
}

#[test]
fn pop_on_empty_keeps_injected_failures() {
    let mut s: Stack<u8> = Stack::new();
    s.inject_cas_failures(2);
    assert_eq!(s.pop(), None);
    assert_eq!(s.injected_failures(), 2);
}

#[test]
fn from_vec_keeps_order() {
    let mut s = Stack::from_vec(vec!['a', 'b', 'c']);
    assert_eq!(s.len(), 3);
    assert_eq!(s.pop_all(), vec!['a', 'b', 'c']);
    assert_eq!(s.pop_all(), Vec::<char>::new());
}

#[test]
fn from_raw_keeps_order() {
    let mut s = Stack::from_raw(node_from_frag_vec(vec![7, 8, 9]));
    assert_eq!(s.pop(), Some(7));
    assert_eq!(s.pop_all(), vec![8, 9]);
}

#[test]
fn push_retries_after_injected_losses() {
    let mut s = Stack::from_vec(vec![1]);
    s.inject_cas_failures(3);
    s.push(2);
    assert_eq!(s.injected_failures(), 0);
    assert_eq!(s.pop_all(), vec![2, 1]);
}

#[test]
fn pop_retries_after_injected_losses() {
    let mut s = Stack::from_vec(vec![1, 2]);
    s.inject_cas_failures(4);
    assert_eq!(s.pop(), Some(1));
    assert_eq!(s.injected_failures(), 0);
    assert_eq!(s.pop(), Some(2));
}

#[test]
fn cap_wins_when_head_matches() {
    let mut s = Stack::from_vec(vec![10]);
    let h = s.head();
    let r = s.cap(h, 20);
    assert!(r.is_ok());
    assert_eq!(s.head(), Some(r.unwrap()));
    assert_eq!(s.pop_all(), vec![20, 10]);
}

#[test]
fn cap_on_empty_with_none_wins() {
    let mut s = Stack::new();
    let r = s.cap(None, 5);
    assert!(r.is_ok());
    assert_eq!(s.pop_all(), vec![5]);
}

#[test]
fn cap_loses_and_reports_current_head() {
    let mut s = Stack::from_vec(vec![10]);
    let stale = s.head();
    s.push(11);
    let current = s.head();
    assert_eq!(s.cap(stale, 20), Err(current));
    assert_eq!(s.cap(None, 20), Err(current));
    assert_eq!(s.pop_all(), vec![11, 10]);
}

#[test]
fn cap_loses_on_injected_failure() {
    let mut s = Stack::from_vec(vec![10]);
    let h = s.head();
    s.inject_cas_failures(1);
    assert_eq!(s.cap(h, 20), Err(h));
    assert_eq!(s.injected_failures(), 0);
    assert!(s.cap(h, 20).is_ok());
    assert_eq!(s.pop_all(), vec![20, 10]);
}

#[test]
fn handles_are_never_reused() {
    let mut s = Stack::new();
    s.push(1);
    let first = s.head();
    assert_eq!(s.pop(), Some(1));
    s.push(1);
    let second = s.head();
    assert_ne!(first, second);
    assert_eq!(s.cap(first, 2), Err(second));
}

#[test]
fn cas_splices_chain() {
    let mut s = Stack::from_vec(vec![1, 2]);
    let h = s.head();
    let r = s.cas(h, node_from_frag_vec(vec![7, 8, 9]));
    let new_head = r.ok().unwrap();
    assert_eq!(s.head(), new_head);
    assert_eq!(s.pop_all(), vec![7, 8, 9]);
}

#[test]
fn cas_with_empty_chain_empties_stack() {
    let mut s = Stack::from_vec(vec![1, 2]);
    let h = s.head();
    assert_eq!(s.cas(h, node_from_frag_vec(Vec::new())).ok(), Some(None));
    assert!(s.is_empty());
}

#[test]
fn cas_loses_and_returns_chain() {
    let mut s = Stack::from_vec(vec![1, 2]);
    let current = s.head();
    match s.cas(None, node_from_frag_vec(vec![7])) {
        Ok(_) => panic!("a stale head must lose"),
        Err((found, chain)) => {
            assert_eq!(found, current);
            assert_eq!(chain.into_vec(), vec![7]);
        }
    }
    s.inject_cas_failures(1);
    assert!(s.cas(current, node_from_frag_vec(vec![7])).is_err());
    assert_eq!(s.pop_all(), vec![1, 2]);
}

#[test]
fn iter_at_head_walks_top_down() {
    let s = Stack::from_vec(vec![3, 2, 1]);
    let (h, it) = s.iter_at_head();
    assert_eq!(Some(h), s.head());
    assert_eq!(it.len(), 3);
    assert_eq!(collect(it), vec![3, 2, 1]);
    assert_eq!(collect(s.iter()), vec![3, 2, 1]);
}

#[test]
fn walk_from_old_head_skips_later_pushes() {
    let mut s = Stack::from_vec(vec![2, 1]);
    let snapshot = s.head();
    s.push(3);
    s.push(4);
    assert_eq!(collect(StackIter::from_ptr(&s, snapshot)), vec![2, 1]);
    assert_eq!(collect(StackIter::from_ptr(&s, None)), Vec::<i32>::new());
    assert_eq!(collect(StackIter::from_ptr(&s, Some(NodeRef { id: 999 }))), Vec::<i32>::new());
}

#[test]
fn get_follows_links() {
    let s = Stack::from_vec(vec![5, 6]);
    let top = s.get(s.head().unwrap()).unwrap();
    assert_eq!(*top.value(), 5);
    assert_eq!(top.handle(), s.head().unwrap());
    let below = s.get(top.next().unwrap()).unwrap();
    assert_eq!(*below.value(), 6);
    assert_eq!(below.next(), None);
    assert_eq!(s.position(below.handle()), Some(1));
    assert!(s.get(NodeRef { id: 999 }).is_none());
}

#[test]
fn interleaved_tagged_pushes_drain_without_loss() {
    let producers: u32 = 4;
    let per_producer: u32 = 25;
    let mut s = Stack::new();
    for round in 0..per_producer {
        for p in 0..producers {
            if (round + p) % 3 == 0 {
                s.inject_cas_failures(2);
            }
            s.push(p * 1000 + round);
        }
    }
    let mut drained: Vec<u32> = Vec::new();
    let mut turn: u32 = 0;
    while let Some(v) = s.pop() {
        if turn % 5 == 0 {
            s.inject_cas_failures(1);
        }
        drained.push(v);
        turn += 1;
    }
    assert_eq!(drained.len(), (producers * per_producer) as usize);
    let mut expected: Vec<u32> = Vec::new();
    for p in 0..producers {
        for round in 0..per_producer {
            expected.push(p * 1000 + round);
        }
    }
    drained.sort();
    expected.sort();
    assert_eq!(drained, expected);
}
