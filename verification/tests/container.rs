use const_push::addressing::{copy_item, AddressExtractor};
use const_push::array_extension::{extend_array, extend_uninit_array};
use const_push::assertions::Leq;
use const_push::slot::MaybeUninit;
use const_push::{CapacityError, ConstVec};
use std::rc::Rc;

fn items<T: Clone, const CAP: usize>(v: &ConstVec<T, CAP>) -> Vec<T> {
    v.as_slice().into_iter().cloned().collect()
}

#[test]
fn new_is_empty() {
    let v = ConstVec::<String, 4>::new();
    assert_eq!(v.len(), 0);
    assert!(v.is_empty());
    assert!(v.get(0).is_none());
    assert!(v.as_slice().is_empty());
}

#[test]
fn pushes_come_out_in_order() {
    let mut v = ConstVec::<u32, 8>::new();
    let pushed = [7, 1, 7, 3, 9];
    for (k, item) in pushed.iter().enumerate() {
        v = v.push(*item);
        assert_eq!(v.len(), k + 1);
        assert_eq!(items(&v), pushed[..k + 1].to_vec());
    }
    assert!(!v.is_empty());
}

#[test]
fn push_unchecked_appends() {
    let v = ConstVec::<u32, 2>::new().push_unchecked(5).push_unchecked(6);
    assert_eq!(items(&v), vec![5, 6]);
}

#[test]
fn pop_undoes_push() {
    let start = ConstVec::<String, 4>::new().push("a".to_string()).push("b".to_string());
    let before = items(&start);
    let (popped, out) = start.push("c".to_string()).pop();
    assert_eq!(out, "c");
    assert_eq!(items(&popped), before);
    assert_eq!(popped.len(), 2);
}

#[test]
fn pop_unchecked_takes_the_last() {
    let (v, out) = ConstVec::<u32, 4>::from_array([1, 2, 3]).pop_unchecked();
    assert_eq!(out, 3);
    assert_eq!(items(&v), vec![1, 2]);
}

#[test]
fn try_push_on_full_hands_everything_back() {
    let full = ConstVec::<u32, 3>::new().push(1).push(2).push(3);
    match full.try_push(4) {
        Ok(_) => panic!("a full vector took one more item"),
        Err(CapacityError { vector, item }) => {
            assert_eq!(item, 4);
            assert_eq!(vector.len(), 3);
            assert_eq!(items(&vector), vec![1, 2, 3]);
        }
    }
}

#[test]
fn try_push_with_room_appends() {
    let v = ConstVec::<u32, 3>::new().push(1);
    match v.try_push(2) {
        Ok(v) => assert_eq!(items(&v), vec![1, 2]),
        Err(_) => panic!("a vector with room refused an item"),
    }
}

#[test]
fn try_push_on_zero_capacity() {
    let v = ConstVec::<u32, 0>::new();
    match v.try_push(1) {
        Ok(_) => panic!("a vector without cells took an item"),
        Err(e) => {
            assert_eq!(e.item, 1);
            assert!(e.vector.is_empty());
        }
    }
}

#[test]
fn try_pop_on_empty_is_absent() {
    let (v, out) = ConstVec::<u32, 4>::new().try_pop();
    assert_eq!(out, None);
    assert!(v.is_empty());
    let v = v.push(1);
    assert_eq!(items(&v), vec![1]);
}

#[test]
fn try_pop_takes_the_last() {
    let (v, out) = ConstVec::<u32, 4>::from_array([1, 2, 3]).try_pop();
    assert_eq!(out, Some(3));
    assert_eq!(items(&v), vec![1, 2]);
}

#[test]
fn try_swap_remove_on_empty_is_absent() {
    let (v, out) = ConstVec::<u32, 4>::new().try_swap_remove(0);
    assert_eq!(out, None);
    assert!(v.is_empty());
}

#[test]
fn try_swap_remove_of_last_is_pop() {
    let (v, out) = ConstVec::<u32, 4>::from_array([10, 20, 30]).try_swap_remove(2);
    assert_eq!(out, Some(30));
    assert_eq!(items(&v), vec![10, 20]);
}

#[test]
fn try_swap_remove_of_first() {
    let (v, out) = ConstVec::<u32, 4>::from_array([10, 20, 30, 40]).try_swap_remove(0);
    assert_eq!(out, Some(10));
    assert_eq!(items(&v), vec![40, 20, 30]);
}

#[test]
fn try_swap_remove_of_only_item() {
    let (v, out) = ConstVec::<u32, 4>::from_array([10]).try_swap_remove(0);
    assert_eq!(out, Some(10));
    assert!(v.is_empty());
}

#[test]
fn try_swap_remove_behind_the_items_changes_nothing() {
    let (v, out) = ConstVec::<u32, 4>::from_array([10, 20]).try_swap_remove(2);
    assert_eq!(out, None);
    assert_eq!(items(&v), vec![10, 20]);
    let (v, out) = v.try_swap_remove(usize::MAX);
    assert_eq!(out, None);
    assert_eq!(items(&v), vec![10, 20]);
}

#[test]
fn from_array_keeps_the_items() {
    let v = ConstVec::<String, 5>::from_array(["x".to_string(), "y".to_string()]);
    assert_eq!(v.len(), 2);
    assert_eq!(items(&v), vec!["x".to_string(), "y".to_string()]);
    let v = v.push("z".to_string());
    assert_eq!(v.get(2), Some(&"z".to_string()));
}

#[test]
fn from_empty_array() {
    let v = ConstVec::<u32, 0>::from_array([]);
    assert!(v.is_empty());
    assert!(v.as_slice().is_empty());
}

#[test]
fn get_behind_the_items_is_absent() {
    let v = ConstVec::<u32, 4>::from_array([1, 2]);
    assert_eq!(v.get(1), Some(&2));
    assert_eq!(v.get(2), None);
    assert_eq!(v.get(4), None);
}

#[test]
fn consuming_iteration_yields_each_item_once() {
    let mut it = ConstVec::<u32, 6>::from_array([4, 5, 6]).into_iter();
    assert_eq!(it.size_hint(), (3, Some(3)));
    assert_eq!(it.next(), Some(4));
    assert_eq!(it.size_hint(), (2, Some(2)));
    assert_eq!(it.next(), Some(5));
    assert_eq!(it.next(), Some(6));
    assert_eq!(it.size_hint(), (0, Some(0)));
    assert_eq!(it.next(), None);
    assert_eq!(it.next(), None);
}

#[test]
fn borrowing_iteration_can_be_repeated() {
    let v = ConstVec::<u32, 6>::from_array([4, 5, 6]);
    for _round in 0..2 {
        let mut it = v.iter();
        assert_eq!(it.size_hint(), (3, Some(3)));
        assert_eq!(it.next(), Some(&4));
        assert_eq!(it.next(), Some(&5));
        assert_eq!(it.size_hint(), (1, Some(1)));
        assert_eq!(it.next(), Some(&6));
        assert_eq!(it.next(), None);
        assert_eq!(it.next(), None);
    }
    let by_ref: Vec<u32> = items(&v);
    let mut by_value = Vec::new();
    let mut it = v.into_iter();
    while let Some(item) = it.next() {
        by_value.push(item);
    }
    assert_eq!(by_ref, by_value);
}

#[test]
fn iteration_over_empty_vector() {
    let v = ConstVec::<u32, 3>::new();
    assert_eq!(v.iter().next(), None);
    let mut it = v.into_iter();
    assert_eq!(it.size_hint(), (0, Some(0)));
    assert_eq!(it.next(), None);
}

#[test]
fn every_item_is_finalized_once() {
    let probe = Rc::new(());
    let v = ConstVec::<Rc<()>, 4>::new()
        .push(probe.clone())
        .push(probe.clone())
        .push(probe.clone());
    assert_eq!(Rc::strong_count(&probe), 4);
    let (v, out) = v.try_swap_remove(0);
    assert_eq!(Rc::strong_count(&probe), 4);
    drop(out);
    assert_eq!(Rc::strong_count(&probe), 3);
    let (v, out) = v.pop();
    drop(out);
    assert_eq!(Rc::strong_count(&probe), 2);
    drop(v);
    assert_eq!(Rc::strong_count(&probe), 1);
}

#[test]
fn abandoned_iteration_finalizes_what_is_left() {
    let probe = Rc::new(());
    let v = ConstVec::<Rc<()>, 4>::from_array([probe.clone(), probe.clone(), probe.clone()]);
    assert_eq!(Rc::strong_count(&probe), 4);
    let mut it = v.into_iter();
    let first = it.next();
    assert_eq!(Rc::strong_count(&probe), 4);
    drop(it);
    assert_eq!(Rc::strong_count(&probe), 2);
    drop(first);
    assert_eq!(Rc::strong_count(&probe), 1);
}

#[test]
fn rejected_item_is_not_duplicated() {
    let probe = Rc::new(());
    let full = ConstVec::<Rc<()>, 1>::new().push(probe.clone());
    let r = full.try_push(probe.clone());
    assert_eq!(Rc::strong_count(&probe), 3);
    drop(r);
    assert_eq!(Rc::strong_count(&probe), 1);
}

#[test]
fn slot_holds_what_it_was_given() {
    let slot = MaybeUninit::new(17u32);
    assert_eq!(*slot.assume_init_ref(), 17);
    assert_eq!(slot.assume_init(), 17);
    let _vacant = MaybeUninit::<String>::uninit();
}

#[test]
fn copy_item_moves_the_cell_out() {
    let mut cells = [MaybeUninit::new(1u32), MaybeUninit::new(2), MaybeUninit::new(3)];
    let taken = copy_item(&mut cells, 1);
    assert_eq!(taken.assume_init(), 2);
    assert_eq!(*cells[0].assume_init_ref(), 1);
    assert_eq!(*cells[2].assume_init_ref(), 3);
}

#[test]
fn extractor_hands_out_items_by_index() {
    let mut source = AddressExtractor::new([10u32, 20, 30]);
    assert_eq!(source.copy_item(2).assume_init(), 30);
    assert_eq!(source.copy_item(0).assume_init(), 10);
    assert_eq!(source.copy_item(1).assume_init(), 20);
}

#[test]
fn extractor_releases_unmoved_items_once() {
    let probe = Rc::new(());
    let mut source = AddressExtractor::new([probe.clone(), probe.clone()]);
    let moved = source.copy_item(0);
    assert_eq!(Rc::strong_count(&probe), 3);
    drop(source);
    assert_eq!(Rc::strong_count(&probe), 2);
    drop(moved);
    assert_eq!(Rc::strong_count(&probe), 1);
}

#[test]
fn extend_array_fills_the_front() {
    let buffer: [MaybeUninit<u32>; 5] = extend_array([10, 20, 30]);
    assert_eq!(*buffer[0].assume_init_ref(), 10);
    assert_eq!(*buffer[1].assume_init_ref(), 20);
    assert_eq!(*buffer[2].assume_init_ref(), 30);
}

#[test]
fn extend_uninit_array_keeps_the_cells() {
    let cells = [MaybeUninit::new(1u32), MaybeUninit::new(2)];
    let buffer: [MaybeUninit<u32>; 4] = extend_uninit_array(cells);
    assert_eq!(*buffer[0].assume_init_ref(), 1);
    assert_eq!(*buffer[1].assume_init_ref(), 2);
    assert_eq!(buffer.len(), 4);
}

#[test]
fn bound_check_returns_its_evidence() {
    let _fits: Leq<3, 10> = Leq::check();
    let _exact: Leq<3, 3> = Leq::<3, 3>::check();
}
