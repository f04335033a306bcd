use hybridseq::LocalStorageVec;

#[test]
fn it_from_vecs() {
    // The `vec!` macro creates a `Vec<T>` in a way that resembles
    // array-initialization syntax.
    let vec: LocalStorageVec<usize, 10> = LocalStorageVec::from(vec![1, 2, 3]);
    // Assert that the call to `from` indeed yields a `Heap` variant
    assert!(matches!(vec, LocalStorageVec::Heap(_)));

    let vec: LocalStorageVec<usize, 2> = LocalStorageVec::from(vec![1, 2, 3]);

    assert!(matches!(vec, LocalStorageVec::Heap(_)));
}

#[test]
fn it_as_refs() {
    let vec: LocalStorageVec<i32, 256> = LocalStorageVec::from([0; 128]);
    let slice: &[i32] = vec.as_ref();
    assert!(slice.len() == 128);
    let vec: LocalStorageVec<i32, 32> = LocalStorageVec::from([0; 128]);
    let slice: &[i32] = vec.as_ref();
    assert!(slice.len() == 128);

    let mut vec: LocalStorageVec<i32, 256> = LocalStorageVec::from([0; 128]);
    let slice_mut: &[i32] = vec.as_mut();
    assert!(slice_mut.len() == 128);
    let mut vec: LocalStorageVec<i32, 32> = LocalStorageVec::from([0; 128]);
    let slice_mut: &[i32] = vec.as_mut();
    assert!(slice_mut.len() == 128);
}

#[test]
fn it_constructs() {
    let vec: LocalStorageVec<usize, 10> = LocalStorageVec::new();
    // Assert that the call to `new` indeed yields a `Stack` variant with zero length
    assert!(matches!(vec, LocalStorageVec::Stack { buf: _, len: 0 }));
}

#[test]
fn it_lens() {
    let vec: LocalStorageVec<_, 3> = LocalStorageVec::from([0, 1, 2]);
    assert_eq!(vec.len(), 3);
    let vec: LocalStorageVec<_, 2> = LocalStorageVec::from([0, 1, 2]);
    assert_eq!(vec.len(), 3);
}

#[test]
fn it_pushes() {
    let mut vec: LocalStorageVec<_, 128> = LocalStorageVec::new();
    for value in 0..128 {
        vec.push(value);
    }
    assert!(matches!(vec, LocalStorageVec::Stack { len: 128, .. }));
    for value in 128..256 {
        vec.push(value);
    }
    assert!(matches!(vec, LocalStorageVec::Heap(v) if v.len() == 256))
}

#[test]
fn it_pops() {
    let mut vec: LocalStorageVec<_, 128> = LocalStorageVec::from([0; 128]);
    for _ in 0..128 {
        assert_eq!(vec.pop(), Some(0))
    }
    assert_eq!(vec.pop(), None);

    let mut vec: LocalStorageVec<_, 128> = LocalStorageVec::from([0; 256]);
    for _ in 0..256 {
        assert_eq!(vec.pop(), Some(0))
    }
    assert_eq!(vec.pop(), None);

    let mut vec: LocalStorageVec<_, 128> = LocalStorageVec::from(vec![0; 256]);
    for _ in 0..256 {
        assert_eq!(vec.pop(), Some(0))
    }
    assert_eq!(vec.pop(), None);
}

#[test]
fn it_inserts() {
    let mut vec: LocalStorageVec<_, 4> = LocalStorageVec::from([0, 1, 2]);
    vec.insert(1, 3);
    assert!(matches!(
        vec,
        LocalStorageVec::Stack {
            buf: [0, 3, 1, 2],
            len: 4
        }
    ));

    let mut vec: LocalStorageVec<_, 4> = LocalStorageVec::from([0, 1, 2, 3]);
    vec.insert(1, 3);
    assert!(matches!(vec, LocalStorageVec::Heap { .. }));
    assert_eq!(vec.as_ref(), &[0, 3, 1, 2, 3]);

    let mut vec: LocalStorageVec<_, 4> = LocalStorageVec::from([0, 1, 2, 3, 4]);
    vec.insert(1, 3);
    assert!(matches!(vec, LocalStorageVec::Heap { .. }));
    assert_eq!(vec.as_ref(), &[0, 3, 1, 2, 3, 4])
}

#[test]
fn it_removes() {
    let mut vec: LocalStorageVec<_, 4> = LocalStorageVec::from([0, 1, 2]);
    let elem = vec.remove(1);
    assert!(matches!(
        vec,
        LocalStorageVec::Stack {
            buf: [0, 2, _, _],
            len: 2
        }
    ));
    assert_eq!(elem, 1);

    let mut vec: LocalStorageVec<_, 2> = LocalStorageVec::from([0, 1, 2]);
    let elem = vec.remove(1);
    assert!(matches!(vec, LocalStorageVec::Heap(..)));
    assert_eq!(vec.as_ref(), &[0, 2]);
    assert_eq!(elem, 1);
}

#[test]
fn it_clears() {
    let mut vec: LocalStorageVec<_, 10> = LocalStorageVec::from([0, 1, 2, 3]);
    assert!(matches!(vec, LocalStorageVec::Stack { buf: _, len: 4 }));
    vec.clear();
    assert_eq!(vec.len(), 0);

    let mut vec: LocalStorageVec<_, 3> = LocalStorageVec::from([0, 1, 2, 3]);
    assert!(matches!(vec, LocalStorageVec::Heap(_)));
    vec.clear();
    assert_eq!(vec.len(), 0);
}

#[test]
fn it_iters() {
    let vec: LocalStorageVec<_, 128> = LocalStorageVec::from([0; 32]);
    let mut iter = vec.into_iter();
    while let Some(item) = iter.next() {
        assert_eq!(item, 0);
    }
    assert_eq!(iter.next(), None);

    let vec: LocalStorageVec<_, 128> = LocalStorageVec::from(vec![0; 128]);
    let mut iter = vec.into_iter();
    while let Some(item) = iter.next() {
        assert_eq!(item, 0);
    }
    assert_eq!(iter.next(), None);
}

#[test]
fn it_indexes() {
    let vec: LocalStorageVec<i32, 10> = LocalStorageVec::from([0, 1, 2, 3, 4, 5]);
    assert_eq!(*vec.index(1), 1);
    assert_eq!(vec.slice_to(2), [0, 1]);
    assert_eq!(vec.slice_from(4), [4, 5]);
    assert_eq!(vec.slice(1, 3), [1, 2]);
}

#[test]
fn it_borrowing_iters() {
    let vec: LocalStorageVec<String, 10> = LocalStorageVec::from([
        "0".to_owned(),
        "1".to_owned(),
        "2".to_owned(),
        "3".to_owned(),
        "4".to_owned(),
        "5".to_owned(),
    ]);
    let mut iter = vec.iter();
    while let Some(_item) = iter.next() {}
    // This requires the `vec` not to be consumed by the call to `iter()`
    drop(vec);
}

#[test]
fn it_derefs() {
    let vec: LocalStorageVec<_, 128> = LocalStorageVec::from([0; 128]);
    // `chunks` hands out the same batches that the slice the container
    // dereferences to would give
    let chunks = vec.chunks(4);
    assert_eq!(chunks.count(), 32);
    let slice: &[_] = vec.deref();
    assert_eq!(slice.len(), 128);

    let mut vec: LocalStorageVec<_, 128> = LocalStorageVec::from([0; 128]);
    let chunks_mut = vec.chunks_mut(4);
    assert_eq!(chunks_mut.count(), 32);
    let slice: &mut [_] = vec.deref_mut();
    assert_eq!(slice.len(), 128);
}

#[test]
fn growth_scenario() {
    let mut vec: LocalStorageVec<i32, 2> = LocalStorageVec::new();
    vec.push(0);
    vec.push(1);
    assert!(matches!(vec, LocalStorageVec::Stack { .. }));
    vec.push(2);
    assert!(matches!(vec, LocalStorageVec::Heap(_)));
    assert_eq!(vec.as_ref(), &[0, 1, 2]);

    vec.insert(1, 9);
    assert_eq!(vec.as_ref(), &[0, 9, 1, 2]);

    let removed = vec.remove(0);
    assert_eq!(removed, 0);
    assert_eq!(vec.as_ref(), &[9, 1, 2]);

    let mut iter = vec.iter();
    assert_eq!(iter.next(), Some(9));
    assert_eq!(iter.next(), Some(1));
    assert_eq!(iter.next(), Some(2));
    assert_eq!(iter.next(), None);
    // The iterator only borrowed the container, which stays usable.
    assert_eq!(vec.len(), 3);
}

#[test]
fn inline_scenario() {
    let vec: LocalStorageVec<String, 4> =
        LocalStorageVec::from(["a".to_owned(), "b".to_owned(), "c".to_owned()]);
    assert!(matches!(vec, LocalStorageVec::Stack { len: 3, .. }));
    assert_eq!(vec.len(), 3);
    assert_eq!(vec.slice_from(1), ["b".to_owned(), "c".to_owned()]);
    assert_eq!(vec.slice_to(2), ["a".to_owned(), "b".to_owned()]);
}

#[test]
fn pop_reverse_order() {
    let mut vec: LocalStorageVec<i32, 4> = LocalStorageVec::from([1, 2, 3]);
    assert_eq!(vec.pop(), Some(3));
    assert_eq!(vec.pop(), Some(2));
    assert_eq!(vec.pop(), Some(1));
    assert_eq!(vec.pop(), None);
    assert!(matches!(vec, LocalStorageVec::Stack { .. }));
}

#[test]
fn insert_remove_round_trip() {
    for i in 0..4 {
        let mut vec: LocalStorageVec<i32, 8> = LocalStorageVec::from([10, 20, 30]);
        vec.insert(i, 99);
        assert_eq!(vec.remove(i), 99);
        assert_eq!(vec.as_ref(), &[10, 20, 30]);
    }
}

#[test]
fn clear_keeps_representation() {
    let mut vec: LocalStorageVec<i32, 4> = LocalStorageVec::from([1, 2]);
    vec.clear();
    assert_eq!(vec.len(), 0);
    assert!(matches!(vec, LocalStorageVec::Stack { .. }));

    let mut vec: LocalStorageVec<i32, 4> = LocalStorageVec::from(vec![1, 2]);
    vec.clear();
    assert_eq!(vec.len(), 0);
    assert!(matches!(vec, LocalStorageVec::Heap(_)));
}

#[test]
fn into_vec_hands_elements_over() {
    let vec: LocalStorageVec<i32, 4> = LocalStorageVec::from([7, 8, 9]);
    assert_eq!(vec.into_vec(), vec![7, 8, 9]);

    let vec: LocalStorageVec<i32, 2> = LocalStorageVec::from(vec![4, 5, 6]);
    assert_eq!(vec.into_vec(), vec![4, 5, 6]);
}

#[test]
fn write_access_is_reflected() {
    let mut vec: LocalStorageVec<i32, 4> = LocalStorageVec::from([1, 2, 3]);
    vec.as_mut()[1] = 20;
    assert_eq!(vec.as_ref(), &[1, 20, 3]);

    let mut vec: LocalStorageVec<i32, 2> = LocalStorageVec::from(vec![1, 2, 3]);
    vec.deref_mut()[0] = 10;
    assert_eq!(vec.as_ref(), &[10, 2, 3]);
}
