//! A growable, generic sequence that keeps its elements in a
//! fixed-capacity inline buffer while they fit and migrates them to a
//! heap-allocated buffer once the inline capacity is exceeded.

use vstd::prelude::*;

verus! {

broadcast use vstd::array::group_array_axioms;

/// A growable, generic list that resides on the stack if it's small,
/// but is moved to the heap to grow larger if needed.
///
/// Exactly one of the two representations holds the data at any time.
/// The inline (`Stack`) buffer keeps `len` live elements in positions
/// `[0, len)`; the trailing slots hold default values and are never
/// exposed. The `Heap` representation delegates to a `Vec`.
#[derive(Debug)]
pub enum LocalStorageVec<T, const N: usize> {
    Stack { buf: [T; N], len: usize },
    Heap(Vec<T>),
}

impl<T, const N: usize> View for LocalStorageVec<T, N> {
    type V = Seq<T>;

    /// The abstract value of the container: the sequence of live elements.
    open spec fn view(&self) -> Seq<T> {
        match self {
            LocalStorageVec::Stack { buf, len } => buf@.subrange(0, *len as int),
            LocalStorageVec::Heap(v) => v@,
        }
    }
}

impl<T, const N: usize> LocalStorageVec<T, N> {
    /// Well-formedness: an inline container never claims more live
    /// elements than its buffer holds.
    pub open spec fn wf(&self) -> bool {
        match self {
            LocalStorageVec::Stack { buf: _, len } => *len <= N,
            LocalStorageVec::Heap(_) => true,
        }
    }

    /// A borrowed contiguous view of exactly the live elements.
    pub fn as_ref(&self) -> (r: &[T])
        requires
            self.wf(),
        ensures
            r@ == self@,
    {
        match self {
            LocalStorageVec::Stack { buf, len } => &buf[0..*len],
            LocalStorageVec::Heap(v) => v.as_slice(),
        }
    }

    /// The mutable counterpart of `as_ref`: a borrowed view of the live
    /// elements through which they may be overwritten in place. Writing
    /// through the view (which keeps its length) is reflected in the
    /// container; the representation and the length never change.
    pub fn as_mut(&mut self) -> (r: &mut [T])
        requires
            old(self).wf(),
        ensures
            r@ == old(self)@,
            final(self).wf(),
            (*final(self)) is Stack <==> (*old(self)) is Stack,
            final(r)@.len() == old(self)@.len() ==> final(self)@ == final(r)@,
    {
        match self {
            LocalStorageVec::Stack { buf, len } => {
                let s: &mut [T] = buf;
                let (front, _back) = s.split_at_mut(*len);
                front
            }
            LocalStorageVec::Heap(v) => v.as_mut_slice(),
        }
    }
}

/// Relies on `core::array::from_fn` together with `Default::default`:
/// every slot of the returned buffer holds the element type's default
/// value. Nothing is assumed about those values beyond the buffer's
/// length.
#[verifier::external_body]
fn buffer_of_defaults<T: Default, const N: usize>() -> (r: [T; N])
    ensures
        r@.len() == N,
{
    core::array::from_fn(|_| T::default())
}

/// Exchanges the slot `buf[i]` with the value behind `tmp`.
fn swap_slot<T, const N: usize>(buf: &mut [T; N], i: usize, tmp: &mut T)
    requires
        i < N,
    ensures
        *final(tmp) == old(buf)@[i as int],
        final(buf)@ == old(buf)@.update(i as int, *old(tmp)),
{
    core::mem::swap(&mut buf[i], tmp);
}

/// Moves every slot of the buffer into a fresh `Vec`, in order. The
/// buffer is left holding default values.
fn drain_buffer<T: Default, const N: usize>(buf: &mut [T; N]) -> (v: Vec<T>)
    ensures
        v@ == old(buf)@,
{
    let mut v: Vec<T> = Vec::new();
    let mut i: usize = 0;
    while i < N
        invariant
            i <= N,
            v@.len() == i,
            forall|k: int| 0 <= k < i ==> v@[k] == old(buf)@[k],
            buf@.len() == N,
            forall|k: int| i <= k < N ==> buf@[k] == old(buf)@[k],
        decreases N - i,
    {
        let mut tmp = T::default();
        swap_slot(buf, i, &mut tmp);
        v.push(tmp);
        i += 1;
    }
    proof {
        assert(v@ =~= old(buf)@);
    }
    v
}

impl<T: Default + Clone, const N: usize> LocalStorageVec<T, N> {
    /// An empty container in its inline representation.
    pub fn new() -> (r: Self)
        ensures
            r.wf(),
            r@ == Seq::<T>::empty(),
            r is Stack,
    {
        let r = LocalStorageVec::Stack { buf: buffer_of_defaults(), len: 0 };
        proof {
            assert(r@ =~= Seq::<T>::empty());
        }
        r
    }

    /// The number of live elements, whichever representation holds them.
    pub fn len(&self) -> (r: usize)
        requires
            self.wf(),
        ensures
            r == self@.len(),
    {
        match self {
            LocalStorageVec::Stack { buf: _, len } => *len,
            LocalStorageVec::Heap(v) => v.len(),
        }
    }

    /// Appends `elem` after the last live element. An inline container
    /// that is full migrates to the heap; the elements keep their order.
    pub fn push(&mut self, elem: T)
        requires
            old(self).wf(),
        ensures
            final(self).wf(),
            final(self)@ == old(self)@.push(elem),
            (*final(self)) is Heap <==> ((*old(self)) is Heap || old(self)@.len() == N),
    {
        match self {
            LocalStorageVec::Stack { buf, len } => {
                if *len < N {
                    buf[*len] = elem;
                    *len += 1;
                    assert(final(self)@ =~= old(self)@.push(elem));
                } else {
                    let mut v = drain_buffer(buf);
                    v.push(elem);
                    *self = LocalStorageVec::Heap(v);
                    assert(final(self)@ =~= old(self)@.push(elem));
                }
            }
            LocalStorageVec::Heap(v) => {
                v.push(elem);
            }
        }
    }

    /// Removes and returns the last live element; signals absence on an
    /// empty container. The representation never changes.
    pub fn pop(&mut self) -> (r: Option<T>)
        requires
            old(self).wf(),
        ensures
            final(self).wf(),
            (*final(self)) is Stack <==> (*old(self)) is Stack,
            old(self)@.len() == 0 ==> r is None && final(self)@ == old(self)@,
            old(self)@.len() > 0 ==> r == Some(old(self)@.last()) && final(self)@ == old(
                self,
            )@.drop_last(),
    {
        match self {
            LocalStorageVec::Stack { buf, len } => {
                if *len == 0 {
                    None
                } else {
                    *len -= 1;
                    let mut tmp = T::default();
                    swap_slot(buf, *len, &mut tmp);
                    assert(final(self)@ =~= old(self)@.drop_last());
                    Some(tmp)
                }
            }
            LocalStorageVec::Heap(v) => v.pop(),
        }
    }

    /// Inserts `elem` before position `index`, shifting the elements at
    /// `[index, len)` one slot to the right. A full inline container
    /// migrates to the heap first.
    pub fn insert(&mut self, index: usize, elem: T)
        requires
            old(self).wf(),
            index <= old(self)@.len(),
        ensures
            final(self).wf(),
            final(self)@ == old(self)@.insert(index as int, elem),
            (*final(self)) is Heap <==> ((*old(self)) is Heap || old(self)@.len() == N),
    {
        match self {
            LocalStorageVec::Stack { buf, len } => {
                if *len < N {
                    let l: usize = *len;
                    let mut j: usize = l;
                    while j > index
                        invariant
                            index <= j <= l,
                            l == old(self)@.len(),
                            l < N,
                            buf@.len() == N,
                            forall|k: int| 0 <= k < j ==> buf@[k] == old(self)@[k],
                            forall|k: int| j < k <= l ==> buf@[k] == old(self)@[k - 1],
                        decreases j,
                    {
                        j -= 1;
                        let mut tmp = T::default();
                        swap_slot(buf, j, &mut tmp);
                        buf[j + 1] = tmp;
                    }
                    buf[index] = elem;
                    *len = l + 1;
                    assert(final(self)@ =~= old(self)@.insert(index as int, elem));
                } else {
                    let mut v = drain_buffer(buf);
                    v.insert(index, elem);
                    *self = LocalStorageVec::Heap(v);
                    assert(final(self)@ =~= old(self)@.insert(index as int, elem));
                }
            }
            LocalStorageVec::Heap(v) => {
                v.insert(index, elem);
            }
        }
    }

    /// Removes and returns the element at `index`, shifting the elements
    /// at `[index + 1, len)` one slot to the left. Unlike `pop`, an
    /// out-of-bounds index is a contract violation, not a signalled
    /// absence.
    pub fn remove(&mut self, index: usize) -> (r: T)
        requires
            old(self).wf(),
            index < old(self)@.len(),
        ensures
            final(self).wf(),
            r == old(self)@[index as int],
            final(self)@ == old(self)@.remove(index as int),
            (*final(self)) is Stack <==> (*old(self)) is Stack,
    {
        match self {
            LocalStorageVec::Stack { buf, len } => {
                let l: usize = *len;
                let mut out = T::default();
                swap_slot(buf, index, &mut out);
                let mut j: usize = index + 1;
                while j < l
                    invariant
                        index + 1 <= j <= l,
                        l == old(self)@.len(),
                        l <= N,
                        buf@.len() == N,
                        forall|k: int| 0 <= k < index ==> buf@[k] == old(self)@[k],
                        forall|k: int| index <= k < j - 1 ==> buf@[k] == old(self)@[k + 1],
                        forall|k: int| j <= k < l ==> buf@[k] == old(self)@[k],
                    decreases l - j,
                {
                    let mut tmp = T::default();
                    swap_slot(buf, j, &mut tmp);
                    buf[j - 1] = tmp;
                    j += 1;
                }
                *len = l - 1;
                assert(final(self)@ =~= old(self)@.remove(index as int));
                out
            }
            LocalStorageVec::Heap(v) => v.remove(index),
        }
    }

    /// Discards every live element. The length drops to zero; the
    /// representation never changes.
    pub fn clear(&mut self)
        requires
            old(self).wf(),
        ensures
            final(self).wf(),
            final(self)@ == Seq::<T>::empty(),
            (*final(self)) is Stack <==> (*old(self)) is Stack,
    {
        match self {
            LocalStorageVec::Stack { buf: _, len } => {
                *len = 0;
                assert(final(self)@ =~= Seq::<T>::empty());
            }
            LocalStorageVec::Heap(v) => v.clear(),
        }
    }

    /// A shared borrow of the live elements, spelled as the slice the
    /// container dereferences to.
    pub fn deref(&self) -> (r: &[T])
        requires
            self.wf(),
        ensures
            r@ == self@,
    {
        self.as_ref()
    }

    /// The mutable counterpart of `deref`, with the contract of `as_mut`.
    pub fn deref_mut(&mut self) -> (r: &mut [T])
        requires
            old(self).wf(),
        ensures
            r@ == old(self)@,
            final(self).wf(),
            (*final(self)) is Stack <==> (*old(self)) is Stack,
            final(r)@.len() == old(self)@.len() ==> final(self)@ == final(r)@,
    {
        self.as_mut()
    }

    /// The element at position `i`. An out-of-bounds index is a
    /// contract violation.
    pub fn index(&self, i: usize) -> (r: &T)
        requires
            self.wf(),
            i < self@.len(),
        ensures
            *r == self@[i as int],
    {
        let s = self.as_ref();
        &s[i]
    }

    /// The borrowed sub-view of the live elements at `[start, end)`.
    pub fn slice(&self, start: usize, end: usize) -> (r: &[T])
        requires
            self.wf(),
            start <= end <= self@.len(),
        ensures
            r@ == self@.subrange(start as int, end as int),
    {
        let s = self.as_ref();
        &s[start..end]
    }

    /// The borrowed sub-view of the live elements from `start` to the end.
    pub fn slice_from(&self, start: usize) -> (r: &[T])
        requires
            self.wf(),
            start <= self@.len(),
        ensures
            r@ == self@.subrange(start as int, self@.len() as int),
    {
        let s = self.as_ref();
        let e = s.len();
        &s[start..e]
    }

    /// The borrowed sub-view of the live elements from the start to `end`.
    pub fn slice_to(&self, end: usize) -> (r: &[T])
        requires
            self.wf(),
            end <= self@.len(),
        ensures
            r@ == self@.subrange(0, end as int),
    {
        let s = self.as_ref();
        &s[0..end]
    }

    /// A fresh borrowing iterator positioned at the first live element.
    pub fn iter<'a>(&'a self) -> (r: LocalStorageVecIterator<'a, T, N>)
        requires
            self.wf(),
        ensures
            r.elements() == self@,
            r.position() == 0,
    {
        LocalStorageVecIterator { data: self.as_ref(), index: 0 }
    }

    /// A borrowing iterator over the live elements, identical to `iter`.
    pub fn into_iter<'a>(&'a self) -> (r: LocalStorageVecIterator<'a, T, N>)
        requires
            self.wf(),
        ensures
            r.elements() == self@,
            r.position() == 0,
    {
        self.iter()
    }

    /// Owning iteration support: consumes the container and hands the
    /// live elements over in order, as a vector.
    pub fn into_vec(self) -> (r: Vec<T>)
        requires
            self.wf(),
        ensures
            r@ == self@,
    {
        match self {
            LocalStorageVec::Stack { mut buf, len } => {
                let mut v = drain_buffer(&mut buf);
                v.truncate(len);
                v
            }
            LocalStorageVec::Heap(v) => v,
        }
    }

    /// A lazy sequence of read-only sub-views of the live elements,
    /// `chunk_size` elements at a time, the last view possibly shorter.
    pub fn chunks<'a>(&'a self, chunk_size: usize) -> core::slice::Chunks<'a, T>
        requires
            self.wf(),
            chunk_size >= 1,
    {
        self.as_ref().chunks(chunk_size)
    }

    /// The mutable counterpart of `chunks`. The representation and the
    /// live length never change.
    pub fn chunks_mut<'a>(&'a mut self, chunk_size: usize) -> (r: core::slice::ChunksMut<'a, T>)
        requires
            old(self).wf(),
            chunk_size >= 1,
        ensures
            final(self).wf(),
            (*final(self)) is Stack <==> (*old(self)) is Stack,
    {
        self.as_mut().chunks_mut(chunk_size)
    }
}

#[verifier::external_type_specification]
#[verifier::external_body]
#[verifier::reject_recursive_types(T)]
pub struct ExChunks<'a, T: 'a>(core::slice::Chunks<'a, T>);

#[verifier::external_type_specification]
#[verifier::external_body]
#[verifier::reject_recursive_types(T)]
pub struct ExChunksMut<'a, T: 'a>(core::slice::ChunksMut<'a, T>);

/// Relies on `slice::chunks`: the returned iterator walks the slice in
/// contiguous pieces of `chunk_size` elements, the last piece possibly
/// shorter. The call panics on a chunk size of zero, so that size is
/// excluded here.
pub assume_specification<'a, E>[ <[E]>::chunks ](s: &'a [E], chunk_size: usize) -> (r:
    core::slice::Chunks<'a, E>)
    requires
        chunk_size >= 1,
;

/// Relies on `slice::chunks_mut`: the mutable counterpart of
/// `slice::chunks`. The call panics on a chunk size of zero, so that
/// size is excluded here.
pub assume_specification<'a, E>[ <[E]>::chunks_mut ](s: &'a mut [E], chunk_size: usize) -> (r:
    core::slice::ChunksMut<'a, E>)
    requires
        chunk_size >= 1,
;

/// A lazy, forward-only iterator that hands out clones of a borrowed
/// container's live elements, front to back. It does not consume or
/// mutate the container, and it is exhausted after `len` items.
pub struct LocalStorageVecIterator<'a, T: 'a, const N: usize> {
    data: &'a [T],
    index: usize,
}

impl<'a, T: 'a, const N: usize> LocalStorageVecIterator<'a, T, N> {
    /// The elements the iterator was created over.
    pub closed spec fn elements(&self) -> Seq<T> {
        self.data@
    }

    /// The position of the next element to be handed out.
    pub closed spec fn position(&self) -> int {
        self.index as int
    }
}

impl<'a, T: Default + Clone, const N: usize> LocalStorageVecIterator<'a, T, N> {
    /// A clone of the next element, or a signalled end once every live
    /// element has been handed out.
    pub fn next(&mut self) -> (r: Option<T>)
        ensures
            old(self).position() >= old(self).elements().len() ==> r is None && *final(self)
                == *old(self),
            old(self).position() < old(self).elements().len() ==> final(self).elements() == old(
                self,
            ).elements() && final(self).position() == old(self).position() + 1 && (r matches Some(
                x,
            ) && vstd::pervasive::cloned::<T>(
                old(self).elements()[old(self).position()],
                x,
            )),
    {
        if self.index >= self.data.len() {
            None
        } else {
            let output = self.data[self.index].clone();
            self.index += 1;
            Some(output)
        }
    }
}

impl<T: Default, const N: usize, const M: usize> From<[T; N]> for LocalStorageVec<T, M> {
    /// A container built from a fixed-size initializer. The elements fit
    /// in the inline buffer exactly when the initializer is no longer
    /// than the inline capacity; otherwise they go to the heap whole.
    fn from(array: [T; N]) -> (r: Self)
        ensures
            r.wf(),
            r@ == array@,
            r is Stack <==> N <= M,
    {
        let ghost orig: Seq<T> = array@;
        let mut array = array;
        if N <= M {
            let mut buf: [T; M] = buffer_of_defaults();
            let mut i: usize = 0;
            while i < N
                invariant
                    i <= N <= M,
                    buf@.len() == M,
                    forall|k: int| 0 <= k < i ==> buf@[k] == orig[k],
                    array@.len() == N,
                    forall|k: int| i <= k < N ==> array@[k] == orig[k],
                decreases N - i,
            {
                let mut tmp = T::default();
                swap_slot(&mut array, i, &mut tmp);
                buf[i] = tmp;
                i += 1;
            }
            let r = LocalStorageVec::Stack { buf, len: N };
            proof {
                assert(r@ =~= orig);
            }
            r
        } else {
            LocalStorageVec::Heap(drain_buffer(&mut array))
        }
    }
}

impl<T: Default, const N: usize, const M: usize> vstd::std_specs::convert::FromSpecImpl<[T; N]> for LocalStorageVec<T, M> {
    open spec fn obeys_from_spec() -> bool {
        false
    }

    open spec fn from_spec(array: [T; N]) -> Self {
        vstd::pervasive::arbitrary()
    }
}

impl<T, const N: usize> From<Vec<T>> for LocalStorageVec<T, N> {
    /// A container built from an unbounded dynamic sequence: always the
    /// heap representation, whatever the sequence's length.
    fn from(v: Vec<T>) -> (r: Self)
        ensures
            r.wf(),
            r@ == v@,
            r is Heap,
    {
        LocalStorageVec::Heap(v)
    }
}

impl<T, const N: usize> vstd::std_specs::convert::FromSpecImpl<Vec<T>> for LocalStorageVec<T, N> {
    open spec fn obeys_from_spec() -> bool {
        true
    }

    open spec fn from_spec(v: Vec<T>) -> Self {
        LocalStorageVec::Heap(v)
    }
}

/// Inserting `e` before position `i` of a sequence and then removing
/// position `i` hands `e` back and restores the original sequence, for
/// every position up to and including the length.
pub proof fn lemma_insert_remove_round_trip<T>(s: Seq<T>, i: int, e: T)
    ensures
        0 <= i <= s.len() ==> s.insert(i, e)[i] == e,
        0 <= i <= s.len() ==> s.insert(i, e).remove(i) == s,
{
    if 0 <= i <= s.len() {
        assert(s.insert(i, e).remove(i) =~= s);
    }
}

/// The view of a container after pushing each element of `elems` in
/// turn onto one whose view is `s`.
pub open spec fn push_all<T>(s: Seq<T>, elems: Seq<T>) -> Seq<T>
    decreases elems.len(),
{
    if elems.len() == 0 {
        s
    } else {
        push_all(s.push(elems[0]), elems.drop_first())
    }
}

/// Pushing elements one after another appends them in insertion order,
/// whatever representation each push leaves behind: pushing every
/// element of `elems` onto a container whose view is `s` gives the
/// view `s + elems`.
pub proof fn lemma_push_all_appends<T>(s: Seq<T>, elems: Seq<T>)
    ensures
        push_all(s, elems) == s + elems,
    decreases elems.len(),
{
    if elems.len() == 0 {
        assert(push_all(s, elems) =~= s + elems);
    } else {
        lemma_push_all_appends(s.push(elems[0]), elems.drop_first());
        assert(s.push(elems[0]) + elems.drop_first() =~= s + elems);
    }
}

/// One step of emptying a container from the back walks the reversed
/// sequence from the front: the last element is the head of the
/// reverse, and dropping it advances the reverse by one. Repeated to
/// exhaustion, popping therefore hands the elements out in reverse
/// insertion order.
pub proof fn lemma_pop_walks_reverse<T>(s: Seq<T>)
    ensures
        s.len() > 0 ==> s.last() == s.reverse()[0],
        s.len() > 0 ==> s.drop_last().reverse() == s.reverse().drop_first(),
{
    if s.len() > 0 {
        assert(s.drop_last().reverse() =~= s.reverse().drop_first());
    }
}

} // verus!
