use vstd::arithmetic::power2::{lemma2_to64, lemma_pow2_pos, lemma_pow2_unfold};
use vstd::layout::{layout_for_type_is_valid, size_of};
use crate::iter::IntoIter;
use crate::model::{capacity_after, grown_capacity, max_alloc_bytes, take_back};
use vstd::prelude::*;

verus! {

/// A growable array of `T`.
///
/// The live elements sit in `buf`; `cap` is the number of slots reserved for
/// them, grown by exact doubling. `growths` counts the growth events so far.
pub struct Vec<T> {
    buf: std::vec::Vec<T>,
    cap: usize,
    growths: Ghost<nat>,
}

impl<T> View for Vec<T> {
    type V = Seq<T>;

    /// The live elements, in order.
    closed spec fn view(&self) -> Seq<T> {
        self.buf@
    }
}

impl<T> Vec<T> {
    /// Number of slots currently reserved.
    pub closed spec fn spec_capacity(&self) -> usize {
        self.cap
    }

    /// Number of growth events since the array was created.
    pub closed spec fn growths(&self) -> nat {
        self.growths@
    }

    /// Well-formedness: the live elements fit in the reserved slots, the
    /// reserved bytes stay within the allocation limit, the element type is
    /// not zero-sized, and the capacity follows the doubling policy.
    pub closed spec fn wf(&self) -> bool {
        &&& size_of::<T>() > 0
        &&& self.buf@.len() <= self.cap
        &&& self.cap * size_of::<T>() <= max_alloc_bytes()
        &&& self.cap == capacity_after(self.growths@)
    }

    /// What well-formedness implies of the capacity.
    pub proof fn lemma_wf_facts(&self)
        requires
            self.wf(),
        ensures
            self@.len() <= self.spec_capacity(),
            self.spec_capacity() == capacity_after(self.growths()),
    {
    }

    /// Whether a push can take place: either a free slot remains, or the
    /// buffer can double without its byte size passing the allocation limit.
    pub open spec fn can_push(&self) -> bool {
        self@.len() < self.spec_capacity() || self.spec_capacity() * size_of::<T>()
            <= max_alloc_bytes() / 2
    }

    /// Creates an empty array with no allocation.
    pub fn new() -> (v: Self)
        requires
            size_of::<T>() > 0,
        ensures
            v.wf(),
            v@ == Seq::<T>::empty(),
            v.spec_capacity() == 0,
            v.growths() == 0,
    {
        Vec { buf: std::vec::Vec::new(), cap: 0, growths: Ghost(0) }
    }

    /// Reserves more slots: one when there are none, otherwise twice as many.
    /// The live elements are kept as they are.
    fn grow(&mut self)
        requires
            old(self).wf(),
            old(self).spec_capacity() * size_of::<T>() <= max_alloc_bytes() / 2,
        ensures
            final(self).wf(),
            final(self)@ == old(self)@,
            final(self).spec_capacity() == grown_capacity(old(self).spec_capacity() as nat),
            final(self).growths() == old(self).growths() + 1,
    {
        layout_for_type_is_valid::<T>();
        let ghost k = self.growths@;
        proof {
            lemma2_to64();
            if k > 0 {
                lemma_pow2_pos((k - 1) as nat);
            }
        }
        if self.cap == 0 {
            self.buf.reserve(1);
            self.cap = 1;
        } else {
            let c = self.cap;
            let elem_size = core::mem::size_of::<T>();
            proof {
                assert(c <= c * elem_size) by (nonlinear_arith)
                    requires
                        elem_size >= 1,
                ;
                assert(2 * c * elem_size == 2 * (c * elem_size)) by (nonlinear_arith);
            }
            let new_cap = c * 2;
            self.buf.reserve(new_cap - self.buf.len());
            self.cap = new_cap;
            proof {
                lemma_pow2_unfold(k);
            }
        }
        self.growths = Ghost(k + 1);
    }

    /// Appends `elem` after the last live element, growing first when every
    /// reserved slot is in use.
    pub fn push(&mut self, elem: T)
        requires
            old(self).wf(),
            old(self).can_push(),
        ensures
            final(self).wf(),
            final(self)@ == old(self)@.push(elem),
            old(self)@.len() < old(self).spec_capacity() ==> final(self).spec_capacity()
                == old(self).spec_capacity() && final(self).growths() == old(self).growths(),
            old(self)@.len() == old(self).spec_capacity() ==> final(self).spec_capacity()
                == grown_capacity(old(self).spec_capacity() as nat) && final(self).growths()
                == old(self).growths() + 1,
    {
        if self.buf.len() == self.cap {
            self.grow();
        }
        self.buf.push(elem);
    }

    /// Removes the last live element and hands it out; on an empty array,
    /// hands out nothing and changes nothing.
    pub fn pop(&mut self) -> (r: Option<T>)
        requires
            old(self).wf(),
        ensures
            final(self).wf(),
            (r, final(self)@) == take_back(old(self)@),
            final(self).spec_capacity() == old(self).spec_capacity(),
            final(self).growths() == old(self).growths(),
    {
        if self.buf.len() == 0 {
            None
        } else {
            self.buf.pop()
        }
    }

    /// Places `elem` at position `index`, moving the elements from `index`
    /// on one slot up. Inserting at the length appends.
    pub fn insert(&mut self, index: usize, elem: T)
        requires
            old(self).wf(),
            old(self).can_push(),
            index <= old(self)@.len(),
        ensures
            final(self).wf(),
            final(self)@ == old(self)@.insert(index as int, elem),
            old(self)@.len() < old(self).spec_capacity() ==> final(self).spec_capacity()
                == old(self).spec_capacity() && final(self).growths() == old(self).growths(),
            old(self)@.len() == old(self).spec_capacity() ==> final(self).spec_capacity()
                == grown_capacity(old(self).spec_capacity() as nat) && final(self).growths()
                == old(self).growths() + 1,
    {
        if self.cap == self.buf.len() {
            self.grow();
        }
        let ghost before = self.buf@;
        let ghost frame = (self.cap, self.growths@);
        let ghost after = before.insert(index as int, elem);
        let n = self.buf.len();
        let mut carry = elem;
        let mut j: usize = index;
        while j < n
            invariant
                index <= j <= n,
                n == before.len(),
                (self.cap, self.growths@) == frame,
                self.wf(),
                self.buf@.len() == n,
                after == before.insert(index as int, elem),
                carry == after[j as int],
                forall|t: int| 0 <= t < j ==> self.buf@[t] == after[t],
                forall|t: int| j <= t < n ==> self.buf@[t] == before[t],
            decreases n - j,
        {
            core::mem::swap(&mut self.buf[j], &mut carry);
            j = j + 1;
        }
        self.buf.push(carry);
        assert(self.buf@ =~= after);
    }

    /// Takes out the element at position `index` and hands it out, moving the
    /// elements after it one slot down.
    pub fn remove(&mut self, index: usize) -> (r: T)
        requires
            old(self).wf(),
            index < old(self)@.len(),
        ensures
            final(self).wf(),
            r == old(self)@[index as int],
            final(self)@ == old(self)@.remove(index as int),
            final(self).spec_capacity() == old(self).spec_capacity(),
            final(self).growths() == old(self).growths(),
    {
        let ghost before = self.buf@;
        let ghost frame = (self.cap, self.growths@);
        let mut carry = self.buf.pop().unwrap();
        let mut j: usize = self.buf.len();
        while j > index
            invariant
                index <= j <= before.len() - 1,
                (self.cap, self.growths@) == frame,
                self.wf(),
                self.buf@.len() == before.len() - 1,
                carry == before[j as int],
                forall|t: int| 0 <= t < j ==> self.buf@[t] == before[t],
                forall|t: int| j <= t < before.len() - 1 ==> self.buf@[t] == before[t + 1],
            decreases j,
        {
            j = j - 1;
            core::mem::swap(&mut self.buf[j], &mut carry);
        }
        assert(self.buf@ =~= before.remove(index as int));
        carry
    }

    /// Read-only view of the live elements as a slice.
    pub fn as_slice(&self) -> (s: &[T])
        ensures
            s@ == self@,
    {
        self.buf.as_slice()
    }

    /// Writable access to the live element at position `index`; what is
    /// written through it becomes that element.
    pub fn get_mut(&mut self, index: usize) -> (e: &mut T)
        requires
            old(self).wf(),
            index < old(self)@.len(),
        ensures
            *e == old(self)@[index as int],
            final(self)@ == old(self)@.update(index as int, *final(e)),
            final(self).wf(),
            final(self).spec_capacity() == old(self).spec_capacity(),
            final(self).growths() == old(self).growths(),
    {
        &mut self.buf[index]
    }

    /// Consumes the array into an iterator over its elements that takes
    /// over its reserved slots.
    pub fn into_iter(self) -> (it: IntoIter<T>)
        requires
            self.wf(),
        ensures
            it.wf(),
            it@ == self@,
    {
        IntoIter::from_elements(self.buf, self.cap)
    }

    /// Number of live elements.
    #[verifier::when_used_as_spec(spec_len)]
    pub fn len(&self) -> (n: usize)
        ensures
            n == self@.len(),
    {
        self.buf.len()
    }

    /// Number of live elements, in specifications.
    pub closed spec fn spec_len(&self) -> usize {
        self.buf@.len() as usize
    }

    /// Number of slots currently reserved.
    #[verifier::when_used_as_spec(spec_capacity)]
    pub fn capacity(&self) -> (c: usize)
        ensures
            c == self.spec_capacity(),
    {
        self.cap
    }
}

} // verus!
