use crate::model::{take_back, take_front};
use vstd::prelude::*;

verus! {

/// A pair of cursors `[start, end)` over a span of slots that are filled
/// and not yet handed out. It owns nothing.
struct RawValIter {
    start: usize,
    end: usize,
}

impl RawValIter {
    /// Cursors spanning the whole of `slice`; for an empty slice both
    /// cursors stand at its start.
    fn new<T>(slice: &[T]) -> (r: Self)
        ensures
            r.start == 0,
            r.end == slice@.len(),
    {
        RawValIter {
            start: 0,
            end: slice.len(),
        }
    }
}

/// A consuming, double-ended iterator over the elements of an array.
///
/// It owns the array's slots; `raw` marks those still to be handed out.
/// `next` takes from the high end and `next_back` from the low end.
pub struct IntoIter<T> {
    slots: std::vec::Vec<Option<T>>,
    raw: RawValIter,
}

impl<T> View for IntoIter<T> {
    type V = Seq<T>;

    /// The elements not yet handed out, in their order in the array.
    closed spec fn view(&self) -> Seq<T> {
        Seq::new(
            (self.raw.end - self.raw.start) as nat,
            |i: int| self.slots@[self.raw.start + i].unwrap(),
        )
    }
}

impl<T> IntoIter<T> {
    /// Well-formedness: the cursors lie within the slots, exactly the slots
    /// between them are filled, and those outside have been emptied.
    pub closed spec fn wf(&self) -> bool {
        &&& self.raw.start <= self.raw.end <= self.slots@.len()
        &&& forall|i: int|
            0 <= i < self.slots@.len() ==> (#[trigger] self.slots@[i] is Some <==> self.raw.start
                <= i < self.raw.end)
    }

    /// Takes over the elements of `elems`, in order, with room reserved for
    /// `cap` slots.
    pub(crate) fn from_elements(elems: std::vec::Vec<T>, cap: usize) -> (it: Self)
        ensures
            it.wf(),
            it@ == elems@,
    {
        let ghost all = elems@;
        let n = elems.len();
        let mut slots: std::vec::Vec<Option<T>> = std::vec::Vec::with_capacity(cap);
        let mut i: usize = 0;
        while i < n
            invariant
                i <= n,
                slots@.len() == i,
                forall|t: int| 0 <= t < i ==> #[trigger] slots@[t] is None,
            decreases n - i,
        {
            slots.push(None);
            i = i + 1;
        }
        let mut rest = elems;
        while rest.len() > 0
            invariant
                n == all.len(),
                rest@.len() <= n,
                slots@.len() == n,
                rest@ == all.take(rest@.len() as int),
                forall|t: int| 0 <= t < rest@.len() ==> #[trigger] slots@[t] is None,
                forall|t: int| rest@.len() <= t < n ==> #[trigger] slots@[t] == Some(all[t]),
            decreases rest@.len(),
        {
            let e = rest.pop().unwrap();
            let k = rest.len();
            slots[k] = Some(e);
        }
        let raw = RawValIter::new(slots.as_slice());
        let it = IntoIter { slots, raw };
        assert(it@ =~= all);
        it
    }

    /// Hands out the element at the high end of what remains; nothing once
    /// every element has been handed out.
    pub fn next(&mut self) -> (r: Option<T>)
        requires
            old(self).wf(),
        ensures
            final(self).wf(),
            (r, final(self)@) == take_back(old(self)@),
    {
        if self.raw.start == self.raw.end {
            None
        } else {
            self.raw.end = self.raw.end - 1;
            let r = self.slots[self.raw.end].take();
            assert(self@ =~= old(self)@.drop_last());
            r
        }
    }

    /// Hands out the element at the low end of what remains; nothing once
    /// every element has been handed out.
    pub fn next_back(&mut self) -> (r: Option<T>)
        requires
            old(self).wf(),
        ensures
            final(self).wf(),
            (r, final(self)@) == take_front(old(self)@),
    {
        if self.raw.start == self.raw.end {
            None
        } else {
            let r = self.slots[self.raw.start].take();
            self.raw.start = self.raw.start + 1;
            assert(self@ =~= old(self)@.drop_first());
            r
        }
    }
}

} // verus!
