//! Properties that hold across several operations of the containers.
use crate::growable::Vec;
use crate::model::{capacity_after, drained, popped, pushed_all, take_back, take_front};
use vstd::multiset::Multiset;
use vstd::prelude::*;
use vstd::seq_lib::{to_multiset_build, to_multiset_remove};

verus! {

/// Pushing the values of `vs` onto an empty array leaves them as its
/// elements, in push order.
pub proof fn lemma_elements_follow_push_order<T>(vs: Seq<T>)
    ensures
        pushed_all(Seq::<T>::empty(), vs) == vs,
    decreases vs.len(),
{
    if vs.len() > 0 {
        lemma_elements_follow_push_order(vs.drop_last());
        assert(vs.drop_last().push(vs.last()) =~= vs);
    }
}

proof fn lemma_popped_len<T>(s: Seq<T>, k: nat)
    ensures
        popped(s, k).len() == k,
    decreases k,
{
    if k > 0 {
        lemma_popped_len(take_back(s).1, (k - 1) as nat);
    }
}

/// Popping one more time than there are elements hands the elements out from
/// the last to the first, then nothing.
proof fn lemma_pop_all<T>(s: Seq<T>)
    ensures
        popped(s, s.len() + 1).len() == s.len() + 1,
        forall|i: int| 0 <= i < s.len() ==> #[trigger] popped(s, s.len() + 1)[i] == Some(s[s.len() - 1 - i]),
        popped(s, s.len() + 1)[s.len() as int] == None::<T>,
    decreases s.len(),
{
    lemma_popped_len(s, s.len() + 1);
    if s.len() > 0 {
        lemma_pop_all(s.drop_last());
        let tail = popped(s.drop_last(), s.len() as nat);
        assert(popped(s, s.len() + 1) == seq![Some(s.last())] + tail);
        assert forall|i: int| 0 <= i < s.len() implies #[trigger] popped(s, s.len() + 1)[i] == Some(
            s[s.len() - 1 - i],
        ) by {
            if i > 0 {
                assert(popped(s, s.len() + 1)[i] == tail[i - 1]);
            }
        }
    } else {
        assert(popped(s, 1) == seq![None::<T>] + popped(s, 0));
    }
}

/// For any values pushed in turn onto an empty array, popping as many times
/// hands them out last first, and one more pop hands out nothing.
pub proof fn lemma_pops_reverse_pushes<T>(vs: Seq<T>)
    ensures
        popped(pushed_all(Seq::<T>::empty(), vs), vs.len() + 1).len() == vs.len() + 1,
        forall|i: int|
            0 <= i < vs.len() ==> #[trigger] popped(pushed_all(Seq::<T>::empty(), vs), vs.len() + 1)[i]
                == Some(vs[vs.len() - 1 - i]),
        popped(pushed_all(Seq::<T>::empty(), vs), vs.len() + 1)[vs.len() as int] == None::<T>,
{
    lemma_elements_follow_push_order(vs);
    lemma_pop_all(vs);
}

/// In every well-formed array the capacity is at least the length, is zero
/// only when the length is, and after `k` growth events equals 2 to the power
/// `k - 1` (zero before the first).
pub proof fn lemma_capacity_bounds<T>(v: &Vec<T>)
    requires
        v.wf(),
    ensures
        v.capacity() >= v@.len(),
        v.capacity() == 0 ==> v@.len() == 0,
        v.capacity() == capacity_after(v.growths()),
{
    v.lemma_wf_facts();
}

/// Inserting `x` at a valid position `i` and then removing at `i` hands `x`
/// back and restores the elements as they were.
pub proof fn lemma_insert_then_remove<T>(s: Seq<T>, i: int, x: T)
    requires
        0 <= i <= s.len(),
    ensures
        s.insert(i, x)[i] == x,
        s.insert(i, x).remove(i) == s,
{
    assert(s.insert(i, x).remove(i) =~= s);
}

/// Whatever mix of `next` and `next_back` calls is made on a consuming
/// iterator over `s`, every element comes out at most once and the values
/// handed out together with those remaining are exactly the elements of `s`.
/// After at least as many calls as there are elements, all have come out and
/// each further call hands out nothing.
pub proof fn lemma_drain_yields_each_once<T>(s: Seq<T>, calls: Seq<bool>)
    ensures
        drained(s, calls).0.to_multiset().add(drained(s, calls).1.to_multiset())
            == s.to_multiset(),
        drained(s, calls).0.len() == if calls.len() < s.len() {
            calls.len()
        } else {
            s.len()
        },
        drained(s, calls).0.len() + drained(s, calls).1.len() == s.len(),
        calls.len() >= s.len() ==> drained(s, calls).0.to_multiset() == s.to_multiset(),
        calls.len() >= s.len() ==> take_back(drained(s, calls).1).0 == None::<T>,
        calls.len() >= s.len() ==> take_front(drained(s, calls).1).0 == None::<T>,
    decreases calls.len(),
{
    broadcast use vstd::multiset::group_multiset_axioms;

    if calls.len() > 0 {
        let pre = calls.drop_last();
        lemma_drain_yields_each_once(s, pre);
        let (out, rest) = drained(s, pre);
        if rest.len() > 0 {
            let i: int = if calls.last() {
                rest.len() - 1
            } else {
                0
            };
            let v = rest[i];
            to_multiset_build(out, v);
            to_multiset_remove(rest, i);
            if calls.last() {
                assert(rest.drop_last() =~= rest.remove(i));
            } else {
                assert(rest.drop_first() =~= rest.remove(i));
            }
            let left = rest.remove(i);
            assert(rest.to_multiset().count(v) > 0) by {
                assert(rest.contains(v));
                rest.to_multiset_ensures();
            }
            left.to_multiset_ensures();
            out.to_multiset_ensures();
            assert(out.push(v).to_multiset().add(left.to_multiset()) =~= out.to_multiset().add(
                rest.to_multiset(),
            ));
        }
    } else {
        assert(s.to_multiset().add(Seq::<T>::empty().to_multiset()) =~= s.to_multiset()) by {
            Seq::<T>::empty().to_multiset_ensures();
            assert(Seq::<T>::empty().to_multiset() =~= Multiset::empty());
        }
    }
    if calls.len() >= s.len() {
        let (out, rest) = drained(s, calls);
        assert(rest.len() == 0);
        assert(rest.to_multiset() =~= Multiset::empty()) by {
            rest.to_multiset_ensures();
        }
        assert(out.to_multiset().add(rest.to_multiset()) =~= out.to_multiset());
    }
}

} // verus!
