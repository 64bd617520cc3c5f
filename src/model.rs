//! Mathematical descriptions of the containers' operations.
use vstd::arithmetic::power2::pow2;
use vstd::prelude::*;

verus! {

/// Capacity of a backing buffer after `k` growth events starting from none:
/// the first allocation holds one slot and every later growth doubles it.
pub open spec fn capacity_after(k: nat) -> nat {
    if k == 0 {
        0
    } else {
        pow2((k - 1) as nat)
    }
}

/// Capacity after one more growth event from capacity `c`.
pub open spec fn grown_capacity(c: nat) -> nat {
    if c == 0 {
        1
    } else {
        2 * c
    }
}

/// The element that a removal from the back of `s` hands out, and what
/// remains: nothing and `s` itself when `s` is empty.
pub open spec fn take_back<T>(s: Seq<T>) -> (Option<T>, Seq<T>) {
    if s.len() == 0 {
        (None, s)
    } else {
        (Some(s.last()), s.drop_last())
    }
}

/// Largest byte size a single allocation may reach.
pub open spec fn max_alloc_bytes() -> int {
    isize::MAX as int
}

/// The element that a removal from the front of `s` hands out, and what
/// remains: nothing and `s` itself when `s` is empty.
pub open spec fn take_front<T>(s: Seq<T>) -> (Option<T>, Seq<T>) {
    if s.len() == 0 {
        (None, s)
    } else {
        (Some(s[0]), s.drop_first())
    }
}

/// An array holding `s` after each value of `vs` has been pushed in turn.
pub open spec fn pushed_all<T>(s: Seq<T>, vs: Seq<T>) -> Seq<T>
    decreases vs.len(),
{
    if vs.len() == 0 {
        s
    } else {
        pushed_all(s, vs.drop_last()).push(vs.last())
    }
}

/// What `k` successive pops hand out from an array holding `s`, in order.
pub open spec fn popped<T>(s: Seq<T>, k: nat) -> Seq<Option<T>>
    decreases k,
{
    if k == 0 {
        Seq::empty()
    } else {
        seq![take_back(s).0] + popped(take_back(s).1, (k - 1) as nat)
    }
}

/// A consuming iterator over `s` after one call per entry of `calls`, where
/// `true` stands for a call of `next` and `false` for one of `next_back`:
/// the values handed out, in order, and the elements still remaining.
pub open spec fn drained<T>(s: Seq<T>, calls: Seq<bool>) -> (Seq<T>, Seq<T>)
    decreases calls.len(),
{
    if calls.len() == 0 {
        (Seq::empty(), s)
    } else {
        let (out, rest) = drained(s, calls.drop_last());
        let (r, left) = if calls.last() {
            take_back(rest)
        } else {
            take_front(rest)
        };
        match r {
            Some(v) => (out.push(v), left),
            None => (out, left),
        }
    }
}

} // verus!
