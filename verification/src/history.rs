//! Fixed-capacity history of samples kept in a ring buffer.
//!
//! The buffer is allocated once with its capacity; pushing into a full
//! history overwrites the oldest sample.  Its view is the sequence of kept
//! samples, oldest first.
use vstd::prelude::*;
use vstd::arithmetic::div_mod::lemma_fundamental_div_mod_converse;

verus! {

/// Largest history a chart keeps: one sample per pixel column of the panel.
pub const PLOT_HISTORY_LIMIT: usize = 240;

/// `history` after `value` was pushed into a history of capacity `capacity`:
/// the value is appended, and when the history was full its oldest sample
/// leaves.
pub open spec fn push_bounded<T>(history: Seq<T>, capacity: nat, value: T) -> Seq<T> {
    if history.len() < capacity {
        history.push(value)
    } else {
        history.drop_first().push(value)
    }
}

/// `history` after each of `values` was pushed in turn.
pub open spec fn push_all<T>(history: Seq<T>, capacity: nat, values: Seq<T>) -> Seq<T>
    decreases values.len(),
{
    if values.len() == 0 {
        history
    } else {
        push_bounded(push_all(history, capacity, values.drop_last()), capacity, values.last())
    }
}

/// Index of a buffer slot `i` places after slot `start`, wrapping once.
spec fn wrap(start: int, i: int, capacity: int) -> int {
    if start + i < capacity { start + i } else { start + i - capacity }
}

proof fn lemma_wrap_mod(start: int, i: int, capacity: int)
    requires
        0 <= start < capacity,
        0 <= i < capacity,
    ensures
        (start + i) % capacity == wrap(start, i, capacity),
{
    if start + i < capacity {
        lemma_fundamental_div_mod_converse(start + i, capacity, 0, start + i);
    } else {
        lemma_fundamental_div_mod_converse(start + i, capacity, 1, start + i - capacity);
    }
}

/// A history of at most `N` samples, stored in a ring buffer of `N` slots
/// that is part of the value itself: nothing is allocated.
pub struct SampleRing<T, const N: usize> {
    data: [T; N],
    blank: T,
    head: usize,
    count: usize,
}

impl<T, const N: usize> View for SampleRing<T, N> {
    type V = Seq<T>;

    /// The kept samples, oldest first.
    closed spec fn view(&self) -> Seq<T> {
        Seq::new(self.count as nat, |i: int| self.data@[wrap(self.oldest(), i, N as int)])
    }
}

impl<T, const N: usize> SampleRing<T, N> {
    /// Internal consistency of the cursor with the buffer.
    #[verifier::type_invariant]
    spec fn well_formed(&self) -> bool {
        &&& N <= PLOT_HISTORY_LIMIT
        &&& self.count <= N
        &&& N > 0 ==> self.head < N
        &&& N == 0 ==> self.head == 0
        &&& self.count < N ==> self.head == self.count
    }

    /// Slot of the oldest kept sample.
    spec fn oldest(&self) -> int {
        if self.count < N { 0 } else { self.head as int }
    }
}

impl<T: Copy, const N: usize> SampleRing<T, N> {
    /// Number of samples the history can hold.
    pub open spec fn capacity(&self) -> nat {
        N as nat
    }

    /// The buffer's slots, in storage order.
    pub closed spec fn slots(&self) -> Seq<T> {
        self.data@
    }

    /// The value written into every slot by `new` and `clear`.
    pub closed spec fn blank(&self) -> T {
        self.blank
    }

    /// Creates an empty history, every slot holding `blank`.
    pub fn new(blank: T) -> (r: SampleRing<T, N>)
        requires
            N <= PLOT_HISTORY_LIMIT,
        ensures
            r.view() == Seq::<T>::empty(),
            r.blank() == blank,
            r.slots() == Seq::new(N as nat, |i: int| blank),
    {
        let data: [T; N] = [blank; N];
        let r = SampleRing { data, blank, head: 0, count: 0 };
        assert(r.view() =~= Seq::<T>::empty());
        assert(r.slots() =~= Seq::new(N as nat, |i: int| blank));
        r
    }

    /// Number of kept samples.
    pub fn len(&self) -> (n: usize)
        ensures
            n == self.view().len(),
            n <= N,
    {
        proof {
            use_type_invariant(self);
        }
        self.count
    }

    /// The `index`-th kept sample, oldest first.
    pub fn get_sample(&self, index: usize) -> (v: T)
        requires
            index < self.view().len(),
        ensures
            v == self.view()[index as int],
    {
        proof {
            use_type_invariant(self);
        }
        let oldest: usize = if self.count < N { 0 } else { self.head };
        proof {
            lemma_wrap_mod(oldest as int, index as int, N as int);
        }
        self.data[(oldest + index) % N]
    }

    /// Appends `value`; in a full history it replaces the oldest sample.
    pub fn push(&mut self, value: T)
        requires
            N > 0,
        ensures
            final(self).blank() == old(self).blank(),
            final(self).view() == push_bounded(old(self).view(), N as nat, value),
    {
        proof {
            use_type_invariant(&*self);
        }
        let ghost before = self.view();
        let head = self.head;
        let mut data = self.data;
        data[head] = value;
        proof {
            if head + 1 < N {
                lemma_fundamental_div_mod_converse(head + 1, N as int, 0, head + 1);
            } else {
                lemma_fundamental_div_mod_converse(head + 1, N as int, 1, 0);
            }
        }
        let next: usize = (head + 1) % N;
        let count: usize = if self.count < N { self.count + 1 } else { self.count };
        *self = SampleRing { data, blank: self.blank, head: next, count };
        proof {
            let after = self.view();
            let expected = push_bounded(before, N as nat, value);
            assert(after.len() == expected.len());
            assert forall|i: int| 0 <= i < after.len() implies after[i] == expected[i] by {
                if before.len() < N {
                    assert(wrap(0, i, N as int) == i);
                } else {
                    if i < N - 1 {
                        assert(before[i + 1] == expected[i]);
                    }
                }
            }
            assert(after =~= expected);
        }
    }

    /// Forgets every sample; every slot holds the blank value again.
    pub fn clear(&mut self)
        requires
        ensures
            final(self).view() == Seq::<T>::empty(),
            final(self).blank() == old(self).blank(),
            final(self).slots() == Seq::new(N as nat, |i: int| old(self).blank()),
    {
        proof {
            use_type_invariant(&*self);
        }
        let blank = self.blank;
        let mut data = self.data;
        let mut i: usize = 0;
        while i < N
            invariant
                i <= N,
                forall|j: int| 0 <= j < i ==> data@[j] == blank,
            decreases N - i,
        {
            data[i] = blank;
            i = i + 1;
        }
        *self = SampleRing { data, blank, head: 0, count: 0 };
        assert(self.view() =~= Seq::<T>::empty());
        assert(self.slots() =~= Seq::new(N as nat, |i: int| blank));
    }
}

/// Pushing values one by one into a history that holds at most `capacity`
/// samples keeps the last `capacity` samples of the whole stream, oldest
/// first.
pub proof fn lemma_keeps_most_recent<T>(history: Seq<T>, capacity: nat, values: Seq<T>)
    requires
        capacity > 0,
        history.len() <= capacity,
    ensures
        ({
            let all = history + values;
            push_all(history, capacity, values) == all.subrange(
                if all.len() > capacity { all.len() - capacity } else { 0 },
                all.len() as int,
            )
        }),
    decreases values.len(),
{
    let all = history + values;
    if values.len() == 0 {
        assert(all =~= history);
        assert(all.subrange(0, all.len() as int) =~= history);
    } else {
        let init = values.drop_last();
        lemma_keeps_most_recent(history, capacity, init);
        let prefix = history + init;
        assert(prefix =~= all.drop_last());
        let before = push_all(history, capacity, init);
        let lo = if prefix.len() > capacity { prefix.len() - capacity } else { 0 };
        assert(before == prefix.subrange(lo, prefix.len() as int));
        let lo2 = if all.len() > capacity { all.len() - capacity } else { 0 };
        if before.len() < capacity {
            assert(lo == 0);
            assert(lo2 == 0);
            assert(before.push(values.last()) =~= all.subrange(lo2, all.len() as int));
        } else {
            assert(before.drop_first().push(values.last()) =~= all.subrange(lo2, all.len() as int));
        }
    }
}

} // verus!
