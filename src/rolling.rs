use vstd::prelude::*;

verus! {

/// The most recent `c` elements of `s`, in order (all of `s` when it is shorter).
pub open spec fn keep_last(s: Seq<i64>, c: nat) -> Seq<i64> {
    if s.len() <= c {
        s
    } else {
        s.subrange(s.len() - c, s.len() as int)
    }
}

/// Contents after one push onto contents `s` of a buffer of capacity `c`:
/// the oldest element leaves first when the buffer is full.
pub open spec fn push_spec(s: Seq<i64>, v: i64, c: nat) -> Seq<i64> {
    if s.len() >= c {
        s.drop_first().push(v)
    } else {
        s.push(v)
    }
}

/// Contents after pushing every value of `vals`, in order, onto contents `s`.
pub open spec fn push_all_spec(s: Seq<i64>, vals: Seq<i64>, c: nat) -> Seq<i64>
    decreases vals.len(),
{
    if vals.len() == 0 {
        s
    } else {
        push_spec(push_all_spec(s, vals.drop_last(), c), vals.last(), c)
    }
}

/// `m` is the least element of `s`.
pub open spec fn is_min_of(m: i64, s: Seq<i64>) -> bool {
    &&& exists|i: int| 0 <= i < s.len() && s[i] == m
    &&& forall|j: int| 0 <= j < s.len() ==> m <= s[j]
}

/// `m` is the greatest element of `s`.
pub open spec fn is_max_of(m: i64, s: Seq<i64>) -> bool {
    &&& exists|i: int| 0 <= i < s.len() && s[i] == m
    &&& forall|j: int| 0 <= j < s.len() ==> s[j] <= m
}

/// A bounded FIFO of samples: it keeps the most recent `capacity` values pushed.
pub struct RollingBuffer {
    values: Vec<i64>,
    capacity: usize,
}

impl View for RollingBuffer {
    type V = Seq<i64>;

    open spec fn view(&self) -> Seq<i64> {
        self.spec_values()
    }
}

impl RollingBuffer {
    pub closed spec fn spec_values(&self) -> Seq<i64> {
        self.values@
    }

    pub closed spec fn spec_capacity(&self) -> nat {
        self.capacity as nat
    }

    /// A positive capacity, never exceeded.
    pub open spec fn wf(&self) -> bool {
        &&& self.spec_capacity() >= 1
        &&& self@.len() <= self.spec_capacity()
    }

    /// An empty buffer that holds at most `capacity` samples.
    pub fn new(capacity: usize) -> (r: RollingBuffer)
        requires
            capacity >= 1,
        ensures
            r.wf(),
            r@ == Seq::<i64>::empty(),
            r.spec_capacity() == capacity,
    {
        RollingBuffer { values: Vec::new(), capacity }
    }

    pub fn capacity(&self) -> (r: usize)
        ensures
            r == self.spec_capacity(),
    {
        self.capacity
    }

    pub fn len(&self) -> (r: usize)
        ensures
            r == self@.len(),
    {
        self.values.len()
    }

    pub fn is_empty(&self) -> (r: bool)
        ensures
            r == (self@.len() == 0),
    {
        self.values.len() == 0
    }

    /// Appends `value`, first evicting the oldest sample when the buffer is full.
    pub fn push(&mut self, value: i64)
        requires
            old(self).wf(),
        ensures
            final(self).wf(),
            final(self).spec_capacity() == old(self).spec_capacity(),
            final(self)@ == push_spec(old(self)@, value, old(self).spec_capacity()),
    {
        if self.values.len() >= self.capacity {
            self.values.remove(0);
        }
        self.values.push(value);
    }

    /// A copy of the current contents, oldest first.
    pub fn snapshot(&self) -> (r: Vec<i64>)
        ensures
            r@ == self@,
    {
        self.values.clone()
    }

    /// The most recent sample, if any.
    pub fn latest(&self) -> (r: Option<i64>)
        ensures
            self@.len() == 0 ==> r is None,
            self@.len() > 0 ==> r == Some(self@.last()),
    {
        if self.values.len() == 0 {
            None
        } else {
            Some(self.values[self.values.len() - 1])
        }
    }

    /// The least and greatest sample held; the buffer must not be empty.
    pub fn min_max(&self) -> (r: (i64, i64))
        requires
            self@.len() > 0,
        ensures
            is_min_of(r.0, self@),
            is_max_of(r.1, self@),
    {
        min_max_of(&self.values)
    }
}

/// The least and greatest element of a non-empty sequence of samples.
pub fn min_max_of(values: &Vec<i64>) -> (r: (i64, i64))
    requires
        values@.len() > 0,
    ensures
        is_min_of(r.0, values@),
        is_max_of(r.1, values@),
{
    let mut lo: i64 = values[0];
    let mut hi: i64 = values[0];
    let mut lo_at: usize = 0;
    let mut hi_at: usize = 0;
    let mut i: usize = 1;
    while i < values.len()
        invariant
            1 <= i <= values@.len(),
            lo_at < i,
            hi_at < i,
            values@[lo_at as int] == lo,
            values@[hi_at as int] == hi,
            forall|j: int| 0 <= j < i ==> lo <= values@[j] && values@[j] <= hi,
        decreases values@.len() - i,
    {
        if values[i] < lo {
            lo = values[i];
            lo_at = i;
        }
        if values[i] > hi {
            hi = values[i];
            hi_at = i;
        }
        i = i + 1;
    }
    assert(values@[lo_at as int] == lo);
    assert(values@[hi_at as int] == hi);
    (lo, hi)
}

/// Pushing any sequence of values into a buffer of capacity `c` (at least one)
/// that starts empty leaves exactly the last `c` values pushed, in push order,
/// so its length is the smaller of the number of pushes and `c`.
pub proof fn lemma_pushes_keep_last(c: nat, vals: Seq<i64>)
    requires
        c >= 1,
    ensures
        push_all_spec(Seq::<i64>::empty(), vals, c) == keep_last(vals, c),
        push_all_spec(Seq::<i64>::empty(), vals, c).len() == if vals.len() <= c {
            vals.len()
        } else {
            c
        },
    decreases vals.len(),
{
    if vals.len() > 0 {
        let prev = vals.drop_last();
        lemma_pushes_keep_last(c, prev);
        let k = keep_last(prev, c);
        if prev.len() >= c {
            assert(k.len() == c);
            assert(k.drop_first().push(vals.last()) =~= keep_last(vals, c));
        } else {
            assert(k.push(vals.last()) =~= keep_last(vals, c));
        }
    }
}

} // verus!
