use vstd::prelude::*;

verus! {

/// A history, or a tracker holding one, was asked for with room for nothing.
#[derive(Clone, Copy, Debug, PartialEq, Eq, Structural)]
pub enum ConfigError {
    ZeroCapacity,
}

/// The last `cap` items of `s`, in order (all of `s` when it holds no more).
pub open spec fn latest<T>(s: Seq<T>, cap: nat) -> Seq<T> {
    if s.len() <= cap {
        s
    } else {
        s.subrange(s.len() - cap, s.len() as int)
    }
}

/// What a history of capacity `cap` holding `start` holds after `xs` has
/// been appended to it item by item.
pub open spec fn replay<T>(start: Seq<T>, xs: Seq<T>, cap: nat) -> Seq<T>
    decreases xs.len(),
{
    if xs.len() == 0 {
        start
    } else {
        latest(replay(start, xs.drop_last(), cap).push(xs.last()), cap)
    }
}

/// A fixed-capacity, insertion-ordered sequence: once full, each append
/// evicts the oldest item.
///
/// The items sit in a ring: `slots` grows up to `capacity`, after which new
/// items overwrite the oldest one, at `head`.
pub struct BoundedHistory<T> {
    slots: Vec<T>,
    head: usize,
    capacity: usize,
}

impl<T> View for BoundedHistory<T> {
    type V = Seq<T>;

    /// The items, oldest first.
    closed spec fn view(&self) -> Seq<T> {
        let n = self.slots@.len();
        Seq::new(
            n,
            |i: int|
                if self.head + i < n {
                    self.slots@[self.head + i]
                } else {
                    self.slots@[self.head + i - n]
                },
        )
    }
}

impl<T: Copy> BoundedHistory<T> {
    pub closed spec fn wf(&self) -> bool {
        &&& 0 < self.capacity
        &&& self.slots@.len() <= self.capacity
        &&& self.slots@.len() < self.capacity ==> self.head == 0
        &&& self.slots@.len() == self.capacity ==> self.head < self.capacity
    }

    pub closed spec fn cap(&self) -> nat {
        self.capacity as nat
    }

    /// An empty history that keeps at most `capacity` items.
    pub fn new(capacity: usize) -> (r: Result<Self, ConfigError>)
        ensures
            capacity == 0 <==> r is Err,
            r matches Ok(h) ==> h.wf() && h@ == Seq::<T>::empty() && h.cap() == capacity,
            r matches Err(e) ==> e == ConfigError::ZeroCapacity,
    {
        if capacity == 0 {
            return Err(ConfigError::ZeroCapacity);
        }
        let h = BoundedHistory { slots: Vec::new(), head: 0, capacity };
        assert(h@ =~= Seq::<T>::empty());
        Ok(h)
    }

    /// Adds `x` as the newest item, first evicting the oldest one when the
    /// history is full.
    pub fn append(&mut self, x: T)
        requires
            old(self).wf(),
        ensures
            final(self).wf(),
            final(self).cap() == old(self).cap(),
            final(self)@ == latest(old(self)@.push(x), old(self).cap()),
            final(self)@.len() <= final(self).cap(),
    {
        let ghost v = self@;
        if self.slots.len() < self.capacity {
            self.slots.push(x);
            assert(self@ =~= v.push(x));
        } else {
            let h = self.head;
            self.slots.set(h, x);
            self.head = if h + 1 < self.capacity { h + 1 } else { 0 };
            let ghost n = self.capacity as int;
            assert(self@ =~= v.push(x).subrange(1, n + 1)) by {
                assert forall|i: int| 0 <= i < n implies #[trigger] self@[i] == v.push(x).subrange(
                    1,
                    n + 1,
                )[i] by {
                    if i < n - 1 {
                        assert(v[i + 1] == v.push(x)[i + 1]);
                    }
                }
            }
        }
    }

    /// The number of items held.
    pub fn len(&self) -> (r: usize)
        requires
            self.wf(),
        ensures
            r == self@.len(),
    {
        self.slots.len()
    }

    /// The most items the history keeps.
    pub fn capacity(&self) -> (r: usize)
        ensures
            r == self.cap(),
    {
        self.capacity
    }

    /// The newest item, if any.
    pub fn newest(&self) -> (r: Option<T>)
        requires
            self.wf(),
        ensures
            self@.len() == 0 ==> r is None,
            self@.len() > 0 ==> r == Some(self@.last()),
    {
        let n = self.slots.len();
        if n == 0 {
            None
        } else if self.head == 0 {
            Some(self.slots[n - 1])
        } else {
            Some(self.slots[self.head - 1])
        }
    }

    /// A copy of the items, oldest first.
    pub fn entries(&self) -> (r: Vec<T>)
        requires
            self.wf(),
        ensures
            r@ == self@,
    {
        let n = self.slots.len();
        let mut out: Vec<T> = Vec::with_capacity(n);
        let mut i: usize = 0;
        while i < n
            invariant
                self.wf(),
                n == self.slots@.len(),
                i <= n,
                out@ =~= self@.subrange(0, i as int),
            decreases n - i,
        {
            let k = if i < n - self.head { self.head + i } else { i - (n - self.head) };
            out.push(self.slots[k]);
            i = i + 1;
        }
        out
    }
}

proof fn lemma_latest_push<T>(s: Seq<T>, x: T, cap: nat)
    requires
        cap > 0,
    ensures
        latest(latest(s, cap).push(x), cap) == latest(s.push(x), cap),
{
    let l = latest(s, cap);
    assert(latest(l.push(x), cap) =~= latest(s.push(x), cap));
}

/// Appending any items one by one keeps at most `cap` of them, and what is
/// kept is exactly the latest `cap` of everything held or appended, in the
/// order of arrival.
pub proof fn lemma_appends_keep_latest<T>(start: Seq<T>, xs: Seq<T>, cap: nat)
    requires
        cap > 0,
        start.len() <= cap,
    ensures
        replay(start, xs, cap) == latest(start + xs, cap),
        replay(start, xs, cap).len() <= cap,
    decreases xs.len(),
{
    if xs.len() == 0 {
        assert(start + xs =~= start);
    } else {
        let front = xs.drop_last();
        lemma_appends_keep_latest(start, front, cap);
        lemma_latest_push(start + front, xs.last(), cap);
        assert((start + front).push(xs.last()) =~= start + xs);
    }
}

} // verus!
