//! Bounded newest-first history of framing targets, averaged by the camera
//! to smooth its motion.
use vstd::prelude::*;

verus! {

/// Number of targets that the history keeps.
pub const BUFFER_CAPACITY: usize = 20;

/// `s` after `x` is put in front, keeping at most `BUFFER_CAPACITY` entries.
pub open spec fn pushed<S>(s: Seq<S>, x: S) -> Seq<S> {
    let t = seq![x] + s;
    if t.len() <= BUFFER_CAPACITY {
        t
    } else {
        t.take(BUFFER_CAPACITY as int)
    }
}

/// `s` after `x` is pushed `n` times.
pub open spec fn pushed_times<S>(s: Seq<S>, x: S, n: nat) -> Seq<S>
    decreases n,
{
    if n == 0 {
        s
    } else {
        pushed(pushed_times(s, x, (n - 1) as nat), x)
    }
}

/// The last targets pushed, newest first, never more than
/// `BUFFER_CAPACITY` of them.
pub struct FollowBuffer<S> {
    samples: Vec<S>,
}

impl<S> FollowBuffer<S> {
    pub closed spec fn view(&self) -> Seq<S> {
        self.samples@
    }

    pub open spec fn wf(&self) -> bool {
        self.view().len() <= BUFFER_CAPACITY
    }

    pub fn new() -> (r: Self)
        ensures
            r.wf(),
            r.view() == Seq::<S>::empty(),
    {
        FollowBuffer { samples: Vec::new() }
    }

    /// Puts `sample` in front and forgets the oldest entry beyond the
    /// capacity.
    pub fn push(&mut self, sample: S)
        requires
            old(self).wf(),
        ensures
            final(self).wf(),
            final(self).view() == pushed(old(self).view(), sample),
            final(self).view().len() <= BUFFER_CAPACITY,
    {
        self.samples.insert(0, sample);
        self.samples.truncate(BUFFER_CAPACITY);
        proof {
            assert(old(self).view().insert(0, sample) =~= seq![sample] + old(self).view());
        }
    }

    /// The stored targets, newest first.
    pub fn samples(&self) -> (r: &Vec<S>)
        ensures
            r@ == self.view(),
    {
        &self.samples
    }

    pub fn len(&self) -> (r: usize)
        ensures
            r == self.view().len(),
    {
        self.samples.len()
    }

    pub fn is_empty(&self) -> (r: bool)
        ensures
            r == (self.view().len() == 0),
    {
        self.samples.len() == 0
    }

    pub fn is_full(&self) -> (r: bool)
        ensures
            r == (self.view().len() == BUFFER_CAPACITY),
    {
        self.samples.len() == BUFFER_CAPACITY
    }
}

/// However many targets are pushed, the history never holds more than
/// `BUFFER_CAPACITY` of them.
pub proof fn lemma_capacity_bound<S>(s: Seq<S>, x: S, n: nat)
    requires
        s.len() <= BUFFER_CAPACITY,
    ensures
        pushed_times(s, x, n).len() <= BUFFER_CAPACITY,
    decreases n,
{
    if n > 0 {
        lemma_capacity_bound(s, x, (n - 1) as nat);
    }
}

/// After `n <= BUFFER_CAPACITY` pushes of one target, the history starts with
/// `n` copies of it, followed by what is left of the earlier entries.
proof fn lemma_pushed_prefix<S>(s: Seq<S>, x: S, n: nat)
    requires
        s.len() <= BUFFER_CAPACITY,
        n <= BUFFER_CAPACITY,
    ensures
        pushed_times(s, x, n) =~= Seq::new(n, |_i: int| x) + s.take(
            if s.len() + n <= BUFFER_CAPACITY {
                s.len() as int
            } else {
                BUFFER_CAPACITY - n
            },
        ),
    decreases n,
{
    if n > 0 {
        let m = (n - 1) as nat;
        lemma_pushed_prefix(s, x, m);
    }
}

/// Once the same target has been pushed `BUFFER_CAPACITY` times in a row, the
/// history holds that target alone, `BUFFER_CAPACITY` times, whatever it held
/// before.
pub proof fn lemma_refill<S>(s: Seq<S>, x: S)
    requires
        s.len() <= BUFFER_CAPACITY,
    ensures
        pushed_times(s, x, BUFFER_CAPACITY as nat) =~= Seq::new(BUFFER_CAPACITY as nat, |_i: int| x),
{
    lemma_pushed_prefix(s, x, BUFFER_CAPACITY as nat);
}

} // verus!
