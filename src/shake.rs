//! Timed procedural camera disturbances and the set of those in progress.
use vstd::prelude::*;

use crate::chance::random_below;

verus! {

/// Running time of the shake field at construction, in half ticks (5.0).
pub const CLOCK_START: u64 = 10;

/// How a shake moves the camera.
#[derive(Clone, Copy, Debug, PartialEq, Eq, Structural)]
pub enum ShakeKind {
    /// An offset driven by the noise field.
    Noise,
    /// An offset along one direction, following a sine wave.
    Sinusoidal,
    /// A rotational kick with cubic decay.
    Rotational,
}

/// One disturbance in progress. `params` holds what the renderer needs to
/// turn it into an offset or an angle (magnitude, direction, frequency,
/// phase); this type only keeps its clock.
pub struct ShakeEffect<P> {
    pub kind: ShakeKind,
    /// Lifetime in ticks.
    pub length: u32,
    /// Ticks elapsed since the trigger.
    pub age: u32,
    /// Direction of a rotational kick: +1 or -1; always +1 for other kinds.
    pub sign: i32,
    pub params: P,
}

/// Strength of an effect of the given age and length, as the fraction
/// `numerator / denominator`: 1 at birth, falling linearly to 0 at expiry.
pub open spec fn strength(age: int, length: int) -> (int, int) {
    (length - age, length)
}

/// A new effect, as a trigger creates it.
pub open spec fn fresh<P>(kind: ShakeKind, length: i32, sign: i32, params: P) -> ShakeEffect<P> {
    ShakeEffect { kind, length: length as u32, age: 0, sign, params }
}

/// The effect `e` after `n` more ticks.
pub open spec fn aged_by<P>(e: ShakeEffect<P>, n: nat) -> ShakeEffect<P> {
    ShakeEffect { age: (e.age + n) as u32, ..e }
}

/// Every effect one tick older, without those that have reached their length.
pub open spec fn after_tick<P>(s: Seq<ShakeEffect<P>>) -> Seq<ShakeEffect<P>>
    decreases s.len(),
{
    if s.len() == 0 {
        Seq::empty()
    } else {
        let rest = after_tick(s.drop_last());
        let a = aged_by(s.last(), 1);
        if a.age < a.length {
            rest.push(a)
        } else {
            rest
        }
    }
}

/// The active set after `n` ticks.
pub open spec fn after_ticks<P>(s: Seq<ShakeEffect<P>>, n: nat) -> Seq<ShakeEffect<P>>
    decreases n,
{
    if n == 0 {
        s
    } else {
        after_tick(after_ticks(s, (n - 1) as nat))
    }
}

/// All effects of `s` are well formed.
pub open spec fn all_wf<P>(s: Seq<ShakeEffect<P>>) -> bool {
    forall|i: int| 0 <= i < s.len() ==> #[trigger] s[i].wf()
}

impl<P> ShakeEffect<P> {
    /// A positive length that came from an `i32`, an age short of it, and a
    /// sign of +1 or -1 (+1 unless rotational).
    pub open spec fn wf(&self) -> bool {
        &&& 0 < self.length <= i32::MAX
        &&& self.age < self.length
        &&& (self.sign == 1 || self.sign == -1)
        &&& (self.kind != ShakeKind::Rotational ==> self.sign == 1)
    }

    /// The current strength as `(numerator, denominator)`.
    pub fn strength_fraction(&self) -> (r: (u32, u32))
        requires
            self.age <= self.length,
        ensures
            r.0 == strength(self.age as int, self.length as int).0,
            r.1 == strength(self.age as int, self.length as int).1,
    {
        (self.length - self.age, self.length)
    }
}

/// Owns the active shakes, ages them once per tick and drops the expired
/// ones. It also keeps the running time of the shake field, in half ticks.
pub struct ShakeAggregator<P> {
    effects: Vec<ShakeEffect<P>>,
    clock: u64,
}

impl<P> ShakeAggregator<P> {
    /// The effects in progress, oldest trigger first.
    pub closed spec fn active(&self) -> Seq<ShakeEffect<P>> {
        self.effects@
    }

    /// The running time, in half ticks.
    pub closed spec fn clock(&self) -> u64 {
        self.clock
    }

    pub open spec fn wf(&self) -> bool {
        all_wf(self.active())
    }

    pub fn new() -> (r: Self)
        ensures
            r.wf(),
            r.active() == Seq::<ShakeEffect<P>>::empty(),
            r.clock() == CLOCK_START,
    {
        ShakeAggregator { effects: Vec::new(), clock: CLOCK_START }
    }

    /// The effects in progress.
    pub fn effects(&self) -> (r: &Vec<ShakeEffect<P>>)
        ensures
            r@ == self.active(),
    {
        &self.effects
    }

    pub fn len(&self) -> (r: usize)
        ensures
            r == self.active().len(),
    {
        self.effects.len()
    }

    fn enlist(&mut self, kind: ShakeKind, length: i32, sign: i32, params: P) -> (added: bool)
        requires
            old(self).wf(),
            sign == 1 || sign == -1,
            kind != ShakeKind::Rotational ==> sign == 1,
        ensures
            final(self).wf(),
            final(self).clock() == old(self).clock(),
            added == (length > 0),
            added ==> final(self).active() == old(self).active().push(
                fresh(kind, length, sign, params),
            ),
            !added ==> final(self).active() == old(self).active(),
    {
        if length <= 0 {
            return false;
        }
        self.effects.push(ShakeEffect { kind, length: length as u32, age: 0, sign, params });
        proof {
            assert(self.active()[self.active().len() - 1].wf());
        }
        true
    }

    /// Starts a noise-driven shake of `length` ticks. A length of zero or
    /// less adds nothing and returns `false`.
    pub fn trigger_noise(&mut self, length: i32, params: P) -> (added: bool)
        requires
            old(self).wf(),
        ensures
            final(self).wf(),
            final(self).clock() == old(self).clock(),
            added == (length > 0),
            added ==> final(self).active() == old(self).active().push(
                fresh(ShakeKind::Noise, length, 1, params),
            ),
            !added ==> final(self).active() == old(self).active(),
    {
        self.enlist(ShakeKind::Noise, length, 1, params)
    }

    /// Starts a sinusoidal shake of `length` ticks. A length of zero or less
    /// adds nothing and returns `false`.
    pub fn trigger_sinusoidal(&mut self, length: i32, params: P) -> (added: bool)
        requires
            old(self).wf(),
        ensures
            final(self).wf(),
            final(self).clock() == old(self).clock(),
            added == (length > 0),
            added ==> final(self).active() == old(self).active().push(
                fresh(ShakeKind::Sinusoidal, length, 1, params),
            ),
            !added ==> final(self).active() == old(self).active(),
    {
        self.enlist(ShakeKind::Sinusoidal, length, 1, params)
    }

    /// Starts a rotational kick of `length` ticks, turning either way with
    /// equal chance. A length of zero or less adds nothing and returns
    /// `false`.
    pub fn trigger_rotational(&mut self, length: i32, params: P) -> (added: bool)
        requires
            old(self).wf(),
        ensures
            final(self).wf(),
            final(self).clock() == old(self).clock(),
            added == (length > 0),
            added ==> exists|sign: i32|
                (sign == 1 || sign == -1) && final(self).active() == old(self).active().push(
                    #[trigger] fresh(ShakeKind::Rotational, length, sign, params),
                ),
            !added ==> final(self).active() == old(self).active(),
    {
        if length <= 0 {
            return false;
        }
        let draw = random_below(0, 2);
        let sign: i32 = if draw == 0 {
            -1
        } else {
            1
        };
        self.enlist(ShakeKind::Rotational, length, sign, params)
    }

    /// Advances the running time by half a tick, as the start of each sample
    /// does, and returns it (in half ticks). It stops at the largest `u64`.
    pub fn tick_clock(&mut self) -> (t: u64)
        ensures
            final(self).active() == old(self).active(),
            final(self).clock() == (if old(self).clock() < u64::MAX {
                (old(self).clock() + 1) as u64
            } else {
                old(self).clock()
            }),
            t == final(self).clock(),
    {
        if self.clock < u64::MAX {
            self.clock = self.clock + 1;
        }
        self.clock
    }

    /// Ends a tick: every effect gets one tick older, and those whose age
    /// reaches their length are dropped. The others keep their order.
    pub fn advance(&mut self)
        requires
            old(self).wf(),
        ensures
            final(self).wf(),
            final(self).active() == after_tick(old(self).active()),
            final(self).clock() == old(self).clock(),
    {
        let mut pending: Vec<ShakeEffect<P>> = Vec::new();
        std::mem::swap(&mut pending, &mut self.effects);
        let ghost orig = pending@;
        let mut kept: Vec<ShakeEffect<P>> = Vec::new();
        let ghost mut k: int = 0;
        while pending.len() > 0
            invariant
                all_wf(orig),
                0 <= k <= orig.len(),
                pending@ == orig.subrange(k, orig.len() as int),
                kept@ == after_tick(orig.take(k)),
                all_wf(kept@),
                self.clock == old(self).clock,
                orig == old(self).effects@,
            decreases pending.len(),
        {
            let mut e = pending.remove(0);
            proof {
                assert(e == orig[k]);
                assert(orig[k].wf());
                assert(orig.take(k + 1).drop_last() =~= orig.take(k));
                assert(orig.take(k + 1).last() == orig[k]);
            }
            e.age = e.age + 1;
            if e.age < e.length {
                kept.push(e);
            }
            proof {
                k = k + 1;
                assert(pending@ =~= orig.subrange(k, orig.len() as int));
            }
        }
        proof {
            assert(orig.take(k) =~= orig);
        }
        self.effects = kept;
    }
}

/// An effect that comes out of a tick is one that went in, one tick older,
/// and it is still well formed.
proof fn lemma_after_tick_members<P>(s: Seq<ShakeEffect<P>>)
    requires
        all_wf(s),
    ensures
        all_wf(after_tick(s)),
        forall|x: ShakeEffect<P>| #[trigger]
            after_tick(s).contains(x) ==> exists|y: ShakeEffect<P>| #[trigger]
                s.contains(y) && x == aged_by(y, 1),
    decreases s.len(),
{
    if s.len() > 0 {
        let rest = s.drop_last();
        assert(all_wf(rest)) by {
            assert forall|i: int| 0 <= i < rest.len() implies #[trigger] rest[i].wf() by {
                assert(s[i].wf());
            }
        }
        lemma_after_tick_members(rest);
        let a = aged_by(s.last(), 1);
        assert(s.last() == s[s.len() - 1]);
        assert(s[s.len() - 1].wf());
        if a.age < a.length {
            assert forall|i: int| 0 <= i < after_tick(s).len() implies #[trigger]
                after_tick(s)[i].wf() by {
                if i < after_tick(rest).len() {
                    assert(after_tick(rest)[i].wf());
                }
            }
        }
        assert forall|x: ShakeEffect<P>| #[trigger]
            after_tick(s).contains(x) implies exists|y: ShakeEffect<P>| #[trigger]
                s.contains(y) && x == aged_by(y, 1) by {
            if x == a {
                assert(s.contains(s.last()));
            } else {
                let j = choose|j: int| 0 <= j < after_tick(s).len() && after_tick(s)[j] == x;
                assert(after_tick(rest).contains(x));
                let y = choose|y: ShakeEffect<P>| #[trigger] rest.contains(y) && x == aged_by(y, 1);
                let m = choose|m: int| 0 <= m < rest.len() && rest[m] == y;
                assert(s[m] == y);
                assert(s.contains(y));
            }
        }
    }
}

/// An effect in the active set whose next age is still short of its length
/// stays in the active set after the tick, one tick older.
proof fn lemma_after_tick_keeps<P>(s: Seq<ShakeEffect<P>>, x: ShakeEffect<P>)
    requires
        s.contains(x),
        aged_by(x, 1).age < aged_by(x, 1).length,
        x.age < x.length,
    ensures
        after_tick(s).contains(aged_by(x, 1)),
    decreases s.len(),
{
    let rest = s.drop_last();
    if s.last() == x {
        assert(after_tick(s).last() == aged_by(x, 1));
        assert(after_tick(s)[after_tick(s).len() - 1] == aged_by(x, 1));
    } else {
        let j = choose|j: int| 0 <= j < s.len() && s[j] == x;
        assert(j < s.len() - 1);
        assert(rest[j] == x);
        lemma_after_tick_keeps(rest, x);
        let i = choose|i: int| 0 <= i < after_tick(rest).len() && after_tick(rest)[i] == aged_by(x, 1);
        assert(after_tick(s)[i] == aged_by(x, 1));
    }
}

/// Effects stay well formed through any number of ticks.
proof fn lemma_after_ticks_wf<P>(s: Seq<ShakeEffect<P>>, n: nat)
    requires
        all_wf(s),
    ensures
        all_wf(after_ticks(s, n)),
    decreases n,
{
    if n > 0 {
        lemma_after_ticks_wf(s, (n - 1) as nat);
        lemma_after_tick_members(after_ticks(s, (n - 1) as nat));
    }
}

/// An effect of length `L` triggered at age 0 takes part in exactly the
/// ticks `0..L`: after `n` ticks it is in the active set, `n` ticks older,
/// while its age is short of its length, and from then on the active set
/// holds nothing of that length at that age.
pub proof fn lemma_effect_lifetime<P>(s: Seq<ShakeEffect<P>>, i: int, n: nat)
    requires
        all_wf(s),
        0 <= i < s.len(),
    ensures
        s[i].age + n < s[i].length ==> after_ticks(s, n).contains(aged_by(s[i], n)),
        s[i].age + n >= s[i].length ==> forall|j: int|
            0 <= j < after_ticks(s, n).len() ==> !(#[trigger] after_ticks(s, n)[j].age == s[i].age
                + n && after_ticks(s, n)[j].length == s[i].length),
    decreases n,
{
    lemma_after_ticks_wf(s, n);
    assert(s[i].wf());
    if n == 0 {
        assert(aged_by(s[i], 0) == s[i]);
        assert(s.contains(s[i]));
    } else {
        let m = (n - 1) as nat;
        lemma_effect_lifetime(s, i, m);
        if s[i].age + n < s[i].length {
            let x = aged_by(s[i], m);
            lemma_after_tick_keeps(after_ticks(s, m), x);
            assert(aged_by(x, 1) == aged_by(s[i], n));
        }
        if s[i].age + n >= s[i].length {
            assert forall|j: int| 0 <= j < after_ticks(s, n).len() implies !(
            #[trigger] after_ticks(s, n)[j].age == s[i].age + n && after_ticks(s, n)[j].length
                == s[i].length) by {
                assert(after_ticks(s, n)[j].wf());
            }
        }
    }
}

/// Decay never increases with age: within an effect's lifetime an older
/// effect is at most as strong as a younger one. The strength is exactly 1
/// at birth and exactly 0 when the age reaches the length.
pub proof fn lemma_strength_decays(length: int, a: int, b: int)
    requires
        0 < length,
        0 <= a <= b <= length,
    ensures
        strength(b, length).0 * strength(a, length).1 <= strength(a, length).0 * strength(
            b,
            length,
        ).1,
        strength(0, length).0 == strength(0, length).1,
        strength(length, length).0 == 0,
{
    assert((length - b) * length <= (length - a) * length) by (nonlinear_arith)
        requires
            0 < length,
            a <= b,
    ;
}

} // verus!
