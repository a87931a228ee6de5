//! The camera's per-tick target policy: director overrides take the place of
//! the framed target, the chosen target enters the follow history, and a
//! tick with nothing to frame and no full override leaves the history as it
//! was, so the pose holds.
use vstd::prelude::*;

use crate::follow::{lemma_refill, pushed, pushed_times, FollowBuffer, BUFFER_CAPACITY};
use crate::shake::{after_tick, fresh, ShakeAggregator, ShakeKind, CLOCK_START};

verus! {

/// The target that a tick follows. `framed` is the target computed from the
/// tracked subjects, `None` when there are none. A position override takes
/// the place of the framed position and a zoom override that of the framed
/// zoom; with both set nothing framed is needed. With no subjects and not
/// both overrides, there is no target.
pub open spec fn resolved_target<V, Z>(
    framed: Option<(V, Z)>,
    position_override: Option<V>,
    zoom_override: Option<Z>,
) -> Option<(V, Z)> {
    if position_override.is_some() && zoom_override.is_some() {
        Some((position_override.unwrap(), zoom_override.unwrap()))
    } else if framed.is_some() {
        Some(
            (
                if position_override.is_some() {
                    position_override.unwrap()
                } else {
                    framed.unwrap().0
                },
                if zoom_override.is_some() {
                    zoom_override.unwrap()
                } else {
                    framed.unwrap().1
                },
            ),
        )
    } else {
        None
    }
}

/// The follow history after one tick with the framed target `framed`.
pub open spec fn followed_once<V, Z>(
    history: Seq<(V, Z)>,
    framed: Option<(V, Z)>,
    position_override: Option<V>,
    zoom_override: Option<Z>,
) -> Seq<(V, Z)> {
    let t = resolved_target(framed, position_override, zoom_override);
    if t.is_some() {
        pushed(history, t.unwrap())
    } else {
        history
    }
}

/// The follow history after one tick for each framed target of `framed`, in
/// order, with the overrides unchanged.
pub open spec fn followed<V, Z>(
    history: Seq<(V, Z)>,
    framed: Seq<Option<(V, Z)>>,
    position_override: Option<V>,
    zoom_override: Option<Z>,
) -> Seq<(V, Z)>
    decreases framed.len(),
{
    if framed.len() == 0 {
        history
    } else {
        followed_once(
            followed(history, framed.drop_last(), position_override, zoom_override),
            framed.last(),
            position_override,
            zoom_override,
        )
    }
}

/// The state that the camera keeps between ticks, apart from the pose: the
/// follow history of targets `(position, zoom)`, the shakes in progress with
/// their parameters `P`, and the director overrides.
pub struct CameraRig<V, Z, P> {
    follow: FollowBuffer<(V, Z)>,
    shake: ShakeAggregator<P>,
    position_override: Option<V>,
    zoom_override: Option<Z>,
}

impl<V: Copy, Z: Copy, P> CameraRig<V, Z, P> {
    pub closed spec fn history(&self) -> Seq<(V, Z)> {
        self.follow.view()
    }

    /// The shakes in progress and the running time of the shake field.
    pub closed spec fn shakes(&self) -> ShakeAggregator<P> {
        self.shake
    }

    pub closed spec fn position_override_spec(&self) -> Option<V> {
        self.position_override
    }

    pub closed spec fn zoom_override_spec(&self) -> Option<Z> {
        self.zoom_override
    }

    pub open spec fn wf(&self) -> bool {
        &&& self.history().len() <= BUFFER_CAPACITY
        &&& self.shakes().wf()
    }

    /// A rig with an empty history, no shakes and no overrides.
    pub fn new() -> (r: Self)
        ensures
            r.wf(),
            r.history() == Seq::<(V, Z)>::empty(),
            r.shakes().active().len() == 0,
            r.shakes().clock() == CLOCK_START,
            r.position_override_spec() == None::<V>,
            r.zoom_override_spec() == None::<Z>,
    {
        CameraRig {
            follow: FollowBuffer::new(),
            shake: ShakeAggregator::new(),
            position_override: None,
            zoom_override: None,
        }
    }

    /// Sets both overrides; `None` clears one. They take effect from the
    /// next tick.
    pub fn set_overrides(&mut self, position: Option<V>, zoom: Option<Z>)
        requires
            old(self).wf(),
        ensures
            final(self).wf(),
            final(self).position_override_spec() == position,
            final(self).zoom_override_spec() == zoom,
            final(self).history() == old(self).history(),
            final(self).shakes() == old(self).shakes(),
    {
        self.position_override = position;
        self.zoom_override = zoom;
    }

    pub fn position_override(&self) -> (r: Option<V>)
        ensures
            r == self.position_override_spec(),
    {
        self.position_override
    }

    pub fn zoom_override(&self) -> (r: Option<Z>)
        ensures
            r == self.zoom_override_spec(),
    {
        self.zoom_override
    }

    /// The target that a tick with the framed target `framed` follows.
    pub fn target(&self, framed: Option<(V, Z)>) -> (r: Option<(V, Z)>)
        ensures
            r == resolved_target(framed, self.position_override_spec(), self.zoom_override_spec()),
    {
        match (self.position_override, self.zoom_override) {
            (Some(p), Some(z)) => Some((p, z)),
            _ => match framed {
                Some((c, z)) => {
                    let p = match self.position_override {
                        Some(p) => p,
                        None => c,
                    };
                    let q = match self.zoom_override {
                        Some(q) => q,
                        None => z,
                    };
                    Some((p, q))
                },
                None => None,
            },
        }
    }

    /// Feeds one tick's framed target to the follow history: the resolved
    /// target goes in front, or, when there is none, the history stays as it
    /// was. Returns the target that went in.
    pub fn follow_target(&mut self, framed: Option<(V, Z)>) -> (r: Option<(V, Z)>)
        requires
            old(self).wf(),
        ensures
            final(self).wf(),
            r == resolved_target(
                framed,
                old(self).position_override_spec(),
                old(self).zoom_override_spec(),
            ),
            final(self).history() == followed_once(
                old(self).history(),
                framed,
                old(self).position_override_spec(),
                old(self).zoom_override_spec(),
            ),
            final(self).position_override_spec() == old(self).position_override_spec(),
            final(self).zoom_override_spec() == old(self).zoom_override_spec(),
            final(self).shakes() == old(self).shakes(),
    {
        let t = self.target(framed);
        match t {
            Some(target) => self.follow.push(target),
            None => {},
        }
        t
    }

    /// The shakes in progress.
    pub fn shake(&self) -> (r: &ShakeAggregator<P>)
        ensures
            *r == self.shakes(),
    {
        &self.shake
    }

    /// Starts a noise-driven shake; see `ShakeAggregator::trigger_noise`.
    pub fn trigger_noise(&mut self, length: i32, params: P) -> (added: bool)
        requires
            old(self).wf(),
        ensures
            final(self).wf(),
            added == (length > 0),
            added ==> final(self).shakes().active() == old(self).shakes().active().push(
                fresh(ShakeKind::Noise, length, 1, params),
            ),
            !added ==> final(self).shakes().active() == old(self).shakes().active(),
            final(self).shakes().clock() == old(self).shakes().clock(),
            final(self).history() == old(self).history(),
            final(self).position_override_spec() == old(self).position_override_spec(),
            final(self).zoom_override_spec() == old(self).zoom_override_spec(),
    {
        self.shake.trigger_noise(length, params)
    }

    /// Starts a sinusoidal shake; see `ShakeAggregator::trigger_sinusoidal`.
    pub fn trigger_sinusoidal(&mut self, length: i32, params: P) -> (added: bool)
        requires
            old(self).wf(),
        ensures
            final(self).wf(),
            added == (length > 0),
            added ==> final(self).shakes().active() == old(self).shakes().active().push(
                fresh(ShakeKind::Sinusoidal, length, 1, params),
            ),
            !added ==> final(self).shakes().active() == old(self).shakes().active(),
            final(self).shakes().clock() == old(self).shakes().clock(),
            final(self).history() == old(self).history(),
            final(self).position_override_spec() == old(self).position_override_spec(),
            final(self).zoom_override_spec() == old(self).zoom_override_spec(),
    {
        self.shake.trigger_sinusoidal(length, params)
    }

    /// Starts a rotational kick; see `ShakeAggregator::trigger_rotational`.
    pub fn trigger_rotational(&mut self, length: i32, params: P) -> (added: bool)
        requires
            old(self).wf(),
        ensures
            final(self).wf(),
            added == (length > 0),
            added ==> exists|sign: i32|
                (sign == 1 || sign == -1) && final(self).shakes().active() == old(
                    self,
                ).shakes().active().push(
                    #[trigger] fresh(ShakeKind::Rotational, length, sign, params),
                ),
            !added ==> final(self).shakes().active() == old(self).shakes().active(),
            final(self).shakes().clock() == old(self).shakes().clock(),
            final(self).history() == old(self).history(),
            final(self).position_override_spec() == old(self).position_override_spec(),
            final(self).zoom_override_spec() == old(self).zoom_override_spec(),
    {
        self.shake.trigger_rotational(length, params)
    }

    /// Starts a shake sample: advances the running time by half a tick and
    /// returns it, in half ticks; see `ShakeAggregator::tick_clock`.
    pub fn tick_clock(&mut self) -> (t: u64)
        requires
            old(self).wf(),
        ensures
            final(self).wf(),
            final(self).shakes().active() == old(self).shakes().active(),
            final(self).shakes().clock() == (if old(self).shakes().clock() < u64::MAX {
                (old(self).shakes().clock() + 1) as u64
            } else {
                old(self).shakes().clock()
            }),
            t == final(self).shakes().clock(),
            final(self).history() == old(self).history(),
            final(self).position_override_spec() == old(self).position_override_spec(),
            final(self).zoom_override_spec() == old(self).zoom_override_spec(),
    {
        self.shake.tick_clock()
    }

    /// Ends a shake sample: ages every shake and drops the expired ones; see
    /// `ShakeAggregator::advance`.
    pub fn advance_shakes(&mut self)
        requires
            old(self).wf(),
        ensures
            final(self).wf(),
            final(self).shakes().active() == after_tick(old(self).shakes().active()),
            final(self).shakes().clock() == old(self).shakes().clock(),
            final(self).history() == old(self).history(),
            final(self).position_override_spec() == old(self).position_override_spec(),
            final(self).zoom_override_spec() == old(self).zoom_override_spec(),
    {
        self.shake.advance()
    }

    /// The follow history, newest target first.
    pub fn follow(&self) -> (r: &FollowBuffer<(V, Z)>)
        ensures
            r.view() == self.history(),
    {
        &self.follow
    }
}

/// The follow history after ticks that all resolve to the same target `t`
/// is the history after as many pushes of `t`.
proof fn lemma_followed_constant<V, Z>(
    history: Seq<(V, Z)>,
    framed: Seq<Option<(V, Z)>>,
    position_override: Option<V>,
    zoom_override: Option<Z>,
    t: (V, Z),
)
    requires
        forall|i: int|
            0 <= i < framed.len() ==> #[trigger] resolved_target(
                framed[i],
                position_override,
                zoom_override,
            ) == Some(t),
    ensures
        followed(history, framed, position_override, zoom_override) == pushed_times(
            history,
            t,
            framed.len(),
        ),
    decreases framed.len(),
{
    if framed.len() > 0 {
        let rest = framed.drop_last();
        assert forall|i: int| 0 <= i < rest.len() implies #[trigger] resolved_target(
            rest[i],
            position_override,
            zoom_override,
        ) == Some(t) by {
            assert(rest[i] == framed[i]);
        }
        lemma_followed_constant(history, rest, position_override, zoom_override, t);
        assert(framed.last() == framed[framed.len() - 1]);
    }
}

/// Once every tick for `BUFFER_CAPACITY` ticks in a row resolves to the same
/// target `t` (the same subjects at rest, or both overrides set), the follow
/// history holds `t` alone, `BUFFER_CAPACITY` times, whatever it held before.
pub proof fn lemma_history_converges<V, Z>(
    history: Seq<(V, Z)>,
    framed: Seq<Option<(V, Z)>>,
    position_override: Option<V>,
    zoom_override: Option<Z>,
    t: (V, Z),
)
    requires
        history.len() <= BUFFER_CAPACITY,
        framed.len() == BUFFER_CAPACITY,
        forall|i: int|
            0 <= i < framed.len() ==> #[trigger] resolved_target(
                framed[i],
                position_override,
                zoom_override,
            ) == Some(t),
    ensures
        followed(history, framed, position_override, zoom_override) =~= Seq::new(
            BUFFER_CAPACITY as nat,
            |_i: int| t,
        ),
{
    lemma_followed_constant(history, framed, position_override, zoom_override, t);
    lemma_refill(history, t);
}

/// With both overrides set, a tick follows them whatever was framed, also
/// when nothing was; so after `BUFFER_CAPACITY` ticks the follow history
/// holds the override target alone, whatever it held before.
pub proof fn lemma_override_takes_over<V, Z>(
    history: Seq<(V, Z)>,
    framed: Seq<Option<(V, Z)>>,
    position: V,
    zoom: Z,
)
    requires
        history.len() <= BUFFER_CAPACITY,
        framed.len() == BUFFER_CAPACITY,
    ensures
        followed(history, framed, Some(position), Some(zoom)) =~= Seq::new(
            BUFFER_CAPACITY as nat,
            |_i: int| (position, zoom),
        ),
{
    lemma_history_converges(history, framed, Some(position), Some(zoom), (position, zoom));
}

} // verus!
