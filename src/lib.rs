//! Discrete core of a 2D follow camera: the lifetime bookkeeping of
//! procedural screen shakes, the bounded history used for moving-average
//! smoothing, the lattice behind the shake noise field, and the per-tick
//! target policy (director overrides, holding the pose when nothing is
//! tracked).
//!
//! Every numeric payload that the camera blends (positions, zoom levels,
//! shake magnitudes) is carried through these types as an opaque parameter:
//! the types here decide *which* values take part and *when*, and the
//! rendering side does the arithmetic on them.

pub mod chance;
pub mod follow;
pub mod noise;
pub mod rig;
pub mod shake;
