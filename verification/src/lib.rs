//! Verified core of a Whitted-style ray tracer.
//!
//! The scalar arithmetic of the renderer runs on IEEE floating point, which
//! stays outside this crate; what is verified here is everything the tracer
//! decides and selects on top of it: the closest-hit scan over encoded
//! parametric distances, the closed set of light kinds and the rules for
//! gathering each light's contribution, the depth-bounded reflection
//! decision, and the canvas coordinate transform.

pub mod scene;
pub mod tracer;
pub mod util;
