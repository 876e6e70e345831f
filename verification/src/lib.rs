//! Exact pointer-to-surface hit testing for finite square planes.
//!
//! A click in a 3D scene is modelled as a ray (origin and direction) cast at
//! a set of finite square planes, each given by a center, an orthogonal local
//! basis and a side length. The library intersects the ray with each plane's
//! supporting plane, projects the intersection into the plane's local frame,
//! classifies it against the plane's square extent, and reports exact
//! normalized surface coordinates. All coordinates are fixed-point integers
//! chosen by the caller; every result is an exact rational, so the whole
//! computation is deterministic and verified.

pub mod vec3;
pub mod rat;
pub mod hit;
pub mod click;
