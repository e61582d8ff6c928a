//! A trail of positions collected from a location source, and the camera
//! framing that keeps the whole trail in view.
pub mod camera;
pub mod locator;
pub mod point;
pub mod trail;
