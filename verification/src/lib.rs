//! A verified engine for an LED-matrix marquee: a horizontal scroll
//! transform with wraparound, a double-buffered frame surface, a scrollable
//! surface that translates every draw, a marquee controller that sequences
//! scrolling over simulated ticks, and a glitch scheduler that alternates a
//! clean baseline image with shuffled bursts of alternate images.
//!
//! Two policies are canonical throughout: the content width is always
//! clamped up to the physical panel width, and wrapping arithmetic always
//! applies the add-the-modulus correction, so a wrapped coordinate or
//! offset is always non-negative.

pub mod config;
pub mod glitch;
pub mod marquee;
pub mod pixel;
pub mod remap;
pub mod rng;
pub mod scroll;
pub mod surface;
