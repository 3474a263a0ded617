//! Core of a piano-performance visualizer: a versioned on-disk configuration
//! model with a strict, self-describing byte format, and a per-key glow
//! animation engine that turns key press/release events plus elapsed time
//! into renderable instances.
//!
//! All quantities that are conceptually fractional (animation speeds, gains,
//! colors, sizes, coordinates) are held in fixed-point thousandths, and the
//! animation clock in microseconds, so that every computation is exact
//! integer arithmetic.

pub mod codec;
pub mod config;
pub mod glow;
