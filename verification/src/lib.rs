//! Constraint-based grab interaction core for a rigid-body playground.
//!
//! The crate models the interaction subsystem of a substep physics loop:
//! a compliance-scaled fixed joint with a rotation offset, the arena of
//! bodies and joints it acts on, the grab state machine that creates and
//! tears such joints down, and a small PID utility.
//!
//! All quantities are fixed-point integers: one world unit is
//! [`fx::FX_ONE`] raw ticks.  This keeps every routine free of
//! floating point while the compliance scaling, anchor corrections and
//! state transitions stay exact enough to state and prove.
//!
//! Scheduling contract, enforced by the contracts of [`solver`] and
//! [`joint`]: grab-state transitions for a tick complete before the
//! tick's substeps run, and within a substep every live joint's
//! accumulators are cleared before any joint is solved.

pub mod body;
pub mod fx;
pub mod grab;
pub mod joint;
pub mod pid;
pub mod quat;
pub mod solver;
pub mod vec3;
