//! A render-pipeline resource broker for a spectral path tracer, with the
//! surrounding unit types and persistence codec.
//!
//! The heart of the crate is [`task_scheduler::TaskScheduler`]: it owns fixed
//! pools of trace, plot, gather and tonemap units and hands them out as
//! [`task_scheduler::Task`] values, one unit of work at a time, without ever
//! duplicating or losing a unit. Its behaviour is specified as a functional
//! model over ghost views and proved against that model.
//!
//! Pixel arithmetic itself is floating point and lives with the caller; the
//! types here store each 32-bit float channel as its IEEE 754 bit pattern, so
//! everything structural — pool rotation, buffer shapes, the snapshot byte
//! format — is exact and machine-checked.

pub mod clock;
pub mod gather_unit;
pub mod geometry;
pub mod mode;
pub mod plot_unit;
pub mod pop_iter;
pub mod scheduler_props;
pub mod stats;
pub mod task_scheduler;
pub mod tonemap_unit;
pub mod trace_unit;
pub mod tristimulus;
