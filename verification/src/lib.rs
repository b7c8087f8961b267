//! Planning of a curve-to-raster pipeline in exact fixed-point arithmetic.
//!
//! A curve is described by an ordered list of control points in the unit
//! square. This crate decides everything about rendering it that can be
//! decided without a rasterizer: which control-point lists are acceptable,
//! where a spline has to be evaluated, how the samples map to pixels, which
//! outlines are built from them and in which order they are painted. A
//! front end evaluates the spline and replays the resulting display list on a
//! pixel buffer.
//!
//! All coordinates are integers counted in millionths (see [`geometry::UNIT`]).

pub mod basis;
pub mod compositor;
pub mod error;
pub mod evaluator;
pub mod geometry;
pub mod orchestrator;
pub mod outline;
