//! Verified core of a particle playground: point masses fall under gravity
//! inside a circular boundary while rolling histories of energy, frame time
//! and recent positions are kept for display.
//!
//! The core never does arithmetic on real numbers. Every scalar quantity
//! (a coordinate, an energy, a duration) is carried as the 32-bit pattern of
//! its single-precision encoding, and the numeric kernels are supplied by the
//! host. What is proved here is the bookkeeping around them: how often the
//! integrator runs, which samples a history retains, which segments of a
//! series may be joined by a line, and how trails evict their oldest entry.

pub mod database;
pub mod history;
pub mod point;
pub mod simulation;
pub mod trail;

pub use database::{
    Database, EnergyGraph, EnergySegment, FrameTimeGraph, FrameTimeSegment, Info, Overlays, Span,
    Toggles, TrailDrawing, Visibility,
};
pub use history::{History, Sample, Segment, GRAPH_SIZE};
pub use point::{finite, Point};
pub use simulation::{Ball, Circle, Click, Scene, Simulation, PALETTE_SIZE};
pub use trail::{Trail, TrailSegment, TRAIL_SIZE};
