//! A small colony simulation: a stationary queen and a handful of workers
//! live on an integer grid. A pointer click sends the nearest idle worker
//! toward the clicked spot; each frame tick moves every travelling worker
//! a capped step closer, and a worker that reaches its destination goes
//! idle again.

pub mod control;
pub mod geometry;
pub mod world;
