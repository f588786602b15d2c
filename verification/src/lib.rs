//! Simulation core of a networked 2D side-scrolling action game.
//!
//! The crate has two halves. The world half is an entity-component store
//! plus a fixed tick pipeline: input application, velocity integration,
//! continuous (swept) collision resolution against axis-aligned boxes,
//! position integration and an out-of-bounds hook. The transport half is
//! a tagged message envelope with a binary codec, a FIFO mailbox, and the
//! decision rules of the two background workers (reader, writer) that an
//! embedding program runs against a real network connection.
//!
//! All world quantities are fixed-point integers in hundredths of a world
//! unit, so every rule of the simulation is exact and provable.

pub mod codec;
pub mod collide;
pub mod components;
pub mod math;
pub mod message;
pub mod pipeline;
pub mod transport;
pub mod world;
