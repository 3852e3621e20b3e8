//! The lab's topology: devices, routers, switches, regions, and the pools that
//! their addresses come from.
pub mod builder;
pub mod effects;
pub mod ifaces;
pub mod joints;
pub mod laws;
pub mod moves;
pub mod nodes;
pub mod plans;
pub mod pools;
pub mod regions;
pub mod routers;
pub mod types;
pub mod wiring;
