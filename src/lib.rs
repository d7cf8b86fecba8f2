//! A data-driven particle-effect core: expression graphs evaluated against a
//! per-particle attribute store in ordered Init / Update / Render phases, a
//! spawner policy, instances that own their particle pool and random stream,
//! and a bridge that turns trigger events into instance-creation requests.
//!
//! All quantities are fixed-point integers with `SCALE` units per whole unit.
pub mod fixed;
pub mod rng;
pub mod expr;
pub mod gradient;
pub mod modifier;
pub mod spawner;
pub mod effect;
pub mod instance;
pub mod bridge;
pub mod world;
pub mod presets;
