//! An entity-component runtime with a script synchronization protocol.
//!
//! The store keeps at most one component of each kind per entity and arbitrates
//! access to every slot with an explicit shared/exclusive borrow state. Scripts
//! hold private copies of the components they synchronize; the copies are pulled
//! from the store before user code runs and published back afterwards, and both
//! directions are gated by equality so that nothing is written without need.
pub mod components;
pub mod model;
pub mod storage;
pub mod script;
pub mod scene;
pub mod laws;
pub mod errors;
pub mod entities;
pub mod world;
pub mod renderer;
pub mod camera_controller;
pub mod shader;
