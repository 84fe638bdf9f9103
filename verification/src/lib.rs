//! A deterministic, fixed-timestep XPBD (extended position-based dynamics)
//! solver for circles and axis-aligned boxes in the plane.
//!
//! All quantities are fixed-point numbers, so a simulation replays bit for bit
//! on every machine. Every executable function carries a contract that Verus
//! proves; the laws that relate several functions are public proof functions.

pub mod body;
pub mod colliders;
pub mod components;
pub mod consts;
pub mod contact;
pub mod direction;
pub mod fixed;
pub mod plugin;
pub mod resources;
pub mod theorems;
pub mod vec2;
pub mod world;
pub mod xpbd_loop;
