//! A small real-time simulation core: keyboard commands, controllable
//! entities and a velocity-Verlet integrator over fixed-point quantities.

pub mod controller;
pub mod frame;
pub mod object;
pub mod physics;
