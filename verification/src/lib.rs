//! A step-circuit authoring model and folding driver for incrementally
//! verifiable computation (IVC).
//!
//! A circuit author describes one repeatable step of computation as a grid of
//! advice columns, gates over queried cells, and copy constraints; a driver
//! applies the step circuit many times, threading each step's output vector
//! into the next step's input vector, and finally checks the accumulated
//! state.

pub mod assignment;
pub mod cs;
pub mod fibonacci;
pub mod field;
pub mod ivc;
pub mod keys;
pub mod params;
pub mod step;
pub mod trivial;
