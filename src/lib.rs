//! A finalizer-guarded reconciliation core for the `Hello` custom resource.
//!
//! The library holds the decisions of the control loop as verified functions on
//! plain values; the program around it performs the store and watch I/O.
pub mod resource;
pub mod reconciler;
pub mod finalizer;
pub mod scheduler;
