//! Row containers and the control-plane logic that creates and replaces
//! streaming jobs: fragment-graph id propagation, the catalog lifecycle,
//! admission control and the create/replace workflows as state machines.

pub mod error;
pub mod job;
pub mod graph;
pub mod catalog;
pub mod admission;
pub mod create;
pub mod replace;

pub mod row;
pub mod codec;
pub mod service;
