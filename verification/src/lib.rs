//! The logic of a desktop Kubernetes client: what a table shows of an object,
//! how a watch becomes batches, who may do what, and how the window's state
//! moves from one event to the next.
pub mod base;
pub mod columns;
pub mod k8s;
pub mod ui;
