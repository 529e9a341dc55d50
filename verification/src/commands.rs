//! The operations offered to the user interface, one module for each group.

pub mod ai;
pub mod exec;
pub mod kubeconfig;
pub mod kubectl;
pub mod logs;
pub mod pods;
pub mod proxy;
