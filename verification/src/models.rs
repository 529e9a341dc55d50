//! The records handed to the user interface.

pub mod k8s;
