//! Directive and role validation.

pub mod validation;
