//! A generic optional-value container under single-owner semantics: a
//! two-variant sum type, a capability interface implemented over it, and a
//! checked model of how a binding may be moved and borrowed.

pub mod arith;
pub mod container;
pub mod ownership;
pub mod transform;
