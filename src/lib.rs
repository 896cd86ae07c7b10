//! Capability-based authorization gate.
//!
//! - [`CapabilityRegistry`] holds the known capabilities and whether each is enabled.
//! - [`PolicyEngine`] evaluates a resource name against ordered rules, with a default of deny.
//! - [`CapabilityGate`] combines both into one [`Decision`] per request.
//! - [`laws`] holds proved properties of the decision pipeline.

pub mod capability;
pub mod evaluator;
pub mod gate;
pub mod laws;
pub mod policy;

pub use evaluator::Evaluator;
pub use gate::{CapabilityGate, Decision};
pub use capability::{Capability, CapabilityParam, CapabilityRegistry};
pub use policy::{Condition, Effect, Policy, PolicyEngine, Rule};
