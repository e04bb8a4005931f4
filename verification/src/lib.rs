//! Accumulation of several non-fatal errors beside a value.
//!
//! A computation pushes the errors it meets into an [`ErrorCollector`] and goes on. What it
//! hands back is a [`Fallible`] or an [`Outcome`]: a value together with every error that was
//! met on the way, in the order of their occurrence. Splitting such a container yields an
//! [`ErrorSentinel`], which stands for the duty to look at those errors.
//!
//! Every contract is stated over the sequence of errors that a container holds, so that the
//! order of the errors, and the fact that none is lost or doubled, is part of what is proved.
pub mod collector;
pub mod fallible;
pub mod outcome;
pub mod sentinel;

pub use crate::collector::{ErrorCollector, Propagate};
pub use crate::fallible::Fallible;
pub use crate::outcome::Outcome;
pub use crate::sentinel::{DropVerdict, ErrorSentinel, ErrorSentinelIter};
