//! A lightweight service manager that coordinates the graceful shutdown of
//! asynchronous services.
//!
//! The library holds the decisions of the manager as verified state machines:
//! the one-shot shutdown signal ([`token::Trigger`]), the pending set and its
//! completion queue ([`Meltdown`]), and the poll steps of the two adapters
//! ([`tagged::Tagged`], [`catch_panic::CatchPanic`] and the services of
//! [`utils`]). An executor around it performs the awaits and reports back.
pub mod catch_panic;
pub mod manager;
pub mod step;
pub mod tagged;
pub mod token;
pub mod utils;

pub use manager::{Meltdown, Next};
pub use step::Step;
pub use token::Trigger;
