//! The rules of a learning platform: course creation with sequential ids,
//! graded quiz attempts kept in append-only histories, and the dashboard
//! counters, over a model of the platform's stored records.
use vstd::prelude::*;

pub mod account;
pub mod analytics;
pub mod content;
pub mod course;
pub mod quiz;
pub mod storage;

pub use account::AccountId;
pub use content::{Lesson, Module};

verus! {

} // verus!
