//! Prerequisite rules for courses: a typo-tolerant parser that turns free
//! rule text into a condition tree, and an evaluator that checks the tree
//! against a transcript of completed courses.
use vstd::prelude::*;

pub mod text;
pub mod fuzzy;
pub mod condition;
pub mod grammar;
pub mod parser;
pub mod evaluate;
pub mod catalog;

pub use catalog::{is_unlocked, Catalog, UnlockError};
pub use condition::{Category, Condition};
pub use evaluate::evaluate_condition;
pub use fuzzy::{typo_tag, typo_tag_with_dist, Boundary};
pub use parser::{parse, ParseError};
