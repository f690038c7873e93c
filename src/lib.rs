//! Tree rewriting core of a query optimizer: a labelled tree algebra with
//! traversals and rule-driven rewrites, and a fixed-point rule executor.

pub mod errors;
pub mod expr;
pub mod rules;
pub mod text;
pub mod trees;
pub mod types;

pub use errors::CatalystError;
pub use rules::{Batch, BatchEvent, Observer, PlanCheck, Quiet, Rule, RuleExecutor, Strategy};
pub use trees::{Node, Tree, TreeNode};
