//! Errors reported by rule execution.

use vstd::prelude::*;
use vstd::string::StringExecFns;

verus! {

/// Errors of the rewriting core.
#[derive(Debug)]
pub enum CatalystError {
    /// After applying rule `rule` of batch `batch`, the plan failed the
    /// structural integrity check.
    Integrity { rule: String, batch: String },
}

/// The text of an integrity error for the given rule and batch names.
pub open spec fn integrity_message(rule: Seq<char>, batch: Seq<char>) -> Seq<char> {
    "After applying rule "@ + rule + " in batch "@ + batch
        + ", the structural integrity of the plan is broken"@
}

impl CatalystError {
    /// `true` iff this is the integrity error of the named rule and batch.
    pub open spec fn is_integrity(self, rule: Seq<char>, batch: Seq<char>) -> bool {
        match self {
            CatalystError::Integrity { rule: r, batch: b } => r@ == rule && b@ == batch,
        }
    }

    /// A human-readable description of the error.
    pub fn message(&self) -> (r: String)
        ensures
            match self {
                CatalystError::Integrity { rule, batch } => r@ == integrity_message(rule@, batch@),
            },
    {
        match self {
            CatalystError::Integrity { rule, batch } => {
                let r = "After applying rule ".to_owned().concat(rule.as_str()).concat(
                    " in batch ",
                ).concat(batch.as_str()).concat(", the structural integrity of the plan is broken");
                r
            },
        }
    }
}

} // verus!
