//! Clauses shared between statement kinds.

use vstd::prelude::*;

verus! {

/// A table named in a FROM or INTO clause, with an optional alias.
#[derive(Debug, Clone, PartialEq)]
pub struct TableReference {
    pub name: String,
    pub alias: Option<String>,
}

} // verus!
