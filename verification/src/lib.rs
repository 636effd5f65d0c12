//! Build-time schema compiler for relational data access.
//!
//! From a declarative description of a table (columns, identifier,
//! insert-only and default-generated columns, per-field lookups and
//! setters) the crate produces dialect-specific SQL text for a complete
//! set of data-access operations, together with the order in which the
//! caller's values are bound to the statement's placeholders.
//! A second subsystem enumerates every reachable combination of the
//! optional fragments of a query skeleton and dispatches, at call time,
//! to exactly one of the enumerated variants.

use vstd::prelude::*;

pub mod attrs;
pub mod backend;
pub mod patch;
pub mod query2;
pub mod rowstore;
pub mod strutil;
pub mod table;

verus! {

/// Greatest number of branch points a query skeleton may declare by default.
pub const DEFAULT_BRANCH_LIMIT: u64 = 5;

} // verus!
