//! Aggregation of organization member listings into display rows.
//!
//! The library models the data that a remote identity service hands back
//! (organization lookups, member listings, per-user detail lookups) as plain
//! values, and proves the policy applied to them: every record normalizes to a
//! fully populated display row, organizations keep their input order, a failed
//! organization contributes no rows, and each returned user yields exactly one
//! row. The network calls themselves live outside the library; they feed it
//! the outcomes it aggregates.

pub mod aggregate;
pub mod cli;
pub mod rows;

pub use rows::DisplayRow;
pub use rows::UserRecord;
