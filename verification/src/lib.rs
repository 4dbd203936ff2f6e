//! A stat dependency graph and modifier-aggregation engine for tabletop-style
//! characters.
//!
//! A character (a [`unit::Unit`]) carries one [`stat::Stat`] per tracked
//! attribute: a base value, a derived total, and a list of dependent stats.
//! Equipment attaches [`modifier::ModifierSource`]s whose
//! [`modifier::StatMod`]s are aggregated into new totals; when a total
//! changes, recomputation cascades along the declared dependency edges.
//!
//! All numeric values are fixed-point integers in thousandths of a point
//! (see [`stat::SCALE`]), so the arithmetic is exact and fully specified.

pub mod character;
pub mod damage;
pub mod dice;
pub mod ids;
pub mod items;
pub mod laws;
pub mod modifier;
pub mod stat;
pub mod unit;
