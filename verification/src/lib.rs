//! Translation of a configurable resource graph — knobs, layers, and
//! mutually-exclusive basic nodes with cost, quality, and dependency
//! edges — into a 0/1 integer linear program in textual LP format.

pub mod kdg;
pub mod resource;
