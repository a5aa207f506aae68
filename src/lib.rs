//! A spell sandbox's runtime: words said onto a typed stack build lazy
//! scalar and vector field expressions, which are sampled over a world of
//! objects and casters, and committed as active spells that drive the
//! output fields. Numbers are fixed-point: see `fixed`.

pub mod field;
pub mod fixed;
pub mod sample;
pub mod spells;
pub mod stack;
pub mod vector;
pub mod word;
pub mod world;
