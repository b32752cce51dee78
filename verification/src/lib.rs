//! Threshold-gated pixel sorting over the lines of a pixel grid.
//!
//! A pass walks the lines of an image (its rows, or slanted paths across it),
//! cuts every line into the maximal runs of pixels that a threshold selects,
//! and puts the pixels of each run in ascending order of a chosen
//! characteristic. Everything is integer arithmetic: angles are counted in
//! thousandths of a degree and tangents are fixed-point numbers.

pub mod animation;
pub mod grid;
pub mod interpolation;
pub mod invariants;
pub mod lines;
pub mod passes;
pub mod pixel;
pub mod pixel_characteristics;
pub mod settings;
pub mod slant;
pub mod sort_algos;
pub mod sorter;
pub mod sorters;
pub mod span;
