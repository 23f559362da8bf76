//! A verified rendering core for fixed-layout trading-card images.
//!
//! The crate composites ordered image layers onto an RGBA canvas, wraps and
//! shrinks text to fit fixed pixel budgets, lays out resource-cost icon rows,
//! and tiles finished cards into fixed-size print sheets.  All pixel and
//! layout arithmetic is integer arithmetic and is verified; decoding, drawing
//! glyphs and file handling live outside the library.

pub mod canvas;
pub mod card;
pub mod deck;
pub mod error;
pub mod fit;
pub mod metrics;
pub mod skill;
pub mod strutil;
pub mod wrap;
