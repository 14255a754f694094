//! Exact-arithmetic layout engine for Cartesian line charts and grouped bar charts.
//!
//! Values on a chart are integers; normalized positions are exact fractions.
mod error;
mod series;
mod scale;
mod layout;
mod color;
mod bars;
mod chart;
mod group;
mod text;

pub use error::ChartError;
pub use scale::{Ratio, Scale, Tick, NUMERIC_TICK_SEGMENTS, lemma_scale_ends, lemma_scale_degenerate, lemma_rank_unique, lemma_tick_round_trip};
pub use series::{Series, Stick};
pub use chart::{Cartesian, PlotPoint, lemma_mismatch_draws_nothing};
pub use group::{Bar, CartesianGroup};
pub use bars::{band_center, band_width, lemma_bands_ordered};
pub use color::{Color, DEFAULT_SHIFT_DEGREES, lemma_hue_full_turn};
pub use layout::{Point, Rect, Viewport, lemma_layout_partition, TOP_LEFT, TOP_RIGHT, BOTTOM_RIGHT, BOTTOM_LEFT};
