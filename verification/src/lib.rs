//! Proportional usage bars for storage devices, laid out for a terminal of a
//! given width.
//!
//! Every quantity is an exact integer or an exact ratio of integers: a usage is
//! the pair of used and total bytes, and each rounding rule is stated over
//! that ratio.

pub mod group;
pub mod layout;
pub mod ratio;
pub mod render;
pub mod report;
pub mod size;
pub mod style;
pub mod text;
pub mod usage;

pub use group::group;
pub use layout::layout;
pub use render::render;
pub use report::report;
pub use size::format_size;
