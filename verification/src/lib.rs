//! Layout assignment engine for keyboard analysis.
//!
//! Translates between author-facing declarative layout descriptions
//! (an exact slot list, or groups of characters assigned to candidate
//! fingers) and the flat, position-indexed matrix that a statistical
//! analysis engine consumes, together with the keyboard-geometry
//! preprocessing the assignment depends on.

pub mod assign;
pub mod concat;
pub mod context;
pub mod corpus;
pub mod finger;
pub mod geometry;
pub mod laws;
pub mod layout_data;
pub mod project;

pub use context::Metric;
pub use context::MetricContext;
pub use context::MetricData;
pub use context::NgramType;
pub use corpus::Corpus;
pub use corpus::CorpusChar;
pub use corpus::Layout;
pub use finger::Finger;
pub use finger::FingerKind;
pub use finger::FingerMap;
pub use finger::Hand;
pub use geometry::Combo;
pub use geometry::KeyCoord;
pub use geometry::Keyboard;
pub use geometry::Pos;
pub use layout_data::KeyComponent;
pub use layout_data::LayoutData;
pub use layout_data::LayoutFormat;
