//! Template synchronisation engine: manifest schema and validation, overlay
//! merging, file sync strategies, marker-block preservation and report output.

pub mod copies;
pub mod error;
pub mod external;
pub mod json;
pub mod manifest;
pub mod merge;
pub mod mode;
pub mod output;
pub mod repo;
pub mod style;
pub mod text;
pub mod text_order;
pub mod upstream;
pub mod strategy;
