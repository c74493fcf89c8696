//! Leveled log calls as Elastic Common Schema JSON lines.

pub mod json;
pub mod merge;
pub mod ecs_logger;
pub mod extra_fields;
pub mod path;
pub mod timestamp;
