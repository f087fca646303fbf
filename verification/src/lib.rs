//! RAID block devices described by a URI.

pub mod create;
pub mod destroy;
pub mod error;
pub mod level;
pub mod raid;
pub mod text;
pub mod uri;
pub mod uuids;
