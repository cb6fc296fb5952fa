//! Recovering versions from the names of Blender builds, and selecting builds
//! by version queries.

pub mod text;
pub mod version;
pub mod verbose;
pub mod records;
pub mod query;
pub mod matching;
pub mod launching;
pub mod blendfile;
pub mod remote;
pub mod banner;
