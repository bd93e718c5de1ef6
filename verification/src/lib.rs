//! Verified core of a desktop image tool that stamps text watermarks onto
//! images and re-encodes (compresses) them.

pub mod color;
pub mod decode;
pub mod encode;
pub mod font;
pub mod jobs;
pub mod layout;
pub mod paths;
pub mod text;
