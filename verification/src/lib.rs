//! A uniform layer over several archive formats: which format a file name
//! selects, which files go into an archive, and the steps that an encoder or a
//! decoder takes, each stated as a contract and proved.

pub mod text;
pub mod error;
pub mod driver;
pub mod status;
pub mod glob;
pub mod paths;
pub mod manifest;
pub mod codec;
pub mod tarball;
pub mod task;
pub mod encoder;
pub mod decoder;

pub use crate::decoder::Decoder;
pub use crate::encoder::Encoder;
pub use crate::manifest::CreateArchive;
pub use crate::status::UpdateStatus;
