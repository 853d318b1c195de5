pub mod archive;
pub mod http;
pub mod json;
pub mod policy;
pub mod sequences;
pub mod text;
pub mod third_wheel;
pub mod utilities;
