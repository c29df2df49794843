//! Decision logic of a guest module that asks a container registry for the
//! newest manifest digest of an image, one continuation at a time.

pub mod codec;
pub mod machine;
pub mod text;
pub mod url;
pub mod value;
