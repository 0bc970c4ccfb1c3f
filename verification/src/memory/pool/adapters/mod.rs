//! Pooling for standard library types.

mod primitives;
mod string;
mod vec;

pub use string::UTF8Byte;
