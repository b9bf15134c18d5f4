pub mod error;
pub mod point;
pub mod curve;
pub mod codec;
pub mod ops;
pub mod adapter;
