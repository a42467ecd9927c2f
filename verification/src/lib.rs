pub mod codec;
pub mod geometry;
pub mod state;
