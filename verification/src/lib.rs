pub mod engine;
pub mod fixed;
pub mod image;
pub mod laws;
pub mod pixel;
