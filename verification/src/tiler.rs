pub mod color;
pub mod vec2;
