pub mod color;
pub mod font;
pub mod matrix;
pub mod renderer;
pub mod shaders;
