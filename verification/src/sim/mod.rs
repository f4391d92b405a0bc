pub mod fixed;
pub mod laws;
pub mod object;
pub mod scalar;
pub mod solver;
pub mod vec2;
