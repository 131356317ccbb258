pub mod euler;
pub mod leapfrog;
pub mod physics_helpers;
pub mod target_height;
pub mod trajectory;
pub mod trigonometry;
