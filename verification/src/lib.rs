pub mod constants;
pub mod fixed;
pub mod integrators;
pub mod math_helpers;
pub mod simulation_helpers;
pub mod simulation_laws;
pub mod solvers;
