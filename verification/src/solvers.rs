pub mod bisection;
pub mod convergence;
pub mod scanning;
