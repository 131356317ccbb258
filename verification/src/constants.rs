use crate::fixed::Fixed;
use crate::solvers::bisection::{SearchStrategy, SolverSettings};
use vstd::prelude::*;

verus! {

/// The projectile: its mass in kg, and for the cross section that faces
/// along each axis its area in m^2 and its drag coefficient.
#[derive(Clone, Copy, Debug, PartialEq, Eq, Structural)]
pub struct Projectile {
    pub mass: Fixed,
    pub x_surface_area: Fixed,
    pub y_surface_area: Fixed,
    pub x_drag_coefficient: Fixed,
    pub y_drag_coefficient: Fixed,
}

/// How a launch speed is split into a horizontal and a vertical part.
#[derive(Clone, Copy, Debug, PartialEq, Eq, Structural)]
pub enum Decomposition {
    /// By the cosine and the sine of the launch angle.
    Trigonometric,
    /// In proportion to the angle's share of a right angle.
    Linear,
}

/// The physical model: gravity in m/s^2, air density in kg/m^3, the time
/// step of the integrators in s, and the number of steps after which a
/// trajectory that has not ended is given up.
#[derive(Clone, Copy, Debug, PartialEq, Eq, Structural)]
pub struct Physics {
    pub gravity: Fixed,
    pub air_density: Fixed,
    pub timestep: Fixed,
    pub max_steps: u64,
    pub decomposition: Decomposition,
    pub projectile: Projectile,
}

/// One axis of the grid: the values from `min` to `max` that lie `step`
/// apart.
#[derive(Clone, Copy, Debug, PartialEq, Eq, Structural)]
pub struct Axis {
    pub min: Fixed,
    pub max: Fixed,
    pub step: Fixed,
}

/// The cells of a sweep: every distance combined with every velocity, and
/// the height of the target above the launch point.
#[derive(Clone, Copy, Debug, PartialEq, Eq, Structural)]
pub struct Grid {
    pub distance: Axis,
    pub velocity: Axis,
    pub target_height: Fixed,
}

/// Everything a sweep depends on.
#[derive(Clone, Copy, Debug, PartialEq, Eq, Structural)]
pub struct SimulationConfig {
    pub physics: Physics,
    pub grid: Grid,
    pub solver: SolverSettings,
}

impl Projectile {
    /// The standard value.
    pub open spec fn spec_standard() -> Projectile {
        Projectile {
            mass: Fixed { raw: 750_000_000_000 },
            x_surface_area: Fixed { raw: 17_500_000_000 },
            y_surface_area: Fixed { raw: 48_600_000_000 },
            x_drag_coefficient: Fixed { raw: 1_875_000_000_000 },
            y_drag_coefficient: Fixed { raw: 2_500_000_000_000 },
        }
    }

    /// A projectile of 0.75 kg with cross sections of 0.0175 m^2 and
    /// 0.0486 m^2 and drag coefficients 1.875 and 2.5.
    #[verifier::when_used_as_spec(spec_standard)]
    pub fn standard() -> (r: Projectile)
        ensures
            r == Projectile::spec_standard(),
    {
        Projectile {
            mass: Fixed::from_raw(750_000_000_000),
            x_surface_area: Fixed::from_raw(17_500_000_000),
            y_surface_area: Fixed::from_raw(48_600_000_000),
            x_drag_coefficient: Fixed::from_raw(1_875_000_000_000),
            y_drag_coefficient: Fixed::from_raw(2_500_000_000_000),
        }
    }
}

impl Physics {
    /// The standard value.
    pub open spec fn spec_standard() -> Physics {
        Physics {
            gravity: Fixed { raw: 9_800_000_000_000 },
            air_density: Fixed { raw: 1_293_000_000_000 },
            timestep: Fixed { raw: 20_000_000 },
            max_steps: 10_000_000,
            decomposition: Decomposition::Trigonometric,
            projectile: Projectile::spec_standard(),
        }
    }

    /// Gravity 9.8 m/s^2, air of 1.293 kg/m^3, steps of 0.00002 s and at
    /// most ten million of them, the trigonometric split, the standard
    /// projectile.
    #[verifier::when_used_as_spec(spec_standard)]
    pub fn standard() -> (r: Physics)
        ensures
            r == Physics::spec_standard(),
    {
        Physics {
            gravity: Fixed::from_raw(9_800_000_000_000),
            air_density: Fixed::from_raw(1_293_000_000_000),
            timestep: Fixed::from_raw(20_000_000),
            max_steps: 10_000_000,
            decomposition: Decomposition::Trigonometric,
            projectile: Projectile::standard(),
        }
    }
}

impl Grid {
    /// The standard value.
    pub open spec fn spec_standard() -> Grid {
        Grid {
            distance: Axis {
                min: Fixed { raw: 0 },
                max: Fixed { raw: 8_000_000_000_000 },
                step: Fixed { raw: 100_000_000_000 },
            },
            velocity: Axis {
                min: Fixed { raw: 7_500_000_000_000 },
                max: Fixed { raw: 12_500_000_000_000 },
                step: Fixed { raw: 100_000_000_000 },
            },
            target_height: Fixed { raw: 2_100_000_000_000 },
        }
    }

    /// Distances from 0 m to 8 m and velocities from 7.5 m/s to 12.5 m/s,
    /// both in steps of 0.1, with the target 2.1 m above the launch point.
    #[verifier::when_used_as_spec(spec_standard)]
    pub fn standard() -> (r: Grid)
        ensures
            r == Grid::spec_standard(),
    {
        Grid {
            distance: Axis {
                min: Fixed::from_raw(0),
                max: Fixed::from_raw(8_000_000_000_000),
                step: Fixed::from_raw(100_000_000_000),
            },
            velocity: Axis {
                min: Fixed::from_raw(7_500_000_000_000),
                max: Fixed::from_raw(12_500_000_000_000),
                step: Fixed::from_raw(100_000_000_000),
            },
            target_height: Fixed::from_raw(2_100_000_000_000),
        }
    }
}

impl SolverSettings {
    /// The standard value.
    pub open spec fn spec_standard() -> SolverSettings {
        SolverSettings {
            tolerance: Fixed { raw: 100_000_000 },
            limit: 64,
            strategy: SearchStrategy::WholeRange,
        }
    }

    /// A tolerance of 0.0001 m and a limit of 64, starting from the whole
    /// range.
    #[verifier::when_used_as_spec(spec_standard)]
    pub fn standard() -> (r: SolverSettings)
        ensures
            r == SolverSettings::spec_standard(),
    {
        SolverSettings {
            tolerance: Fixed::from_raw(100_000_000),
            limit: 64,
            strategy: SearchStrategy::WholeRange,
        }
    }
}

impl SimulationConfig {
    /// The standard value.
    pub open spec fn spec_standard() -> SimulationConfig {
        SimulationConfig {
            physics: Physics::spec_standard(),
            grid: Grid::spec_standard(),
            solver: SolverSettings::spec_standard(),
        }
    }

    /// The standard physics, grid and solver settings.
    #[verifier::when_used_as_spec(spec_standard)]
    pub fn standard() -> (r: SimulationConfig)
        ensures
            r == SimulationConfig::spec_standard(),
    {
        SimulationConfig {
            physics: Physics::standard(),
            grid: Grid::standard(),
            solver: SolverSettings::standard(),
        }
    }
}

} // verus!
