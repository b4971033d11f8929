//! Logical model of a Rubik's cube: the coordinate mapping of its sub-cubes,
//! layer selection, layer turns as permutations, the resolution of a drag
//! gesture into an axis and a turn direction, and the drag controller that
//! keeps the on-screen turn in step with the logical state.

pub mod coords;
pub mod direction;
pub mod turn;
pub mod cube;
pub mod controller;

pub use controller::{LayerTurn, RotationController, QUARTER_TURN};
pub use cube::RubiksCube;
pub use direction::{Axis, Direction, Rotation};
