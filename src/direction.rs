//! Principal directions, rotation axes and turn senses, and the rule that
//! turns a grabbed face and a drag direction into an axis and a sense.

use vstd::prelude::*;

verus! {

/// Sense of a quarter turn about an axis, seen from the axis' positive end:
/// `Ccw` is a positive (right-handed) quarter turn, `Cw` a negative one.
#[derive(Debug, Clone, Copy, PartialEq, Eq, Structural)]
pub enum Rotation {
    Cw,
    Ccw,
}

/// One of the three principal axes of the cube.
#[derive(Debug, Clone, Copy, PartialEq, Eq, Structural)]
pub enum Axis {
    X,
    Y,
    Z,
}

/// One of the six principal unit directions: the outward normal of a face, or
/// the world axis along which the pointer is dragged.
#[derive(Debug, Clone, Copy, PartialEq, Eq, Structural)]
pub enum Direction {
    X,
    NegX,
    Y,
    NegY,
    Z,
    NegZ,
}

impl Rotation {
    /// The opposite sense.
    pub open spec fn reversed(self) -> Rotation {
        match self {
            Rotation::Cw => Rotation::Ccw,
            Rotation::Ccw => Rotation::Cw,
        }
    }
}

/// Unit vector of an axis.
pub open spec fn axis_vector(axis: Axis) -> (int, int, int) {
    match axis {
        Axis::X => (1, 0, 0),
        Axis::Y => (0, 1, 0),
        Axis::Z => (0, 0, 1),
    }
}

/// Cross product of two integer vectors.
pub open spec fn cross(a: (int, int, int), b: (int, int, int)) -> (int, int, int) {
    (a.1 * b.2 - a.2 * b.1, a.2 * b.0 - a.0 * b.2, a.0 * b.1 - a.1 * b.0)
}

/// Component-wise absolute value.
pub open spec fn abs3(v: (int, int, int)) -> (int, int, int) {
    (
        if v.0 < 0 { -v.0 } else { v.0 },
        if v.1 < 0 { -v.1 } else { v.1 },
        if v.2 < 0 { -v.2 } else { v.2 },
    )
}

/// Axis and sense of the turn that dragging along `direction` on the face with
/// outward normal `normal` asks for: the axis is `|normal × direction|`, and the
/// turn is `Cw` exactly when some component of the cross product is negative.
pub open spec fn resolve(normal: Direction, direction: Direction) -> (Axis, Rotation) {
    let c = cross(normal.vector(), direction.vector());
    let axis = if c.0 != 0 {
        Axis::X
    } else if c.1 != 0 {
        Axis::Y
    } else {
        Axis::Z
    };
    let rotation = if c.0 < 0 || c.1 < 0 || c.2 < 0 {
        Rotation::Cw
    } else {
        Rotation::Ccw
    };
    (axis, rotation)
}

impl Direction {
    /// The unit vector of the direction.
    pub open spec fn vector(self) -> (int, int, int) {
        match self {
            Direction::X => (1, 0, 0),
            Direction::NegX => (-1, 0, 0),
            Direction::Y => (0, 1, 0),
            Direction::NegY => (0, -1, 0),
            Direction::Z => (0, 0, 1),
            Direction::NegZ => (0, 0, -1),
        }
    }

    /// The axis the direction lies on.
    pub open spec fn axis_spec(self) -> Axis {
        match self {
            Direction::X | Direction::NegX => Axis::X,
            Direction::Y | Direction::NegY => Axis::Y,
            Direction::Z | Direction::NegZ => Axis::Z,
        }
    }

    /// The opposite direction.
    pub open spec fn opposite_spec(self) -> Direction {
        match self {
            Direction::X => Direction::NegX,
            Direction::NegX => Direction::X,
            Direction::Y => Direction::NegY,
            Direction::NegY => Direction::Y,
            Direction::Z => Direction::NegZ,
            Direction::NegZ => Direction::Z,
        }
    }

    /// The axis the direction lies on.
    #[verifier::when_used_as_spec(axis_spec)]
    pub fn axis(self) -> (r: Axis)
        ensures
            r == self.axis_spec(),
    {
        match self {
            Direction::X | Direction::NegX => Axis::X,
            Direction::Y | Direction::NegY => Axis::Y,
            Direction::Z | Direction::NegZ => Axis::Z,
        }
    }

    /// The opposite direction.
    #[verifier::when_used_as_spec(opposite_spec)]
    pub fn opposite(self) -> (r: Direction)
        ensures
            r == self.opposite_spec(),
            r.axis() == self.axis(),
            r.vector() == (-self.vector().0, -self.vector().1, -self.vector().2),
    {
        match self {
            Direction::X => Direction::NegX,
            Direction::NegX => Direction::X,
            Direction::Y => Direction::NegY,
            Direction::NegY => Direction::Y,
            Direction::Z => Direction::NegZ,
            Direction::NegZ => Direction::Z,
        }
    }

    /// The components of the unit vector.
    pub fn components(self) -> (r: (i32, i32, i32))
        ensures
            (r.0 as int, r.1 as int, r.2 as int) == self.vector(),
    {
        match self {
            Direction::X => (1, 0, 0),
            Direction::NegX => (-1, 0, 0),
            Direction::Y => (0, 1, 0),
            Direction::NegY => (0, -1, 0),
            Direction::Z => (0, 0, 1),
            Direction::NegZ => (0, 0, -1),
        }
    }
}

/// Product with a unit component.
proof fn lemma_unit_mul(x: int, y: int)
    requires
        -1 <= x <= 1,
    ensures
        x * y == (if x == 0 {
            0
        } else if x == 1 {
            y
        } else {
            -y
        }),
{
    assert(x * y == (if x == 0 {
        0
    } else if x == 1 {
        y
    } else {
        -y
    })) by (nonlinear_arith)
        requires
            -1 <= x <= 1,
    ;
}

/// For a normal and a drag direction on different axes, the cross product is
/// the unit vector of the resolved axis up to sign, and reversing the drag
/// keeps the axis and reverses the sense.
pub proof fn lemma_resolve(normal: Direction, direction: Direction)
    requires
        normal.axis() != direction.axis(),
    ensures
        abs3(cross(normal.vector(), direction.vector())) == axis_vector(resolve(normal, direction).0),
        resolve(normal, direction.opposite()).0 == resolve(normal, direction).0,
        resolve(normal, direction.opposite()).1 == resolve(normal, direction).1.reversed(),
{
    let n = normal.vector();
    let d = direction.vector();
    let e = direction.opposite().vector();
    lemma_unit_mul(n.0, d.1);
    lemma_unit_mul(n.0, d.2);
    lemma_unit_mul(n.1, d.0);
    lemma_unit_mul(n.1, d.2);
    lemma_unit_mul(n.2, d.0);
    lemma_unit_mul(n.2, d.1);
    lemma_unit_mul(n.0, e.1);
    lemma_unit_mul(n.0, e.2);
    lemma_unit_mul(n.1, e.0);
    lemma_unit_mul(n.1, e.2);
    lemma_unit_mul(n.2, e.0);
    lemma_unit_mul(n.2, e.1);
    match normal {
        Direction::X => match direction {
            Direction::X => {},
            Direction::NegX => {},
            Direction::Y => {},
            Direction::NegY => {},
            Direction::Z => {},
            Direction::NegZ => {},
        },
        Direction::NegX => match direction {
            Direction::X => {},
            Direction::NegX => {},
            Direction::Y => {},
            Direction::NegY => {},
            Direction::Z => {},
            Direction::NegZ => {},
        },
        Direction::Y => match direction {
            Direction::X => {},
            Direction::NegX => {},
            Direction::Y => {},
            Direction::NegY => {},
            Direction::Z => {},
            Direction::NegZ => {},
        },
        Direction::NegY => match direction {
            Direction::X => {},
            Direction::NegX => {},
            Direction::Y => {},
            Direction::NegY => {},
            Direction::Z => {},
            Direction::NegZ => {},
        },
        Direction::Z => match direction {
            Direction::X => {},
            Direction::NegX => {},
            Direction::Y => {},
            Direction::NegY => {},
            Direction::Z => {},
            Direction::NegZ => {},
        },
        Direction::NegZ => match direction {
            Direction::X => {},
            Direction::NegX => {},
            Direction::Y => {},
            Direction::NegY => {},
            Direction::Z => {},
            Direction::NegZ => {},
        },
    }
}

} // verus!
