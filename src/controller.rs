//! The drag controller: the decisions taken while a layer is grabbed, dragged
//! and released, kept apart from the rendering and input that drive them.
//!
//! Angles are whole hundredths of a degree. The controller records the visual
//! turn it has asked for since the grab; on release it asks for the rest of a
//! quarter turn and commits the logical turn, or undoes the visual turn.

use crate::cube::RubiksCube;
use crate::direction::{resolve, Axis, Direction, Rotation};
use crate::turn::turn;
use vstd::prelude::*;

verus! {

/// A quarter turn, in hundredths of a degree.
pub const QUARTER_TURN: i32 = 9000;

/// A visual turn to apply: turn by `delta` (hundredths of a degree,
/// right-handed) about `axis` the layer that holds the sub-cube of original
/// index `cube_id`.
#[derive(Debug, Clone, Copy, PartialEq, Eq)]
pub struct LayerTurn {
    pub cube_id: usize,
    pub axis: Axis,
    pub delta: i32,
}

/// State of a grab-and-drag gesture on the cube.
#[derive(Debug, Clone, Copy)]
pub struct RotationController {
    /// Original index of the grabbed sub-cube.
    pub selected: Option<usize>,
    /// Outward normal of the grabbed face.
    pub normal: Option<Direction>,
    /// World axis the drag runs along, fixed once found.
    pub direction: Option<Direction>,
    /// Visual turn applied to the layer since the grab.
    pub angle: i32,
}

/// The drag amount clamped to a quarter turn either way.
pub open spec fn clamp_quarter(amount: int) -> int {
    if amount > QUARTER_TURN {
        QUARTER_TURN as int
    } else if amount < -QUARTER_TURN {
        -QUARTER_TURN
    } else {
        amount
    }
}

/// Visual angle for a drag of `amount` along the drag axis: the clamped
/// amount, negative for a `Cw` turn.
pub open spec fn drag_angle(rotation: Rotation, amount: int) -> int {
    if rotation == Rotation::Cw {
        -clamp_quarter(amount)
    } else {
        clamp_quarter(amount)
    }
}

/// Whether a release at visual angle `angle` commits the turn: the angle
/// reaches half a quarter turn either way.
pub open spec fn commits(angle: int) -> bool {
    angle >= QUARTER_TURN / 2 || angle <= -(QUARTER_TURN / 2)
}

/// The visual angle a release settles at: a full quarter turn in the sense of
/// `angle` when it commits, none otherwise.
pub open spec fn settled_angle(angle: int) -> int {
    if !commits(angle) {
        0
    } else if angle > 0 {
        QUARTER_TURN as int
    } else {
        -QUARTER_TURN
    }
}

impl RotationController {
    /// The visual angle stays within a quarter turn either way, and a drag
    /// axis is only held for a grabbed face it is not normal to.
    pub open spec fn wf(&self) -> bool {
        &&& -QUARTER_TURN <= self.angle <= QUARTER_TURN
        &&& self.direction matches Some(d) ==> (self.normal matches Some(n) && d.axis() != n.axis())
    }

    /// Nothing grabbed.
    pub open spec fn is_idle(&self) -> bool {
        &&& self.selected is None
        &&& self.normal is None
        &&& self.direction is None
        &&& self.angle == 0
    }

    /// The drag axis after a drag step offering `candidate`: the first
    /// candidate that is not along the grabbed face's normal is kept.
    pub open spec fn locked_direction(&self, candidate: Option<Direction>) -> Option<Direction> {
        if self.selected is Some && self.direction is None && (candidate matches Some(d) && (self.normal matches Some(
            n,
        ) && d.axis() != n.axis())) {
            candidate
        } else {
            self.direction
        }
    }

    /// Whether a gesture is under way on a sub-cube of a cube of `count`
    /// sub-cubes, with its drag axis known.
    pub open spec fn pending(&self, count: int) -> bool {
        &&& self.selected matches Some(id) && id < count
        &&& self.normal is Some
        &&& self.direction is Some
    }

    /// An idle controller.
    pub fn new() -> (r: Self)
        ensures
            r.wf(),
            r.is_idle(),
    {
        RotationController { selected: None, normal: None, direction: None, angle: 0 }
    }

    /// Pointer pressed: `hit` is the sub-cube under the pointer with the
    /// outward normal of the face hit, if any. A new gesture starts from there.
    pub fn press(&mut self, hit: Option<(usize, Direction)>)
        ensures
            final(self).wf(),
            final(self).selected == (match hit {
                Some(h) => Some(h.0),
                None => None,
            }),
            final(self).normal == (match hit {
                Some(h) => Some(h.1),
                None => None,
            }),
            final(self).direction is None,
            final(self).angle == 0,
    {
        match hit {
            Some((cube_id, normal)) => {
                self.selected = Some(cube_id);
                self.normal = Some(normal);
            },
            None => {
                self.selected = None;
                self.normal = None;
            },
        }
        self.direction = None;
        self.angle = 0;
    }

    /// One frame of dragging: `candidate` is the world axis that best matches
    /// the pointer's movement and `amount` how far the pointer has moved along
    /// it, as an angle. Returns the visual turn to apply this frame, if the
    /// gesture has a grabbed face, a drag axis and an amount.
    pub fn drag(&mut self, candidate: Option<Direction>, amount: Option<i32>) -> (r: Option<LayerTurn>)
        requires
            old(self).wf(),
        ensures
            final(self).wf(),
            final(self).selected == old(self).selected,
            final(self).normal == old(self).normal,
            final(self).direction == old(self).locked_direction(candidate),
            match (final(self).selected, final(self).normal, final(self).direction, amount) {
                (Some(id), Some(n), Some(d), Some(m)) => {
                    &&& final(self).angle == drag_angle(resolve(n, d).1, m as int)
                    &&& r matches Some(t)
                    &&& t.cube_id == id
                    &&& t.axis == resolve(n, d).0
                    &&& t.delta == final(self).angle - old(self).angle
                },
                _ => r is None && final(self).angle == old(self).angle,
            },
    {
        if let (Some(_), Some(normal), None, Some(d)) = (self.selected, self.normal, self.direction, candidate) {
            if d.axis() != normal.axis() {
                self.direction = Some(d);
            }
        }
        match (self.selected, self.normal, self.direction, amount) {
            (Some(cube_id), Some(normal), Some(direction), Some(amount)) => {
                let (axis, rotation) = RubiksCube::select_axis_and_rotation(normal, direction);
                let clamped = if amount > QUARTER_TURN {
                    QUARTER_TURN
                } else if amount < -QUARTER_TURN {
                    -QUARTER_TURN
                } else {
                    amount
                };
                let target = if rotation == Rotation::Cw {
                    -clamped
                } else {
                    clamped
                };
                let delta = target - self.angle;
                self.angle = target;
                Some(LayerTurn { cube_id, axis, delta })
            },
            _ => None,
        }
    }

    /// Pointer released. If a gesture was under way, returns the visual turn
    /// that brings the layer to its settled angle: a full quarter turn when
    /// the visual angle reaches half of one, in which case the logical turn in
    /// the same sense is committed to `cube`; back to where it started
    /// otherwise. The controller is idle afterwards.
    pub fn release(&mut self, cube: &mut RubiksCube) -> (r: Option<LayerTurn>)
        requires
            old(self).wf(),
            old(cube).wf(),
        ensures
            final(self).wf(),
            final(self).is_idle(),
            final(cube).wf(),
            final(cube).side_size == old(cube).side_size,
            !old(self).pending(old(cube).count()) ==> r is None && *final(cube) == *old(cube),
            old(self).pending(old(cube).count()) ==> {
                let id = old(self).selected->0;
                let axis = resolve(old(self).normal->0, old(self).direction->0).0;
                let angle = old(self).angle as int;
                &&& r matches Some(t)
                &&& t.cube_id == id
                &&& t.axis == axis
                &&& angle + t.delta == settled_angle(angle)
                &&& commits(angle) ==> final(cube).pos_to_cube@ == turn(
                    old(cube).pos_to_cube@,
                    old(cube).side_size as int,
                    axis,
                    old(cube).layer_of(id as int, axis),
                    if angle > 0 {
                        Rotation::Ccw
                    } else {
                        Rotation::Cw
                    },
                )
                &&& !commits(angle) ==> *final(cube) == *old(cube)
            },
    {
        let result = match (self.selected, self.normal, self.direction) {
            (Some(cube_id), Some(normal), Some(direction)) => {
                if cube_id < cube.pos_to_cube.len() {
                    let (axis, rotation) = RubiksCube::select_axis_and_rotation(normal, direction);
                    let angle = self.angle;
                    let delta = if angle >= QUARTER_TURN / 2 || angle <= -(QUARTER_TURN / 2) {
                        let drag = if (angle > 0) == (rotation == Rotation::Ccw) {
                            direction
                        } else {
                            direction.opposite()
                        };
                        proof {
                            crate::direction::lemma_resolve(normal, direction);
                        }
                        cube.rotate(cube_id, normal, drag);
                        if angle > 0 {
                            QUARTER_TURN - angle
                        } else {
                            -QUARTER_TURN - angle
                        }
                    } else {
                        -angle
                    };
                    Some(LayerTurn { cube_id, axis, delta })
                } else {
                    None
                }
            },
            _ => None,
        };
        self.selected = None;
        self.normal = None;
        self.direction = None;
        self.angle = 0;
        result
    }
}

} // verus!
