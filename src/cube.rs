//! State of the cube: which sub-cube occupies which position, and the inverse
//! mapping, with the operations that read and turn it.

use crate::coords::{coords_of, lemma_pos_in_range, lemma_pos_round_trip, pos_of, volume};
use crate::direction::{cross, lemma_resolve, resolve, Axis, Direction, Rotation};
use crate::turn::{
    axis_coord, dest, in_layer, lemma_dest, lemma_index_of, lemma_layer_listing, lemma_layer_pos,
    lemma_turned_index, layer_index, layer_pos, solved, source, turn, turned_index,
};
use vstd::prelude::*;

verus! {

/// Whether a cube of edge `s` can be indexed with `u32` positions.
pub open spec fn fits(s: int) -> bool {
    0 < s && volume(s) <= u32::MAX
}

/// Whether `r` lists the layer `fixed` about `axis` in the layer order.
pub open spec fn is_listing(r: Seq<u32>, s: int, axis: Axis, fixed: int) -> bool {
    &&& r.len() == s * s
    &&& forall|k: int| 0 <= k < s * s ==> #[trigger] r[k] as int == layer_pos(s, axis, fixed, k)
}

/// A listing of a layer holds `s²` distinct positions of that layer.
pub proof fn lemma_listing(r: Seq<u32>, s: int, axis: Axis, fixed: int)
    requires
        0 < s,
        0 <= fixed < s,
        is_listing(r, s, axis, fixed),
    ensures
        r.no_duplicates(),
        forall|k: int| 0 <= k < r.len() ==> in_layer(s, axis, fixed, #[trigger] r[k] as int),
{
    assert forall|k: int| 0 <= k < r.len() implies in_layer(s, axis, fixed, #[trigger] r[k] as int) by {
        lemma_layer_pos(s, axis, fixed, k);
    }
    assert forall|i: int, j: int| 0 <= i < r.len() && 0 <= j < r.len() && i != j implies r[i] != r[j] by {
        lemma_layer_pos(s, axis, fixed, j);
        lemma_layer_listing(s, axis, fixed, i, r[j] as int);
        lemma_layer_listing(s, axis, fixed, j, r[j] as int);
    }
}

/// The logical cube: `pos_to_cube[p]` is the handle of the sub-cube at
/// position `p` together with its original index (the position it occupies
/// when solved), and `cube_to_pos[i]` is the position of the sub-cube of
/// original index `i`.
#[derive(Debug, Clone)]
pub struct RubiksCube {
    pub side_size: u32,
    pub pos_to_cube: Vec<(u64, usize)>,
    pub cube_to_pos: Vec<u32>,
}

impl RubiksCube {
    /// Number of sub-cubes.
    pub open spec fn count(&self) -> int {
        volume(self.side_size as int)
    }

    /// The two mappings cover all `side_size³` sub-cubes and are inverse
    /// bijections of each other.
    pub open spec fn wf(&self) -> bool {
        let n = self.count();
        &&& 2 <= self.side_size
        &&& fits(self.side_size as int)
        &&& self.pos_to_cube@.len() == n
        &&& self.cube_to_pos@.len() == n
        &&& forall|p: int|
            0 <= p < n ==> {
                &&& (#[trigger] self.pos_to_cube@[p]).1 < n
                &&& self.cube_to_pos@[self.pos_to_cube@[p].1 as int] == p
            }
        &&& forall|i: int|
            0 <= i < n ==> {
                &&& (#[trigger] self.cube_to_pos@[i]) < n
                &&& self.pos_to_cube@[self.cube_to_pos@[i] as int].1 == i
            }
    }

    /// Position of the grid cell `(x, y, z)` in a cube of edge `side_size`.
    pub fn corrds_to_pos(side_size: u32, x: u32, y: u32, z: u32) -> (r: u32)
        requires
            fits(side_size as int),
            x < side_size,
            y < side_size,
            z < side_size,
        ensures
            r == pos_of(side_size as int, x as int, y as int, z as int),
            r < volume(side_size as int),
    {
        let s = side_size;
        proof {
            lemma_pos_in_range(s as int, x as int, y as int, z as int);
            assert(x * s <= x * s * s) by (nonlinear_arith)
                requires
                    1 <= s,
            ;
            assert(y * s <= pos_of(s as int, x as int, y as int, z as int)) by (nonlinear_arith)
                requires
                    0 <= x * s * s,
            ;
        }
        x * s * s + y * s + z
    }

    /// Position of the grid cell `(x, y, z)` in this cube.
    pub fn cube_corrds_to_pos(&self, x: u32, y: u32, z: u32) -> (r: u32)
        requires
            fits(self.side_size as int),
            x < self.side_size,
            y < self.side_size,
            z < self.side_size,
        ensures
            r == pos_of(self.side_size as int, x as int, y as int, z as int),
            r < self.count(),
    {
        Self::corrds_to_pos(self.side_size, x, y, z)
    }

    /// Grid coordinates of a position: its digits in base `side_size`.
    pub fn pos_to_qube_coords(&self, cube_pos: u32) -> (r: (u32, u32, u32))
        requires
            0 < self.side_size,
        ensures
            (r.0 as int, r.1 as int, r.2 as int) == coords_of(self.side_size as int, cube_pos as int),
    {
        let s = self.side_size;
        let mut rest = cube_pos;
        let z = rest % s;
        rest = rest / s;
        let y = rest % s;
        rest = rest / s;
        let x = rest % s;
        (x, y, z)
    }

    /// The layer of cells with first coordinate `x`, row by row over `y`,
    /// each row over `z`, both ascending.
    pub fn select_x_layer(&self, x: u32) -> (r: Vec<u32>)
        requires
            fits(self.side_size as int),
            x < self.side_size,
        ensures
            is_listing(r@, self.side_size as int, Axis::X, x as int),
            r@.no_duplicates(),
            forall|k: int| 0 <= k < r@.len() ==> in_layer(self.side_size as int, Axis::X, x as int, #[trigger] r@[k] as int),
    {
        let s = self.side_size;
        let ghost si = s as int;
        let mut r: Vec<u32> = Vec::new();
        let mut y: u32 = 0;
        while y < s
            invariant
                fits(si),
                si == self.side_size,
                s == self.side_size,
                x < s,
                y <= s,
                r@.len() == y * si,
                forall|k: int| 0 <= k < r@.len() ==> #[trigger] r@[k] as int == layer_pos(si, Axis::X, x as int, k),
            decreases s - y,
        {
            let mut z: u32 = 0;
            while z < s
                invariant
                    fits(si),
                    si == self.side_size,
                    s == self.side_size,
                    x < s,
                    y < s,
                    z <= s,
                    r@.len() == y * si + z,
                    forall|k: int| 0 <= k < r@.len() ==> #[trigger] r@[k] as int == layer_pos(si, Axis::X, x as int, k),
                decreases s - z,
            {
                proof {
                    lemma_index_of(si, y as int, z as int);
                }
                let p = self.cube_corrds_to_pos(x, y, z);
                r.push(p);
                z += 1;
            }
            proof {
                assert(y * si + si == (y + 1) * si) by (nonlinear_arith);
            }
            y += 1;
        }
        proof {
            lemma_listing(r@, si, Axis::X, x as int);
        }
        r
    }

    /// The layer of cells with second coordinate `y`, row by row over `x`
    /// descending, each row over `z` ascending.
    pub fn select_y_layer(&self, y: u32) -> (r: Vec<u32>)
        requires
            fits(self.side_size as int),
            y < self.side_size,
        ensures
            is_listing(r@, self.side_size as int, Axis::Y, y as int),
            r@.no_duplicates(),
            forall|k: int| 0 <= k < r@.len() ==> in_layer(self.side_size as int, Axis::Y, y as int, #[trigger] r@[k] as int),
    {
        let s = self.side_size;
        let ghost si = s as int;
        let mut r: Vec<u32> = Vec::new();
        let mut a: u32 = 0;
        while a < s
            invariant
                fits(si),
                si == self.side_size,
                s == self.side_size,
                y < s,
                a <= s,
                r@.len() == a * si,
                forall|k: int| 0 <= k < r@.len() ==> #[trigger] r@[k] as int == layer_pos(si, Axis::Y, y as int, k),
            decreases s - a,
        {
            let x = s - 1 - a;
            let mut z: u32 = 0;
            while z < s
                invariant
                    fits(si),
                    si == self.side_size,
                    s == self.side_size,
                    y < s,
                    a < s,
                    x == s - 1 - a,
                    z <= s,
                    r@.len() == a * si + z,
                    forall|k: int| 0 <= k < r@.len() ==> #[trigger] r@[k] as int == layer_pos(si, Axis::Y, y as int, k),
                decreases s - z,
            {
                proof {
                    lemma_index_of(si, a as int, z as int);
                }
                let p = self.cube_corrds_to_pos(x, y, z);
                r.push(p);
                z += 1;
            }
            proof {
                assert(a * si + si == (a + 1) * si) by (nonlinear_arith);
            }
            a += 1;
        }
        proof {
            lemma_listing(r@, si, Axis::Y, y as int);
        }
        r
    }

    /// The layer of cells with third coordinate `z`, row by row over `y`
    /// ascending, each row over `x` descending.
    pub fn select_z_layer(&self, z: u32) -> (r: Vec<u32>)
        requires
            fits(self.side_size as int),
            z < self.side_size,
        ensures
            is_listing(r@, self.side_size as int, Axis::Z, z as int),
            r@.no_duplicates(),
            forall|k: int| 0 <= k < r@.len() ==> in_layer(self.side_size as int, Axis::Z, z as int, #[trigger] r@[k] as int),
    {
        let s = self.side_size;
        let ghost si = s as int;
        let mut r: Vec<u32> = Vec::new();
        let mut y: u32 = 0;
        while y < s
            invariant
                fits(si),
                si == self.side_size,
                s == self.side_size,
                z < s,
                y <= s,
                r@.len() == y * si,
                forall|k: int| 0 <= k < r@.len() ==> #[trigger] r@[k] as int == layer_pos(si, Axis::Z, z as int, k),
            decreases s - y,
        {
            let mut b: u32 = 0;
            while b < s
                invariant
                    fits(si),
                    si == self.side_size,
                    s == self.side_size,
                    z < s,
                    y < s,
                    b <= s,
                    r@.len() == y * si + b,
                    forall|k: int| 0 <= k < r@.len() ==> #[trigger] r@[k] as int == layer_pos(si, Axis::Z, z as int, k),
                decreases s - b,
            {
                proof {
                    lemma_index_of(si, y as int, b as int);
                }
                let x = s - 1 - b;
                let p = self.cube_corrds_to_pos(x, y, z);
                r.push(p);
                b += 1;
            }
            proof {
                assert(y * si + si == (y + 1) * si) by (nonlinear_arith);
            }
            y += 1;
        }
        proof {
            lemma_listing(r@, si, Axis::Z, z as int);
        }
        r
    }

    /// Coordinate along `axis` of the current position of the sub-cube of
    /// original index `cube_id`: the layer that a turn about `axis` through
    /// that sub-cube moves.
    pub open spec fn layer_of(&self, cube_id: int, axis: Axis) -> int {
        axis_coord(axis, coords_of(self.side_size as int, self.cube_to_pos@[cube_id] as int))
    }

    /// The positions of the layer about `rotation_axis` that holds the
    /// sub-cube of original index `cube_id`, in the layer order.
    pub fn select_rotation(&self, cube_id: usize, rotation_axis: Axis) -> (r: Vec<u32>)
        requires
            self.wf(),
            cube_id < self.count(),
        ensures
            0 <= self.layer_of(cube_id as int, rotation_axis) < self.side_size,
            is_listing(r@, self.side_size as int, rotation_axis, self.layer_of(cube_id as int, rotation_axis)),
            r@.no_duplicates(),
            forall|k: int|
                0 <= k < r@.len() ==> in_layer(
                    self.side_size as int,
                    rotation_axis,
                    self.layer_of(cube_id as int, rotation_axis),
                    #[trigger] r@[k] as int,
                ),
    {
        let cube_pos = self.cube_to_pos[cube_id];
        let (x, y, z) = self.pos_to_qube_coords(cube_pos);
        proof {
            lemma_pos_round_trip(self.side_size as int, cube_pos as int);
        }
        match rotation_axis {
            Axis::X => self.select_x_layer(x),
            Axis::Y => self.select_y_layer(y),
            Axis::Z => self.select_z_layer(z),
        }
    }

    /// Handles of the sub-cubes in the layer about `rotation_axis` that holds
    /// the sub-cube of original index `cube_id`, in the layer order.
    pub fn select_rotation_entities(&self, cube_id: usize, rotation_axis: Axis) -> (r: Vec<u64>)
        requires
            self.wf(),
            cube_id < self.count(),
        ensures
            r@.len() == self.side_size * self.side_size,
            forall|k: int|
                0 <= k < r@.len() ==> #[trigger] r@[k] == self.pos_to_cube@[layer_pos(
                    self.side_size as int,
                    rotation_axis,
                    self.layer_of(cube_id as int, rotation_axis),
                    k,
                )].0,
    {
        let selection = self.select_rotation(cube_id, rotation_axis);
        let ghost fixed = self.layer_of(cube_id as int, rotation_axis);
        let mut r: Vec<u64> = Vec::new();
        let mut k: usize = 0;
        while k < selection.len()
            invariant
                self.wf(),
                is_listing(selection@, self.side_size as int, rotation_axis, fixed),
                forall|j: int| 0 <= j < selection@.len() ==> in_layer(self.side_size as int, rotation_axis, fixed, #[trigger] selection@[j] as int),
                k <= selection@.len(),
                r@.len() == k,
                forall|j: int|
                    0 <= j < k ==> #[trigger] r@[j] == self.pos_to_cube@[layer_pos(self.side_size as int, rotation_axis, fixed, j)].0,
            decreases selection.len() - k,
        {
            let p = selection[k];
            assert(in_layer(self.side_size as int, rotation_axis, fixed, selection@[k as int] as int));
            r.push(self.pos_to_cube[p as usize].0);
            k += 1;
        }
        r
    }

    /// Axis and sense of the turn that dragging along `direction` on the face
    /// with outward normal `normal` asks for: the axis is
    /// `|normal × direction|`, and the turn is `Cw` exactly when a component
    /// of the cross product is negative.
    pub fn select_axis_and_rotation(normal: Direction, direction: Direction) -> (r: (Axis, Rotation))
        requires
            normal.axis() != direction.axis(),
        ensures
            r == resolve(normal, direction),
            crate::direction::abs3(cross(normal.vector(), direction.vector())) == crate::direction::axis_vector(r.0),
    {
        proof {
            lemma_resolve(normal, direction);
        }
        let (nx, ny, nz) = normal.components();
        let (dx, dy, dz) = direction.components();
        let cx = ny * dz - nz * dy;
        let cy = nz * dx - nx * dz;
        let cz = nx * dy - ny * dx;
        assert((cx as int, cy as int, cz as int) == cross(normal.vector(), direction.vector()));
        let axis = if cx != 0 {
            Axis::X
        } else if cy != 0 {
            Axis::Y
        } else {
            Axis::Z
        };
        if cx < 0 || cy < 0 || cz < 0 {
            (axis, Rotation::Cw)
        } else {
            (axis, Rotation::Ccw)
        }
    }

    /// The listed layer `indices` in the order a quarter turn brings its
    /// sub-cubes into: entry `k` is the listed cell whose sub-cube the turn
    /// moves to the `k`-th listed cell.
    pub fn rotate_indices(&self, indices: &[u32], rotation: Rotation) -> (r: Vec<u32>)
        requires
            0 < self.side_size,
            indices@.len() >= self.side_size * self.side_size,
        ensures
            r@.len() == self.side_size * self.side_size,
            forall|k: int|
                0 <= k < r@.len() ==> #[trigger] r@[k] == indices@[turned_index(self.side_size as int, rotation, k)],
    {
        let s = self.side_size;
        let ghost si = s as int;
        let su = s as usize;
        let len = indices.len();
        let mut r: Vec<u32> = Vec::new();
        let mut a: u32 = 0;
        while a < s
            invariant
                len == indices@.len(),
                si == s,
                su == s,
                0 < s,
                indices@.len() >= si * si,
                a <= s,
                r@.len() == a * si,
                forall|k: int| 0 <= k < r@.len() ==> #[trigger] r@[k] == indices@[turned_index(si, rotation, k)],
            decreases s - a,
        {
            let mut b: u32 = 0;
            while b < s
                invariant
                    len == indices@.len(),
                    si == s,
                    su == s,
                    0 < s,
                    indices@.len() >= si * si,
                    a < s,
                    b <= s,
                    r@.len() == a * si + b,
                    forall|k: int| 0 <= k < r@.len() ==> #[trigger] r@[k] == indices@[turned_index(si, rotation, k)],
                decreases s - b,
            {
                let (i, j) = match rotation {
                    Rotation::Ccw => (a + 1, b + 1),
                    Rotation::Cw => (s - a, s - b),
                };
                proof {
                    lemma_index_of(si, a as int, b as int);
                    assert(su * (j as int) <= si * si) by (nonlinear_arith)
                        requires
                            su == si,
                            1 <= j <= si,
                    ;
                    assert(su * (j as int) >= si) by (nonlinear_arith)
                        requires
                            su == si,
                            1 <= j,
                            0 < si,
                    ;
                    let t = su * (j as int) - i;
                    assert(t == turned_index(si, rotation, a * si + b)) by (nonlinear_arith)
                        requires
                            t == su * (j as int) - i,
                            su == si,
                            (a * si + b) / si == a,
                            (a * si + b) % si == b,
                            rotation == Rotation::Ccw ==> i == a + 1 && j == b + 1,
                            rotation == Rotation::Cw ==> i == si - a && j == si - b,
                            turned_index(si, rotation, a * si + b) == (match rotation {
                                Rotation::Ccw => b * si + (si - 1 - a),
                                Rotation::Cw => (si - 1 - b) * si + a,
                            }),
                    ;
                }
                let idx = su * (j as usize) - (i as usize);
                r.push(indices[idx]);
                b += 1;
            }
            proof {
                assert(a * si + si == (a + 1) * si) by (nonlinear_arith);
            }
            a += 1;
        }
        r
    }

    /// A cube of edge `side_size` in its solved arrangement: position `p`
    /// holds the sub-cube of original index `p`, whose handle is `handles[p]`.
    pub fn new(side_size: u32, handles: Vec<u64>) -> (r: Self)
        requires
            2 <= side_size,
            fits(side_size as int),
            handles@.len() == volume(side_size as int),
        ensures
            r.wf(),
            r.side_size == side_size,
            solved(r.pos_to_cube@),
            forall|p: int| 0 <= p < r.count() ==> #[trigger] r.pos_to_cube@[p] == (handles@[p], p as usize),
            forall|i: int| 0 <= i < r.count() ==> #[trigger] r.cube_to_pos@[i] == i,
    {
        let n = handles.len();
        let mut pos_to_cube: Vec<(u64, usize)> = Vec::new();
        let mut cube_to_pos: Vec<u32> = Vec::new();
        let mut i: usize = 0;
        while i < n
            invariant
                n == handles@.len(),
                n <= u32::MAX,
                i <= n,
                pos_to_cube@.len() == i,
                cube_to_pos@.len() == i,
                forall|p: int| 0 <= p < i ==> #[trigger] pos_to_cube@[p] == (handles@[p], p as usize),
                forall|p: int| 0 <= p < i ==> #[trigger] cube_to_pos@[p] == p,
            decreases n - i,
        {
            pos_to_cube.push((handles[i], i));
            cube_to_pos.push(i as u32);
            i += 1;
        }
        RubiksCube { side_size, pos_to_cube, cube_to_pos }
    }

    /// Whether every position holds the sub-cube that started there.
    pub fn is_solved(&self) -> (r: bool)
        ensures
            r == solved(self.pos_to_cube@),
    {
        let mut i: usize = 0;
        while i < self.pos_to_cube.len()
            invariant
                i <= self.pos_to_cube@.len(),
                forall|p: int| 0 <= p < i ==> #[trigger] self.pos_to_cube@[p].1 == p,
            decreases self.pos_to_cube@.len() - i,
        {
            if self.pos_to_cube[i].1 != i {
                return false;
            }
            i += 1;
        }
        true
    }

    /// Turns, a quarter turn, the layer through the sub-cube of original index
    /// `cube_id` that a drag along `direction` on the face with outward
    /// normal `cube_normal` asks for: each sub-cube of that layer moves where
    /// the quarter turn takes its cell, and both mappings stay exact inverses.
    pub fn rotate(&mut self, cube_id: usize, cube_normal: Direction, direction: Direction)
        requires
            old(self).wf(),
            cube_id < old(self).count(),
            cube_normal.axis() != direction.axis(),
        ensures
            final(self).wf(),
            final(self).side_size == old(self).side_size,
            ({
                let (axis, rotation) = resolve(cube_normal, direction);
                let s = old(self).side_size as int;
                let fixed = old(self).layer_of(cube_id as int, axis);
                &&& 0 <= fixed < s
                &&& final(self).layer_of(cube_id as int, axis) == fixed
                &&& final(self).pos_to_cube@ == turn(old(self).pos_to_cube@, s, axis, fixed, rotation)
                &&& forall|i: int|
                    0 <= i < old(self).count() ==> #[trigger] final(self).cube_to_pos@[i] as int == dest(
                        s,
                        axis,
                        fixed,
                        rotation,
                        old(self).cube_to_pos@[i] as int,
                    )
            }),
    {
        let (axis, rotation) = Self::select_axis_and_rotation(cube_normal, direction);
        let selection = self.select_rotation(cube_id, axis);
        let rotated = self.rotate_indices(selection.as_slice(), rotation);
        let ghost s = self.side_size as int;
        let ghost fixed = self.layer_of(cube_id as int, axis);
        let ghost n = self.count();
        let ghost old_p = self.pos_to_cube@;
        let ghost old_c = self.cube_to_pos@;
        let ghost rev = rotation.reversed();
        assert(rev.reversed() == rotation);
        let m = selection.len();

        // What each listed cell receives, read before anything moves.
        let mut moved: Vec<(u64, usize)> = Vec::new();
        let mut k: usize = 0;
        while k < m
            invariant
                self.wf(),
                s == self.side_size,
                n == self.count(),
                self.pos_to_cube@ == old_p,
                0 <= fixed < s,
                m == s * s,
                is_listing(selection@, s, axis, fixed),
                rotated@.len() == m,
                forall|j: int| 0 <= j < m ==> #[trigger] rotated@[j] == selection@[turned_index(s, rotation, j)],
                k <= m,
                moved@.len() == k,
                forall|j: int|
                    0 <= j < k ==> #[trigger] moved@[j] == old_p[source(s, axis, fixed, rotation, layer_pos(s, axis, fixed, j))],
            decreases m - k,
        {
            proof {
                lemma_turned_index(s, axis, fixed, rotation, k as int);
                lemma_layer_pos(s, axis, fixed, turned_index(s, rotation, k as int));
                assert(selection@[turned_index(s, rotation, k as int)] as int == layer_pos(s, axis, fixed, turned_index(s, rotation, k as int)));
            }
            let r = rotated[k];
            moved.push(self.pos_to_cube[r as usize]);
            k += 1;
        }

        // Each listed cell takes its new sub-cube.
        k = 0;
        while k < m
            invariant
                s == self.side_size,
                fits(s),
                2 <= s,
                n == self.count(),
                self.pos_to_cube@.len() == n,
                self.cube_to_pos@ == old_c,
                0 <= fixed < s,
                m == s * s,
                is_listing(selection@, s, axis, fixed),
                moved@.len() == m,
                forall|j: int|
                    0 <= j < m ==> #[trigger] moved@[j] == old_p[source(s, axis, fixed, rotation, layer_pos(s, axis, fixed, j))],
                k <= m,
                forall|p: int|
                    0 <= p < n ==> #[trigger] self.pos_to_cube@[p] == if in_layer(s, axis, fixed, p) && layer_index(s, axis, p) < k {
                        old_p[source(s, axis, fixed, rotation, p)]
                    } else {
                        old_p[p]
                    },
            decreases m - k,
        {
            let p = selection[k];
            proof {
                lemma_layer_pos(s, axis, fixed, k as int);
                lemma_layer_listing(s, axis, fixed, k as int, p as int);
            }
            let ghost before = self.pos_to_cube@;
            self.pos_to_cube.set(p as usize, moved[k]);
            proof {
                assert forall|q: int| 0 <= q < n implies #[trigger] self.pos_to_cube@[q] == if in_layer(s, axis, fixed, q) && layer_index(s, axis, q) < k + 1 {
                    old_p[source(s, axis, fixed, rotation, q)]
                } else {
                    old_p[q]
                } by {
                    if in_layer(s, axis, fixed, q) {
                        lemma_layer_listing(s, axis, fixed, k as int, q);
                    }
                    if q != p as int {
                        assert(self.pos_to_cube@[q] == before[q]);
                    }
                }
            }
            k += 1;
        }
        proof {
            assert forall|p: int| 0 <= p < n implies #[trigger] self.pos_to_cube@[p] == old_p[source(s, axis, fixed, rotation, p)] by {
                if in_layer(s, axis, fixed, p) {
                    lemma_layer_listing(s, axis, fixed, 0, p);
                }
            }
            assert(self.pos_to_cube@ =~= turn(old_p, s, axis, fixed, rotation));
        }

        // Each moved sub-cube records its new position.
        k = 0;
        while k < m
            invariant
                s == self.side_size,
                fits(s),
                2 <= s,
                n == self.count(),
                self.pos_to_cube@ == turn(old_p, s, axis, fixed, rotation),
                self.cube_to_pos@.len() == n,
                old_p.len() == n,
                old_c.len() == n,
                forall|q: int| 0 <= q < n ==> {
                    &&& (#[trigger] old_p[q]).1 < n
                    &&& old_c[old_p[q].1 as int] == q
                },
                forall|i: int| 0 <= i < n ==> {
                    &&& (#[trigger] old_c[i]) < n
                    &&& old_p[old_c[i] as int].1 == i
                },
                0 <= fixed < s,
                m == s * s,
                rev.reversed() == rotation,
                rev == rotation.reversed(),
                is_listing(selection@, s, axis, fixed),
                k <= m,
                forall|i: int|
                    0 <= i < n ==> #[trigger] self.cube_to_pos@[i] as int == if in_layer(s, axis, fixed, old_c[i] as int) && layer_index(s, axis, dest(s, axis, fixed, rotation, old_c[i] as int)) < k {
                        dest(s, axis, fixed, rotation, old_c[i] as int)
                    } else {
                        old_c[i] as int
                    },
            decreases m - k,
        {
            let p = selection[k];
            proof {
                lemma_layer_pos(s, axis, fixed, k as int);
                lemma_layer_listing(s, axis, fixed, k as int, p as int);
                lemma_dest(s, axis, fixed, rev, p as int);
            }
            let id = self.pos_to_cube[p as usize].1;
            let ghost src = source(s, axis, fixed, rotation, p as int);
            assert(id == old_p[src].1);
            assert(old_c[id as int] == src);
            let ghost before = self.cube_to_pos@;
            self.cube_to_pos.set(id, p);
            proof {
                assert forall|i: int| 0 <= i < n implies #[trigger] self.cube_to_pos@[i] as int == if in_layer(s, axis, fixed, old_c[i] as int) && layer_index(s, axis, dest(s, axis, fixed, rotation, old_c[i] as int)) < k + 1 {
                    dest(s, axis, fixed, rotation, old_c[i] as int)
                } else {
                    old_c[i] as int
                } by {
                    let c = old_c[i] as int;
                    lemma_dest(s, axis, fixed, rotation, c);
                    if in_layer(s, axis, fixed, c) {
                        lemma_layer_listing(s, axis, fixed, k as int, dest(s, axis, fixed, rotation, c));
                    }
                    if i != id as int {
                        assert(self.cube_to_pos@[i] == before[i]);
                        if in_layer(s, axis, fixed, c) && layer_index(s, axis, dest(s, axis, fixed, rotation, c)) == k {
                            assert(dest(s, axis, fixed, rotation, c) == p as int);
                            assert(c == src);
                            assert(false);
                        }
                    }
                }
            }
            k += 1;
        }
        proof {
            lemma_pos_round_trip(s, old_c[cube_id as int] as int);
            lemma_dest(s, axis, fixed, rotation, old_c[cube_id as int] as int);
            assert forall|i: int| 0 <= i < n implies #[trigger] self.cube_to_pos@[i] as int == dest(s, axis, fixed, rotation, old_c[i] as int) by {
                let c = old_c[i] as int;
                lemma_dest(s, axis, fixed, rotation, c);
                if in_layer(s, axis, fixed, c) {
                    lemma_layer_listing(s, axis, fixed, 0, dest(s, axis, fixed, rotation, c));
                }
            }
            assert forall|p: int| 0 <= p < n implies {
                &&& (#[trigger] self.pos_to_cube@[p]).1 < n
                &&& self.cube_to_pos@[self.pos_to_cube@[p].1 as int] == p
            } by {
                lemma_dest(s, axis, fixed, rev, p);
                let q = source(s, axis, fixed, rotation, p);
                assert(self.pos_to_cube@[p] == old_p[q]);
                assert(old_c[old_p[q].1 as int] == q);
            }
            assert forall|i: int| 0 <= i < n implies {
                &&& (#[trigger] self.cube_to_pos@[i]) < n
                &&& self.pos_to_cube@[self.cube_to_pos@[i] as int].1 == i
            } by {
                let c = old_c[i] as int;
                lemma_dest(s, axis, fixed, rotation, c);
                let d = dest(s, axis, fixed, rotation, c);
                assert(self.pos_to_cube@[d] == old_p[source(s, axis, fixed, rotation, d)]);
            }
        }
    }
}

} // verus!
