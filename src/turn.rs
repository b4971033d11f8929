//! Geometry of a layer turn: which cells make up a layer, in what order the
//! layer is listed, and where a quarter turn takes each cell.

use crate::coords::{coords_of, in_grid, lemma_coords_round_trip, lemma_pos_round_trip, pos_of3, volume};
use crate::direction::{Axis, Rotation};
use vstd::prelude::*;

verus! {

/// Coordinate of `c` along `axis`.
pub open spec fn axis_coord(axis: Axis, c: (int, int, int)) -> int {
    match axis {
        Axis::X => c.0,
        Axis::Y => c.1,
        Axis::Z => c.2,
    }
}

/// Where a quarter turn about `axis` takes the cell `c` of a cube of edge `s`,
/// the turn being about the cube's centre: `Ccw` turns by +90° (right-handed),
/// `Cw` by -90°.
pub open spec fn quarter(s: int, axis: Axis, rotation: Rotation, c: (int, int, int)) -> (int, int, int) {
    match (axis, rotation) {
        (Axis::X, Rotation::Ccw) => (c.0, s - 1 - c.2, c.1),
        (Axis::X, Rotation::Cw) => (c.0, c.2, s - 1 - c.1),
        (Axis::Y, Rotation::Ccw) => (c.2, c.1, s - 1 - c.0),
        (Axis::Y, Rotation::Cw) => (s - 1 - c.2, c.1, c.0),
        (Axis::Z, Rotation::Ccw) => (s - 1 - c.1, c.0, c.2),
        (Axis::Z, Rotation::Cw) => (c.1, s - 1 - c.0, c.2),
    }
}

/// Whether position `p` lies in the layer of cells whose coordinate along
/// `axis` is `fixed`.
pub open spec fn in_layer(s: int, axis: Axis, fixed: int, p: int) -> bool {
    0 <= p < volume(s) && axis_coord(axis, coords_of(s, p)) == fixed
}

/// Where the turn of layer `fixed` about `axis` takes the sub-cube at `p`.
pub open spec fn dest(s: int, axis: Axis, fixed: int, rotation: Rotation, p: int) -> int {
    if in_layer(s, axis, fixed, p) {
        pos_of3(s, quarter(s, axis, rotation, coords_of(s, p)))
    } else {
        p
    }
}

/// The position whose sub-cube the turn brings to `p`.
pub open spec fn source(s: int, axis: Axis, fixed: int, rotation: Rotation, p: int) -> int {
    dest(s, axis, fixed, rotation.reversed(), p)
}

/// Contents by position after turning layer `fixed` about `axis`: position `p`
/// holds what was at `source(p)`.
pub open spec fn turn<T>(cells: Seq<T>, s: int, axis: Axis, fixed: int, rotation: Rotation) -> Seq<T> {
    Seq::new(cells.len(), |p: int| cells[source(s, axis, fixed, rotation, p)])
}

/// Whether every position holds the sub-cube that started there.
pub open spec fn solved(cells: Seq<(u64, usize)>) -> bool {
    forall|p: int| 0 <= p < cells.len() ==> #[trigger] cells[p].1 == p
}

/// Cell `(a, b)` of the layer `fixed` about `axis`, in the order in which the
/// layer is listed: rows `a`, columns `b`.
pub open spec fn cell(s: int, axis: Axis, fixed: int, a: int, b: int) -> (int, int, int) {
    match axis {
        Axis::X => (fixed, a, b),
        Axis::Y => (s - 1 - a, fixed, b),
        Axis::Z => (s - 1 - b, a, fixed),
    }
}

/// Position of the `k`-th cell of the listed layer.
pub open spec fn layer_pos(s: int, axis: Axis, fixed: int, k: int) -> int {
    pos_of3(s, cell(s, axis, fixed, k / s, k % s))
}

/// Row and column, within its layer, of the cell `c`.
pub open spec fn cell_index(s: int, axis: Axis, c: (int, int, int)) -> (int, int) {
    match axis {
        Axis::X => (c.1, c.2),
        Axis::Y => (s - 1 - c.0, c.2),
        Axis::Z => (c.1, s - 1 - c.0),
    }
}

/// Index, in the listed layer, of the position `p` of that layer.
pub open spec fn layer_index(s: int, axis: Axis, p: int) -> int {
    let (a, b) = cell_index(s, axis, coords_of(s, p));
    a * s + b
}

/// A quarter turn keeps a cell in the grid and in its layer, a turn and the
/// reverse turn undo each other, and four equal turns do nothing.
pub proof fn lemma_quarter(s: int, axis: Axis, rotation: Rotation, c: (int, int, int))
    requires
        in_grid(s, c),
    ensures
        in_grid(s, quarter(s, axis, rotation, c)),
        axis_coord(axis, quarter(s, axis, rotation, c)) == axis_coord(axis, c),
        quarter(s, axis, rotation.reversed(), quarter(s, axis, rotation, c)) == c,
        quarter(
            s,
            axis,
            rotation,
            quarter(s, axis, rotation, quarter(s, axis, rotation, quarter(s, axis, rotation, c))),
        ) == c,
{
}

/// A turn moves each sub-cube of the layer to a cell of the same layer, and
/// leaves every other position alone.
pub proof fn lemma_dest(s: int, axis: Axis, fixed: int, rotation: Rotation, p: int)
    requires
        0 < s,
        0 <= p < volume(s),
    ensures
        0 <= dest(s, axis, fixed, rotation, p) < volume(s),
        in_layer(s, axis, fixed, dest(s, axis, fixed, rotation, p)) == in_layer(s, axis, fixed, p),
        in_layer(s, axis, fixed, p) ==> coords_of(s, dest(s, axis, fixed, rotation, p)) == quarter(
            s,
            axis,
            rotation,
            coords_of(s, p),
        ),
        dest(s, axis, fixed, rotation.reversed(), dest(s, axis, fixed, rotation, p)) == p,
{
    if in_layer(s, axis, fixed, p) {
        let c = coords_of(s, p);
        lemma_pos_round_trip(s, p);
        lemma_quarter(s, axis, rotation, c);
        let q = quarter(s, axis, rotation, c);
        lemma_coords_round_trip(s, q.0, q.1, q.2);
        crate::coords::lemma_pos_in_range(s, q.0, q.1, q.2);
        lemma_quarter(s, axis, rotation.reversed(), q);
        assert(rotation.reversed().reversed() == rotation);
    }
}

/// Four equal turns of one layer give back the arrangement it started from.
pub proof fn lemma_four_turns<T>(cells: Seq<T>, s: int, axis: Axis, fixed: int, rotation: Rotation)
    requires
        0 < s,
        cells.len() == volume(s),
    ensures
        turn(turn(turn(turn(cells, s, axis, fixed, rotation), s, axis, fixed, rotation), s, axis, fixed, rotation), s, axis, fixed, rotation) == cells,
{
    let once = turn(cells, s, axis, fixed, rotation);
    let twice = turn(once, s, axis, fixed, rotation);
    let thrice = turn(twice, s, axis, fixed, rotation);
    let four = turn(thrice, s, axis, fixed, rotation);
    let r = rotation.reversed();
    assert forall|p: int| 0 <= p < cells.len() implies #[trigger] four[p] == cells[p] by {
        let p1 = source(s, axis, fixed, rotation, p);
        lemma_dest(s, axis, fixed, r, p);
        let p2 = source(s, axis, fixed, rotation, p1);
        lemma_dest(s, axis, fixed, r, p1);
        let p3 = source(s, axis, fixed, rotation, p2);
        lemma_dest(s, axis, fixed, r, p2);
        let p4 = source(s, axis, fixed, rotation, p3);
        lemma_dest(s, axis, fixed, r, p3);
        if in_layer(s, axis, fixed, p) {
            let c = coords_of(s, p);
            lemma_pos_round_trip(s, p);
            lemma_quarter(s, axis, r, c);
            let c4 = quarter(s, axis, r, quarter(s, axis, r, quarter(s, axis, r, quarter(s, axis, r, c))));
            assert(coords_of(s, p4) == c4);
            lemma_pos_round_trip(s, p4);
            assert(p4 == p);
        }
        assert(four[p] == cells[p4]);
    }
    assert(four =~= cells);
}

/// Index, in the listed layer, of the cell whose sub-cube a turn brings to the
/// `k`-th listed cell: with rows `a = k / s` and columns `b = k % s`, a `Ccw`
/// turn takes it from `(b, s - 1 - a)` and a `Cw` turn from `(s - 1 - b, a)`.
pub open spec fn turned_index(s: int, rotation: Rotation, k: int) -> int {
    match rotation {
        Rotation::Ccw => (k % s) * s + (s - 1 - k / s),
        Rotation::Cw => (s - 1 - k % s) * s + k / s,
    }
}

/// Row and column of an index of a layer of edge `s`.
pub proof fn lemma_row_col(s: int, k: int)
    requires
        0 < s,
        0 <= k < s * s,
    ensures
        0 <= k / s < s,
        0 <= k % s < s,
        k == (k / s) * s + k % s,
{
    vstd::arithmetic::div_mod::lemma_fundamental_div_mod(k, s);
    let a = k / s;
    let b = k % s;
    assert(0 <= a < s) by (nonlinear_arith)
        requires
            k == s * a + b,
            0 <= b < s,
            0 <= k < s * s,
    ;
    assert(k == a * s + b) by (nonlinear_arith)
        requires
            k == s * a + b,
    ;
}

/// The index of row `a`, column `b` of a layer of edge `s`.
pub proof fn lemma_index_of(s: int, a: int, b: int)
    requires
        0 <= a < s,
        0 <= b < s,
    ensures
        0 <= a * s + b < s * s,
        (a * s + b) / s == a,
        (a * s + b) % s == b,
{
    assert(0 <= a * s + b < s * s) by (nonlinear_arith)
        requires
            0 <= a < s,
            0 <= b < s,
    ;
    vstd::arithmetic::div_mod::lemma_fundamental_div_mod_converse(a * s + b, s, a, b);
}

/// The `k`-th listed cell of a layer lies in that layer, at the cell given by
/// its row and column.
pub proof fn lemma_layer_pos(s: int, axis: Axis, fixed: int, k: int)
    requires
        0 < s,
        0 <= fixed < s,
        0 <= k < s * s,
    ensures
        in_layer(s, axis, fixed, layer_pos(s, axis, fixed, k)),
        in_grid(s, cell(s, axis, fixed, k / s, k % s)),
        coords_of(s, layer_pos(s, axis, fixed, k)) == cell(s, axis, fixed, k / s, k % s),
        cell_index(s, axis, cell(s, axis, fixed, k / s, k % s)) == (k / s, k % s),
{
    lemma_row_col(s, k);
    let c = cell(s, axis, fixed, k / s, k % s);
    lemma_coords_round_trip(s, c.0, c.1, c.2);
    crate::coords::lemma_pos_in_range(s, c.0, c.1, c.2);
}

/// Every cell of a layer is listed exactly once: distinct indices give
/// distinct positions, and each position of the layer has an index.
pub proof fn lemma_layer_listing(s: int, axis: Axis, fixed: int, k: int, p: int)
    requires
        0 < s,
        0 <= fixed < s,
        0 <= k < s * s,
        in_layer(s, axis, fixed, p),
    ensures
        ({
            let (a, b) = cell_index(s, axis, coords_of(s, p));
            &&& 0 <= a < s
            &&& 0 <= b < s
            &&& layer_index(s, axis, p) == a * s + b
            &&& 0 <= layer_index(s, axis, p) < s * s
            &&& layer_pos(s, axis, fixed, a * s + b) == p
            &&& (layer_pos(s, axis, fixed, k) == p <==> k == a * s + b)
        }),
{
    lemma_pos_round_trip(s, p);
    let c = coords_of(s, p);
    let (a, b) = cell_index(s, axis, c);
    assert(cell(s, axis, fixed, a, b) == c);
    lemma_index_of(s, a, b);
    lemma_layer_pos(s, axis, fixed, k);
    lemma_layer_pos(s, axis, fixed, a * s + b);
    lemma_row_col(s, k);
    if layer_pos(s, axis, fixed, k) == p {
        assert(cell(s, axis, fixed, k / s, k % s) == c);
        assert(k / s == a && k % s == b);
    }
}

/// The listed form of a turn: the cell whose sub-cube comes to the `k`-th
/// listed cell is the `turned_index(k)`-th listed cell.
pub proof fn lemma_turned_index(s: int, axis: Axis, fixed: int, rotation: Rotation, k: int)
    requires
        0 < s,
        0 <= fixed < s,
        0 <= k < s * s,
    ensures
        0 <= turned_index(s, rotation, k) < s * s,
        layer_pos(s, axis, fixed, turned_index(s, rotation, k)) == source(
            s,
            axis,
            fixed,
            rotation,
            layer_pos(s, axis, fixed, k),
        ),
{
    lemma_row_col(s, k);
    lemma_layer_pos(s, axis, fixed, k);
    let a = k / s;
    let b = k % s;
    match rotation {
        Rotation::Ccw => lemma_index_of(s, b, s - 1 - a),
        Rotation::Cw => lemma_index_of(s, s - 1 - b, a),
    }
}

/// From a solved arrangement, a turn of any layer of a cube of edge at least
/// two leaves the cube unsolved.
pub proof fn lemma_turn_unsolves(cells: Seq<(u64, usize)>, s: int, axis: Axis, fixed: int, rotation: Rotation)
    requires
        2 <= s,
        0 <= fixed < s,
        cells.len() == volume(s),
        solved(cells),
    ensures
        !solved(turn(cells, s, axis, fixed, rotation)),
{
    lemma_index_of(s, 0, 0);
    lemma_turned_index(s, axis, fixed, rotation, 0);
    let t = turned_index(s, rotation, 0);
    let p = layer_pos(s, axis, fixed, 0);
    let q = layer_pos(s, axis, fixed, t);
    match rotation {
        Rotation::Ccw => lemma_index_of(s, 0, s - 1),
        Rotation::Cw => lemma_index_of(s, s - 1, 0),
    }
    assert(t != 0);
    lemma_layer_pos(s, axis, fixed, 0);
    lemma_layer_pos(s, axis, fixed, t);
    lemma_layer_listing(s, axis, fixed, t, p);
    assert(q != p);
    let turned = turn(cells, s, axis, fixed, rotation);
    assert(turned[p] == cells[q]);
    assert(cells[q].1 == q);
    assert(turned[p].1 != p);
}

/// Each sub-cube of the turned layer lands where the quarter turn takes its
/// cell, and every other sub-cube stays where it was.
pub proof fn lemma_turn_moves_by_quarter<T>(
    cells: Seq<T>,
    s: int,
    axis: Axis,
    fixed: int,
    rotation: Rotation,
    p: int,
)
    requires
        0 < s,
        cells.len() == volume(s),
        0 <= p < volume(s),
    ensures
        in_layer(s, axis, fixed, p) ==> turn(cells, s, axis, fixed, rotation)[pos_of3(
            s,
            quarter(s, axis, rotation, coords_of(s, p)),
        )] == cells[p],
        !in_layer(s, axis, fixed, p) ==> turn(cells, s, axis, fixed, rotation)[p] == cells[p],
{
    lemma_dest(s, axis, fixed, rotation, p);
    assert(rotation.reversed().reversed() == rotation);
}

} // verus!
