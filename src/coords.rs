//! Linear position index of a sub-cube and its grid coordinates.

use vstd::arithmetic::div_mod::lemma_fundamental_div_mod;
use vstd::arithmetic::div_mod::lemma_fundamental_div_mod_converse;
use vstd::prelude::*;

verus! {

/// Linear position of the grid cell `(x, y, z)` in a cube of edge `s`.
pub open spec fn pos_of(s: int, x: int, y: int, z: int) -> int {
    x * s * s + y * s + z
}

/// Grid coordinates of the linear position `p`, digit by digit in base `s`.
pub open spec fn coords_of(s: int, p: int) -> (int, int, int) {
    ((p / s / s) % s, (p / s) % s, p % s)
}

/// Whether `(x, y, z)` lies inside a cube of edge `s`.
pub open spec fn in_grid(s: int, c: (int, int, int)) -> bool {
    0 <= c.0 < s && 0 <= c.1 < s && 0 <= c.2 < s
}

/// Linear position of a coordinate triple.
pub open spec fn pos_of3(s: int, c: (int, int, int)) -> int {
    pos_of(s, c.0, c.1, c.2)
}

/// Number of sub-cubes of a cube of edge `s`.
pub open spec fn volume(s: int) -> int {
    s * s * s
}

/// A cell inside the grid has a position in `0 .. s³`.
pub proof fn lemma_pos_in_range(s: int, x: int, y: int, z: int)
    requires
        in_grid(s, (x, y, z)),
    ensures
        0 <= pos_of(s, x, y, z) < volume(s),
        0 <= x * s * s <= pos_of(s, x, y, z),
{
    assert(0 <= x * s * s + y * s + z < s * s * s) by (nonlinear_arith)
        requires
            0 <= x < s,
            0 <= y < s,
            0 <= z < s,
    ;
    assert(0 <= x * s * s) by (nonlinear_arith)
        requires
            0 <= x,
            0 <= s,
    ;
    assert(0 <= y * s) by (nonlinear_arith)
        requires
            0 <= y,
            0 <= s,
    ;
}

/// Round trip: decoding the position of a cell gives back the cell.
pub proof fn lemma_coords_round_trip(s: int, x: int, y: int, z: int)
    requires
        in_grid(s, (x, y, z)),
    ensures
        coords_of(s, pos_of(s, x, y, z)) == (x, y, z),
{
    let p = pos_of(s, x, y, z);
    let q = x * s + y;
    assert(p == q * s + z) by (nonlinear_arith)
        requires
            p == x * s * s + y * s + z,
            q == x * s + y,
    ;
    lemma_fundamental_div_mod_converse(p, s, q, z);
    lemma_fundamental_div_mod_converse(q, s, x, y);
    lemma_fundamental_div_mod_converse(x, s, 0, x);
}

/// Round trip the other way: every position below `s³` is the position of its
/// decoded coordinates, which lie inside the grid.
pub proof fn lemma_pos_round_trip(s: int, p: int)
    requires
        0 < s,
        0 <= p < volume(s),
    ensures
        in_grid(s, coords_of(s, p)),
        pos_of3(s, coords_of(s, p)) == p,
{
    let q = p / s;
    let z = p % s;
    lemma_fundamental_div_mod(p, s);
    let r = q / s;
    let y = q % s;
    lemma_fundamental_div_mod(q, s);
    assert(0 <= z < s && 0 <= y < s);
    assert(0 <= q && 0 <= r) by (nonlinear_arith)
        requires
            p == s * q + z,
            q == s * r + y,
            0 <= p,
            0 <= z < s,
            0 <= y < s,
            0 < s,
    ;
    assert(r < s) by (nonlinear_arith)
        requires
            p == s * q + z,
            q == s * r + y,
            p < s * s * s,
            0 <= z,
            0 <= y,
            0 < s,
    ;
    lemma_fundamental_div_mod_converse(r, s, 0, r);
    assert(p == r * s * s + y * s + z) by (nonlinear_arith)
        requires
            p == s * q + z,
            q == s * r + y,
    ;
}

} // verus!
