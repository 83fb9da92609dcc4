use vstd::prelude::*;

verus! {

/// The bits of `n` at even positions, read as a number: the x of a Morton index.
pub open spec fn morton_x(n: nat) -> nat
    decreases n,
{
    if n == 0 {
        0
    } else {
        n % 2 + 2 * morton_x(n / 4)
    }
}

/// The bits of `n` at odd positions, read as a number: the y of a Morton index.
pub open spec fn morton_y(n: nat) -> nat
    decreases n,
{
    if n == 0 {
        0
    } else {
        (n / 2) % 2 + 2 * morton_y(n / 4)
    }
}

/// The Morton index of `(x, y)`: bit `i` of `x` goes to bit `2i`, bit `i` of `y` to bit `2i + 1`.
pub open spec fn interleave(x: nat, y: nat) -> nat
    decreases x + y,
{
    if x == 0 && y == 0 {
        0
    } else {
        x % 2 + 2 * (y % 2) + 4 * interleave(x / 2, y / 2)
    }
}

pub open spec fn pow2(z: nat) -> nat
    decreases z,
{
    if z == 0 {
        1
    } else {
        2 * pow2((z - 1) as nat)
    }
}

pub open spec fn pow4(z: nat) -> nat
    decreases z,
{
    if z == 0 {
        1
    } else {
        4 * pow4((z - 1) as nat)
    }
}

/// The grid position of the tile at Morton index `n`.
pub open spec fn morton_coord(n: nat) -> (nat, nat) {
    (morton_x(n), morton_y(n))
}

proof fn lemma_div_mod_4(a: nat, b: nat)
    requires
        a < 4,
    ensures
        (a + 4 * b) / 4 == b,
        (a + 4 * b) % 2 == a % 2,
        ((a + 4 * b) / 2) % 2 == (a / 2) % 2,
        (a + 4 * b) / 2 == a / 2 + 2 * b,
{
    assert((a + 4 * b) / 4 == b) by (nonlinear_arith)
        requires a < 4;
    assert((a + 4 * b) % 2 == a % 2) by (nonlinear_arith);
    assert((a + 4 * b) / 2 == a / 2 + 2 * b) by (nonlinear_arith);
    assert((a / 2 + 2 * b) % 2 == (a / 2) % 2) by (nonlinear_arith);
}

/// Decoding the Morton index of `(x, y)` gives back `(x, y)`.
pub proof fn lemma_coord_of_interleave(x: nat, y: nat)
    ensures
        morton_coord(interleave(x, y)) == (x, y),
    decreases x + y,
{
    if x == 0 && y == 0 {
    } else {
        let a = x % 2 + 2 * (y % 2);
        let rest = interleave(x / 2, y / 2);
        lemma_coord_of_interleave(x / 2, y / 2);
        lemma_div_mod_4(a, rest);
        assert(interleave(x, y) == a + 4 * rest);
        assert(a % 2 == x % 2);
        assert((a / 2) % 2 == y % 2);
        assert(interleave(x, y) != 0);
    }
}

/// Encoding the coordinates decoded from `n` gives back `n`.
pub proof fn lemma_interleave_of_coord(n: nat)
    ensures
        interleave(morton_x(n), morton_y(n)) == n,
    decreases n,
{
    if n == 0 {
    } else {
        let a = (n % 4) as nat;
        let q = n / 4;
        assert(n == a + 4 * q) by (nonlinear_arith)
            requires a == n % 4, q == n / 4;
        lemma_div_mod_4(a, q);
        lemma_interleave_of_coord(q);
        let x = morton_x(n);
        let y = morton_y(n);
        assert(x / 2 == morton_x(q) && x % 2 == n % 2);
        assert(y / 2 == morton_y(q) && y % 2 == (n / 2) % 2);
        if x == 0 && y == 0 {
            assert(n % 2 == 0 && (n / 2) % 2 == 0);
            assert(morton_x(q) == 0 && morton_y(q) == 0);
            assert(q == 0);
            assert(a == 0) by (nonlinear_arith)
                requires a < 4, a % 2 == 0, (a / 2) % 2 == 0;
        } else {
            assert(a == a % 2 + 2 * ((a / 2) % 2)) by (nonlinear_arith)
                requires a < 4;
        }
    }
}

/// Coordinates inside a `2^z` by `2^z` grid have an index below `4^z`.
pub proof fn lemma_interleave_bound(x: nat, y: nat, z: nat)
    requires
        x < pow2(z),
        y < pow2(z),
    ensures
        interleave(x, y) < pow4(z),
    decreases z,
{
    if z == 0 {
        assert(x == 0 && y == 0);
    } else if x == 0 && y == 0 {
        lemma_pow_positive(z);
    } else {
        let zp = (z - 1) as nat;
        lemma_interleave_bound(x / 2, y / 2, zp);
        let rest = interleave(x / 2, y / 2);
        assert(x % 2 + 2 * (y % 2) + 4 * rest < 4 * pow4(zp)) by (nonlinear_arith)
            requires rest + 1 <= pow4(zp), x % 2 < 2, y % 2 < 2;
    }
}

/// An index below `4^z` lies inside the `2^z` by `2^z` grid.
pub proof fn lemma_coord_bound(n: nat, z: nat)
    requires
        n < pow4(z),
    ensures
        morton_x(n) < pow2(z),
        morton_y(n) < pow2(z),
    decreases z,
{
    if n == 0 {
        lemma_pow_positive(z);
    } else {
        assert(z > 0);
        let zp = (z - 1) as nat;
        assert(n / 4 < pow4(zp)) by (nonlinear_arith)
            requires n < 4 * pow4(zp);
        lemma_coord_bound(n / 4, zp);
        assert(morton_x(n) < pow2(z));
        assert(morton_y(n) < pow2(z));
    }
}

pub proof fn lemma_pow_positive(z: nat)
    ensures
        pow2(z) >= 1,
        pow4(z) >= 1,
        pow4(z) == pow2(z) * pow2(z),
    decreases z,
{
    if z > 0 {
        let zp = (z - 1) as nat;
        lemma_pow_positive(zp);
        assert(pow4(z) == pow2(z) * pow2(z)) by (nonlinear_arith)
            requires pow4(z) == 4 * pow4(zp), pow2(z) == 2 * pow2(zp), pow4(zp) == pow2(zp) * pow2(zp);
    }
}

/// Within a level of `4^z` tiles, Morton order is a bijection between the
/// indices `[0, 4^z)` and the grid `[0, 2^z) x [0, 2^z)`: every index lands in
/// the grid, every grid cell has an index, and distinct indices land on
/// distinct cells.
pub proof fn lemma_morton_bijection(z: nat)
    ensures
        forall|n: nat| n < pow4(z) ==> #[trigger] morton_x(n) < pow2(z) && morton_y(n) < pow2(z),
        forall|x: nat, y: nat|
            x < pow2(z) && y < pow2(z) ==> #[trigger] interleave(x, y) < pow4(z)
                && morton_coord(interleave(x, y)) == (x, y),
        forall|m: nat, n: nat|
            m < pow4(z) && n < pow4(z) && #[trigger] morton_coord(m) == #[trigger] morton_coord(n)
                ==> m == n,
{
    assert forall|n: nat| n < pow4(z) implies #[trigger] morton_x(n) < pow2(z) && morton_y(n) < pow2(z) by {
        lemma_coord_bound(n, z);
    }
    assert forall|x: nat, y: nat| x < pow2(z) && y < pow2(z) implies #[trigger] interleave(x, y) < pow4(z)
        && morton_coord(interleave(x, y)) == (x, y) by {
        lemma_interleave_bound(x, y, z);
        lemma_coord_of_interleave(x, y);
    }
    assert forall|m: nat, n: nat|
        m < pow4(z) && n < pow4(z) && #[trigger] morton_coord(m) == #[trigger] morton_coord(n) implies m == n by {
        lemma_interleave_of_coord(m);
        lemma_interleave_of_coord(n);
    }
}

/// Relies on zorder::coord_of for two dimensions: the bits of the index at
/// even positions form the first coordinate, those at odd positions the second.
#[verifier::external_body]
fn zorder_coord(index: u32) -> (r: (u16, u16))
    ensures
        r.0 as nat == morton_x(index as nat),
        r.1 as nat == morton_y(index as nat),
{
    let c: [u16; 2] = zorder::coord_of(index);
    (c[0], c[1])
}

/// Relies on zorder::index_of for two dimensions: bit `i` of the first
/// coordinate goes to bit `2i` of the index, bit `i` of the second to bit `2i + 1`.
#[verifier::external_body]
fn zorder_index(x: u16, y: u16) -> (r: u32)
    ensures
        r as nat == interleave(x as nat, y as nat),
{
    zorder::index_of([x, y])
}

/// The grid position `(x, y)` of the tile at Morton index `index`.
pub fn coord_of(index: u32) -> (r: (u32, u32))
    ensures
        (r.0 as nat, r.1 as nat) == morton_coord(index as nat),
{
    let c = zorder_coord(index);
    (c.0 as u32, c.1 as u32)
}

/// The Morton index of the tile at grid position `(x, y)`; both must be below `2^16`.
pub fn index_of(x: u32, y: u32) -> (r: u32)
    requires
        x < 65536,
        y < 65536,
    ensures
        r as nat == interleave(x as nat, y as nat),
        morton_coord(r as nat) == (x as nat, y as nat),
{
    proof {
        lemma_coord_of_interleave(x as nat, y as nat);
    }
    zorder_index(x as u16, y as u16)
}

} // verus!
