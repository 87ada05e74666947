//! An octree that allocates box regions of a fixed cubic address space.
//! It stores no data: it is pure placement bookkeeping for the texture atlas.
//!
//! The tree is grown lazily: an `Empty` node subdivides only when an
//! allocation needs a sub-octant, and an allocation turns exactly one node
//! `Full`.  Each live allocation is identified by the lower corner of the
//! node it occupies; a ghost map from corners to granted regions lets the
//! contracts speak about every live region at once.

use vstd::prelude::*;

use crate::math::{GridAab, GridVector};

verus! {

/// Tree node making up an [`Alloctree`].
///
/// The nodes do not know their own size or position; the traversal
/// algorithms track that.
pub enum AlloctreeNode {
    /// No contents.
    Empty,
    /// Exactly filled, or inexactly filled but the remaining space is not
    /// remembered.
    Full,
    /// Subdivided into eight octants whose size exponent is one less.
    /// Always exactly eight children, ordered x-major.
    Oct(Vec<AlloctreeNode>),
}

/// A grid position in spec arithmetic.
pub type Corner = (int, int, int);

pub open spec fn corner_of(v: GridVector) -> Corner {
    (v.x as int, v.y as int, v.z as int)
}

pub open spec fn pow2(n: int) -> int
    decreases n,
{
    if n <= 0 {
        1
    } else {
        2 * pow2(n - 1)
    }
}

pub open spec fn pow8(n: int) -> int
    decreases n,
{
    if n <= 0 {
        1
    } else {
        8 * pow8(n - 1)
    }
}

/// Largest edge of a box size, at least 0.
pub open spec fn spec_max_edge(size: GridVector) -> int {
    let m = if size.x >= size.y { size.x as int } else { size.y as int };
    let m2 = if m >= size.z { m } else { size.z as int };
    if m2 >= 0 { m2 } else { 0 }
}

/// Edge length `2^exp`, saturating at `i32::MAX` for huge exponents.
pub open spec fn spec_expsize(exp: int) -> int {
    if exp >= 31 { i32::MAX as int } else { pow2(exp) }
}

/// A box of this size fits in a cube of edge `2^exp`.
pub open spec fn spec_fits(size: GridVector, exp: int) -> bool {
    spec_max_edge(size) <= spec_expsize(exp)
}

/// `j` is the least exponent such that the largest edge `m` fits in `2^j`.
pub open spec fn is_min_fit(m: int, j: int) -> bool {
    &&& j >= 0
    &&& m <= pow2(j)
    &&& j == 0 || m > pow2(j - 1)
}

/// The least exponent fitting a largest edge of `m`.
pub open spec fn min_fit_exp(m: int) -> int
    decreases (if m >= 2 { m } else { 0 }),
{
    if m <= 1 {
        0
    } else {
        1 + min_fit_exp((m + 1) / 2)
    }
}

pub open spec fn in_cube(c: Corner, edge: int, p: Corner) -> bool {
    &&& c.0 <= p.0 < c.0 + edge
    &&& c.1 <= p.1 < c.1 + edge
    &&& c.2 <= p.2 < c.2 + edge
}

pub open spec fn cube_in_cube(c1: Corner, e1: int, c2: Corner, e2: int) -> bool {
    &&& c2.0 <= c1.0 && c1.0 + e1 <= c2.0 + e2
    &&& c2.1 <= c1.1 && c1.1 + e1 <= c2.1 + e2
    &&& c2.2 <= c1.2 && c1.2 + e1 <= c2.2 + e2
}

pub open spec fn cubes_disjoint(c1: Corner, e1: int, c2: Corner, e2: int) -> bool {
    ||| c1.0 + e1 <= c2.0
    ||| c2.0 + e2 <= c1.0
    ||| c1.1 + e1 <= c2.1
    ||| c2.1 + e2 <= c1.1
    ||| c1.2 + e1 <= c2.2
    ||| c2.2 + e2 <= c1.2
}

/// The whole box `b` lies within the cube at `c` of edge `edge`.
pub open spec fn aab_in_cube(b: GridAab, c: Corner, edge: int) -> bool {
    &&& c.0 <= b.lower.x && b.lower.x + b.size.x <= c.0 + edge
    &&& c.1 <= b.lower.y && b.lower.y + b.size.y <= c.1 + edge
    &&& c.2 <= b.lower.z && b.lower.z + b.size.z <= c.2 + edge
}

/// Lower corner of octant `i` (0..8, x-major) of the cube at `c` whose
/// octants have edge `half`.
pub open spec fn child_corner(c: Corner, half: int, i: int) -> Corner {
    (c.0 + half * (i / 4), c.1 + half * ((i / 2) % 2), c.2 + half * (i % 2))
}

/// Structural well-formedness: an `Oct` node has exactly eight children and
/// only exists at positive exponents.
pub open spec fn node_wf(node: AlloctreeNode, exp: int) -> bool
    decreases node,
{
    match node {
        AlloctreeNode::Empty => exp >= 0,
        AlloctreeNode::Full => exp >= 0,
        AlloctreeNode::Oct(children) => {
            &&& exp >= 1
            &&& children@.len() == 8
            &&& forall|i: int|
                0 <= i < 8 ==> node_wf(#[trigger] children@[i], exp - 1)
        },
    }
}

/// Map from the corner of each `Full` node of the subtree to that node's
/// size exponent.
pub open spec fn full_info(node: AlloctreeNode, exp: int, c: Corner) -> Map<Corner, int>
    decreases node,
{
    match node {
        AlloctreeNode::Empty => Map::empty(),
        AlloctreeNode::Full => Map::empty().insert(c, exp),
        AlloctreeNode::Oct(children) => octs_info(children@, exp - 1, c, 8),
    }
}

/// Union of `full_info` over the first `n` children.
pub open spec fn octs_info(ch: Seq<AlloctreeNode>, cexp: int, c: Corner, n: int) -> Map<
    Corner,
    int,
>
    decreases ch, n,
{
    if n <= 0 || ch.len() < n {
        Map::empty()
    } else {
        octs_info(ch, cexp, c, n - 1).union_prefer_right(
            full_info(ch[n - 1], cexp, child_corner(c, pow2(cexp), n - 1)),
        )
    }
}

/// Number of empty slots of exponent `j` available in the subtree.
pub open spec fn free_slots(node: AlloctreeNode, exp: int, j: int) -> int
    decreases node,
{
    if j < 0 || j > exp {
        0
    } else {
        match node {
            AlloctreeNode::Empty => pow8(exp - j),
            AlloctreeNode::Full => 0,
            AlloctreeNode::Oct(children) => {
                if j <= exp - 1 {
                    sum_free(children@, exp - 1, j, 8)
                } else {
                    0
                }
            },
        }
    }
}

pub open spec fn sum_free(ch: Seq<AlloctreeNode>, cexp: int, j: int, n: int) -> int
    decreases ch, n,
{
    if n <= 0 || ch.len() < n {
        0
    } else {
        sum_free(ch, cexp, j, n - 1) + free_slots(ch[n - 1], cexp, j)
    }
}

/// Total request volume recorded for the subtree, reading each `Full`
/// corner's region out of `allocs`.
pub open spec fn tree_occ(node: AlloctreeNode, exp: int, c: Corner, allocs: Map<Corner, GridAab>) -> int
    decreases node,
{
    match node {
        AlloctreeNode::Empty => 0,
        AlloctreeNode::Full => if allocs.contains_key(c) {
            allocs[c].spec_volume()
        } else {
            0
        },
        AlloctreeNode::Oct(children) => sum_occ(children@, exp - 1, c, allocs, 8),
    }
}

pub open spec fn sum_occ(
    ch: Seq<AlloctreeNode>,
    cexp: int,
    c: Corner,
    allocs: Map<Corner, GridAab>,
    n: int,
) -> int
    decreases ch, n,
{
    if n <= 0 || ch.len() < n {
        0
    } else {
        sum_occ(ch, cexp, c, allocs, n - 1) + tree_occ(ch[n - 1], cexp, child_corner(c, pow2(cexp), n - 1), allocs)
    }
}

/// Request coordinates far enough from `i32::MIN` that offset arithmetic
/// cannot overflow.
pub open spec fn non_extreme(request: GridAab) -> bool {
    &&& request.lower.x >= i32::MIN + 2048
    &&& request.lower.y >= i32::MIN + 2048
    &&& request.lower.z >= i32::MIN + 2048
}

/// `b` is `a` except possibly at key `p`.
pub open spec fn agree_except(a: Map<Corner, GridAab>, b: Map<Corner, GridAab>, p: Corner) -> bool {
    forall|q: Corner|
        q != p ==> ((#[trigger] b.contains_key(q)) == a.contains_key(q) && (a.contains_key(q)
            ==> b[q] == a[q]))
}

pub proof fn lemma_pow2_pos(n: int)
    ensures
        pow2(n) >= 1,
    decreases (if n >= 0 { n } else { 0 }),
{
    if n > 0 {
        lemma_pow2_pos(n - 1);
    }
}

proof fn lemma_pow8_pos(n: int)
    ensures
        pow8(n) >= 1,
    decreases (if n >= 0 { n } else { 0 }),
{
    if n > 0 {
        lemma_pow8_pos(n - 1);
    }
}

proof fn lemma_pow2_mono(a: int, b: int)
    requires
        a <= b,
    ensures
        pow2(a) <= pow2(b),
    decreases (if b >= 0 { b } else { 0 }),
{
    lemma_pow2_pos(a);
    if b > 0 && a < b {
        lemma_pow2_mono(a, b - 1);
    }
}

pub proof fn lemma_pow2_bound(n: int)
    requires
        n <= 10,
    ensures
        pow2(n) <= 1024,
{
    lemma_pow2_mono(n, 10);
    assert(pow2(10) == 1024) by {
        reveal_with_fuel(pow2, 11);
    }
}

proof fn lemma_pow8_bound(n: int)
    requires
        n <= 10,
    ensures
        pow8(n) <= 0x40000000,
{
    if n >= 0 {
        lemma_pow8_mono(n, 10);
        assert(pow8(10) == 0x40000000) by {
            reveal_with_fuel(pow8, 11);
        }
    } else {
        assert(pow8(n) == 1);
    }
}

proof fn lemma_pow8_mono(a: int, b: int)
    requires
        a <= b,
    ensures
        pow8(a) <= pow8(b),
    decreases (if b >= 0 { b } else { 0 }),
{
    lemma_pow8_pos(a);
    if b > 0 && a < b {
        lemma_pow8_mono(a, b - 1);
    }
}

/// `min_fit_exp` really is a minimal fit.
proof fn lemma_min_fit_exp(m: int)
    ensures
        is_min_fit(m, min_fit_exp(m)),
    decreases (if m >= 2 { m } else { 0 }),
{
    if m <= 1 {
    } else {
        let m2 = (m + 1) / 2;
        lemma_min_fit_exp(m2);
        let j2 = min_fit_exp(m2);
        assert(m <= 2 * m2);
        assert(pow2(1 + j2) == 2 * pow2(j2));
        if j2 == 0 {
            assert(m >= 2);
            assert(pow2(0) == 1);
        } else {
            assert(m2 > pow2(j2 - 1));
            assert(m >= 2 * m2 - 1);
            assert(m > pow2(j2)) by {
                assert(pow2(j2) == 2 * pow2(j2 - 1));
                assert(2 * m2 - 1 >= 2 * (pow2(j2 - 1) + 1) - 1);
            }
        }
    }
}

/// Minimal fits are unique.
proof fn lemma_min_fit_unique(m: int, j1: int, j2: int)
    requires
        is_min_fit(m, j1),
        is_min_fit(m, j2),
    ensures
        j1 == j2,
{
    if j1 < j2 {
        lemma_pow2_mono(j1, j2 - 1);
    }
    if j2 < j1 {
        lemma_pow2_mono(j2, j1 - 1);
    }
}

/// Octants lie inside their parent cube.
proof fn lemma_child_cube_in_parent(c: Corner, half: int, i: int)
    requires
        half >= 1,
        0 <= i < 8,
    ensures
        cube_in_cube(child_corner(c, half, i), half, c, 2 * half),
{
    assert(0 <= i / 4 <= 1 && 0 <= (i / 2) % 2 <= 1 && 0 <= i % 2 <= 1);
    assert(half * (i / 4) <= half && half * ((i / 2) % 2) <= half && half * (i % 2) <= half)
        by (nonlinear_arith)
        requires
            half >= 1,
            0 <= i / 4 <= 1,
            0 <= (i / 2) % 2 <= 1,
            0 <= i % 2 <= 1,
    ;
    assert(half * (i / 4) >= 0 && half * ((i / 2) % 2) >= 0 && half * (i % 2) >= 0)
        by (nonlinear_arith)
        requires
            half >= 1,
            0 <= i / 4,
            0 <= (i / 2) % 2,
            0 <= i % 2,
    ;
}

/// Distinct octants of one cube are disjoint.
proof fn lemma_octants_disjoint(c: Corner, half: int, i: int, k: int)
    requires
        half >= 1,
        0 <= i < 8,
        0 <= k < 8,
        i != k,
    ensures
        cubes_disjoint(child_corner(c, half, i), half, child_corner(c, half, k), half),
{
    assert(i == 4 * (i / 4) + 2 * ((i / 2) % 2) + i % 2 && k == 4 * (k / 4) + 2 * ((k / 2) % 2)
        + k % 2) by (nonlinear_arith)
        requires
            0 <= i < 8,
            0 <= k < 8,
    ;
    assert(i / 4 != k / 4 || (i / 2) % 2 != (k / 2) % 2 || i % 2 != k % 2);
    if i / 4 != k / 4 {
        assert(half * 0 == 0 && half * 1 == half) by (nonlinear_arith);
    } else if (i / 2) % 2 != (k / 2) % 2 {
        assert(half * 0 == 0 && half * 1 == half) by (nonlinear_arith);
    } else {
        assert(half * 0 == 0 && half * 1 == half) by (nonlinear_arith);
    }
}

/// Every `Full` corner of a well-formed subtree identifies a cube inside the
/// subtree's own cube, with an exponent between 0 and the subtree's.
proof fn lemma_info_bounds(node: AlloctreeNode, exp: int, c: Corner)
    requires
        node_wf(node, exp),
    ensures
        forall|p: Corner|
            full_info(node, exp, c).dom().contains(p) ==> 0 <= #[trigger] full_info(
                node,
                exp,
                c,
            )[p] <= exp && cube_in_cube(p, pow2(full_info(node, exp, c)[p]), c, pow2(exp)),
    decreases node,
{
    match node {
        AlloctreeNode::Empty => {},
        AlloctreeNode::Full => {
            lemma_pow2_pos(exp);
        },
        AlloctreeNode::Oct(children) => {
            let half = pow2(exp - 1);
            lemma_pow2_pos(exp - 1);
            lemma_info_bounds(children@[0], exp - 1, child_corner(c, half, 0));
            lemma_info_bounds(children@[1], exp - 1, child_corner(c, half, 1));
            lemma_info_bounds(children@[2], exp - 1, child_corner(c, half, 2));
            lemma_info_bounds(children@[3], exp - 1, child_corner(c, half, 3));
            lemma_info_bounds(children@[4], exp - 1, child_corner(c, half, 4));
            lemma_info_bounds(children@[5], exp - 1, child_corner(c, half, 5));
            lemma_info_bounds(children@[6], exp - 1, child_corner(c, half, 6));
            lemma_info_bounds(children@[7], exp - 1, child_corner(c, half, 7));
            lemma_octs_member(children@, exp - 1, c, 8);
            assert forall|p: Corner| octs_info(children@, exp - 1, c, 8).dom().contains(p)
                implies 0 <= #[trigger] octs_info(children@, exp - 1, c, 8)[p] <= exp
                && cube_in_cube(p, pow2(octs_info(children@, exp - 1, c, 8)[p]), c, pow2(exp)) by {
                let i = choose|i: int|
                    0 <= i < 8 && full_info(
                        children@[i],
                        exp - 1,
                        child_corner(c, half, i),
                    ).dom().contains(p) && octs_info(children@, exp - 1, c, 8)[p] == full_info(
                        children@[i],
                        exp - 1,
                        child_corner(c, half, i),
                    )[p];
                lemma_child_cube_in_parent(c, half, i);
                assert(pow2(exp) == 2 * half);
            }
        },
    }
}

/// Each key of `octs_info(.., n)` comes from some child `i < n`, with that
/// child's value; and every child key appears.
proof fn lemma_octs_member(ch: Seq<AlloctreeNode>, cexp: int, c: Corner, n: int)
    requires
        ch.len() == 8,
        0 <= n <= 8,
    ensures
        forall|p: Corner|
            #[trigger] octs_info(ch, cexp, c, n).dom().contains(p) ==> exists|i: int|
                0 <= i < n && full_info(ch[i], cexp, child_corner(c, pow2(cexp), i)).dom().contains(
                    p,
                ) && octs_info(ch, cexp, c, n)[p] == full_info(
                    ch[i],
                    cexp,
                    child_corner(c, pow2(cexp), i),
                )[p],
        forall|i: int, p: Corner|
            0 <= i < n && #[trigger] full_info(
                ch[i],
                cexp,
                child_corner(c, pow2(cexp), i),
            ).dom().contains(p) ==> octs_info(ch, cexp, c, n).dom().contains(p),
    decreases n,
{
    if n > 0 {
        lemma_octs_member(ch, cexp, c, n - 1);
        let m = octs_info(ch, cexp, c, n);
        let prev = octs_info(ch, cexp, c, n - 1);
        let last = full_info(ch[n - 1], cexp, child_corner(c, pow2(cexp), n - 1));
        assert forall|p: Corner| #[trigger] m.dom().contains(p) implies exists|i: int|
            0 <= i < n && full_info(ch[i], cexp, child_corner(c, pow2(cexp), i)).dom().contains(p)
                && m[p] == full_info(ch[i], cexp, child_corner(c, pow2(cexp), i))[p] by {
            if last.dom().contains(p) {
                assert(m[p] == last[p]);
                assert(0 <= n - 1 < n && full_info(
                    ch[n - 1],
                    cexp,
                    child_corner(c, pow2(cexp), n - 1),
                ).dom().contains(p) && m[p] == full_info(
                    ch[n - 1],
                    cexp,
                    child_corner(c, pow2(cexp), n - 1),
                )[p]);
            } else {
                assert(prev.dom().contains(p) && m[p] == prev[p]);
                let i = choose|i: int|
                    0 <= i < n - 1 && full_info(
                        ch[i],
                        cexp,
                        child_corner(c, pow2(cexp), i),
                    ).dom().contains(p) && prev[p] == full_info(
                        ch[i],
                        cexp,
                        child_corner(c, pow2(cexp), i),
                    )[p];
                assert(0 <= i < n && full_info(
                    ch[i],
                    cexp,
                    child_corner(c, pow2(cexp), i),
                ).dom().contains(p) && m[p] == full_info(ch[i], cexp, child_corner(c, pow2(cexp), i))[p]);
            }
        }
    }
}

/// Disjoint enclosing cubes give disjoint enclosed cubes.
proof fn lemma_disjoint_mono(a: Corner, ea: int, ca: Corner, eca: int, b: Corner, eb: int, cb: Corner, ecb: int)
    requires
        cube_in_cube(a, ea, ca, eca),
        cube_in_cube(b, eb, cb, ecb),
        cubes_disjoint(ca, eca, cb, ecb),
        ea >= 0,
        eb >= 0,
    ensures
        cubes_disjoint(a, ea, b, eb),
{
}

/// The cubes of two distinct `Full` corners in one well-formed subtree are
/// disjoint.
proof fn lemma_info_disjoint(node: AlloctreeNode, exp: int, c: Corner)
    requires
        node_wf(node, exp),
    ensures
        forall|p1: Corner, p2: Corner|
            #![trigger full_info(node, exp, c)[p1], full_info(node, exp, c)[p2]]
            full_info(node, exp, c).dom().contains(p1) && full_info(node, exp, c).dom().contains(p2)
                && p1 != p2 ==> cubes_disjoint(
                p1,
                pow2(full_info(node, exp, c)[p1]),
                p2,
                pow2(full_info(node, exp, c)[p2]),
            ),
    decreases node,
{
    match node {
        AlloctreeNode::Empty => {},
        AlloctreeNode::Full => {},
        AlloctreeNode::Oct(children) => {
            let half = pow2(exp - 1);
            lemma_pow2_pos(exp - 1);
            lemma_info_disjoint(children@[0], exp - 1, child_corner(c, half, 0));
            lemma_info_disjoint(children@[1], exp - 1, child_corner(c, half, 1));
            lemma_info_disjoint(children@[2], exp - 1, child_corner(c, half, 2));
            lemma_info_disjoint(children@[3], exp - 1, child_corner(c, half, 3));
            lemma_info_disjoint(children@[4], exp - 1, child_corner(c, half, 4));
            lemma_info_disjoint(children@[5], exp - 1, child_corner(c, half, 5));
            lemma_info_disjoint(children@[6], exp - 1, child_corner(c, half, 6));
            lemma_info_disjoint(children@[7], exp - 1, child_corner(c, half, 7));
            lemma_info_bounds(children@[0], exp - 1, child_corner(c, half, 0));
            lemma_info_bounds(children@[1], exp - 1, child_corner(c, half, 1));
            lemma_info_bounds(children@[2], exp - 1, child_corner(c, half, 2));
            lemma_info_bounds(children@[3], exp - 1, child_corner(c, half, 3));
            lemma_info_bounds(children@[4], exp - 1, child_corner(c, half, 4));
            lemma_info_bounds(children@[5], exp - 1, child_corner(c, half, 5));
            lemma_info_bounds(children@[6], exp - 1, child_corner(c, half, 6));
            lemma_info_bounds(children@[7], exp - 1, child_corner(c, half, 7));
            lemma_octs_member(children@, exp - 1, c, 8);
            let m = octs_info(children@, exp - 1, c, 8);
            assert forall|p1: Corner, p2: Corner|
                #![trigger m[p1], m[p2]]
                m.dom().contains(p1) && m.dom().contains(p2) && p1 != p2 implies cubes_disjoint(
                p1,
                pow2(m[p1]),
                p2,
                pow2(m[p2]),
            ) by {
                let i1 = choose|i: int|
                    0 <= i < 8 && full_info(
                        children@[i],
                        exp - 1,
                        child_corner(c, half, i),
                    ).dom().contains(p1) && m[p1] == full_info(
                        children@[i],
                        exp - 1,
                        child_corner(c, half, i),
                    )[p1];
                let i2 = choose|i: int|
                    0 <= i < 8 && full_info(
                        children@[i],
                        exp - 1,
                        child_corner(c, half, i),
                    ).dom().contains(p2) && m[p2] == full_info(
                        children@[i],
                        exp - 1,
                        child_corner(c, half, i),
                    )[p2];
                let info1 = full_info(children@[i1], exp - 1, child_corner(c, half, i1));
                let info2 = full_info(children@[i2], exp - 1, child_corner(c, half, i2));
                lemma_pow2_pos(info1[p1]);
                lemma_pow2_pos(info2[p2]);
                if i1 == i2 {
                    assert(cubes_disjoint(p1, pow2(info1[p1]), p2, pow2(info1[p2])));
                } else {
                    lemma_octants_disjoint(c, half, i1, i2);
                    lemma_disjoint_mono(
                        p1,
                        pow2(info1[p1]),
                        child_corner(c, half, i1),
                        half,
                        p2,
                        pow2(info2[p2]),
                        child_corner(c, half, i2),
                        half,
                    );
                }
            }
        },
    }
}

/// A `Full` corner of a well-formed subtree lies inside the subtree's cube.
proof fn lemma_info_corner_in_cube(node: AlloctreeNode, exp: int, c: Corner, p: Corner)
    requires
        node_wf(node, exp),
        full_info(node, exp, c).dom().contains(p),
    ensures
        in_cube(c, pow2(exp), p),
{
    lemma_info_bounds(node, exp, c);
    lemma_pow2_pos(full_info(node, exp, c)[p]);
}

/// Pointwise update of one child: how `octs_info` changes when child `k`
/// gains the single new corner `p`.
proof fn lemma_octs_insert(
    ch: Seq<AlloctreeNode>,
    ch2: Seq<AlloctreeNode>,
    cexp: int,
    c: Corner,
    k: int,
    p: Corner,
    j: int,
    n: int,
)
    requires
        ch.len() == 8,
        ch2.len() == 8,
        0 <= k < 8,
        0 <= n <= 8,
        forall|i: int| 0 <= i < 8 && i != k ==> ch2[i] == ch[i],
        full_info(ch2[k], cexp, child_corner(c, pow2(cexp), k)) == full_info(
            ch[k],
            cexp,
            child_corner(c, pow2(cexp), k),
        ).insert(p, j),
        forall|i: int|
            0 <= i < 8 ==> !full_info(
                #[trigger] ch[i],
                cexp,
                child_corner(c, pow2(cexp), i),
            ).dom().contains(p),
    ensures
        n <= k ==> octs_info(ch2, cexp, c, n) == octs_info(ch, cexp, c, n),
        n > k ==> octs_info(ch2, cexp, c, n) == octs_info(ch, cexp, c, n).insert(p, j),
    decreases n,
{
    if n > 0 {
        lemma_octs_insert(ch, ch2, cexp, c, k, p, j, n - 1);
        let prev = octs_info(ch, cexp, c, n - 1);
        let prev2 = octs_info(ch2, cexp, c, n - 1);
        let last = full_info(ch[n - 1], cexp, child_corner(c, pow2(cexp), n - 1));
        let last2 = full_info(ch2[n - 1], cexp, child_corner(c, pow2(cexp), n - 1));
        if n - 1 < k {
            assert(octs_info(ch2, cexp, c, n) =~= octs_info(ch, cexp, c, n));
        } else if n - 1 == k {
            assert(last2 == last.insert(p, j));
            assert(prev2.union_prefer_right(last.insert(p, j)) =~= prev.union_prefer_right(
                last,
            ).insert(p, j));
        } else {
            assert(prev2 == prev.insert(p, j));
            assert(!last.dom().contains(p));
            assert(prev.insert(p, j).union_prefer_right(last2) =~= prev.union_prefer_right(
                last,
            ).insert(p, j));
        }
    }
}

/// Pointwise update of one child: how `octs_info` changes when child `k`
/// loses the single corner `p`.
proof fn lemma_octs_remove(
    ch: Seq<AlloctreeNode>,
    ch2: Seq<AlloctreeNode>,
    cexp: int,
    c: Corner,
    k: int,
    p: Corner,
    n: int,
)
    requires
        ch.len() == 8,
        ch2.len() == 8,
        0 <= k < 8,
        0 <= n <= 8,
        forall|i: int| 0 <= i < 8 && i != k ==> ch2[i] == ch[i],
        full_info(ch2[k], cexp, child_corner(c, pow2(cexp), k)) == full_info(
            ch[k],
            cexp,
            child_corner(c, pow2(cexp), k),
        ).remove(p),
        forall|i: int|
            0 <= i < 8 && i != k ==> !full_info(
                #[trigger] ch[i],
                cexp,
                child_corner(c, pow2(cexp), i),
            ).dom().contains(p),
    ensures
        n <= k ==> octs_info(ch2, cexp, c, n) == octs_info(ch, cexp, c, n),
        n > k ==> octs_info(ch2, cexp, c, n) == octs_info(ch, cexp, c, n).remove(p),
    decreases n,
{
    if n > 0 {
        lemma_octs_remove(ch, ch2, cexp, c, k, p, n - 1);
        let prev = octs_info(ch, cexp, c, n - 1);
        let prev2 = octs_info(ch2, cexp, c, n - 1);
        let last = full_info(ch[n - 1], cexp, child_corner(c, pow2(cexp), n - 1));
        let last2 = full_info(ch2[n - 1], cexp, child_corner(c, pow2(cexp), n - 1));
        if n - 1 < k {
            assert(octs_info(ch2, cexp, c, n) =~= octs_info(ch, cexp, c, n));
        } else if n - 1 == k {
            assert(last2 == last.remove(p));
            assert(!prev.dom().contains(p)) by {
                lemma_octs_member(ch, cexp, c, n - 1);
            }
            assert(prev2.union_prefer_right(last.remove(p)) =~= prev.union_prefer_right(
                last,
            ).remove(p));
        } else {
            assert(prev2 == prev.remove(p));
            assert(!last.dom().contains(p));
            assert(prev.remove(p).union_prefer_right(last2) =~= prev.union_prefer_right(
                last,
            ).remove(p));
        }
    }
}

/// Pointwise update of one child: replacing child `k` by one with the same
/// `Full` corners leaves the union unchanged.
proof fn lemma_octs_same(
    ch: Seq<AlloctreeNode>,
    ch2: Seq<AlloctreeNode>,
    cexp: int,
    c: Corner,
    k: int,
    n: int,
)
    requires
        ch.len() == 8,
        ch2.len() == 8,
        0 <= k < 8,
        0 <= n <= 8,
        forall|i: int| 0 <= i < 8 && i != k ==> ch2[i] == ch[i],
        full_info(ch2[k], cexp, child_corner(c, pow2(cexp), k)) == full_info(
            ch[k],
            cexp,
            child_corner(c, pow2(cexp), k),
        ),
    ensures
        octs_info(ch2, cexp, c, n) == octs_info(ch, cexp, c, n),
    decreases n,
{
    if n > 0 {
        lemma_octs_same(ch, ch2, cexp, c, k, n - 1);
    }
}

/// Pointwise summation: if child `k`'s slot count changes by `d` and the
/// others are unchanged, the sum changes by `d`.
proof fn lemma_sumfree_point(
    ch: Seq<AlloctreeNode>,
    ch2: Seq<AlloctreeNode>,
    cexp: int,
    j: int,
    k: int,
    d: int,
    n: int,
)
    requires
        ch.len() == 8,
        ch2.len() == 8,
        0 <= k < 8,
        0 <= n <= 8,
        forall|i: int| 0 <= i < 8 && i != k ==> ch2[i] == ch[i],
        free_slots(ch2[k], cexp, j) == free_slots(ch[k], cexp, j) + d,
    ensures
        n <= k ==> sum_free(ch2, cexp, j, n) == sum_free(ch, cexp, j, n),
        n > k ==> sum_free(ch2, cexp, j, n) == sum_free(ch, cexp, j, n) + d,
    decreases n,
{
    if n > 0 {
        lemma_sumfree_point(ch, ch2, cexp, j, k, d, n - 1);
    }
}

/// Pointwise summation for occupied volume, allowing the alloc map to change
/// as long as each sibling's contribution is unchanged.
proof fn lemma_sumocc_point(
    ch: Seq<AlloctreeNode>,
    ch2: Seq<AlloctreeNode>,
    cexp: int,
    c: Corner,
    allocs: Map<Corner, GridAab>,
    allocs2: Map<Corner, GridAab>,
    k: int,
    d: int,
    n: int,
)
    requires
        ch.len() == 8,
        ch2.len() == 8,
        0 <= k < 8,
        0 <= n <= 8,
        forall|i: int|
            0 <= i < 8 && i != k ==> ch2[i] == ch[i] && tree_occ(
                #[trigger] ch2[i],
                cexp,
                child_corner(c, pow2(cexp), i),
                allocs2,
            ) == tree_occ(ch[i], cexp, child_corner(c, pow2(cexp), i), allocs),
        tree_occ(ch2[k], cexp, child_corner(c, pow2(cexp), k), allocs2) == tree_occ(
            ch[k],
            cexp,
            child_corner(c, pow2(cexp), k),
            allocs,
        ) + d,
    ensures
        n <= k ==> sum_occ(ch2, cexp, c, allocs2, n) == sum_occ(ch, cexp, c, allocs, n),
        n > k ==> sum_occ(ch2, cexp, c, allocs2, n) == sum_occ(ch, cexp, c, allocs, n) + d,
    decreases n,
{
    if n > 0 {
        lemma_sumocc_point(ch, ch2, cexp, c, allocs, allocs2, k, d, n - 1);
    }
}

/// Inserting a corner that is not `Full` in the subtree leaves the subtree's
/// recorded volume unchanged.
proof fn lemma_occ_frame(
    node: AlloctreeNode,
    exp: int,
    c: Corner,
    allocs: Map<Corner, GridAab>,
    allocs2: Map<Corner, GridAab>,
    p: Corner,
)
    requires
        node_wf(node, exp),
        !full_info(node, exp, c).dom().contains(p),
        agree_except(allocs, allocs2, p),
    ensures
        tree_occ(node, exp, c, allocs2) == tree_occ(node, exp, c, allocs),
    decreases node, 9int,
{
    match node {
        AlloctreeNode::Empty => {},
        AlloctreeNode::Full => {},
        AlloctreeNode::Oct(children) => {
            lemma_octs_member(children@, exp - 1, c, 8);
            lemma_sumocc_frame(children@, exp - 1, c, allocs, allocs2, p, 8);
        },
    }
}

proof fn lemma_sumocc_frame(
    ch: Seq<AlloctreeNode>,
    cexp: int,
    c: Corner,
    allocs: Map<Corner, GridAab>,
    allocs2: Map<Corner, GridAab>,
    p: Corner,
    n: int,
)
    requires
        ch.len() == 8,
        0 <= n <= 8,
        forall|i: int| 0 <= i < 8 ==> node_wf(#[trigger] ch[i], cexp),
        forall|i: int|
            0 <= i < 8 ==> !full_info(
                #[trigger] ch[i],
                cexp,
                child_corner(c, pow2(cexp), i),
            ).dom().contains(p),
        agree_except(allocs, allocs2, p),
    ensures
        sum_occ(ch, cexp, c, allocs2, n) == sum_occ(ch, cexp, c, allocs, n),
    decreases ch, n,
{
    if n > 0 {
        lemma_sumocc_frame(ch, cexp, c, allocs, allocs2, p, n - 1);
        lemma_occ_frame(ch[n - 1], cexp, child_corner(c, pow2(cexp), n - 1), allocs, allocs2, p);
    }
}

/// Recorded volume of a subtree is at most the subtree cube's volume.
proof fn lemma_occ_bound(
    node: AlloctreeNode,
    exp: int,
    c: Corner,
    allocs: Map<Corner, GridAab>,
)
    requires
        node_wf(node, exp),
        forall|q: Corner|
            #[trigger] allocs.contains_key(q) && full_info(node, exp, c).dom().contains(q)
                ==> allocs[q].wf() && aab_in_cube(allocs[q], q, pow2(full_info(node, exp, c)[q])),
    ensures
        0 <= tree_occ(node, exp, c, allocs) <= pow8(exp),
    decreases node, 9int,
{
    lemma_pow8_pos(exp);
    match node {
        AlloctreeNode::Empty => {},
        AlloctreeNode::Full => {
            if allocs.contains_key(c) {
                let b = allocs[c];
                let e = pow2(exp);
                lemma_pow2_pos(exp);
                assert(full_info(node, exp, c)[c] == exp);
                assert(aab_in_cube(b, c, e));
                assert(0 <= b.spec_volume() <= e * e * e) by (nonlinear_arith)
                    requires
                        b.spec_volume() == b.size.x * b.size.y * b.size.z,
                        0 <= b.size.x <= e,
                        0 <= b.size.y <= e,
                        0 <= b.size.z <= e,
                ;
                lemma_pow8_cube(exp);
            }
        },
        AlloctreeNode::Oct(children) => {
            let half = pow2(exp - 1);
            lemma_pow2_pos(exp - 1);
            assert forall|i: int, q: Corner|
                0 <= i < 8 && #[trigger] allocs.contains_key(q) && full_info(
                    #[trigger] children@[i],
                    exp - 1,
                    child_corner(c, half, i),
                ).dom().contains(q) implies allocs[q].wf() && aab_in_cube(
                allocs[q],
                q,
                pow2(full_info(children@[i], exp - 1, child_corner(c, half, i))[q]),
            ) by {
                lemma_octs_value(children@, exp - 1, c, i, q);
            }
            lemma_sumocc_bound(children@, exp - 1, c, allocs, 8);
            assert(8 * pow8(exp - 1) == pow8(exp));
        },
    }
}

/// A corner held by one child is in the whole union, with that child's value:
/// children's corner sets cannot collide because their cubes are disjoint.
proof fn lemma_octs_value(ch: Seq<AlloctreeNode>, cexp: int, c: Corner, i: int, q: Corner)
    requires
        ch.len() == 8,
        0 <= i < 8,
        forall|t: int| 0 <= t < 8 ==> node_wf(#[trigger] ch[t], cexp),
        full_info(ch[i], cexp, child_corner(c, pow2(cexp), i)).dom().contains(q),
    ensures
        octs_info(ch, cexp, c, 8).dom().contains(q),
        octs_info(ch, cexp, c, 8)[q] == full_info(ch[i], cexp, child_corner(c, pow2(cexp), i))[q],
{
    lemma_octs_member(ch, cexp, c, 8);
    let half = pow2(cexp);
    lemma_pow2_pos(cexp);
    let i2 = choose|t: int|
        0 <= t < 8 && full_info(ch[t], cexp, child_corner(c, half, t)).dom().contains(q)
            && octs_info(ch, cexp, c, 8)[q] == full_info(ch[t], cexp, child_corner(c, half, t))[q];
    if i2 != i {
        lemma_info_corner_in_cube(ch[i], cexp, child_corner(c, half, i), q);
        lemma_info_corner_in_cube(ch[i2], cexp, child_corner(c, half, i2), q);
        lemma_octants_disjoint(c, half, i, i2);
        assert(false);
    }
}

proof fn lemma_sumocc_bound(
    ch: Seq<AlloctreeNode>,
    cexp: int,
    c: Corner,
    allocs: Map<Corner, GridAab>,
    n: int,
)
    requires
        ch.len() == 8,
        0 <= n <= 8,
        forall|i: int| 0 <= i < 8 ==> node_wf(#[trigger] ch[i], cexp),
        forall|i: int, q: Corner|
            0 <= i < 8 && #[trigger] allocs.contains_key(q) && full_info(
                #[trigger] ch[i],
                cexp,
                child_corner(c, pow2(cexp), i),
            ).dom().contains(q) ==> allocs[q].wf() && aab_in_cube(
                allocs[q],
                q,
                pow2(full_info(ch[i], cexp, child_corner(c, pow2(cexp), i))[q]),
            ),
    ensures
        0 <= sum_occ(ch, cexp, c, allocs, n) <= n * pow8(cexp),
    decreases ch, n,
{
    lemma_pow8_pos(cexp);
    if n > 0 {
        lemma_sumocc_bound(ch, cexp, c, allocs, n - 1);
        lemma_occ_bound(ch[n - 1], cexp, child_corner(c, pow2(cexp), n - 1), allocs);
        assert(n * pow8(cexp) == (n - 1) * pow8(cexp) + pow8(cexp)) by (nonlinear_arith);
    }
}

proof fn lemma_sumfree_zero(ch: Seq<AlloctreeNode>, cexp: int, j: int, n: int)
    requires
        ch.len() == 8,
        0 <= n <= 8,
        forall|i: int| 0 <= i < n ==> free_slots(#[trigger] ch[i], cexp, j) == 0,
    ensures
        sum_free(ch, cexp, j, n) == 0,
    decreases n,
{
    if n > 0 {
        lemma_sumfree_zero(ch, cexp, j, n - 1);
    }
}

/// For a row of all-`Empty` children: no `Full` corners, full slot count,
/// no occupied volume.
proof fn lemma_allempty(
    ch: Seq<AlloctreeNode>,
    cexp: int,
    j: int,
    c: Corner,
    allocs: Map<Corner, GridAab>,
    n: int,
)
    requires
        ch.len() == 8,
        0 <= n <= 8,
        0 <= j <= cexp,
        forall|i: int| 0 <= i < 8 ==> (#[trigger] ch[i]) == AlloctreeNode::Empty,
    ensures
        octs_info(ch, cexp, c, n) == Map::<Corner, int>::empty(),
        sum_free(ch, cexp, j, n) == n * pow8(cexp - j),
        sum_occ(ch, cexp, c, allocs, n) == 0,
    decreases n,
{
    if n > 0 {
        lemma_allempty(ch, cexp, j, c, allocs, n - 1);
        assert(ch[n - 1] == AlloctreeNode::Empty);
        assert(free_slots(ch[n - 1], cexp, j) == pow8(cexp - j));
        assert(tree_occ(ch[n - 1], cexp, child_corner(c, pow2(cexp), n - 1), allocs) == 0);
        assert(full_info(ch[n - 1], cexp, child_corner(c, pow2(cexp), n - 1)) == Map::<
            Corner,
            int,
        >::empty());
        assert(octs_info(ch, cexp, c, n) =~= Map::<Corner, int>::empty());
        assert(n * pow8(cexp - j) == (n - 1) * pow8(cexp - j) + pow8(cexp - j))
            by (nonlinear_arith);
    } else {
        assert(0 * pow8(cexp - j) == 0) by (nonlinear_arith);
    }
}

proof fn lemma_pow8_cube(exp: int)
    ensures
        pow8(exp) == pow2(exp) * pow2(exp) * pow2(exp),
    decreases (if exp >= 0 { exp } else { 0 }),
{
    if exp <= 0 {
    } else {
        lemma_pow8_cube(exp - 1);
        let p = pow2(exp - 1);
        assert(pow8(exp) == 8 * (p * p * p));
        assert((2 * p) * (2 * p) * (2 * p) == 8 * (p * p * p)) by (nonlinear_arith);
    }
}


/// Description of an allocated region in an [`Alloctree`].
///
/// Freeing is explicit: the handle does not deallocate on drop.
#[derive(Debug, PartialEq, Eq, Structural)]
pub struct AlloctreeHandle {
    /// Allocated region: this is the region to write into.
    pub allocation: GridAab,
    /// The vector that carries the caller's box onto the location
    /// granted for it.
    pub offset: GridVector,
}

/// Largest allowed size exponent: `2^(10*3)` texels still fit 32-bit
/// indexing.
pub const MAX_SIZE_EXPONENT: u8 = 10;

/// An octree that allocates box regions within the fixed cubic address
/// space `[0, 2^size_exponent)^3` and stores nothing else.
pub struct Alloctree {
    /// Log2 of the edge of the allocatable region; lower bounds are zero.
    pub size_exponent: u8,
    pub root: AlloctreeNode,
    /// Occupied units, strictly in terms of request volume.
    pub occupied_volume: usize,
    /// The live allocations, keyed by the corner of the node each occupies.
    pub allocs: Ghost<Map<Corner, GridAab>>,
}

/// Convert a size exponent to an edge length, saturating at `i32::MAX`.
pub fn expsize(size_exponent: u8) -> (r: i32)
    ensures
        r == spec_expsize(size_exponent as int),
{
    if size_exponent >= 31 {
        i32::MAX
    } else {
        let mut v: i32 = 1;
        let mut k: u8 = 0;
        while k < size_exponent
            invariant
                0 <= k <= size_exponent,
                size_exponent < 31,
                v == pow2(k as int),
                1 <= v <= 0x4000_0000,
            decreases size_exponent - k,
        {
            proof {
                lemma_pow2_mono(k as int + 1, 30);
                assert(pow2(30) == 0x4000_0000) by {
                    reveal_with_fuel(pow2, 31);
                }
                assert(pow2(k as int + 1) == 2 * pow2(k as int));
            }
            v = v * 2;
            k = k + 1;
        }
        v
    }
}

/// Largest edge of a box size, at least 0.
pub fn max_edge_length(size: GridVector) -> (r: i32)
    ensures
        r == spec_max_edge(size),
{
    let m = if size.x >= size.y {
        size.x
    } else {
        size.y
    };
    let m2 = if m >= size.z {
        m
    } else {
        size.z
    };
    if m2 >= 0 {
        m2
    } else {
        0
    }
}

/// Test whether `request` fits in a cube of edge `2^size_exponent`.
pub fn fits(request: GridAab, size_exponent: u8) -> (r: bool)
    ensures
        r == spec_fits(request.size, size_exponent as int),
{
    max_edge_length(request.size()) <= expsize(size_exponent)
}

impl AlloctreeNode {
    /// Construct an `Oct` with this node in the low corner and the other
    /// seven octants empty.
    fn wrap_in_oct(self) -> (r: AlloctreeNode)
        ensures
            r matches AlloctreeNode::Oct(ch) && ch@.len() == 8 && ch@[0] == self && (forall|
                i: int,
            |
                1 <= i < 8 ==> ch@[i] == AlloctreeNode::Empty),
    {
        let mut ch: Vec<AlloctreeNode> = Vec::new();
        ch.push(self);
        ch.push(AlloctreeNode::Empty);
        ch.push(AlloctreeNode::Empty);
        ch.push(AlloctreeNode::Empty);
        ch.push(AlloctreeNode::Empty);
        ch.push(AlloctreeNode::Empty);
        ch.push(AlloctreeNode::Empty);
        ch.push(AlloctreeNode::Empty);
        AlloctreeNode::Oct(ch)
    }

    /// Recursive first-fit descent.  On success exactly one formerly empty
    /// node of exponent `j` becomes `Full` and holds the granted region; on
    /// failure every observable of the subtree is unchanged.
    #[verifier::loop_isolation(false)]
    #[verifier::rlimit(100)]
    fn node_allocate(
        &mut self,
        size_exponent: u8,
        low_corner: GridVector,
        request: GridAab,
        Ghost(allocs): Ghost<Map<Corner, GridAab>>,
        Ghost(j): Ghost<int>,
    ) -> (r: Option<AlloctreeHandle>)
        requires
            node_wf(*old(self), size_exponent as int),
            size_exponent <= 10,
            request.wf(),
            is_min_fit(spec_max_edge(request.size), j),
            j <= size_exponent as int,
            0 <= low_corner.x && low_corner.x + pow2(size_exponent as int) <= 1024,
            0 <= low_corner.y && low_corner.y + pow2(size_exponent as int) <= 1024,
            0 <= low_corner.z && low_corner.z + pow2(size_exponent as int) <= 1024,
        ensures
            node_wf(*final(self), size_exponent as int),
            match r {
                None => {
                    &&& full_info(*final(self), size_exponent as int, corner_of(low_corner))
                        == full_info(*old(self), size_exponent as int, corner_of(low_corner))
                    &&& forall|j2: int|
                        #[trigger] free_slots(*final(self), size_exponent as int, j2)
                            == free_slots(*old(self), size_exponent as int, j2)
                    &&& forall|al: Map<Corner, GridAab>|
                        #[trigger] tree_occ(
                            *final(self),
                            size_exponent as int,
                            corner_of(low_corner),
                            al,
                        ) == tree_occ(*old(self), size_exponent as int, corner_of(low_corner), al)
                    &&& free_slots(*old(self), size_exponent as int, j) == 0 || !non_extreme(
                        request,
                    )
                },
                Some(h) => {
                    let c = corner_of(h.allocation.lower);
                    &&& h.allocation.wf()
                    &&& h.allocation.size == request.size
                    &&& h.offset.x == h.allocation.lower.x - request.lower.x
                    &&& h.offset.y == h.allocation.lower.y - request.lower.y
                    &&& h.offset.z == h.allocation.lower.z - request.lower.z
                    &&& aab_in_cube(h.allocation, c, pow2(j))
                    &&& cube_in_cube(c, pow2(j), corner_of(low_corner), pow2(size_exponent as int))
                    &&& !full_info(
                        *old(self),
                        size_exponent as int,
                        corner_of(low_corner),
                    ).dom().contains(c)
                    &&& full_info(*final(self), size_exponent as int, corner_of(low_corner))
                        == full_info(*old(self), size_exponent as int, corner_of(low_corner)).insert(
                        c,
                        j,
                    )
                    &&& free_slots(*final(self), size_exponent as int, j) == free_slots(
                        *old(self),
                        size_exponent as int,
                        j,
                    ) - 1
                    &&& tree_occ(
                        *final(self),
                        size_exponent as int,
                        corner_of(low_corner),
                        allocs.insert(c, h.allocation),
                    ) == tree_occ(*old(self), size_exponent as int, corner_of(low_corner), allocs)
                        + h.allocation.spec_volume()
                },
            },
        decreases size_exponent,
    {
        let exp = size_exponent;
        let ghost lc = corner_of(low_corner);
        proof {
            lemma_pow2_pos(exp as int);
            lemma_pow2_bound(exp as int);
        }
        let mut tmp = AlloctreeNode::Empty;
        core::mem::swap(self, &mut tmp);
        match tmp {
            AlloctreeNode::Empty => {
                if exp > 0 && fits(request, exp - 1) {
                    // The request fits in one octant or less: grow a branch
                    // node and allocate in its low corner.
                    proof {
                        if j > exp - 1 {
                            lemma_pow2_mono(exp as int - 1, j - 1);
                            assert(false);
                        }
                    }
                    let mut child = AlloctreeNode::Empty;
                    let r = child.node_allocate(
                        exp - 1,
                        low_corner,
                        request,
                        Ghost(allocs),
                        Ghost(j),
                    );
                    match r {
                        None => {
                            *self = AlloctreeNode::Empty;
                            proof {
                                lemma_pow8_pos(exp as int - 1 - j);
                                assert(*self == *old(self));
                                assert(free_slots(AlloctreeNode::Empty, exp as int - 1, j) == pow8(
                                    exp as int - 1 - j,
                                ));
                                assert(!non_extreme(request));
                            }
                            None
                        },
                        Some(h) => {
                            let ghost child_final = child;
                            let ghost half = pow2(exp as int - 1);
                            let ghost cstar = corner_of(h.allocation.lower);
                            let wrapped = child.wrap_in_oct();
                            proof {
                                let ch_a = Seq::<AlloctreeNode>::new(
                                    8,
                                    |i: int| AlloctreeNode::Empty,
                                );
                                let ch_b = wrapped->Oct_0@;
                                assert(forall|i: int| 1 <= i < 8 ==> #[trigger] ch_b[i]
                                    == AlloctreeNode::Empty);
                                assert(forall|i: int|
                                    0 <= i < 8 ==> (#[trigger] ch_a[i]) == AlloctreeNode::Empty);
                                assert(child_corner(lc, half, 0) == lc) by {
                                    assert(half * (0int / 4) == 0 && half * ((0int / 2) % 2) == 0
                                        && half * (0int % 2) == 0) by (nonlinear_arith);
                                }
                                lemma_allempty(ch_a, exp as int - 1, j, lc, allocs, 8);
                                assert(full_info(ch_a[0], exp as int - 1, child_corner(lc, half, 0))
                                    =~= Map::<Corner, int>::empty());
                                assert(full_info(
                                    ch_b[0],
                                    exp as int - 1,
                                    child_corner(lc, half, 0),
                                ) == full_info(
                                    ch_a[0],
                                    exp as int - 1,
                                    child_corner(lc, half, 0),
                                ).insert(cstar, j));
                                lemma_octs_insert(ch_a, ch_b, exp as int - 1, lc, 0, cstar, j, 8);
                                lemma_sumfree_point(ch_a, ch_b, exp as int - 1, j, 0, -1, 8);
                                lemma_sumocc_point(
                                    ch_a,
                                    ch_b,
                                    exp as int - 1,
                                    lc,
                                    allocs,
                                    allocs.insert(cstar, h.allocation),
                                    0,
                                    h.allocation.spec_volume(),
                                    8,
                                );
                                assert(full_info(wrapped, exp as int, lc) =~= Map::<
                                    Corner,
                                    int,
                                >::empty().insert(cstar, j));
                                assert(pow8((exp - j) as int) == 8 * pow8(exp as int - 1 - j));
                                assert(ch_b[0] == child_final);
                                assert(node_wf(child_final, exp as int - 1));
                                assert forall|t: int| 0 <= t < 8 implies node_wf(
                                    #[trigger] ch_b[t],
                                    exp as int - 1,
                                ) by {
                                    if t >= 1 {
                                        assert(ch_b[t] == AlloctreeNode::Empty);
                                    }
                                }
                                assert(node_wf(wrapped, exp as int));
                                assert(free_slots(wrapped, exp as int, j) == free_slots(
                                    AlloctreeNode::Empty,
                                    exp as int,
                                    j,
                                ) - 1);
                                assert(tree_occ(
                                    wrapped,
                                    exp as int,
                                    lc,
                                    allocs.insert(cstar, h.allocation),
                                ) == tree_occ(AlloctreeNode::Empty, exp as int, lc, allocs)
                                    + h.allocation.spec_volume());
                            }
                            *self = wrapped;
                            Some(h)
                        },
                    }
                } else {
                    // Occupy this node with the allocation.
                    let dx = low_corner.x as i64 - request.lower.x as i64;
                    let dy = low_corner.y as i64 - request.lower.y as i64;
                    let dz = low_corner.z as i64 - request.lower.z as i64;
                    if dx > i32::MAX as i64 || dy > i32::MAX as i64 || dz > i32::MAX as i64 {
                        // Pathological request coordinates: the offset would
                        // overflow, so the request is refused.
                        *self = AlloctreeNode::Empty;
                        proof {
                            assert(*self == *old(self));
                            assert(!non_extreme(request));
                        }
                        return None;
                    }
                    proof {
                        lemma_pow2_mono(j, exp as int);
                        if exp > 0 {
                            // The request did not fit in half this node, so
                            // this node's exponent is the minimal fit.
                            assert(spec_max_edge(request.size) > pow2(exp as int - 1));
                            assert(is_min_fit(spec_max_edge(request.size), exp as int));
                        }
                        lemma_min_fit_unique(spec_max_edge(request.size), j, exp as int);
                    }
                    let offset = GridVector { x: dx as i32, y: dy as i32, z: dz as i32 };
                    let allocation = request.translate(offset);
                    *self = AlloctreeNode::Full;
                    proof {
                        let cstar = corner_of(allocation.lower);
                        assert(cstar == lc);
                        assert(full_info(AlloctreeNode::Full, exp as int, lc) =~= Map::<
                            Corner,
                            int,
                        >::empty().insert(cstar, j));
                        assert(full_info(AlloctreeNode::Empty, exp as int, lc) =~= Map::<
                            Corner,
                            int,
                        >::empty());
                    }
                    Some(AlloctreeHandle { allocation, offset })
                }
            },
            AlloctreeNode::Full => {
                *self = AlloctreeNode::Full;
                proof {
                    assert(*self == *old(self));
                }
                None
            },
            AlloctreeNode::Oct(mut children) => {
                let ghost ch0 = children@;
                if !fits(request, exp - 1) {
                    // The tree is subdivided into parts too small to use.
                    proof {
                        if j <= exp as int - 1 {
                            lemma_pow2_mono(j, exp as int - 1);
                            assert(false);
                        }
                    }
                    *self = AlloctreeNode::Oct(children);
                    proof {
                        assert(self->Oct_0@ == ch0);
                        assert(free_slots(*old(self), exp as int, j) == 0);
                        assert(full_info(*final(self), exp as int, lc) == full_info(
                            *old(self),
                            exp as int,
                            lc,
                        ));
                        assert forall|j2: int|
                            #[trigger] free_slots(*final(self), exp as int, j2) == free_slots(
                                *old(self),
                                exp as int,
                                j2,
                            ) by {}
                        assert forall|al: Map<Corner, GridAab>|
                            #[trigger] tree_occ(*final(self), exp as int, lc, al) == tree_occ(
                                *old(self),
                                exp as int,
                                lc,
                                al,
                            ) by {}
                    }
                    return None;
                }
                proof {
                    if j > exp - 1 {
                        lemma_pow2_mono(exp as int - 1, j - 1);
                        assert(false);
                    }
                }
                let child_size = expsize(exp - 1);
                let ghost half = pow2(exp as int - 1);
                let mut i: usize = 0;
                while i < 8
                    invariant
                        0 <= i <= 8,
                        children@.len() == 8,
                        forall|t: int|
                            0 <= t < 8 ==> node_wf(#[trigger] children@[t], exp as int - 1),
                        octs_info(children@, exp as int - 1, lc, 8) == octs_info(
                            ch0,
                            exp as int - 1,
                            lc,
                            8,
                        ),
                        forall|j2: int|
                            #[trigger] sum_free(children@, exp as int - 1, j2, 8) == sum_free(
                                ch0,
                                exp as int - 1,
                                j2,
                                8,
                            ),
                        forall|al: Map<Corner, GridAab>|
                            #[trigger] sum_occ(children@, exp as int - 1, lc, al, 8) == sum_occ(
                                ch0,
                                exp as int - 1,
                                lc,
                                al,
                                8,
                            ),
                        non_extreme(request) ==> forall|t: int|
                            0 <= t < i ==> free_slots(
                                #[trigger] children@[t],
                                exp as int - 1,
                                j,
                            ) == 0,
                    decreases 8 - i,
                {
                    let bxu = i / 4;
                    let byu = (i / 2) % 2;
                    let bzu = i % 2;
                    proof {
                        lemma_pow2_pos(exp as int - 1);
                        lemma_pow2_bound(exp as int - 1);
                        assert(bxu <= 1 && byu <= 1 && bzu <= 1);
                        assert(0 <= child_size * (bxu as i32) <= child_size && 0 <= child_size * (
                        byu as i32) <= child_size && 0 <= child_size * (bzu as i32) <= child_size)
                            by (nonlinear_arith)
                            requires
                                0 <= bxu <= 1,
                                0 <= byu <= 1,
                                0 <= bzu <= 1,
                                child_size >= 0,
                        ;
                    }
                    let clc = GridVector {
                        x: low_corner.x + child_size * (bxu as i32),
                        y: low_corner.y + child_size * (byu as i32),
                        z: low_corner.z + child_size * (bzu as i32),
                    };
                    let ghost ch_prev = children@;
                    proof {
                        assert(corner_of(clc) == child_corner(lc, half, i as int));
                        lemma_child_cube_in_parent(lc, half, i as int);
                    }
                    let r = children[i].node_allocate(
                        exp - 1,
                        clc,
                        request,
                        Ghost(allocs),
                        Ghost(j),
                    );
                    match r {
                        None => {
                            proof {
                                let k = i as int;
                                let ch_next = children@;
                                assert(ch_next == ch_prev.update(k, ch_next[k]));
                                lemma_octs_same(ch_prev, ch_next, exp as int - 1, lc, k, 8);
                                assert forall|j2: int|
                                    #[trigger] sum_free(ch_next, exp as int - 1, j2, 8)
                                        == sum_free(ch_prev, exp as int - 1, j2, 8) by {
                                    lemma_sumfree_point(
                                        ch_prev,
                                        ch_next,
                                        exp as int - 1,
                                        j2,
                                        k,
                                        0,
                                        8,
                                    );
                                }
                                assert forall|al: Map<Corner, GridAab>|
                                    #[trigger] sum_occ(ch_next, exp as int - 1, lc, al, 8)
                                        == sum_occ(ch_prev, exp as int - 1, lc, al, 8) by {
                                    lemma_sumocc_point(
                                        ch_prev,
                                        ch_next,
                                        exp as int - 1,
                                        lc,
                                        al,
                                        al,
                                        k,
                                        0,
                                        8,
                                    );
                                }
                            }
                            i = i + 1;
                        },
                        Some(h) => {
                            let ghost ch1 = children@;
                            let ghost cstar = corner_of(h.allocation.lower);
                            let ghost allocs2 = allocs.insert(cstar, h.allocation);
                            proof {
                                let k = i as int;
                                assert(ch1 == ch_prev.update(k, ch1[k]));
                                lemma_pow2_pos(j);
                                assert(in_cube(child_corner(lc, half, k), half, cstar));
                                assert forall|t: int| 0 <= t < 8 implies !full_info(
                                    #[trigger] ch_prev[t],
                                    exp as int - 1,
                                    child_corner(lc, half, t),
                                ).dom().contains(cstar) by {
                                    if t != k {
                                        if full_info(
                                            ch_prev[t],
                                            exp as int - 1,
                                            child_corner(lc, half, t),
                                        ).dom().contains(cstar) {
                                            lemma_info_corner_in_cube(
                                                ch_prev[t],
                                                exp as int - 1,
                                                child_corner(lc, half, t),
                                                cstar,
                                            );
                                            lemma_octants_disjoint(lc, half, t, k);
                                            assert(false);
                                        }
                                    }
                                }
                                assert(!octs_info(ch_prev, exp as int - 1, lc, 8).dom().contains(
                                    cstar,
                                )) by {
                                    lemma_octs_member(ch_prev, exp as int - 1, lc, 8);
                                }
                                lemma_octs_insert(
                                    ch_prev,
                                    ch1,
                                    exp as int - 1,
                                    lc,
                                    k,
                                    cstar,
                                    j,
                                    8,
                                );
                                lemma_sumfree_point(ch_prev, ch1, exp as int - 1, j, k, -1, 8);
                                assert(agree_except(allocs, allocs2, cstar));
                                assert forall|t: int| 0 <= t < 8 && t != k implies ch1[t]
                                    == ch_prev[t] && tree_occ(
                                    #[trigger] ch1[t],
                                    exp as int - 1,
                                    child_corner(lc, half, t),
                                    allocs2,
                                ) == tree_occ(
                                    ch_prev[t],
                                    exp as int - 1,
                                    child_corner(lc, half, t),
                                    allocs,
                                ) by {
                                    lemma_occ_frame(
                                        ch_prev[t],
                                        exp as int - 1,
                                        child_corner(lc, half, t),
                                        allocs,
                                        allocs2,
                                        cstar,
                                    );
                                }
                                lemma_sumocc_point(
                                    ch_prev,
                                    ch1,
                                    exp as int - 1,
                                    lc,
                                    allocs,
                                    allocs2,
                                    k,
                                    h.allocation.spec_volume(),
                                    8,
                                );
                            }
                            *self = AlloctreeNode::Oct(children);
                            proof {
                                assert(self->Oct_0@ == ch1);
                            }
                            return Some(h);
                        },
                    }
                }
                proof {
                    if non_extreme(request) {
                        lemma_sumfree_zero(children@, exp as int - 1, j, 8);
                    }
                }
                let ghost ch_last = children@;
                *self = AlloctreeNode::Oct(children);
                proof {
                    assert(self->Oct_0@ == ch_last);
                    assert(full_info(*final(self), exp as int, lc) == full_info(
                        *old(self),
                        exp as int,
                        lc,
                    ));
                    assert forall|j2: int|
                        #[trigger] free_slots(*final(self), exp as int, j2) == free_slots(
                            *old(self),
                            exp as int,
                            j2,
                        ) by {
                        if 0 <= j2 <= exp as int - 1 {
                            assert(sum_free(ch_last, exp as int - 1, j2, 8) == sum_free(
                                ch0,
                                exp as int - 1,
                                j2,
                                8,
                            ));
                        }
                    }
                    assert forall|al: Map<Corner, GridAab>|
                        #[trigger] tree_occ(*final(self), exp as int, lc, al) == tree_occ(
                            *old(self),
                            exp as int,
                            lc,
                            al,
                        ) by {
                        assert(sum_occ(ch_last, exp as int - 1, lc, al, 8) == sum_occ(
                            ch0,
                            exp as int - 1,
                            lc,
                            al,
                            8,
                        ));
                    }
                    if non_extreme(request) {
                        assert(free_slots(*old(self), exp as int, j) == sum_free(
                            ch0,
                            exp as int - 1,
                            j,
                            8,
                        ));
                        assert(sum_free(ch_last, exp as int - 1, j, 8) == 0);
                    }
                }
                None
            },
        }
    }

    /// Walk down to the `Full` node whose corner is `node_c + rel_corner`
    /// and reset it to `Empty`.
    fn node_free(
        &mut self,
        size_exponent: u8,
        rel_corner: GridVector,
        Ghost(node_c): Ghost<Corner>,
        Ghost(abs): Ghost<Corner>,
        Ghost(allocs): Ghost<Map<Corner, GridAab>>,
    )
        requires
            node_wf(*old(self), size_exponent as int),
            size_exponent <= 10,
            full_info(*old(self), size_exponent as int, node_c).dom().contains(abs),
            rel_corner.x as int == abs.0 - node_c.0,
            rel_corner.y as int == abs.1 - node_c.1,
            rel_corner.z as int == abs.2 - node_c.2,
            allocs.contains_key(abs),
        ensures
            node_wf(*final(self), size_exponent as int),
            full_info(*final(self), size_exponent as int, node_c) == full_info(
                *old(self),
                size_exponent as int,
                node_c,
            ).remove(abs),
            ({
                let jf = full_info(*old(self), size_exponent as int, node_c)[abs];
                free_slots(*final(self), size_exponent as int, jf) == free_slots(
                    *old(self),
                    size_exponent as int,
                    jf,
                ) + 1
            }),
            tree_occ(*final(self), size_exponent as int, node_c, allocs) == tree_occ(
                *old(self),
                size_exponent as int,
                node_c,
            allocs) - allocs[abs].spec_volume(),
        decreases size_exponent,
    {
        let exp = size_exponent;
        proof {
            lemma_pow2_pos(exp as int);
        }
        let mut tmp = AlloctreeNode::Empty;
        core::mem::swap(self, &mut tmp);
        match tmp {
            AlloctreeNode::Empty => {
                proof {
                    assert(false);
                }
            },
            AlloctreeNode::Full => {
                // `self` stays `Empty`: the node is released.
                proof {
                    assert(abs == node_c);
                    assert(full_info(AlloctreeNode::Empty, exp as int, node_c) =~= full_info(
                        AlloctreeNode::Full,
                        exp as int,
                        node_c,
                    ).remove(abs));
                }
            },
            AlloctreeNode::Oct(mut children) => {
                let ghost ch0 = children@;
                let ghost half = pow2(exp as int - 1);
                let child_size = expsize(exp - 1);
                proof {
                    lemma_octs_member(ch0, exp as int - 1, node_c, 8);
                    lemma_info_corner_in_cube(*old(self), exp as int, node_c, abs);
                    assert(pow2(exp as int) == 2 * half);
                }
                let bx: i32 = if rel_corner.x >= child_size {
                    1
                } else {
                    0
                };
                let by: i32 = if rel_corner.y >= child_size {
                    1
                } else {
                    0
                };
                let bz: i32 = if rel_corner.z >= child_size {
                    1
                } else {
                    0
                };
                let idx = (bx * 4 + by * 2 + bz) as usize;
                let ghost k = idx as int;
                proof {
                    assert(k / 4 == bx as int && (k / 2) % 2 == by as int && k % 2 == bz as int);
                    assert(half * (bx as int) == if bx == 1 { half } else { 0 });
                    assert(half * (by as int) == if by == 1 { half } else { 0 });
                    assert(half * (bz as int) == if bz == 1 { half } else { 0 });
                    assert(in_cube(child_corner(node_c, half, k), half, abs));
                    let t = choose|t: int|
                        0 <= t < 8 && full_info(
                            ch0[t],
                            exp as int - 1,
                            child_corner(node_c, half, t),
                        ).dom().contains(abs) && octs_info(ch0, exp as int - 1, node_c, 8)[abs]
                            == full_info(ch0[t], exp as int - 1, child_corner(node_c, half, t))[abs];
                    if t != k {
                        lemma_info_corner_in_cube(
                            ch0[t],
                            exp as int - 1,
                            child_corner(node_c, half, t),
                            abs,
                        );
                        lemma_octants_disjoint(node_c, half, t, k);
                        assert(false);
                    }
                }
                let new_rel = GridVector {
                    x: rel_corner.x - bx * child_size,
                    y: rel_corner.y - by * child_size,
                    z: rel_corner.z - bz * child_size,
                };
                children[idx].node_free(
                    exp - 1,
                    new_rel,
                    Ghost(child_corner(node_c, half, k)),
                    Ghost(abs),
                    Ghost(allocs),
                );
                let ghost ch1 = children@;
                proof {
                    let jf = full_info(ch0[k], exp as int - 1, child_corner(node_c, half, k))[abs];
                    lemma_octs_value(ch0, exp as int - 1, node_c, k, abs);
                    lemma_info_bounds(ch0[k], exp as int - 1, child_corner(node_c, half, k));
                    assert(0 <= jf <= exp as int - 1);
                    assert forall|t: int| 0 <= t < 8 && t != k implies !full_info(
                        #[trigger] ch0[t],
                        exp as int - 1,
                        child_corner(node_c, half, t),
                    ).dom().contains(abs) by {
                        if full_info(
                            ch0[t],
                            exp as int - 1,
                            child_corner(node_c, half, t),
                        ).dom().contains(abs) {
                            lemma_info_corner_in_cube(
                                ch0[t],
                                exp as int - 1,
                                child_corner(node_c, half, t),
                                abs,
                            );
                            lemma_octants_disjoint(node_c, half, t, k);
                            assert(false);
                        }
                    }
                    lemma_octs_remove(ch0, ch1, exp as int - 1, node_c, k, abs, 8);
                    lemma_sumfree_point(ch0, ch1, exp as int - 1, jf, k, 1, 8);
                    lemma_sumocc_point(
                        ch0,
                        ch1,
                        exp as int - 1,
                        node_c,
                        allocs,
                        allocs,
                        k,
                        -allocs[abs].spec_volume(),
                        8,
                    );
                }
                *self = AlloctreeNode::Oct(children);
            },
        }
    }
}

impl Alloctree {
    pub open spec fn exp(self) -> int {
        self.size_exponent as int
    }

    /// The `Full` corners of the tree, with their exponents.
    pub open spec fn info(self) -> Map<Corner, int> {
        full_info(self.root, self.exp(), (0, 0, 0))
    }

    /// Invariant tying the tree, the ghost allocation map, and the occupied
    /// volume together.
    pub open spec fn wf(self) -> bool {
        &&& self.size_exponent <= 10
        &&& node_wf(self.root, self.exp())
        &&& self.allocs@.dom() == self.info().dom()
        &&& forall|c: Corner|
            #[trigger] self.allocs@.dom().contains(c) ==> self.allocs@[c].wf() && corner_of(
                self.allocs@[c].lower,
            ) == c && is_min_fit(spec_max_edge(self.allocs@[c].size), self.info()[c])
                && aab_in_cube(self.allocs@[c], c, pow2(self.info()[c]))
        &&& self.occupied_volume as int == tree_occ(self.root, self.exp(), (0, 0, 0), self.allocs@)
    }

    /// Creates an unallocated space of edge length `2^size_exponent`.
    pub fn new(size_exponent: u8) -> (r: Alloctree)
        requires
            size_exponent <= MAX_SIZE_EXPONENT,
        ensures
            r.wf(),
            r.size_exponent == size_exponent,
            r.root == AlloctreeNode::Empty,
            r.allocs@ == Map::<Corner, GridAab>::empty(),
            r.occupied_volume == 0,
    {
        let t = Alloctree {
            size_exponent,
            root: AlloctreeNode::Empty,
            occupied_volume: 0,
            allocs: Ghost(Map::empty()),
        };
        proof {
            assert(t.allocs@.dom() =~= t.info().dom());
        }
        t
    }

    /// Allocates a region of the given size, if possible.
    ///
    /// The returned handle does not deallocate on drop; the caller must pass
    /// it back to [`Alloctree::free`], exactly once.
    ///
    /// The contract pins the outcome down: a request whose largest edge
    /// exceeds the total edge is always refused; otherwise (for requests
    /// whose coordinates are not pathologically near `i32::MIN`) the request
    /// succeeds exactly when a free slot of its minimal fitting exponent
    /// remains.  On success the granted region has exactly the requested
    /// size, lies within the allocator's bounds, and is recorded in the
    /// ghost allocation map, whose regions are pairwise disjoint
    /// ([`lemma_live_regions_disjoint`]).
    pub fn allocate(&mut self, request: GridAab) -> (r: Option<AlloctreeHandle>)
        requires
            old(self).wf(),
            request.wf(),
        ensures
            final(self).wf(),
            final(self).size_exponent == old(self).size_exponent,
            !spec_fits(request.size, old(self).exp()) ==> r is None,
            ({
                let jreq = min_fit_exp(spec_max_edge(request.size));
                match r {
                    None => {
                        &&& final(self).allocs@ == old(self).allocs@
                        &&& final(self).occupied_volume == old(self).occupied_volume
                        &&& final(self).info() == old(self).info()
                        &&& forall|j2: int|
                            #[trigger] free_slots(final(self).root, old(self).exp(), j2)
                                == free_slots(old(self).root, old(self).exp(), j2)
                        &&& spec_fits(request.size, old(self).exp()) && non_extreme(request)
                            ==> free_slots(old(self).root, old(self).exp(), jreq) == 0
                    },
                    Some(h) => {
                        let c = corner_of(h.allocation.lower);
                        &&& h.allocation.wf()
                        &&& h.allocation.size == request.size
                        &&& h.offset.x == h.allocation.lower.x - request.lower.x
                        &&& h.offset.y == h.allocation.lower.y - request.lower.y
                        &&& h.offset.z == h.allocation.lower.z - request.lower.z
                        &&& aab_in_cube(h.allocation, (0, 0, 0), pow2(old(self).exp()))
                        &&& !old(self).allocs@.dom().contains(c)
                        &&& final(self).allocs@ == old(self).allocs@.insert(c, h.allocation)
                        &&& final(self).occupied_volume == old(self).occupied_volume
                            + request.spec_volume()
                        &&& free_slots(final(self).root, old(self).exp(), jreq) == free_slots(
                            old(self).root,
                            old(self).exp(),
                            jreq,
                        ) - 1
                    },
                }
            }),
    {
        if !fits(request, self.size_exponent) {
            // Too big; can never fit.
            return None;
        }
        let ghost m = spec_max_edge(request.size);
        let ghost j = min_fit_exp(m);
        proof {
            lemma_min_fit_exp(m);
            if j > self.size_exponent as int {
                lemma_pow2_mono(self.size_exponent as int, j - 1);
                assert(false);
            }
        }
        let ghost allocs0 = self.allocs@;
        let ghost old_t = *self;
        proof {
            lemma_pow2_bound(self.size_exponent as int);
            lemma_pow2_pos(self.size_exponent as int);
        }
        let r = self.root.node_allocate(
            self.size_exponent,
            GridVector::new(0, 0, 0),
            request,
            Ghost(allocs0),
            Ghost(j),
        );
        match r {
            None => None,
            Some(h) => {
                let ghost cstar = corner_of(h.allocation.lower);
                self.allocs = Ghost(allocs0.insert(cstar, h.allocation));
                proof {
                    assert(corner_of(GridVector { x: 0, y: 0, z: 0 }) == (0int, 0int, 0int));
                    assert(self.info() == old_t.info().insert(cstar, j));
                    assert(self.allocs@.dom() =~= self.info().dom());
                    assert forall|c2: Corner| #[trigger] self.allocs@.dom().contains(c2)
                        implies self.allocs@[c2].wf() && corner_of(self.allocs@[c2].lower) == c2
                        && is_min_fit(spec_max_edge(self.allocs@[c2].size), self.info()[c2])
                        && aab_in_cube(self.allocs@[c2], c2, pow2(self.info()[c2])) by {
                        if c2 != cstar {
                            assert(old_t.allocs@.dom().contains(c2));
                        }
                    }
                    // The new total volume is still bounded by the capacity,
                    // so the addition cannot overflow.
                    lemma_occ_bound(self.root, self.exp(), (0, 0, 0), self.allocs@);
                    lemma_pow8_bound(self.exp());
                }
                let vol = request.volume();
                self.occupied_volume = self.occupied_volume + vol;
                Some(h)
            },
        }
    }

    /// Deallocates the given previously allocated region.
    ///
    /// The handle must be one returned by `allocate` on this allocator and
    /// not freed before; afterwards a request of the same size is owed a
    /// free slot again.
    pub fn free(&mut self, handle: AlloctreeHandle)
        requires
            old(self).wf(),
            old(self).allocs@.contains_key(corner_of(handle.allocation.lower)),
            old(self).allocs@[corner_of(handle.allocation.lower)] == handle.allocation,
        ensures
            final(self).wf(),
            final(self).size_exponent == old(self).size_exponent,
            final(self).allocs@ == old(self).allocs@.remove(corner_of(handle.allocation.lower)),
            final(self).occupied_volume == old(self).occupied_volume
                - handle.allocation.spec_volume(),
            ({
                let jh = min_fit_exp(spec_max_edge(handle.allocation.size));
                free_slots(final(self).root, old(self).exp(), jh) == free_slots(
                    old(self).root,
                    old(self).exp(),
                    jh,
                ) + 1
            }),
    {
        let ghost c = corner_of(handle.allocation.lower);
        let ghost j = self.info()[c];
        let ghost allocs0 = self.allocs@;
        let ghost old_t = *self;
        let lower = handle.allocation.lower_bounds();
        proof {
            lemma_min_fit_exp(spec_max_edge(handle.allocation.size));
            lemma_min_fit_unique(
                spec_max_edge(handle.allocation.size),
                j,
                min_fit_exp(spec_max_edge(handle.allocation.size)),
            );
        }
        self.root.node_free(
            self.size_exponent,
            lower,
            Ghost((0, 0, 0)),
            Ghost(c),
            Ghost(allocs0),
        );
        self.allocs = Ghost(allocs0.remove(c));
        proof {
            assert(self.info() == old_t.info().remove(c));
            assert(self.allocs@.dom() =~= self.info().dom());
            assert forall|c2: Corner| #[trigger] self.allocs@.dom().contains(c2)
                implies self.allocs@[c2].wf() && corner_of(self.allocs@[c2].lower) == c2
                && is_min_fit(spec_max_edge(self.allocs@[c2].size), self.info()[c2])
                && aab_in_cube(self.allocs@[c2], c2, pow2(self.info()[c2])) by {
                assert(old_t.allocs@.dom().contains(c2));
            }
            // With the node gone, the remaining volume is nonnegative, so
            // the subtraction cannot underflow.
            lemma_occ_bound(self.root, self.exp(), (0, 0, 0), old_t.allocs@);
            lemma_occ_frame(self.root, self.exp(), (0, 0, 0), allocs0, self.allocs@, c);
        }
        let vol = handle.allocation.volume();
        self.occupied_volume = self.occupied_volume - vol;
    }

    /// Returns the region that could be allocated within.
    pub fn bounds(&self) -> (r: GridAab)
        requires
            self.size_exponent <= 10,
        ensures
            r.wf(),
            r.lower == (GridVector { x: 0, y: 0, z: 0 }),
            r.size.x == pow2(self.exp()),
            r.size.y == pow2(self.exp()),
            r.size.z == pow2(self.exp()),
    {
        let size = expsize(self.size_exponent);
        proof {
            lemma_pow2_pos(self.exp());
            lemma_pow2_bound(self.exp());
            assert((size as int) * (size as int) * (size as int) <= usize::MAX)
                by (nonlinear_arith)
                requires
                    1 <= size <= 1024,
            ;
        }
        GridAab::from_lower_size([0, 0, 0], [size, size, size])
    }

    /// Occupied units, in terms of request volume.
    pub fn occupied_volume(&self) -> (r: usize)
        ensures
            r == self.occupied_volume,
    {
        self.occupied_volume
    }
}

/// No-overlap law: two distinct live allocations of one well-formed
/// allocator never share a cube.
pub proof fn lemma_live_regions_disjoint(t: Alloctree, c1: Corner, c2: Corner)
    requires
        t.wf(),
        t.allocs@.dom().contains(c1),
        t.allocs@.dom().contains(c2),
        c1 != c2,
    ensures
        !t.allocs@[c1].overlaps(t.allocs@[c2]),
{
    lemma_info_disjoint(t.root, t.exp(), (0, 0, 0));
    let b1 = t.allocs@[c1];
    let b2 = t.allocs@[c2];
    assert(cubes_disjoint(c1, pow2(t.info()[c1]), c2, pow2(t.info()[c2])));
    if b1.overlaps(b2) {
        let w = choose|w: GridVector| b1.contains_cube(w) && b2.contains_cube(w);
        assert(in_cube(c1, pow2(t.info()[c1]), corner_of(w)));
        assert(in_cube(c2, pow2(t.info()[c2]), corner_of(w)));
        assert(false);
    }
}

/// Every live region lies within the allocator's own cube.
pub proof fn lemma_region_in_root(t: Alloctree, c: Corner)
    requires
        t.wf(),
        t.allocs@.dom().contains(c),
    ensures
        aab_in_cube(t.allocs@[c], (0, 0, 0), pow2(t.exp())),
{
    lemma_info_bounds(t.root, t.exp(), (0, 0, 0));
    lemma_pow2_pos(t.info()[c]);
}


/// Slot counts are never negative.
pub proof fn lemma_free_slots_nonneg(node: AlloctreeNode, exp: int, j: int)
    requires
        node_wf(node, exp),
    ensures
        free_slots(node, exp, j) >= 0,
    decreases node, 9int,
{
    if j < 0 || j > exp {
    } else {
        match node {
            AlloctreeNode::Empty => {
                lemma_pow8_pos(exp - j);
            },
            AlloctreeNode::Full => {},
            AlloctreeNode::Oct(children) => {
                if j <= exp - 1 {
                    lemma_sumfree_nonneg(children@, exp - 1, j, 8);
                }
            },
        }
    }
}

proof fn lemma_sumfree_nonneg(ch: Seq<AlloctreeNode>, cexp: int, j: int, n: int)
    requires
        ch.len() == 8,
        0 <= n <= 8,
        forall|i: int| 0 <= i < 8 ==> node_wf(#[trigger] ch[i], cexp),
    ensures
        sum_free(ch, cexp, j, n) >= 0,
    decreases ch, n,
{
    if n > 0 {
        lemma_sumfree_nonneg(ch, cexp, j, n - 1);
        lemma_free_slots_nonneg(ch[n - 1], cexp, j);
    }
}

/// Free/reallocate law: freeing a live allocation leaves at least one
/// free slot of the freed region's minimal fitting exponent, so an
/// immediate identical request (with unexceptional coordinates) is owed
/// success by `allocate`'s contract.
pub proof fn lemma_free_restores_slot(before: Alloctree, after: Alloctree, h: AlloctreeHandle)
    requires
        before.wf(),
        after.exp() == before.exp(),
        free_slots(after.root, after.exp(), min_fit_exp(spec_max_edge(h.allocation.size)))
            == free_slots(
            before.root,
            before.exp(),
            min_fit_exp(spec_max_edge(h.allocation.size)),
        ) + 1,
    ensures
        free_slots(after.root, after.exp(), min_fit_exp(spec_max_edge(h.allocation.size))) > 0,
{
    lemma_free_slots_nonneg(
        before.root,
        before.exp(),
        min_fit_exp(spec_max_edge(h.allocation.size)),
    );
}

/// Capacity law: in an empty allocator of exponent `e` there are exactly
/// `8^(e-j)` slots for requests of minimal fitting exponent `j <= e`; each
/// success consumes exactly one and each free returns exactly one, so `N`
/// equal cubes that tile the capacity all succeed and the next request of
/// that size is refused.
pub proof fn lemma_empty_capacity(e: int, jr: int)
    requires
        0 <= jr <= e,
    ensures
        free_slots(AlloctreeNode::Empty, e, jr) == pow8(e - jr),
        pow8(e - jr) >= 1,
{
    lemma_pow8_pos(e - jr);
}

} // verus!
