use vstd::prelude::*;

use crate::node::Node2D;
use crate::scalar::Scalar;

verus! {

/// A constant-strain triangle: three indices into the model's node collection.
#[derive(Clone, Copy, Debug)]
pub struct T3Element {
    pub indices: [usize; 3],
}

impl T3Element {
    pub fn new(indices: [usize; 3]) -> (r: Self)
        ensures
            r.indices == indices,
    {
        T3Element { indices }
    }
}

/// Whether every index of the triangle names one of `n` nodes.
pub open spec fn indices_in_range(indices: [usize; 3], n: nat) -> bool {
    forall|k: int| 0 <= k < 3 ==> (#[trigger] indices@[k] as nat) < n
}

/// Whether some index of the triangle is `v`.
pub open spec fn indices_contain(indices: [usize; 3], v: nat) -> bool {
    exists|k: int| 0 <= k < 3 && (#[trigger] indices@[k] as nat) == v
}

/// A 2x2 block of a stiffness matrix, tagged with the pair of global node
/// indices `(i, j)` it couples: it maps the displacement of node `i` to the
/// force at node `j`.
pub type StiffnessBlock<S> = ((usize, usize), [[S; 2]; 2]);

/// The positions of the nodes that `indices` names.
pub open spec fn spec_positions<S>(nodes: Seq<Node2D<S>>, indices: [usize; 3]) -> [[S; 2]; 3] {
    [
        nodes[indices@[0] as int].position,
        nodes[indices@[1] as int].position,
        nodes[indices@[2] as int].position,
    ]
}

/// The displacements of the nodes that `indices` names.
pub open spec fn spec_displacements<S>(nodes: Seq<Node2D<S>>, indices: [usize; 3]) -> [[S; 2]; 3] {
    [
        nodes[indices@[0] as int].displacement,
        nodes[indices@[1] as int].displacement,
        nodes[indices@[2] as int].displacement,
    ]
}

/// The positions of the triangle's three nodes, read from `nodes`.
pub fn positions<S: Copy>(nodes: &Vec<Node2D<S>>, indices: [usize; 3]) -> (r: [[S; 2]; 3])
    requires
        indices_in_range(indices, nodes@.len()),
    ensures
        r == spec_positions(nodes@, indices),
        forall|k: int| 0 <= k < 3 ==> #[trigger] r@[k] == nodes@[indices@[k] as int].position,
{
    assert(indices@[0] < nodes@.len() && indices@[1] < nodes@.len() && indices@[2] < nodes@.len());
    [nodes[indices[0]].position, nodes[indices[1]].position, nodes[indices[2]].position]
}

/// `a - b`.
pub open spec fn spec_difference<S: Scalar>(a: [S; 2], b: [S; 2]) -> [S; 2] {
    [a[0].spec_minus(b[0]), a[1].spec_minus(b[1])]
}

/// The 2D cross product `a.x * b.y - a.y * b.x`.
pub open spec fn spec_cross<S: Scalar>(a: [S; 2], b: [S; 2]) -> S {
    a[0].spec_times(b[1]).spec_minus(a[1].spec_times(b[0]))
}

/// The area of the triangle with corners `p`: one half times the magnitude of
/// the cross product of its two edges from the first corner.
pub open spec fn spec_area<S: Scalar>(p: [[S; 2]; 3]) -> S {
    let half = S::spec_from_int(1).spec_over(S::spec_from_int(2));
    half.spec_times(spec_cross(spec_difference(p[1], p[0]), spec_difference(p[2], p[0])).spec_abs())
}

/// The determinant of a 2x2 matrix.
pub open spec fn spec_det<S: Scalar>(m: [[S; 2]; 2]) -> S {
    m[0][0].spec_times(m[1][1]).spec_minus(m[0][1].spec_times(m[1][0]))
}

/// The inverse of a 2x2 matrix, `None` when its determinant is zero.
pub open spec fn spec_inverse<S: Scalar>(m: [[S; 2]; 2]) -> Option<[[S; 2]; 2]> {
    let det = spec_det(m);
    let z = S::spec_zero();
    if det.spec_is_zero() {
        None
    } else {
        Some(
            [
                [m[1][1].spec_over(det), z.spec_minus(m[0][1]).spec_over(det)],
                [z.spec_minus(m[1][0]).spec_over(det), m[0][0].spec_over(det)],
            ],
        )
    }
}

/// The Jacobian of the triangle `p0, p1, p2` in its own coordinates: the edges
/// from `p0` as columns.
pub open spec fn spec_jacobian<S: Scalar>(p0: [S; 2], p1: [S; 2], p2: [S; 2]) -> [[S; 2]; 2] {
    [[p1[0].spec_minus(p0[0]), p2[0].spec_minus(p0[0])], [p1[1].spec_minus(p0[1]), p2[1].spec_minus(p0[1])]]
}

/// The gradient of the shape function `1 - a - b` that is one at `p0`: minus
/// the sum of the rows of the inverse Jacobian, or `None` when the Jacobian
/// is singular.
pub open spec fn spec_gradient<S: Scalar>(p0: [S; 2], p1: [S; 2], p2: [S; 2]) -> Option<[S; 2]> {
    match spec_inverse(spec_jacobian(p0, p1, p2)) {
        None => None,
        Some(inv) => {
            let m = S::spec_zero().spec_minus(S::spec_from_int(1));
            Some(
                [
                    m.spec_times(inv[0][0]).spec_plus(m.spec_times(inv[1][0])),
                    m.spec_times(inv[0][1]).spec_plus(m.spec_times(inv[1][1])),
                ],
            )
        },
    }
}

/// The strain-displacement operator of one node, from the gradient `g` of its
/// shape function: rows `(gx, 0)`, `(0, gy)`, `(gy, gx)`.
pub open spec fn spec_strain_op<S: Scalar>(g: [S; 2]) -> [[S; 2]; 3] {
    let z = S::spec_zero();
    [[g[0], z], [z, g[1]], [g[1], g[0]]]
}

/// The strain-displacement operators of the triangle's three nodes, each
/// from the node's own shape function, or `None` when the triangle is
/// degenerate.
pub open spec fn spec_strain_ops<S: Scalar>(p: [[S; 2]; 3]) -> Option<[[[S; 2]; 3]; 3]> {
    match (spec_gradient(p[0], p[1], p[2]), spec_gradient(p[1], p[2], p[0]), spec_gradient(p[2], p[0], p[1])) {
        (Some(g0), Some(g1), Some(g2)) => Some([spec_strain_op(g0), spec_strain_op(g1), spec_strain_op(g2)]),
        _ => None,
    }
}

/// Whether the triangle with corners `p` is degenerate: the Jacobian of one of
/// its shape functions is singular.
pub open spec fn spec_degenerate<S: Scalar>(p: [[S; 2]; 3]) -> bool {
    spec_strain_ops(p) is None
}

pub open spec fn spec_dot3<S: Scalar>(a: [S; 3], b: [S; 3]) -> S {
    a[0].spec_times(b[0]).spec_plus(a[1].spec_times(b[1])).spec_plus(a[2].spec_times(b[2]))
}

pub open spec fn spec_column2<S>(m: [[S; 2]; 3], c: int) -> [S; 3] {
    [m[0]@[c], m[1]@[c], m[2]@[c]]
}

pub open spec fn spec_column3<S>(m: [[S; 3]; 3], c: int) -> [S; 3] {
    [m[0]@[c], m[1]@[c], m[2]@[c]]
}

/// Entry `(k, l)` of `bjᵀ · d · bi`: row `k` of `bjᵀ · d`, dotted with column
/// `l` of `bi`.
pub open spec fn spec_block_entry<S: Scalar>(
    bj: [[S; 2]; 3],
    d: [[S; 3]; 3],
    bi: [[S; 2]; 3],
    k: int,
    l: int,
) -> S {
    let bjk = spec_column2(bj, k);
    let row = [
        spec_dot3(bjk, spec_column3(d, 0)),
        spec_dot3(bjk, spec_column3(d, 1)),
        spec_dot3(bjk, spec_column3(d, 2)),
    ];
    spec_dot3(row, spec_column2(bi, l))
}

/// The stiffness block `bjᵀ · d · bi · area`.
pub open spec fn spec_block<S: Scalar>(
    bj: [[S; 2]; 3],
    d: [[S; 3]; 3],
    bi: [[S; 2]; 3],
    area: S,
) -> [[S; 2]; 2] {
    [
        [spec_block_entry(bj, d, bi, 0, 0).spec_times(area), spec_block_entry(bj, d, bi, 0, 1).spec_times(area)],
        [spec_block_entry(bj, d, bi, 1, 0).spec_times(area), spec_block_entry(bj, d, bi, 1, 1).spec_times(area)],
    ]
}

/// The nine stiffness blocks of the triangle with node `indices` and corners
/// `p` under elasticity `d`, or `None` when it is degenerate. Block `3a + b`
/// couples node `indices[a]` to node `indices[b]`: it is
/// `B_bᵀ · d · B_a · area`.
pub open spec fn spec_stiffness_blocks<S: Scalar>(
    indices: [usize; 3],
    p: [[S; 2]; 3],
    d: [[S; 3]; 3],
) -> Option<Seq<StiffnessBlock<S>>> {
    match spec_strain_ops(p) {
        None => None,
        Some(ops) => Some(
            Seq::new(
                9,
                |t: int|
                    (
                        (indices@[t / 3], indices@[t % 3]),
                        spec_block(ops@[t % 3], d, ops@[t / 3], spec_area(p)),
                    ),
            ),
        ),
    }
}

/// One term of the strain sum: `total + b · u`.
pub open spec fn spec_strain_term<S: Scalar>(total: [S; 3], b: [[S; 2]; 3], u: [S; 2]) -> [S; 3] {
    [
        total[0].spec_plus(b[0][0].spec_times(u[0]).spec_plus(b[0][1].spec_times(u[1]))),
        total[1].spec_plus(b[1][0].spec_times(u[0]).spec_plus(b[1][1].spec_times(u[1]))),
        total[2].spec_plus(b[2][0].spec_times(u[0]).spec_plus(b[2][1].spec_times(u[1]))),
    ]
}

/// The strain `ops[0] · u[0] + ops[1] · u[1] + ops[2] · u[2]`, summed from
/// zero in that order.
pub open spec fn spec_strain<S: Scalar>(ops: [[[S; 2]; 3]; 3], u: [[S; 2]; 3]) -> [S; 3] {
    let z = S::spec_zero();
    spec_strain_term(spec_strain_term(spec_strain_term([z, z, z], ops[0], u[0]), ops[1], u[1]), ops[2], u[2])
}

/// The stress `d · strain`.
pub open spec fn spec_stress<S: Scalar>(d: [[S; 3]; 3], strain: [S; 3]) -> [S; 3] {
    [spec_dot3(d[0], strain), spec_dot3(d[1], strain), spec_dot3(d[2], strain)]
}

fn difference<S: Scalar>(a: [S; 2], b: [S; 2]) -> (r: [S; 2])
    ensures
        r == spec_difference(a, b),
{
    [a[0].minus(b[0]), a[1].minus(b[1])]
}

/// The 2D cross product `a.x * b.y - a.y * b.x`.
pub fn cross<S: Scalar>(a: [S; 2], b: [S; 2]) -> (r: S)
    ensures
        r == spec_cross(a, b),
{
    a[0].times(b[1]).minus(a[1].times(b[0]))
}

/// The area of the triangle with corners `p`.
pub fn area<S: Scalar>(p: [[S; 2]; 3]) -> (r: S)
    ensures
        r == spec_area(p),
{
    let d1 = difference(p[1], p[0]);
    let d2 = difference(p[2], p[0]);
    let half = S::from_int(1).over(S::from_int(2));
    half.times(cross(d1, d2).abs())
}

/// The inverse of a 2x2 matrix, or `None` when its determinant is zero.
pub fn inverse2<S: Scalar>(m: [[S; 2]; 2]) -> (r: Option<[[S; 2]; 2]>)
    ensures
        r == spec_inverse(m),
{
    let det = m[0][0].times(m[1][1]).minus(m[0][1].times(m[1][0]));
    if det.is_zero() {
        None
    } else {
        let z = S::zero();
        Some(
            [
                [m[1][1].over(det), z.minus(m[0][1]).over(det)],
                [z.minus(m[1][0]).over(det), m[0][0].over(det)],
            ],
        )
    }
}

fn gradient<S: Scalar>(p0: [S; 2], p1: [S; 2], p2: [S; 2]) -> (r: Option<[S; 2]>)
    ensures
        r == spec_gradient(p0, p1, p2),
{
    let jacobian = [[p1[0].minus(p0[0]), p2[0].minus(p0[0])], [p1[1].minus(p0[1]), p2[1].minus(p0[1])]];
    assert(jacobian == spec_jacobian(p0, p1, p2));
    match inverse2(jacobian) {
        None => None,
        Some(inv) => {
            let minus_one = S::zero().minus(S::from_int(1));
            Some(
                [
                    minus_one.times(inv[0][0]).plus(minus_one.times(inv[1][0])),
                    minus_one.times(inv[0][1]).plus(minus_one.times(inv[1][1])),
                ],
            )
        },
    }
}

fn strain_op<S: Scalar>(g: [S; 2]) -> (r: [[S; 2]; 3])
    ensures
        r == spec_strain_op(g),
{
    let z = S::zero();
    [[g[0], z], [z, g[1]], [g[1], g[0]]]
}

/// The strain-displacement operators of the triangle's three nodes, or `None`
/// when the triangle is degenerate.
pub fn strain_ops<S: Scalar>(p: [[S; 2]; 3]) -> (r: Option<[[[S; 2]; 3]; 3]>)
    ensures
        r == spec_strain_ops(p),
{
    let g0 = gradient(p[0], p[1], p[2]);
    let g1 = gradient(p[1], p[2], p[0]);
    let g2 = gradient(p[2], p[0], p[1]);
    match (g0, g1, g2) {
        (Some(g0), Some(g1), Some(g2)) => Some([strain_op(g0), strain_op(g1), strain_op(g2)]),
        _ => None,
    }
}

fn dot3<S: Scalar>(a: [S; 3], b: [S; 3]) -> (r: S)
    ensures
        r == spec_dot3(a, b),
{
    a[0].times(b[0]).plus(a[1].times(b[1])).plus(a[2].times(b[2]))
}

fn column2<S: Copy>(m: [[S; 2]; 3], c: usize) -> (r: [S; 3])
    requires
        c < 2,
    ensures
        r == spec_column2(m, c as int),
{
    [m[0][c], m[1][c], m[2][c]]
}

fn column3<S: Copy>(m: [[S; 3]; 3], c: usize) -> (r: [S; 3])
    requires
        c < 3,
    ensures
        r == spec_column3(m, c as int),
{
    [m[0][c], m[1][c], m[2][c]]
}

fn block_entry<S: Scalar>(bj: [[S; 2]; 3], d: [[S; 3]; 3], bi: [[S; 2]; 3], k: usize, l: usize) -> (r: S)
    requires
        k < 2,
        l < 2,
    ensures
        r == spec_block_entry(bj, d, bi, k as int, l as int),
{
    let bjk = column2(bj, k);
    let row = [dot3(bjk, column3(d, 0)), dot3(bjk, column3(d, 1)), dot3(bjk, column3(d, 2))];
    dot3(row, column2(bi, l))
}

fn block<S: Scalar>(bj: [[S; 2]; 3], d: [[S; 3]; 3], bi: [[S; 2]; 3], area: S) -> (r: [[S; 2]; 2])
    ensures
        r == spec_block(bj, d, bi, area),
{
    [
        [block_entry(bj, d, bi, 0, 0).times(area), block_entry(bj, d, bi, 0, 1).times(area)],
        [block_entry(bj, d, bi, 1, 0).times(area), block_entry(bj, d, bi, 1, 1).times(area)],
    ]
}

/// The nine 2x2 stiffness blocks of the triangle with node `indices` and
/// corners `p`, under the elasticity matrix `d`, or `None` when the triangle is
/// degenerate.
pub fn stiffness_blocks<S: Scalar>(indices: [usize; 3], p: [[S; 2]; 3], d: [[S; 3]; 3]) -> (r:
    Option<Vec<StiffnessBlock<S>>>)
    ensures
        match r {
            None => spec_stiffness_blocks(indices, p, d) is None,
            Some(blocks) => spec_stiffness_blocks(indices, p, d) == Some(blocks@),
        },
{
    let ops = match strain_ops(p) {
        None => {
            return None;
        },
        Some(ops) => ops,
    };
    let a = area(p);
    let ghost want = Seq::new(
        9,
        |t: int|
            ((indices@[t / 3], indices@[t % 3]), spec_block(ops@[t % 3], d, ops@[t / 3], spec_area(p))),
    );
    let mut blocks: Vec<StiffnessBlock<S>> = Vec::new();
    let mut i: usize = 0;
    while i < 3
        invariant
            i <= 3,
            a == spec_area(p),
            spec_strain_ops(p) == Some(ops),
            spec_stiffness_blocks(indices, p, d) == Some(want),
            blocks@ == want.take(3 * i),
        decreases 3 - i,
    {
        let mut j: usize = 0;
        while j < 3
            invariant
                i < 3,
                j <= 3,
                a == spec_area(p),
                spec_strain_ops(p) == Some(ops),
                spec_stiffness_blocks(indices, p, d) == Some(want),
                blocks@ == want.take(3 * i + j),
            decreases 3 - j,
        {
            let t: usize = 3 * i + j;
            assert(t as int / 3 == i && t as int % 3 == j);
            let b = block(ops[j], d, ops[i], a);
            assert(want[t as int] == ((indices@[i as int], indices@[j as int]), b));
            blocks.push(((indices[i], indices[j]), b));
            assert(blocks@ =~= want.take(3 * i + j + 1));
            j = j + 1;
        }
        i = i + 1;
    }
    assert(want.take(9) =~= want);
    Some(blocks)
}

fn strain_term<S: Scalar>(total: [S; 3], b: [[S; 2]; 3], u: [S; 2]) -> (r: [S; 3])
    ensures
        r == spec_strain_term(total, b, u),
{
    [
        total[0].plus(b[0][0].times(u[0]).plus(b[0][1].times(u[1]))),
        total[1].plus(b[1][0].times(u[0]).plus(b[1][1].times(u[1]))),
        total[2].plus(b[2][0].times(u[0]).plus(b[2][1].times(u[1]))),
    ]
}

/// The strain of a triangle with strain-displacement operators `ops` whose
/// nodes have displacements `u`: the sum of `ops[k] · u[k]`.
pub fn strain<S: Scalar>(ops: [[[S; 2]; 3]; 3], u: [[S; 2]; 3]) -> (r: [S; 3])
    ensures
        r == spec_strain(ops, u),
{
    let z = S::zero();
    let total = strain_term([z, z, z], ops[0], u[0]);
    let total = strain_term(total, ops[1], u[1]);
    strain_term(total, ops[2], u[2])
}

/// The stress `d · strain`.
pub fn stress<S: Scalar>(d: [[S; 3]; 3], strain: [S; 3]) -> (r: [S; 3])
    ensures
        r == spec_stress(d, strain),
{
    [dot3(d[0], strain), dot3(d[1], strain), dot3(d[2], strain)]
}

} // verus!
