use vstd::prelude::*;

use crate::element::{
    indices_in_range, positions, spec_positions, spec_stiffness_blocks, stiffness_blocks,
    StiffnessBlock, T3Element,
};
use crate::matrix::{has_shape, spec_add_at, spec_zeros, GlobalMatrix};
use crate::node::Node2D;
use crate::scalar::Scalar;

verus! {

/// The global degree of freedom of axis `axis` of node `node`.
pub open spec fn dof(node: int, axis: int) -> int {
    2 * node + axis
}

/// Where entry `(k, l)` of the block that couples node `i` to node `j` goes in
/// the global matrix: the row is axis `k` of node `j`, the column axis `l` of
/// node `i`.
pub open spec fn scatter_position(i: int, j: int, k: int, l: int) -> (int, int) {
    (dof(j, k), dof(i, l))
}

/// Entry `(l, k)` of the block that couples node `j` to node `i` goes to the
/// transposed position of entry `(k, l)` of the block that couples node `i`
/// to node `j`.
pub proof fn lemma_scatter_transposes(i: int, j: int, k: int, l: int)
    ensures
        scatter_position(j, i, l, k) == (scatter_position(i, j, k, l).1, scatter_position(
            i,
            j,
            k,
            l,
        ).0),
{
}

/// `k` with the four entries of `block` added at their scatter positions, in
/// row-major order of the block.
pub open spec fn spec_scatter<S: Scalar>(k: Seq<Seq<S>>, block: StiffnessBlock<S>) -> Seq<Seq<S>> {
    let i = block.0.0 as int;
    let j = block.0.1 as int;
    let v = block.1;
    let k1 = spec_add_at(k, dof(j, 0), dof(i, 0), v[0][0]);
    let k2 = spec_add_at(k1, dof(j, 0), dof(i, 1), v[0][1]);
    let k3 = spec_add_at(k2, dof(j, 1), dof(i, 0), v[1][0]);
    spec_add_at(k3, dof(j, 1), dof(i, 1), v[1][1])
}

/// `k` with the first `t` blocks scattered into it, in order.
pub open spec fn spec_scatter_all<S: Scalar>(
    k: Seq<Seq<S>>,
    blocks: Seq<StiffnessBlock<S>>,
    t: nat,
) -> Seq<Seq<S>>
    decreases t,
{
    if t == 0 {
        k
    } else {
        spec_scatter(spec_scatter_all(k, blocks, (t - 1) as nat), blocks[t - 1])
    }
}

/// `k` with the stiffness blocks of the triangle `indices` added; unchanged
/// when the triangle names a missing node or is degenerate.
pub open spec fn spec_add_element<S: Scalar>(
    k: Seq<Seq<S>>,
    nodes: Seq<Node2D<S>>,
    indices: [usize; 3],
    d: [[S; 3]; 3],
) -> Seq<Seq<S>> {
    if indices_in_range(indices, nodes.len()) {
        match spec_stiffness_blocks(indices, spec_positions(nodes, indices), d) {
            None => k,
            Some(blocks) => spec_scatter_all(k, blocks, blocks.len()),
        }
    } else {
        k
    }
}

/// The global stiffness matrix of a mesh: a zero matrix of two rows and
/// columns per node, to which the blocks of each element are added, element
/// by element.
pub open spec fn spec_assembled<S: Scalar>(
    nodes: Seq<Node2D<S>>,
    elements: Seq<T3Element>,
    d: [[S; 3]; 3],
) -> Seq<Seq<S>>
    decreases elements.len(),
{
    if elements.len() == 0 {
        spec_zeros(2 * nodes.len(), 2 * nodes.len())
    } else {
        spec_add_element(
            spec_assembled(nodes, elements.drop_last(), d),
            nodes,
            elements.last().indices,
            d,
        )
    }
}

proof fn lemma_add_at_shape<S: Scalar>(k: Seq<Seq<S>>, size: nat, row: int, col: int, v: S)
    requires
        has_shape(k, size, size),
        0 <= row < size,
        0 <= col < size,
    ensures
        has_shape(spec_add_at(k, row, col, v), size, size),
{
    let r = spec_add_at(k, row, col, v);
    assert forall|i: int| 0 <= i < size implies (#[trigger] r[i]).len() == size by {
        if i == row {
        } else {
        }
    };
}

/// Adds the four entries of `block` into `k` at their scatter positions.
fn scatter<S: Scalar>(k: &mut GlobalMatrix<S>, size: usize, block: StiffnessBlock<S>)
    requires
        has_shape(old(k)@, size as nat, size as nat),
        dof(block.0.0 as int, 1) < size,
        dof(block.0.1 as int, 1) < size,
    ensures
        has_shape(final(k)@, size as nat, size as nat),
        final(k)@ == spec_scatter(old(k)@, block),
{
    let ((i, j), v) = block;
    let (ri, rj) = (2 * i, 2 * j);
    proof {
        lemma_add_at_shape(k@, size as nat, rj as int, ri as int, v[0][0]);
    }
    k.add_at(rj, ri, v[0][0]);
    proof {
        lemma_add_at_shape(k@, size as nat, rj as int, ri + 1, v[0][1]);
    }
    k.add_at(rj, ri + 1, v[0][1]);
    proof {
        lemma_add_at_shape(k@, size as nat, rj + 1, ri as int, v[1][0]);
    }
    k.add_at(rj + 1, ri, v[1][0]);
    proof {
        lemma_add_at_shape(k@, size as nat, rj + 1, ri + 1, v[1][1]);
    }
    k.add_at(rj + 1, ri + 1, v[1][1]);
}

/// Whether all three indices are below `n`, tested at run time.
pub fn element_in_range(indices: [usize; 3], n: usize) -> (r: bool)
    ensures
        r == indices_in_range(indices, n as nat),
{
    let r = indices[0] < n && indices[1] < n && indices[2] < n;
    proof {
        if r {
            assert(forall|k: int| 0 <= k < 3 ==> (#[trigger] indices@[k] as nat) < n);
        } else {
            assert(indices@[0] >= n || indices@[1] >= n || indices@[2] >= n);
        }
    }
    r
}

/// Builds the global stiffness matrix of the mesh: a zero matrix of two rows
/// and two columns per node, to which the stiffness blocks of every element
/// are added at their scatter positions. Elements with a missing node or no
/// area contribute nothing (validation reports them).
pub fn assemble<S: Scalar>(
    nodes: &Vec<Node2D<S>>,
    elements: &Vec<T3Element>,
    elasticity: [[S; 3]; 3],
) -> (r: GlobalMatrix<S>)
    requires
        2 * nodes@.len() <= usize::MAX,
    ensures
        has_shape(r@, 2 * nodes@.len(), 2 * nodes@.len()),
        r@ == spec_assembled(nodes@, elements@, elasticity),
{
    let n = nodes.len();
    let size = 2 * n;
    let mut k = GlobalMatrix::zeros(size, size);
    assert(elements@.take(0) =~= Seq::<T3Element>::empty());
    let mut e: usize = 0;
    while e < elements.len()
        invariant
            e <= elements.len(),
            n == nodes@.len(),
            size == 2 * n,
            has_shape(k@, size as nat, size as nat),
            k@ == spec_assembled(nodes@, elements@.take(e as int), elasticity),
        decreases elements.len() - e,
    {
        let ghost before = k@;
        let indices = elements[e].indices;
        if element_in_range(indices, n) {
            let p = positions(nodes, indices);
            match stiffness_blocks(indices, p, elasticity) {
                None => {},
                Some(blocks) => {
                    let mut t: usize = 0;
                    while t < blocks.len()
                        invariant
                            t <= blocks@.len(),
                            blocks@.len() == 9,
                            indices_in_range(indices, n as nat),
                            spec_stiffness_blocks(indices, p, elasticity) == Some(blocks@),
                            p == spec_positions(nodes@, indices),
                            size == 2 * n,
                            has_shape(k@, size as nat, size as nat),
                            k@ == spec_scatter_all(before, blocks@, t as nat),
                        decreases blocks@.len() - t,
                    {
                        let ghost a: int = t as int / 3;
                        let ghost b: int = t as int % 3;
                        assert(blocks@[3 * a + b].0 == (indices@[a], indices@[b]));
                        assert(indices@[a] < n && indices@[b] < n);
                        scatter(&mut k, size, blocks[t]);
                        t = t + 1;
                    }
                },
            }
        }
        assert(elements@.take(e as int + 1).drop_last() =~= elements@.take(e as int));
        e = e + 1;
    }
    assert(elements@.take(elements@.len() as int) =~= elements@);
    k
}

} // verus!
