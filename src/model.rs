use vstd::prelude::*;

use crate::assembly::{assemble, element_in_range, spec_assembled};
use crate::element::{
    area, indices_in_range, positions, spec_area, spec_displacements, spec_positions, spec_strain,
    spec_strain_ops, spec_stress, strain, strain_ops, stress, T3Element,
};
use crate::matrix::{has_shape, GlobalMatrix};
use crate::node::Node2D;
use crate::scalar::Scalar;
use crate::solver::{gauss_seidel, is_solved, keeps_given_values};
use crate::validate::{
    collect_errors, lemma_covered_mesh_is_valid, mesh_errors, referenced, FeaError, FeaErrorType,
};

verus! {

/// A linear-elastic, static, two-dimensional finite-element model: a plane
/// stress material law, a collection of nodes, triangles that refer to the
/// nodes by index, and the global stiffness matrix built from them, when it is
/// current.
pub struct Lin2DStaticModel<S> {
    elasticity: [[S; 3]; 3],
    nodes: Vec<Node2D<S>>,
    elements: Vec<T3Element>,
    stiffness: Option<GlobalMatrix<S>>,
}

/// What a model holds.
pub struct ModelView<S> {
    pub elasticity: [[S; 3]; 3],
    pub nodes: Seq<Node2D<S>>,
    pub elements: Seq<T3Element>,
    pub stiffness: Option<Seq<Seq<S>>>,
}

impl<S> View for Lin2DStaticModel<S> {
    type V = ModelView<S>;

    closed spec fn view(&self) -> ModelView<S> {
        ModelView {
            elasticity: self.elasticity,
            nodes: self.nodes@,
            elements: self.elements@,
            stiffness: match self.stiffness {
                Some(k) => Some(k@),
                None => None,
            },
        }
    }
}

/// The plane stress elasticity matrix of Young's modulus `e`, Poisson ratio
/// `nu` and shear modulus `g`: with `ep = e / (1 - nu * nu)`, the rows are
/// `(ep, ep * nu, 0)`, `(ep * nu, ep, 0)` and `(0, 0, g)`.
pub open spec fn spec_plane_stress<S: Scalar>(e: S, nu: S, g: S) -> [[S; 3]; 3] {
    let ep = e.spec_over(S::spec_from_int(1).spec_minus(nu.spec_times(nu)));
    let z = S::spec_zero();
    let c = ep.spec_times(nu);
    [[ep, c, z], [c, ep, z], [z, z, g]]
}

/// The plane stress elasticity matrix of Young's modulus `e`, Poisson ratio
/// `nu` and shear modulus `g`.
pub fn plane_stress_matrix<S: Scalar>(e: S, nu: S, g: S) -> (r: [[S; 3]; 3])
    ensures
        r == spec_plane_stress(e, nu, g),
{
    let ep = e.over(S::from_int(1).minus(nu.times(nu)));
    let z = S::zero();
    let c = ep.times(nu);
    [[ep, c, z], [c, ep, z], [z, z, g]]
}

/// A model with no nodes or elements, of the plane stress material with
/// Young's modulus `e`, Poisson ratio `nu` and shear modulus `g`.
pub fn init_fea<S: Scalar>(e: S, nu: S, g: S) -> (r: Lin2DStaticModel<S>)
    ensures
        r.wf(),
        r@.nodes.len() == 0,
        r@.elements.len() == 0,
        r@.stiffness is None,
        r@.elasticity == spec_plane_stress(e, nu, g),
{
    Lin2DStaticModel::new(plane_stress_matrix(e, nu, g))
}

/// The node index that `x` becomes when node `index` is removed by moving the
/// last node, `last`, into its place: `last` becomes `index`, and `index`
/// becomes `last`, which then names no node.
pub open spec fn remap_deleted(x: usize, index: usize, last: usize) -> usize {
    if x == last {
        index
    } else if x == index {
        last
    } else {
        x
    }
}

/// The nodes after removing node `index` by moving the last node into its
/// place.
pub open spec fn nodes_after_delete<S>(nodes: Seq<Node2D<S>>, index: int) -> Seq<Node2D<S>> {
    nodes.update(index, nodes.last()).drop_last()
}

/// Whether `after` is `before` with every node index remapped for the removal
/// of node `index`, the last being `last`.
pub open spec fn elements_remapped(
    before: Seq<T3Element>,
    after: Seq<T3Element>,
    index: usize,
    last: usize,
) -> bool {
    &&& after.len() == before.len()
    &&& forall|e: int, k: int|
        0 <= e < before.len() && 0 <= k < 3 ==> #[trigger] after[e].indices@[k] == remap_deleted(
            before[e].indices@[k],
            index,
            last,
        )
}

/// The outcome of validation that reports `errors`: success when there are
/// none, else all of them.
pub open spec fn validation_outcome(r: Result<(), FeaError>, errors: Seq<FeaErrorType>) -> bool {
    match r {
        Ok(()) => errors.len() == 0,
        Err(e) => errors.len() > 0 && e.errors@ == errors,
    }
}

/// After a node is removed, every element that referred only to present nodes
/// other than the removed one still refers only to present nodes, to the same
/// nodes as before, and to distinct ones if they were distinct.
pub proof fn lemma_delete_node_keeps_references<S>(
    nodes: Seq<Node2D<S>>,
    elements: Seq<T3Element>,
    after: Seq<T3Element>,
    index: usize,
)
    requires
        index < nodes.len() <= usize::MAX,
        elements_remapped(elements, after, index, (nodes.len() - 1) as usize),
        forall|e: int|
            0 <= e < elements.len() ==> indices_in_range(#[trigger] elements[e].indices, nodes.len()),
        forall|e: int, k: int|
            0 <= e < elements.len() && 0 <= k < 3 ==> #[trigger] elements[e].indices@[k] != index,
    ensures
        forall|e: int|
            0 <= e < after.len() ==> indices_in_range(
                #[trigger] after[e].indices,
                nodes_after_delete(nodes, index as int).len(),
            ),
        forall|e: int, k: int|
            0 <= e < after.len() && 0 <= k < 3 ==> nodes_after_delete(nodes, index as int)[
            #[trigger] after[e].indices@[k] as int] == nodes[elements[e].indices@[k] as int],
        forall|e: int, k: int, l: int|
            0 <= e < after.len() && 0 <= k < 3 && 0 <= l < 3 && elements[e].indices@[k]
                != elements[e].indices@[l] ==> #[trigger] after[e].indices@[k]
                != #[trigger] after[e].indices@[l],
{
    let last = (nodes.len() - 1) as usize;
    let remaining = nodes_after_delete(nodes, index as int);
    assert forall|e: int| 0 <= e < after.len() implies indices_in_range(
        #[trigger] after[e].indices,
        remaining.len(),
    ) by {
        assert forall|k: int| 0 <= k < 3 implies (#[trigger] after[e].indices@[k] as nat)
            < remaining.len() by {
            assert(elements[e].indices@[k] < nodes.len());
            assert(elements[e].indices@[k] != index);
        };
    };
    assert forall|e: int, k: int| 0 <= e < after.len() && 0 <= k < 3 implies remaining[
        #[trigger] after[e].indices@[k] as int] == nodes[elements[e].indices@[k] as int] by {
        let x = elements[e].indices@[k];
        assert(x < nodes.len());
        assert(x != index);
        if x == last {
            assert(after[e].indices@[k] == index);
            assert(remaining[index as int] == nodes[last as int]);
        } else {
            assert(after[e].indices@[k] == x);
            assert(remaining[x as int] == nodes[x as int]);
        }
    };
}

/// Whether the triangle `indices` has a positive area; `true` when it names a
/// missing node, whose area is not defined (validation reports it as missing).
pub open spec fn area_positive<S: Scalar>(nodes: Seq<Node2D<S>>, indices: [usize; 3]) -> bool {
    if indices_in_range(indices, nodes.len()) {
        spec_area(spec_positions(nodes, indices)).spec_is_positive()
    } else {
        true
    }
}

/// For each element, whether its area is positive.
pub open spec fn area_flags<S: Scalar>(nodes: Seq<Node2D<S>>, elements: Seq<T3Element>) -> Seq<bool> {
    Seq::new(elements.len(), |e: int| area_positive(nodes, elements[e].indices))
}

/// Everything that validation reports for a mesh.
pub open spec fn validation_errors<S: Scalar>(nodes: Seq<Node2D<S>>, elements: Seq<T3Element>) -> Seq<
    FeaErrorType,
> {
    mesh_errors(nodes.len(), elements, area_flags(nodes, elements))
}

/// The strain of the triangle `indices` under the nodes' displacements, or
/// `None` when it is degenerate.
pub open spec fn spec_element_strain<S: Scalar>(nodes: Seq<Node2D<S>>, indices: [usize; 3]) -> Option<
    [S; 3],
> {
    match spec_strain_ops(spec_positions(nodes, indices)) {
        None => None,
        Some(ops) => Some(spec_strain(ops, spec_displacements(nodes, indices))),
    }
}

/// For each element, whether its area is positive; `true` for an element with
/// a missing node, whose area is not defined.
fn area_signs<S: Scalar>(nodes: &Vec<Node2D<S>>, elements: &Vec<T3Element>) -> (r: Vec<bool>)
    ensures
        r@ == area_flags(nodes@, elements@),
{
    let n = nodes.len();
    let mut positive: Vec<bool> = Vec::new();
    let mut e: usize = 0;
    while e < elements.len()
        invariant
            e <= elements@.len(),
            positive@ == area_flags(nodes@, elements@).take(e as int),
            n == nodes@.len(),
        decreases elements@.len() - e,
    {
        let indices = elements[e].indices;
        if element_in_range(indices, n) {
            let p = positions(nodes, indices);
            positive.push(area(p).is_positive());
        } else {
            positive.push(true);
        }
        assert(positive@ =~= area_flags(nodes@, elements@).take(e as int + 1));
        e = e + 1;
    }
    assert(area_flags(nodes@, elements@).take(elements@.len() as int) =~= area_flags(nodes@, elements@));
    positive
}

/// A mesh whose elements all name present nodes and have a positive area,
/// and whose nodes all belong to some element, passes validation: the only
/// outcome of `check` on it is `Ok`.
pub proof fn lemma_covered_mesh_checks_ok<S: Scalar>(nodes: Seq<Node2D<S>>, elements: Seq<T3Element>)
    requires
        forall|e: int|
            0 <= e < elements.len() ==> indices_in_range(#[trigger] elements[e].indices, nodes.len()),
        forall|e: int|
            0 <= e < elements.len() ==> spec_area(spec_positions(nodes, #[trigger] elements[e].indices))
                .spec_is_positive(),
        forall|v: nat| v < nodes.len() ==> #[trigger] referenced(elements, v),
    ensures
        validation_errors(nodes, elements).len() == 0,
        forall|r: Result<(), FeaError>|
            #[trigger] validation_outcome(r, validation_errors(nodes, elements)) ==> r is Ok,
{
    let flags = area_flags(nodes, elements);
    assert forall|e: int| 0 <= e < elements.len() implies #[trigger] flags[e] by {
        assert(indices_in_range(elements[e].indices, nodes.len()));
    };
    lemma_covered_mesh_is_valid(nodes.len(), elements, flags);
}

/// Validation is repeatable: two outcomes that both report the problems of
/// one mesh agree, in success and in the list of problems.
pub proof fn lemma_validation_repeatable(
    r1: Result<(), FeaError>,
    r2: Result<(), FeaError>,
    errors: Seq<FeaErrorType>,
)
    requires
        validation_outcome(r1, errors),
        validation_outcome(r2, errors),
    ensures
        (r1 is Ok) == (r2 is Ok),
        r1 is Err ==> r1->Err_0.errors@ == r2->Err_0.errors@,
{
}

/// Rebuilding the stiffness matrix twice with no edit in between stores the
/// same matrix: `before` is a model, `once` the model after one rebuild and
/// `twice` after a second.
pub proof fn lemma_rebuild_repeatable<S: Scalar>(
    before: ModelView<S>,
    once: ModelView<S>,
    twice: ModelView<S>,
)
    requires
        once.nodes == before.nodes,
        once.elements == before.elements,
        once.elasticity == before.elasticity,
        once.stiffness == Some(spec_assembled(before.nodes, before.elements, before.elasticity)),
        twice.stiffness == Some(spec_assembled(once.nodes, once.elements, once.elasticity)),
    ensures
        twice.stiffness == once.stiffness,
{
}

impl<S: Scalar> Lin2DStaticModel<S> {
    /// The model's invariant: a stiffness matrix that is held has two rows and
    /// columns per node, and the degrees of freedom can be numbered in `usize`.
    pub open spec fn wf(&self) -> bool {
        &&& 2 * self@.nodes.len() <= usize::MAX
        &&& (self@.stiffness matches Some(k) ==> has_shape(
            k,
            2 * self@.nodes.len(),
            2 * self@.nodes.len(),
        ))
    }

    /// An empty model of the material with elasticity matrix `elasticity`.
    pub fn new(elasticity: [[S; 3]; 3]) -> (r: Self)
        ensures
            r.wf(),
            r@.elasticity == elasticity,
            r@.nodes.len() == 0,
            r@.elements.len() == 0,
            r@.stiffness is None,
    {
        Lin2DStaticModel { elasticity, nodes: Vec::new(), elements: Vec::new(), stiffness: None }
    }

    /// Appends `nodes` to the node collection. The stiffness matrix is dropped:
    /// it no longer matches the node count.
    pub fn add_nodes(&mut self, nodes: &[Node2D<S>])
        requires
            old(self).wf(),
            2 * (old(self)@.nodes.len() + nodes@.len()) <= usize::MAX,
        ensures
            final(self).wf(),
            final(self)@.nodes == old(self)@.nodes + nodes@,
            final(self)@.elements == old(self)@.elements,
            final(self)@.elasticity == old(self)@.elasticity,
            final(self)@.stiffness is None,
    {
        let ghost before = self.nodes@;
        let mut i: usize = 0;
        while i < nodes.len()
            invariant
                i <= nodes@.len(),
                self.nodes@ == before + nodes@.take(i as int),
                self.elements@ == old(self)@.elements,
                self.elasticity == old(self).elasticity,
            decreases nodes@.len() - i,
        {
            self.nodes.push(nodes[i]);
            assert(nodes@.take(i as int + 1) =~= nodes@.take(i as int).push(nodes@[i as int]));
            i = i + 1;
        }
        assert(nodes@.take(nodes@.len() as int) =~= nodes@);
        self.stiffness = None;
    }

    /// Appends one triangle per index triple, then rebuilds the stiffness
    /// matrix.
    pub fn add_elements(&mut self, elements: &[[usize; 3]])
        requires
            old(self).wf(),
        ensures
            final(self).wf(),
            final(self)@.nodes == old(self)@.nodes,
            final(self)@.elasticity == old(self)@.elasticity,
            final(self)@.elements.len() == old(self)@.elements.len() + elements@.len(),
            forall|e: int|
                0 <= e < old(self)@.elements.len() ==> #[trigger] final(self)@.elements[e]
                    == old(self)@.elements[e],
            forall|e: int|
                old(self)@.elements.len() <= e < final(self)@.elements.len()
                    ==> #[trigger] final(self)@.elements[e].indices
                    == elements@[e - old(self)@.elements.len()],
            final(self)@.stiffness == Some(
                spec_assembled(final(self)@.nodes, final(self)@.elements, final(self)@.elasticity),
            ),
    {
        let ghost before = self.elements@;
        let mut i: usize = 0;
        while i < elements.len()
            invariant
                i <= elements@.len(),
                self.wf(),
                self.nodes@ == old(self)@.nodes,
                self.elasticity == old(self).elasticity,
                self.elements@.len() == before.len() + i,
                forall|e: int| 0 <= e < before.len() ==> #[trigger] self.elements@[e] == before[e],
                forall|e: int|
                    0 <= e < i ==> #[trigger] self.elements@[before.len() + e].indices
                        == elements@[e],
            decreases elements@.len() - i,
        {
            self.elements.push(T3Element::new(elements[i]));
            i = i + 1;
        }
        assert forall|e: int|
            before.len() <= e < self.elements@.len() implies #[trigger] self.elements@[e].indices
            == elements@[e - before.len()] by {
            let f = e - before.len();
            assert(self.elements@[before.len() + f].indices == elements@[f]);
        };
        self.create_stiffness_matrix();
    }

    /// The node collection.
    pub fn get_nodes(&self) -> (r: &Vec<Node2D<S>>)
        ensures
            r@ == self@.nodes,
    {
        &self.nodes
    }

    /// The global stiffness matrix, when one is held.
    pub fn stiffness(&self) -> (r: Option<&GlobalMatrix<S>>)
        ensures
            match r {
                Some(k) => self@.stiffness == Some(k@),
                None => self@.stiffness is None,
            },
    {
        match &self.stiffness {
            Some(k) => Some(k),
            None => None,
        }
    }

    /// The elasticity matrix of the model's material.
    pub fn elasticity(&self) -> (r: [[S; 3]; 3])
        ensures
            r == self@.elasticity,
    {
        self.elasticity
    }

    /// Rebuilds the global stiffness matrix from the current nodes and
    /// elements.
    pub fn create_stiffness_matrix(&mut self)
        requires
            old(self).wf(),
        ensures
            final(self).wf(),
            final(self)@.nodes == old(self)@.nodes,
            final(self)@.elements == old(self)@.elements,
            final(self)@.elasticity == old(self)@.elasticity,
            final(self)@.stiffness == Some(
                spec_assembled(old(self)@.nodes, old(self)@.elements, old(self)@.elasticity),
            ),
    {
        let k = assemble(&self.nodes, &self.elements, self.elasticity);
        self.stiffness = Some(k);
    }

    /// Runs `steps` Gauss-Seidel sweeps under the current stiffness matrix and
    /// writes the results into the nodes: the displacement of every
    /// force-known axis and the reaction force of every displacement-known
    /// axis. Given values, positions and boundary conditions stay as they
    /// were.
    pub fn step_guass_seidel(&mut self, steps: usize)
        requires
            old(self).wf(),
            old(self)@.stiffness is Some,
        ensures
            final(self).wf(),
            is_solved(old(self)@.nodes, final(self)@.nodes, old(self)@.stiffness->Some_0, steps as nat),
            keeps_given_values(old(self)@.nodes, final(self)@.nodes),
            final(self)@.elements == old(self)@.elements,
            final(self)@.elasticity == old(self)@.elasticity,
            final(self)@.stiffness == old(self)@.stiffness,
    {
        match &self.stiffness {
            Some(k) => gauss_seidel(k, &mut self.nodes, steps),
            None => {},
        }
    }

    pub fn nodes_len(&self) -> (r: usize)
        ensures
            r == self@.nodes.len(),
    {
        self.nodes.len()
    }

    /// Appends a node at the origin, with both axes force-known and zero
    /// displacement and force.
    pub fn add_node(&mut self)
        requires
            old(self).wf(),
            2 * (old(self)@.nodes.len() + 1) <= usize::MAX,
        ensures
            final(self).wf(),
            final(self)@.nodes.len() == old(self)@.nodes.len() + 1,
            final(self)@.nodes.drop_last() == old(self)@.nodes,
            final(self)@.elements == old(self)@.elements,
            final(self)@.elasticity == old(self)@.elasticity,
            final(self)@.stiffness is None,
    {
        let z = S::zero();
        self.nodes.push(Node2D::zero_at((z, z)));
        assert(self.nodes@.drop_last() =~= old(self).nodes@);
        self.stiffness = None;
    }

    /// Removes node `index` by moving the last node into its place, and
    /// renumbers the elements' references to match: references to the last
    /// node now name `index`, and references to the removed node name the old
    /// last index, which is out of range (validation reports them).
    pub fn delete_node(&mut self, index: usize)
        requires
            old(self).wf(),
            index < old(self)@.nodes.len(),
        ensures
            final(self).wf(),
            final(self)@.nodes == nodes_after_delete(old(self)@.nodes, index as int),
            elements_remapped(
                old(self)@.elements,
                final(self)@.elements,
                index,
                (old(self)@.nodes.len() - 1) as usize,
            ),
            final(self)@.elasticity == old(self)@.elasticity,
            final(self)@.stiffness is None,
    {
        self.nodes.swap_remove(index);
        let last = self.nodes.len();
        let ghost before = self.elements@;
        let mut e: usize = 0;
        while e < self.elements.len()
            invariant
                e <= self.elements@.len(),
                self.elements@.len() == before.len(),
                before == old(self).elements@,
                last == old(self).nodes@.len() - 1,
                self.nodes@ == nodes_after_delete(old(self).nodes@, index as int),
                self.elasticity == old(self).elasticity,
                2 * self.nodes@.len() <= usize::MAX,
                forall|f: int, k: int|
                    0 <= f < e && 0 <= k < 3 ==> #[trigger] self.elements@[f].indices@[k]
                        == remap_deleted(before[f].indices@[k], index, last),
                forall|f: int| e <= f < before.len() ==> #[trigger] self.elements@[f] == before[f],
            decreases self.elements@.len() - e,
        {
            let old_indices = self.elements[e].indices;
            let mut indices = old_indices;
            let mut k: usize = 0;
            while k < 3
                invariant
                    k <= 3,
                    forall|l: int|
                        0 <= l < k ==> #[trigger] indices@[l] == remap_deleted(
                            old_indices@[l],
                            index,
                            last,
                        ),
                    forall|l: int| k <= l < 3 ==> #[trigger] indices@[l] == old_indices@[l],
                decreases 3 - k,
            {
                if indices[k] == last {
                    indices[k] = index;
                } else if indices[k] == index {
                    indices[k] = last;
                }
                k = k + 1;
            }
            self.elements.set(e, T3Element::new(indices));
            e = e + 1;
        }
        self.stiffness = None;
    }

    /// Node `index`.
    pub fn get_node(&self, index: usize) -> (r: Node2D<S>)
        requires
            index < self@.nodes.len(),
        ensures
            r == self@.nodes[index as int],
    {
        self.nodes[index]
    }

    /// Replaces node `index` by `node`.
    pub fn set_node(&mut self, index: usize, node: &Node2D<S>)
        requires
            old(self).wf(),
            index < old(self)@.nodes.len(),
        ensures
            final(self).wf(),
            final(self)@.nodes == old(self)@.nodes.update(index as int, *node),
            final(self)@.elements == old(self)@.elements,
            final(self)@.elasticity == old(self)@.elasticity,
            final(self)@.stiffness == old(self)@.stiffness,
    {
        self.nodes.set(index, *node);
    }

    pub fn elements_len(&self) -> (r: usize)
        ensures
            r == self@.elements.len(),
    {
        self.elements.len()
    }

    /// Appends a triangle over the three most recently added nodes, then
    /// rebuilds the stiffness matrix.
    pub fn add_elem(&mut self)
        requires
            old(self).wf(),
            old(self)@.nodes.len() >= 3,
        ensures
            final(self).wf(),
            final(self)@.nodes == old(self)@.nodes,
            final(self)@.elements.len() == old(self)@.elements.len() + 1,
            final(self)@.elements.drop_last() == old(self)@.elements,
            final(self)@.elements.last().indices@ == seq![
                (old(self)@.nodes.len() - 3) as usize,
                (old(self)@.nodes.len() - 2) as usize,
                (old(self)@.nodes.len() - 1) as usize,
            ],
            final(self)@.elasticity == old(self)@.elasticity,
            final(self)@.stiffness == Some(
                spec_assembled(final(self)@.nodes, final(self)@.elements, final(self)@.elasticity),
            ),
    {
        let len = self.nodes.len();
        self.elements.push(T3Element::new([len - 3, len - 2, len - 1]));
        assert(self.elements@.drop_last() =~= old(self).elements@);
        self.stiffness = None;
        self.create_stiffness_matrix();
    }

    /// Removes element `index` by moving the last element into its place.
    pub fn delete_element(&mut self, index: usize)
        requires
            old(self).wf(),
            index < old(self)@.elements.len(),
        ensures
            final(self).wf(),
            final(self)@.nodes == old(self)@.nodes,
            final(self)@.elements == old(self)@.elements.update(
                index as int,
                old(self)@.elements.last(),
            ).drop_last(),
            final(self)@.elasticity == old(self)@.elasticity,
            final(self)@.stiffness is None,
    {
        self.elements.swap_remove(index);
        self.stiffness = None;
    }

    /// The node indices of element `index`.
    pub fn get_element_indices(&self, index: usize) -> (r: [usize; 3])
        requires
            index < self@.elements.len(),
        ensures
            r == self@.elements[index as int].indices,
    {
        self.elements[index].indices
    }

    /// Makes element `element_index` refer to the nodes `new_indices`.
    pub fn set_element_indices(&mut self, element_index: usize, new_indices: &[usize])
        requires
            old(self).wf(),
            element_index < old(self)@.elements.len(),
            new_indices@.len() == 3,
        ensures
            final(self).wf(),
            final(self)@.nodes == old(self)@.nodes,
            final(self)@.elements.len() == old(self)@.elements.len(),
            forall|e: int|
                0 <= e < old(self)@.elements.len() && e != element_index
                    ==> #[trigger] final(self)@.elements[e] == old(self)@.elements[e],
            final(self)@.elements[element_index as int].indices@ == new_indices@,
            final(self)@.elasticity == old(self)@.elasticity,
            final(self)@.stiffness is None,
    {
        let indices = [new_indices[0], new_indices[1], new_indices[2]];
        self.elements.set(element_index, T3Element::new(indices));
        assert(indices@ =~= new_indices@);
        self.stiffness = None;
    }

    /// Validates the mesh, rebuilds the stiffness matrix and runs one
    /// Gauss-Seidel sweep. When validation fails, the model is left as it
    /// was and every problem is returned.
    pub fn step(&mut self) -> (r: Result<(), FeaError>)
        requires
            old(self).wf(),
        ensures
            final(self).wf(),
            validation_outcome(r, validation_errors(old(self)@.nodes, old(self)@.elements)),
            r is Err ==> final(self)@ == old(self)@,
            r is Ok ==> {
                let k = spec_assembled(old(self)@.nodes, old(self)@.elements, old(self)@.elasticity);
                &&& is_solved(old(self)@.nodes, final(self)@.nodes, k, 1)
                &&& final(self)@.elements == old(self)@.elements
                &&& final(self)@.elasticity == old(self)@.elasticity
                &&& final(self)@.stiffness == Some(k)
            },
    {
        match self.check() {
            Err(e) => Err(e),
            Ok(()) => {
                self.create_stiffness_matrix();
                self.step_guass_seidel(1);
                Ok(())
            },
        }
    }

    /// Reports every problem of the mesh: elements that refer to missing
    /// nodes, elements with no area, and nodes that belong to no element.
    pub fn check(&self) -> (r: Result<(), FeaError>)
        ensures
            validation_outcome(r, validation_errors(self@.nodes, self@.elements)),
    {
        let n = self.nodes.len();
        let positive = area_signs(&self.nodes, &self.elements);
        let errors = collect_errors(n, &self.elements, &positive);
        let r = if errors.len() == 0 {
            Ok(())
        } else {
            Err(FeaError { errors })
        };
        assert(validation_outcome(r, mesh_errors(self@.nodes.len(), self@.elements, positive@)));
        r
    }

    /// The strain of element `index` under the nodes' current displacements,
    /// or `None` when the element is degenerate.
    pub fn element_strain(&self, index: usize) -> (r: Option<[S; 3]>)
        requires
            index < self@.elements.len(),
            indices_in_range(self@.elements[index as int].indices, self@.nodes.len()),
        ensures
            r == spec_element_strain(self@.nodes, self@.elements[index as int].indices),
    {
        let indices = self.elements[index].indices;
        let p = positions(&self.nodes, indices);
        assert(indices@[0] < self.nodes@.len() && indices@[1] < self.nodes@.len()
            && indices@[2] < self.nodes@.len());
        match strain_ops(p) {
            None => None,
            Some(ops) => {
                let u = [
                    self.nodes[indices[0]].displacement,
                    self.nodes[indices[1]].displacement,
                    self.nodes[indices[2]].displacement,
                ];
                Some(strain(ops, u))
            },
        }
    }

    /// The stress of element `index`, the elasticity matrix times its strain,
    /// or `None` when the element is degenerate.
    pub fn element_stress(&self, index: usize) -> (r: Option<[S; 3]>)
        requires
            index < self@.elements.len(),
            indices_in_range(self@.elements[index as int].indices, self@.nodes.len()),
        ensures
            r == match spec_element_strain(self@.nodes, self@.elements[index as int].indices) {
                None => None,
                Some(strain) => Some(spec_stress(self@.elasticity, strain)),
            },
    {
        match self.element_strain(index) {
            None => None,
            Some(s) => Some(stress(self.elasticity, s)),
        }
    }
}

} // verus!
