use vstd::prelude::*;

use crate::assembly::spec_assembled;
use crate::model::{plane_stress_matrix, spec_plane_stress, Lin2DStaticModel};
use crate::solver::is_solved;
use crate::node::{KnownType, Node2D};
use crate::scalar::Scalar;

verus! {

/// Gives node `index` the boundary conditions `known` and the force
/// `(fx, fy)`.
fn load_node<S: Scalar>(
    model: &mut Lin2DStaticModel<S>,
    index: usize,
    known: [KnownType; 2],
    fx: i64,
    fy: i64,
)
    requires
        old(model).wf(),
        index < old(model)@.nodes.len(),
    ensures
        final(model).wf(),
        final(model)@.nodes.len() == old(model)@.nodes.len(),
        final(model)@.nodes[index as int] == (Node2D {
            known: known,
            force: [S::spec_from_int(fx), S::spec_from_int(fy)],
            ..old(model)@.nodes[index as int]
        }),
        final(model)@.elasticity == old(model)@.elasticity,
        forall|v: int|
            0 <= v < old(model)@.nodes.len() && v != index ==> #[trigger] final(model)@.nodes[v]
                == old(model)@.nodes[v],
        final(model)@.elements == old(model)@.elements,
        final(model)@.stiffness == old(model)@.stiffness,
{
    let mut node = model.get_node(index);
    node.known = known;
    node.force = [S::from_int(fx), S::from_int(fy)];
    model.set_node(index, &node);
}

/// A node of the unit square example: at `(x, y)`, at rest, with boundary
/// conditions `known` and the force `(fx, fy)`.
pub open spec fn square_node<S: Scalar>(x: i64, y: i64, known: [KnownType; 2], fx: i64, fy: i64) -> Node2D<S> {
    Node2D {
        position: [S::spec_from_int(x), S::spec_from_int(y)],
        displacement: [S::spec_zero(), S::spec_zero()],
        force: [S::spec_from_int(fx), S::spec_from_int(fy)],
        known: known,
    }
}

/// The nodes of the unit square example, loaded and not yet solved.
pub open spec fn square_loaded<S: Scalar>() -> Seq<Node2D<S>> {
    seq![
        square_node(0, 0, [KnownType::Displacement, KnownType::Displacement], -25i64, -15i64),
        square_node(1, 0, [KnownType::Force, KnownType::Displacement], 15, -5i64),
        square_node(0, 1, [KnownType::Force, KnownType::Force], -15i64, 5),
        square_node(1, 1, [KnownType::Force, KnownType::Force], 25, 15),
    ]
}

/// The material of the unit square example.
pub open spec fn square_elasticity<S: Scalar>() -> [[S; 3]; 3] {
    spec_plane_stress(
        S::spec_from_int(30000),
        S::spec_from_int(3).spec_over(S::spec_from_int(10)),
        S::spec_from_int(10000),
    )
}

/// A unit square of two triangles, `[0, 1, 2]` and `[1, 2, 3]`, over the
/// corners `(0, 0)`, `(1, 0)`, `(0, 1)` and `(1, 1)`, of a material with
/// Young's modulus 30000, Poisson ratio 0.3 and shear modulus 10000. Node 0
/// is held on both axes and node 1 vertically; the corners carry the forces
/// `(-25, -15)`, `(15, -5)`, `(-15, 5)` and `(25, 15)`. The model is returned
/// after 100 Gauss-Seidel sweeps.
pub fn square<S: Scalar>() -> (r: Lin2DStaticModel<S>)
    ensures
        r.wf(),
        r@.nodes.len() == 4,
        r@.elements.len() == 2,
        r@.elements[0].indices@ == seq![0usize, 1, 2],
        r@.elements[1].indices@ == seq![1usize, 2, 3],
        r@.nodes[0].known@ == seq![KnownType::Displacement, KnownType::Displacement],
        r@.nodes[1].known@ == seq![KnownType::Force, KnownType::Displacement],
        r@.nodes[2].known@ == seq![KnownType::Force, KnownType::Force],
        r@.nodes[3].known@ == seq![KnownType::Force, KnownType::Force],
        r@.elasticity == square_elasticity::<S>(),
        r@.stiffness == Some(spec_assembled(square_loaded::<S>(), r@.elements, square_elasticity::<S>())),
        is_solved(
            square_loaded::<S>(),
            r@.nodes,
            spec_assembled(square_loaded::<S>(), r@.elements, square_elasticity::<S>()),
            100,
        ),
{
    let three_tenths = S::from_int(3).over(S::from_int(10));
    let elasticity = plane_stress_matrix(S::from_int(30000), three_tenths, S::from_int(10000));
    let zero = S::from_int(0);
    let one = S::from_int(1);
    let nodes = vec![
        Node2D::zero_at((zero, zero)),
        Node2D::zero_at((one, zero)),
        Node2D::zero_at((zero, one)),
        Node2D::zero_at((one, one)),
    ];
    let mut model = Lin2DStaticModel::new(elasticity);
    model.add_nodes(nodes.as_slice());
    load_node(&mut model, 0, [KnownType::Displacement, KnownType::Displacement], -25, -15);
    load_node(&mut model, 1, [KnownType::Force, KnownType::Displacement], 15, -5);
    load_node(&mut model, 2, [KnownType::Force, KnownType::Force], -15, 5);
    load_node(&mut model, 3, [KnownType::Force, KnownType::Force], 25, 15);
    assert(model@.nodes =~= square_loaded::<S>());
    let elements = vec![[0usize, 1, 2], [1usize, 2, 3]];
    model.add_elements(elements.as_slice());
    assert(model@.elements[0].indices == [0usize, 1, 2]);
    assert(model@.elements[1].indices == [1usize, 2, 3]);
    model.step_guass_seidel(100);
    proof {
        assert(model@.elements[0].indices@ =~= seq![0usize, 1, 2]);
        assert(model@.elements[1].indices@ =~= seq![1usize, 2, 3]);
        assert(model@.nodes[0].known@ =~= seq![KnownType::Displacement, KnownType::Displacement]);
        assert(model@.nodes[1].known@ =~= seq![KnownType::Force, KnownType::Displacement]);
        assert(model@.nodes[2].known@ =~= seq![KnownType::Force, KnownType::Force]);
        assert(model@.nodes[3].known@ =~= seq![KnownType::Force, KnownType::Force]);
    }
    model
}

} // verus!
