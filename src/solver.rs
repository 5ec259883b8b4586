use vstd::prelude::*;

use crate::assembly::dof;
use crate::matrix::{has_shape, spec_dot, GlobalMatrix};
use crate::node::{KnownType, Node2D};
use crate::scalar::Scalar;

verus! {

/// Which quantity is given at global degree of freedom `d`.
pub open spec fn known_at<S>(nodes: Seq<Node2D<S>>, d: int) -> KnownType {
    nodes[d / 2].known@[d % 2]
}

/// What a solve leaves alone: the node count, every position and boundary
/// condition, the displacement of every displacement-known axis and the force
/// of every force-known axis.
pub open spec fn keeps_given_values<S>(before: Seq<Node2D<S>>, after: Seq<Node2D<S>>) -> bool {
    &&& after.len() == before.len()
    &&& forall|v: int|
        0 <= v < before.len() ==> {
            &&& (#[trigger] after[v]).position == before[v].position
            &&& after[v].known == before[v].known
        }
    &&& forall|v: int, a: int|
        0 <= v < before.len() && 0 <= a < 2 && before[v].known@[a] == KnownType::Displacement
            ==> #[trigger] after[v].displacement@[a] == before[v].displacement@[a]
    &&& forall|v: int, a: int|
        0 <= v < before.len() && 0 <= a < 2 && before[v].known@[a] == KnownType::Force
            ==> #[trigger] after[v].force@[a] == before[v].force@[a]
}

/// The displacements of the nodes by degree of freedom.
pub open spec fn displacement_vector<S>(nodes: Seq<Node2D<S>>) -> Seq<S> {
    Seq::new(2 * nodes.len(), |d: int| nodes[d / 2].displacement@[d % 2])
}

/// The forces on the nodes by degree of freedom.
pub open spec fn force_vector<S>(nodes: Seq<Node2D<S>>) -> Seq<S> {
    Seq::new(2 * nodes.len(), |d: int| nodes[d / 2].force@[d % 2])
}

/// The degrees of freedom below `m` at which `kind` is given, in increasing
/// order.
pub open spec fn dofs_with<S>(nodes: Seq<Node2D<S>>, kind: KnownType, m: nat) -> Seq<usize>
    decreases m,
{
    if m == 0 {
        seq![]
    } else {
        let d = (m - 1) as nat;
        dofs_with(nodes, kind, d) + (if known_at(nodes, d as int) == kind {
            seq![d as usize]
        } else {
            seq![]
        })
    }
}

/// The Gauss-Seidel correction of degree of freedom `i`:
/// `(f[i] - row_i(k) · u) / k[i][i] + u[i]`.
pub open spec fn spec_update<S: Scalar>(k: Seq<Seq<S>>, u: Seq<S>, f: Seq<S>, i: int) -> S {
    f[i].spec_minus(spec_dot(k[i], u, u.len())).spec_over(k[i][i]).spec_plus(u[i])
}

/// `u` after correcting the first `t` of `dofs`, one after the other, each
/// seeing the corrections made before it.
pub open spec fn spec_sweep<S: Scalar>(
    k: Seq<Seq<S>>,
    u: Seq<S>,
    f: Seq<S>,
    dofs: Seq<usize>,
    t: nat,
) -> Seq<S>
    decreases t,
{
    if t == 0 {
        u
    } else {
        let v = spec_sweep(k, u, f, dofs, (t - 1) as nat);
        let i = dofs[t - 1] as int;
        v.update(i, spec_update(k, v, f, i))
    }
}

/// `u` after `steps` full sweeps over `dofs`.
pub open spec fn spec_relax<S: Scalar>(
    k: Seq<Seq<S>>,
    u: Seq<S>,
    f: Seq<S>,
    dofs: Seq<usize>,
    steps: nat,
) -> Seq<S>
    decreases steps,
{
    if steps == 0 {
        u
    } else {
        spec_sweep(k, spec_relax(k, u, f, dofs, (steps - 1) as nat), f, dofs, dofs.len())
    }
}

/// `f` with the first `t` of `dofs` replaced by the reaction `row_i(k) · u`.
pub open spec fn spec_reactions<S: Scalar>(
    k: Seq<Seq<S>>,
    u: Seq<S>,
    f: Seq<S>,
    dofs: Seq<usize>,
    t: nat,
) -> Seq<S>
    decreases t,
{
    if t == 0 {
        f
    } else {
        let i = dofs[t - 1] as int;
        spec_reactions(k, u, f, dofs, (t - 1) as nat).update(i, spec_dot(k[i], u, u.len()))
    }
}

/// The displacements, by degree of freedom, after `steps` sweeps from the
/// nodes' current state under `k`.
pub open spec fn solved_displacements<S: Scalar>(k: Seq<Seq<S>>, nodes: Seq<Node2D<S>>, steps: nat) -> Seq<S> {
    spec_relax(
        k,
        displacement_vector(nodes),
        force_vector(nodes),
        dofs_with(nodes, KnownType::Force, 2 * nodes.len()),
        steps,
    )
}

/// The forces, by degree of freedom, after `steps` sweeps: the reactions of
/// the displacement-known degrees of freedom, the given forces elsewhere.
pub open spec fn solved_forces<S: Scalar>(k: Seq<Seq<S>>, nodes: Seq<Node2D<S>>, steps: nat) -> Seq<S> {
    let dofs = dofs_with(nodes, KnownType::Displacement, 2 * nodes.len());
    spec_reactions(k, solved_displacements(k, nodes, steps), force_vector(nodes), dofs, dofs.len())
}

/// Whether `after` is `before` after `steps` Gauss-Seidel sweeps under `k` and
/// the recovery of the reactions: positions and boundary conditions kept,
/// displacements and forces as solved.
pub open spec fn is_solved<S: Scalar>(
    before: Seq<Node2D<S>>,
    after: Seq<Node2D<S>>,
    k: Seq<Seq<S>>,
    steps: nat,
) -> bool {
    &&& after.len() == before.len()
    &&& forall|v: int|
        0 <= v < before.len() ==> {
            &&& (#[trigger] after[v]).position == before[v].position
            &&& after[v].known == before[v].known
        }
    &&& forall|v: int, a: int|
        0 <= v < before.len() && 0 <= a < 2 ==> #[trigger] after[v].displacement@[a]
            == solved_displacements(k, before, steps)[dof(v, a)]
    &&& forall|v: int, a: int|
        0 <= v < before.len() && 0 <= a < 2 ==> #[trigger] after[v].force@[a]
            == solved_forces(k, before, steps)[dof(v, a)]
}

proof fn lemma_dof_split(v: int, a: int)
    requires
        0 <= v,
        0 <= a < 2,
    ensures
        dof(v, a) / 2 == v,
        dof(v, a) % 2 == a,
{
}

/// The solver's working state, read from the nodes: displacements `u` and
/// forces `f` by degree of freedom, and the degrees of freedom whose
/// displacement (`known_u`) and whose force (`known_f`) are given, each in
/// increasing order.
struct Dofs<S> {
    u: Vec<S>,
    f: Vec<S>,
    known_u: Vec<usize>,
    known_f: Vec<usize>,
}

fn gather<S: Scalar>(nodes: &Vec<Node2D<S>>) -> (r: Dofs<S>)
    requires
        2 * nodes@.len() <= usize::MAX,
    ensures
        r.u@.len() == 2 * nodes@.len(),
        r.f@.len() == 2 * nodes@.len(),
        forall|v: int, a: int|
            0 <= v < nodes@.len() && 0 <= a < 2 ==> {
                &&& #[trigger] r.u@[dof(v, a)] == nodes@[v].displacement@[a]
                &&& r.f@[dof(v, a)] == nodes@[v].force@[a]
            },
        forall|t: int|
            0 <= t < r.known_u@.len() ==> {
                &&& #[trigger] r.known_u@[t] < 2 * nodes@.len()
                &&& known_at(nodes@, r.known_u@[t] as int) == KnownType::Displacement
            },
        forall|t: int|
            0 <= t < r.known_f@.len() ==> {
                &&& #[trigger] r.known_f@[t] < 2 * nodes@.len()
                &&& known_at(nodes@, r.known_f@[t] as int) == KnownType::Force
            },
        r.u@ == displacement_vector(nodes@),
        r.f@ == force_vector(nodes@),
        r.known_u@ == dofs_with(nodes@, KnownType::Displacement, 2 * nodes@.len()),
        r.known_f@ == dofs_with(nodes@, KnownType::Force, 2 * nodes@.len()),
{
    let n = nodes.len();
    let mut u: Vec<S> = Vec::new();
    let mut f: Vec<S> = Vec::new();
    let mut known_u: Vec<usize> = Vec::new();
    let mut known_f: Vec<usize> = Vec::new();
    let mut v: usize = 0;
    while v < n
        invariant
            v <= n,
            n == nodes@.len(),
            2 * n <= usize::MAX,
            u@.len() == 2 * v,
            f@.len() == 2 * v,
            known_u@ == dofs_with(nodes@, KnownType::Displacement, 2 * v as nat),
            known_f@ == dofs_with(nodes@, KnownType::Force, 2 * v as nat),
            forall|w: int, a: int|
                0 <= w < v && 0 <= a < 2 ==> {
                    &&& #[trigger] u@[dof(w, a)] == nodes@[w].displacement@[a]
                    &&& f@[dof(w, a)] == nodes@[w].force@[a]
                },
            forall|t: int|
                0 <= t < known_u@.len() ==> {
                    &&& #[trigger] known_u@[t] < 2 * v
                    &&& known_at(nodes@, known_u@[t] as int) == KnownType::Displacement
                },
            forall|t: int|
                0 <= t < known_f@.len() ==> {
                    &&& #[trigger] known_f@[t] < 2 * v
                    &&& known_at(nodes@, known_f@[t] as int) == KnownType::Force
                },
        decreases n - v,
    {
        let node = nodes[v];
        let mut a: usize = 0;
        while a < 2
            invariant
                v < n,
                a <= 2,
                n == nodes@.len(),
                2 * n <= usize::MAX,
                node == nodes@[v as int],
                u@.len() == 2 * v + a,
                f@.len() == 2 * v + a,
                known_u@ == dofs_with(nodes@, KnownType::Displacement, (2 * v + a) as nat),
                known_f@ == dofs_with(nodes@, KnownType::Force, (2 * v + a) as nat),
                forall|w: int, b: int|
                    0 <= w < v && 0 <= b < 2 ==> {
                        &&& #[trigger] u@[dof(w, b)] == nodes@[w].displacement@[b]
                        &&& f@[dof(w, b)] == nodes@[w].force@[b]
                    },
                forall|b: int|
                    0 <= b < a ==> {
                        &&& #[trigger] u@[dof(v as int, b)] == node.displacement@[b]
                        &&& f@[dof(v as int, b)] == node.force@[b]
                    },
                forall|t: int|
                    0 <= t < known_u@.len() ==> {
                        &&& #[trigger] known_u@[t] < 2 * v + a
                        &&& known_at(nodes@, known_u@[t] as int) == KnownType::Displacement
                    },
                forall|t: int|
                    0 <= t < known_f@.len() ==> {
                        &&& #[trigger] known_f@[t] < 2 * v + a
                        &&& known_at(nodes@, known_f@[t] as int) == KnownType::Force
                    },
            decreases 2 - a,
        {
            let d = 2 * v + a;
            proof {
                lemma_dof_split(v as int, a as int);
            }
            u.push(node.displacement[a]);
            f.push(node.force[a]);
            assert(known_at(nodes@, d as int) == node.known@[a as int]);
            match node.known[a] {
                KnownType::Displacement => known_u.push(d),
                KnownType::Force => known_f.push(d),
            }
            assert(known_u@ =~= dofs_with(nodes@, KnownType::Displacement, (d + 1) as nat));
            assert(known_f@ =~= dofs_with(nodes@, KnownType::Force, (d + 1) as nat));
            a = a + 1;
        }
        assert forall|w: int, b: int| 0 <= w < v + 1 && 0 <= b < 2 implies {
            &&& #[trigger] u@[dof(w, b)] == nodes@[w].displacement@[b]
            &&& f@[dof(w, b)] == nodes@[w].force@[b]
        } by {
            if w == v {
                assert(u@[dof(v as int, b)] == node.displacement@[b]);
            }
        };
        v = v + 1;
    }
    assert forall|d: int| 0 <= d < 2 * n implies #[trigger] u@[d] == displacement_vector(nodes@)[d] by {
        lemma_dof_split(d / 2, d % 2);
        assert(u@[dof(d / 2, d % 2)] == nodes@[d / 2].displacement@[d % 2]);
    };
    assert forall|d: int| 0 <= d < 2 * n implies #[trigger] f@[d] == force_vector(nodes@)[d] by {
        lemma_dof_split(d / 2, d % 2);
        assert(u@[dof(d / 2, d % 2)] == nodes@[d / 2].displacement@[d % 2]);
        assert(f@[dof(d / 2, d % 2)] == nodes@[d / 2].force@[d % 2]);
    };
    assert(u@ =~= displacement_vector(nodes@));
    assert(f@ =~= force_vector(nodes@));
    Dofs { u, f, known_u, known_f }
}

/// Runs `steps` Gauss-Seidel sweeps over the force-known degrees of freedom:
/// each one in turn is corrected by `(f[i] - row_i(K) · u) / K[i][i]`, with
/// the corrections of earlier ones in the same sweep already applied. Every
/// other entry of `u` is left alone.
fn relax<S: Scalar>(k: &GlobalMatrix<S>, u: &mut Vec<S>, f: &Vec<S>, known_f: &Vec<usize>, steps: usize)
    requires
        has_shape(k@, old(u)@.len(), old(u)@.len()),
        f@.len() == old(u)@.len(),
        forall|t: int| 0 <= t < known_f@.len() ==> #[trigger] known_f@[t] < old(u)@.len(),
    ensures
        final(u)@.len() == old(u)@.len(),
        forall|d: int|
            0 <= d < old(u)@.len() && !known_f@.contains(d as usize) ==> #[trigger] final(u)@[d]
                == old(u)@[d],
        final(u)@ == spec_relax(k@, old(u)@, f@, known_f@, steps as nat),
{
    let ghost u0 = u@;
    let mut step: usize = 0;
    while step < steps
        invariant
            step <= steps,
            u@.len() == u0.len(),
            has_shape(k@, u0.len(), u0.len()),
            f@.len() == u0.len(),
            forall|t: int| 0 <= t < known_f@.len() ==> #[trigger] known_f@[t] < u0.len(),
            forall|d: int|
                0 <= d < u0.len() && !known_f@.contains(d as usize) ==> #[trigger] u@[d] == u0[d],
            u@ == spec_relax(k@, u0, f@, known_f@, step as nat),
        decreases steps - step,
    {
        let ghost start = u@;
        let mut t: usize = 0;
        while t < known_f.len()
            invariant
                t <= known_f@.len(),
                u@.len() == u0.len(),
                has_shape(k@, u0.len(), u0.len()),
                f@.len() == u0.len(),
                forall|s: int| 0 <= s < known_f@.len() ==> #[trigger] known_f@[s] < u0.len(),
                forall|d: int|
                    0 <= d < u0.len() && !known_f@.contains(d as usize) ==> #[trigger] u@[d]
                        == u0[d],
                start == spec_relax(k@, u0, f@, known_f@, step as nat),
                u@ == spec_sweep(k@, start, f@, known_f@, t as nat),
            decreases known_f@.len() - t,
        {
            let i = known_f[t];
            assert(known_f@.contains(i));
            let residual = f[i].minus(k.row_dot(i, u));
            let next = residual.over(k.get(i, i)).plus(u[i]);
            u.set(i, next);
            assert(u@ =~= spec_sweep(k@, start, f@, known_f@, t as nat + 1));
            t = t + 1;
        }
        step = step + 1;
    }
}

/// Recovers the reaction force `row_i(K) · u` at every displacement-known
/// degree of freedom `i`. Every other entry of `f` is left alone.
fn reactions<S: Scalar>(k: &GlobalMatrix<S>, u: &Vec<S>, f: &mut Vec<S>, known_u: &Vec<usize>)
    requires
        has_shape(k@, u@.len(), u@.len()),
        old(f)@.len() == u@.len(),
        forall|t: int| 0 <= t < known_u@.len() ==> #[trigger] known_u@[t] < u@.len(),
    ensures
        final(f)@.len() == old(f)@.len(),
        forall|d: int|
            0 <= d < u@.len() && !known_u@.contains(d as usize) ==> #[trigger] final(f)@[d]
                == old(f)@[d],
        final(f)@ == spec_reactions(k@, u@, old(f)@, known_u@, known_u@.len()),
{
    let ghost f0 = f@;
    let mut t: usize = 0;
    while t < known_u.len()
        invariant
            t <= known_u@.len(),
            f@.len() == u@.len(),
            f0.len() == u@.len(),
            has_shape(k@, u@.len(), u@.len()),
            forall|s: int| 0 <= s < known_u@.len() ==> #[trigger] known_u@[s] < u@.len(),
            forall|d: int|
                0 <= d < u@.len() && !known_u@.contains(d as usize) ==> #[trigger] f@[d] == f0[d],
            f@ == spec_reactions(k@, u@, f0, known_u@, t as nat),
        decreases known_u@.len() - t,
    {
        let i = known_u[t];
        assert(known_u@.contains(i));
        let reaction = k.row_dot(i, u);
        f.set(i, reaction);
        assert(f@ =~= spec_reactions(k@, u@, f0, known_u@, t as nat + 1));
        t = t + 1;
    }
}

/// Writes `u` and `f` back into the nodes' displacements and forces.
fn write_back<S: Scalar>(nodes: &mut Vec<Node2D<S>>, u: &Vec<S>, f: &Vec<S>)
    requires
        2 * old(nodes)@.len() <= usize::MAX,
        u@.len() == 2 * old(nodes)@.len(),
        f@.len() == 2 * old(nodes)@.len(),
    ensures
        final(nodes)@.len() == old(nodes)@.len(),
        forall|v: int|
            0 <= v < old(nodes)@.len() ==> {
                &&& (#[trigger] final(nodes)@[v]).position == old(nodes)@[v].position
                &&& final(nodes)@[v].known == old(nodes)@[v].known
            },
        forall|v: int, a: int|
            0 <= v < old(nodes)@.len() && 0 <= a < 2 ==> #[trigger] final(nodes)@[v].displacement@[a]
                == u@[dof(v, a)],
        forall|v: int, a: int|
            0 <= v < old(nodes)@.len() && 0 <= a < 2 ==> #[trigger] final(nodes)@[v].force@[a]
                == f@[dof(v, a)],
{
    let n = nodes.len();
    let mut v: usize = 0;
    while v < n
        invariant
            v <= n,
            n == nodes@.len(),
            n == old(nodes)@.len(),
            2 * n <= usize::MAX,
            u@.len() == 2 * n,
            f@.len() == 2 * n,
            forall|w: int|
                0 <= w < n ==> {
                    &&& (#[trigger] nodes@[w]).position == old(nodes)@[w].position
                    &&& nodes@[w].known == old(nodes)@[w].known
                },
            forall|w: int, a: int|
                0 <= w < v && 0 <= a < 2 ==> #[trigger] nodes@[w].displacement@[a] == u@[dof(w, a)],
            forall|w: int, a: int|
                0 <= w < v && 0 <= a < 2 ==> #[trigger] nodes@[w].force@[a] == f@[dof(w, a)],
        decreases n - v,
    {
        let mut node = nodes[v];
        node.displacement = [u[2 * v], u[2 * v + 1]];
        node.force = [f[2 * v], f[2 * v + 1]];
        nodes.set(v, node);
        v = v + 1;
    }
}

/// Runs `steps` Gauss-Seidel sweeps on the mesh's nodes under the global
/// stiffness matrix `k`, then recovers the reaction forces of the
/// displacement-known degrees of freedom, and writes the displacements and
/// forces back. Given values stay as they were.
pub fn gauss_seidel<S: Scalar>(k: &GlobalMatrix<S>, nodes: &mut Vec<Node2D<S>>, steps: usize)
    requires
        has_shape(k@, 2 * old(nodes)@.len(), 2 * old(nodes)@.len()),
    ensures
        is_solved(old(nodes)@, final(nodes)@, k@, steps as nat),
        keeps_given_values(old(nodes)@, final(nodes)@),
{
    let ghost before = nodes@;
    let size = k.rows();
    assert(size == 2 * nodes@.len());
    let Dofs { u, f, known_u, known_f } = gather(nodes);
    let mut u = u;
    let mut f = f;
    let ghost u1 = u@;
    let ghost f1 = f@;
    relax(k, &mut u, &f, &known_f, steps);
    reactions(k, &u, &mut f, &known_u);
    write_back(nodes, &u, &f);
    assert(u@ == solved_displacements(k@, before, steps as nat));
    assert(f@ == solved_forces(k@, before, steps as nat));
    proof {
        assert forall|v: int, a: int| 0 <= v < before.len() && 0 <= a < 2 implies (before[v].known@[a]
            == KnownType::Displacement ==> nodes@[v].displacement@[a]
            == before[v].displacement@[a]) && (before[v].known@[a] == KnownType::Force
            ==> nodes@[v].force@[a] == before[v].force@[a]) by {
            let d: int = dof(v, a);
            lemma_dof_split(v, a);
            let du = d as usize;
            assert(du as int == d);
            assert(u1[d] == before[v].displacement@[a]);
            assert(f1[d] == before[v].force@[a]);
            assert(nodes@[v].displacement@[a] == u@[d]);
            assert(nodes@[v].force@[a] == f@[d]);
            assert(known_at(before, d) == before[v].known@[a]);
            if before[v].known@[a] == KnownType::Displacement {
                if known_f@.contains(du) {
                    let t = choose|t: int| 0 <= t < known_f@.len() && known_f@[t] == du;
                    assert(known_at(before, known_f@[t] as int) == KnownType::Force);
                }
                assert(u@[d] == u1[d]);
            } else {
                if known_u@.contains(du) {
                    let t = choose|t: int| 0 <= t < known_u@.len() && known_u@[t] == du;
                    assert(known_at(before, known_u@[t] as int) == KnownType::Displacement);
                }
                assert(f@[d] == f1[d]);
            }
        };
    }
}

/// The vector of `n` zeros.
pub open spec fn spec_zero_vector<S: Scalar>(n: nat) -> Seq<S> {
    Seq::new(n, |d: int| S::spec_zero())
}

/// Arithmetic facts about zero that a number type gives when the matrix `k`
/// is finite and its diagonal at `dofs` is nonzero: a finite number times
/// zero is zero, zero plus or minus zero is zero, and zero over a nonzero
/// number is zero.
pub open spec fn zero_facts<S: Scalar>(k: Seq<Seq<S>>, dofs: Seq<usize>) -> bool {
    &&& S::spec_zero().spec_plus(S::spec_zero()) == S::spec_zero()
    &&& S::spec_zero().spec_minus(S::spec_zero()) == S::spec_zero()
    &&& forall|i: int, j: int|
        0 <= i < k.len() && 0 <= j < k[i].len() ==> #[trigger] k[i][j].spec_times(S::spec_zero())
            == S::spec_zero()
    &&& forall|t: int|
        0 <= t < dofs.len() ==> S::spec_zero().spec_over(k[#[trigger] dofs[t] as int][dofs[t] as int])
            == S::spec_zero()
}

proof fn lemma_dot_zero<S: Scalar>(row: Seq<S>, n: nat)
    requires
        S::spec_zero().spec_plus(S::spec_zero()) == S::spec_zero(),
        n <= row.len(),
        forall|j: int| 0 <= j < row.len() ==> #[trigger] row[j].spec_times(S::spec_zero()) == S::spec_zero(),
    ensures
        spec_dot(row, spec_zero_vector::<S>(row.len()), n) == S::spec_zero(),
    decreases n,
{
    if n > 0 {
        lemma_dot_zero(row, (n - 1) as nat);
        assert(row[n - 1].spec_times(S::spec_zero()) == S::spec_zero());
    }
}

proof fn lemma_sweep_at_rest<S: Scalar>(k: Seq<Seq<S>>, f: Seq<S>, dofs: Seq<usize>, t: nat)
    requires
        has_shape(k, f.len(), f.len()),
        t <= dofs.len(),
        zero_facts(k, dofs),
        forall|s: int| 0 <= s < dofs.len() ==> #[trigger] dofs[s] < f.len(),
        forall|s: int| 0 <= s < dofs.len() ==> f[#[trigger] dofs[s] as int] == S::spec_zero(),
    ensures
        spec_sweep(k, spec_zero_vector::<S>(f.len()), f, dofs, t) == spec_zero_vector::<S>(f.len()),
    decreases t,
{
    let z = spec_zero_vector::<S>(f.len());
    if t > 0 {
        lemma_sweep_at_rest(k, f, dofs, (t - 1) as nat);
        let i = dofs[t - 1] as int;
        assert(dofs[t - 1] < f.len());
        assert forall|j: int| 0 <= j < k[i].len() implies #[trigger] k[i][j].spec_times(S::spec_zero())
            == S::spec_zero() by {};
        lemma_dot_zero(k[i], f.len());
        assert(S::spec_zero().spec_over(k[dofs[t - 1] as int][dofs[t - 1] as int]) == S::spec_zero());
        assert(spec_update(k, z, f, i) == S::spec_zero());
        assert(z.update(i, S::spec_zero()) =~= z);
    }
}

/// Rest is a fixed point of the relaxation: with zero displacements and zero
/// given forces, any number of sweeps leaves every displacement zero (given
/// the arithmetic facts about zero of a finite matrix with a nonzero
/// diagonal at the swept degrees of freedom).
pub proof fn lemma_rest_is_fixed_point<S: Scalar>(
    k: Seq<Seq<S>>,
    f: Seq<S>,
    dofs: Seq<usize>,
    steps: nat,
)
    requires
        has_shape(k, f.len(), f.len()),
        zero_facts(k, dofs),
        forall|s: int| 0 <= s < dofs.len() ==> #[trigger] dofs[s] < f.len(),
        forall|s: int| 0 <= s < dofs.len() ==> f[#[trigger] dofs[s] as int] == S::spec_zero(),
    ensures
        spec_relax(k, spec_zero_vector::<S>(f.len()), f, dofs, steps) == spec_zero_vector::<S>(f.len()),
    decreases steps,
{
    if steps > 0 {
        lemma_rest_is_fixed_point(k, f, dofs, (steps - 1) as nat);
        lemma_sweep_at_rest(k, f, dofs, dofs.len());
    }
}

proof fn lemma_dofs_with_bounded<S>(nodes: Seq<Node2D<S>>, kind: KnownType, m: nat)
    requires
        m <= usize::MAX,
    ensures
        forall|s: int| 0 <= s < dofs_with(nodes, kind, m).len() ==> {
            &&& #[trigger] dofs_with(nodes, kind, m)[s] < m
            &&& known_at(nodes, dofs_with(nodes, kind, m)[s] as int) == kind
        },
    decreases m,
{
    if m > 0 {
        let d = (m - 1) as nat;
        lemma_dofs_with_bounded(nodes, kind, d);
        let prev = dofs_with(nodes, kind, d);
        let r = dofs_with(nodes, kind, m);
        assert forall|s: int| 0 <= s < r.len() implies {
            &&& #[trigger] r[s] < m
            &&& known_at(nodes, r[s] as int) == kind
        } by {
            if s < prev.len() {
                assert(r[s] == prev[s]);
            } else {
                assert(r[s] == d as usize);
            }
        };
    }
}

/// A mesh at rest with no applied force stays at rest: when every node has
/// zero displacement and zero force, the solved displacements are all zero
/// after any number of sweeps (given the arithmetic facts about zero of a
/// finite stiffness matrix with a nonzero diagonal at the force-known
/// degrees of freedom).
pub proof fn lemma_unloaded_mesh_stays_at_rest<S: Scalar>(
    k: Seq<Seq<S>>,
    nodes: Seq<Node2D<S>>,
    steps: nat,
)
    requires
        2 * nodes.len() <= usize::MAX,
        has_shape(k, 2 * nodes.len(), 2 * nodes.len()),
        zero_facts(k, dofs_with(nodes, KnownType::Force, 2 * nodes.len())),
        forall|v: int, a: int|
            0 <= v < nodes.len() && 0 <= a < 2 ==> #[trigger] nodes[v].displacement@[a]
                == S::spec_zero() && nodes[v].force@[a] == S::spec_zero(),
    ensures
        solved_displacements(k, nodes, steps) == spec_zero_vector::<S>(2 * nodes.len()),
{
    let n2 = 2 * nodes.len();
    let dofs = dofs_with(nodes, KnownType::Force, n2);
    let f = force_vector(nodes);
    assert forall|d: int| 0 <= d < n2 implies #[trigger] displacement_vector(nodes)[d]
        == spec_zero_vector::<S>(n2)[d] && f[d] == S::spec_zero() by {
        lemma_dof_split(d / 2, d % 2);
        assert(nodes[d / 2].displacement@[d % 2] == S::spec_zero());
    };
    assert(displacement_vector(nodes) =~= spec_zero_vector::<S>(n2));
    lemma_dofs_with_bounded(nodes, KnownType::Force, n2);
    assert forall|s: int| 0 <= s < dofs.len() implies f[#[trigger] dofs[s] as int] == S::spec_zero() by {
        assert(dofs[s] < n2);
        assert(displacement_vector(nodes)[dofs[s] as int] == spec_zero_vector::<S>(n2)[dofs[s] as int]);
    };
    lemma_rest_is_fixed_point(k, f, dofs, steps);
}

proof fn lemma_relax_compose<S: Scalar>(
    k: Seq<Seq<S>>,
    u: Seq<S>,
    f: Seq<S>,
    dofs: Seq<usize>,
    a: nat,
    b: nat,
)
    ensures
        spec_relax(k, spec_relax(k, u, f, dofs, a), f, dofs, b) == spec_relax(k, u, f, dofs, a + b),
    decreases b,
{
    if b > 0 {
        lemma_relax_compose(k, u, f, dofs, a, (b - 1) as nat);
        assert((a + b - 1) as nat == a + (b - 1) as nat);
    }
}

proof fn lemma_sweep_reads_given_forces<S: Scalar>(
    k: Seq<Seq<S>>,
    u: Seq<S>,
    f1: Seq<S>,
    f2: Seq<S>,
    dofs: Seq<usize>,
    t: nat,
)
    requires
        t <= dofs.len(),
        forall|s: int| 0 <= s < dofs.len() ==> f1[#[trigger] dofs[s] as int] == f2[dofs[s] as int],
    ensures
        spec_sweep(k, u, f1, dofs, t) == spec_sweep(k, u, f2, dofs, t),
    decreases t,
{
    if t > 0 {
        lemma_sweep_reads_given_forces(k, u, f1, f2, dofs, (t - 1) as nat);
        assert(f1[dofs[t - 1] as int] == f2[dofs[t - 1] as int]);
    }
}

proof fn lemma_relax_reads_given_forces<S: Scalar>(
    k: Seq<Seq<S>>,
    u: Seq<S>,
    f1: Seq<S>,
    f2: Seq<S>,
    dofs: Seq<usize>,
    steps: nat,
)
    requires
        forall|s: int| 0 <= s < dofs.len() ==> f1[#[trigger] dofs[s] as int] == f2[dofs[s] as int],
    ensures
        spec_relax(k, u, f1, dofs, steps) == spec_relax(k, u, f2, dofs, steps),
    decreases steps,
{
    if steps > 0 {
        lemma_relax_reads_given_forces(k, u, f1, f2, dofs, (steps - 1) as nat);
        lemma_sweep_reads_given_forces(
            k,
            spec_relax(k, u, f1, dofs, (steps - 1) as nat),
            f1,
            f2,
            dofs,
            dofs.len(),
        );
    }
}

proof fn lemma_reactions_at<S: Scalar>(
    k: Seq<Seq<S>>,
    u: Seq<S>,
    f: Seq<S>,
    dofs: Seq<usize>,
    t: nat,
    d: int,
)
    requires
        t <= dofs.len(),
        0 <= d < f.len() <= usize::MAX,
        forall|s: int| 0 <= s < dofs.len() ==> #[trigger] dofs[s] < f.len(),
    ensures
        spec_reactions(k, u, f, dofs, t).len() == f.len(),
        spec_reactions(k, u, f, dofs, t)[d] == if dofs.take(t as int).contains(d as usize) {
            spec_dot(k[d], u, u.len())
        } else {
            f[d]
        },
    decreases t,
{
    if t > 0 {
        lemma_reactions_at(k, u, f, dofs, (t - 1) as nat, d);
        let prev = dofs.take(t - 1);
        let cur = dofs.take(t as int);
        assert(cur =~= prev.push(dofs[t - 1]));
        assert(dofs[t - 1] < f.len());
        let i = dofs[t - 1] as int;
        let du = d as usize;
        assert(du as int == d);
        if i == d {
            assert(cur[t - 1] == du);
            assert(cur.contains(du));
        } else {
            if cur.contains(du) {
                let s = choose|s: int| 0 <= s < cur.len() && cur[s] == du;
                assert(s != t - 1);
                assert(prev[s] == du);
                assert(prev.contains(du));
            }
            if prev.contains(du) {
                let s = choose|s: int| 0 <= s < prev.len() && prev[s] == du;
                assert(cur[s] == du);
            }
        }
    }
}

proof fn lemma_dofs_with_same_known<S>(n0: Seq<Node2D<S>>, n1: Seq<Node2D<S>>, kind: KnownType, m: nat)
    requires
        n1.len() == n0.len(),
        2 * n0.len() >= m,
        forall|v: int| 0 <= v < n0.len() ==> (#[trigger] n1[v]).known == n0[v].known,
    ensures
        dofs_with(n1, kind, m) == dofs_with(n0, kind, m),
    decreases m,
{
    if m > 0 {
        lemma_dofs_with_same_known(n0, n1, kind, (m - 1) as nat);
        let d = (m - 1) as int;
        assert(n1[d / 2].known == n0[d / 2].known);
    }
}

/// Two solves under one stiffness matrix compose: `a` sweeps followed by `b`
/// sweeps leave the nodes as `a + b` sweeps do.
pub proof fn lemma_solves_compose<S: Scalar>(
    k: Seq<Seq<S>>,
    n0: Seq<Node2D<S>>,
    n1: Seq<Node2D<S>>,
    n2: Seq<Node2D<S>>,
    a: nat,
    b: nat,
)
    requires
        2 * n0.len() <= usize::MAX,
        is_solved(n0, n1, k, a),
        is_solved(n1, n2, k, b),
    ensures
        is_solved(n0, n2, k, a + b),
{
    let m = 2 * n0.len();
    lemma_dofs_with_same_known(n0, n1, KnownType::Force, m);
    lemma_dofs_with_same_known(n0, n1, KnownType::Displacement, m);
    let free = dofs_with(n0, KnownType::Force, m);
    let fixed = dofs_with(n0, KnownType::Displacement, m);
    lemma_dofs_with_bounded(n0, KnownType::Force, m);
    lemma_dofs_with_bounded(n0, KnownType::Displacement, m);
    let f0 = force_vector(n0);
    let f1 = force_vector(n1);
    let u1 = solved_displacements(k, n0, a);
    let u2 = solved_displacements(k, n0, a + b);
    assert forall|d: int| 0 <= d < m implies #[trigger] displacement_vector(n1)[d] == u1[d] by {
        lemma_dof_split(d / 2, d % 2);
        assert(n1[d / 2].displacement@[d % 2] == u1[dof(d / 2, d % 2)]);
    };
    assert(spec_relax(k, displacement_vector(n0), f0, free, a).len() == m) by {
        lemma_relax_len(k, displacement_vector(n0), f0, free, a);
    };
    assert(displacement_vector(n1) =~= u1);
    assert forall|s: int| 0 <= s < free.len() implies f1[#[trigger] free[s] as int] == f0[free[s] as int] by {
        let d = free[s] as int;
        lemma_dof_split(d / 2, d % 2);
        assert(n1[d / 2].force@[d % 2] == solved_forces(k, n0, a)[dof(d / 2, d % 2)]);
        lemma_reactions_at(k, u1, f0, fixed, fixed.len(), d);
        assert(fixed.take(fixed.len() as int) =~= fixed);
        if fixed.contains(d as usize) {
            let t = choose|t: int| 0 <= t < fixed.len() && fixed[t] == d as usize;
            assert(known_at(n0, fixed[t] as int) == KnownType::Displacement);
        }
    };
    lemma_relax_reads_given_forces(k, u1, f1, f0, free, b);
    lemma_relax_compose(k, displacement_vector(n0), f0, free, a, b);
    assert(solved_displacements(k, n1, b) == u2);
    lemma_relax_len(k, displacement_vector(n0), f0, free, a + b);
    assert forall|v: int, c: int| 0 <= v < n0.len() && 0 <= c < 2 implies #[trigger] n2[v].force@[c]
        == solved_forces(k, n0, a + b)[dof(v, c)] by {
        let d = dof(v, c);
        lemma_dof_split(v, c);
        assert(n2[v].force@[c] == solved_forces(k, n1, b)[d]);
        lemma_reactions_at(k, u2, f1, fixed, fixed.len(), d);
        lemma_reactions_at(k, u2, f0, fixed, fixed.len(), d);
        assert(fixed.take(fixed.len() as int) =~= fixed);
        if !fixed.contains(d as usize) {
            assert(n1[v].force@[c] == solved_forces(k, n0, a)[d]);
            lemma_reactions_at(k, u1, f0, fixed, fixed.len(), d);
            assert(f1[d] == n1[v].force@[c]);
        }
    };
    assert forall|v: int, c: int| 0 <= v < n0.len() && 0 <= c < 2 implies #[trigger] n2[v].displacement@[c]
        == solved_displacements(k, n0, a + b)[dof(v, c)] by {
        assert(n2[v].displacement@[c] == solved_displacements(k, n1, b)[dof(v, c)]);
    };
}

proof fn lemma_sweep_len<S: Scalar>(k: Seq<Seq<S>>, u: Seq<S>, f: Seq<S>, dofs: Seq<usize>, t: nat)
    requires
        t <= dofs.len(),
        forall|s: int| 0 <= s < dofs.len() ==> #[trigger] dofs[s] < u.len(),
    ensures
        spec_sweep(k, u, f, dofs, t).len() == u.len(),
    decreases t,
{
    if t > 0 {
        lemma_sweep_len(k, u, f, dofs, (t - 1) as nat);
        assert(dofs[t - 1] < u.len());
    }
}

proof fn lemma_relax_len<S: Scalar>(k: Seq<Seq<S>>, u: Seq<S>, f: Seq<S>, dofs: Seq<usize>, steps: nat)
    requires
        forall|s: int| 0 <= s < dofs.len() ==> #[trigger] dofs[s] < u.len(),
    ensures
        spec_relax(k, u, f, dofs, steps).len() == u.len(),
    decreases steps,
{
    if steps > 0 {
        lemma_relax_len(k, u, f, dofs, (steps - 1) as nat);
        lemma_sweep_len(k, spec_relax(k, u, f, dofs, (steps - 1) as nat), f, dofs, dofs.len());
    }
}

/// Whether `u` solves every row of `dofs` exactly: the residual
/// `f[i] - row_i(k) · u` is zero, and a zero correction leaves `u[i]` as it
/// is (zero over `k[i][i]` is zero, and zero plus `u[i]` is `u[i]`).
pub open spec fn solves_rows<S: Scalar>(k: Seq<Seq<S>>, u: Seq<S>, f: Seq<S>, dofs: Seq<usize>) -> bool {
    forall|s: int|
        0 <= s < dofs.len() ==> {
            let i = #[trigger] dofs[s] as int;
            &&& i < u.len()
            &&& f[i].spec_minus(spec_dot(k[i], u, u.len())) == S::spec_zero()
            &&& S::spec_zero().spec_over(k[i][i]) == S::spec_zero()
            &&& S::spec_zero().spec_plus(u[i]) == u[i]
        }
}

proof fn lemma_sweep_keeps_solution<S: Scalar>(
    k: Seq<Seq<S>>,
    u: Seq<S>,
    f: Seq<S>,
    dofs: Seq<usize>,
    t: nat,
)
    requires
        t <= dofs.len(),
        solves_rows(k, u, f, dofs),
    ensures
        spec_sweep(k, u, f, dofs, t) == u,
    decreases t,
{
    if t > 0 {
        lemma_sweep_keeps_solution(k, u, f, dofs, (t - 1) as nat);
        let i = dofs[t - 1] as int;
        assert(spec_update(k, u, f, i) == u[i]);
        assert(u.update(i, u[i]) =~= u);
    }
}

/// An exact solution is a fixed point of the relaxation: when `u` solves every
/// force-known row, any number of sweeps leaves it unchanged.
pub proof fn lemma_solution_is_fixed_point<S: Scalar>(
    k: Seq<Seq<S>>,
    u: Seq<S>,
    f: Seq<S>,
    dofs: Seq<usize>,
    steps: nat,
)
    requires
        solves_rows(k, u, f, dofs),
    ensures
        spec_relax(k, u, f, dofs, steps) == u,
    decreases steps,
{
    if steps > 0 {
        lemma_solution_is_fixed_point(k, u, f, dofs, (steps - 1) as nat);
        lemma_sweep_keeps_solution(k, u, f, dofs, dofs.len());
    }
}

} // verus!
