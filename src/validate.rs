use vstd::prelude::*;
use vstd::string::StringExecFns;

use crate::element::{indices_contain, indices_in_range, T3Element};

verus! {

/// One problem found in a mesh.
#[derive(Clone, Copy, Debug, PartialEq, Eq, Structural)]
pub enum FeaErrorType {
    /// An element refers to a node index outside the node collection.
    MissingNode { node_index: usize, element_index: usize },
    /// A node that no element refers to: its stiffness row would be zero.
    NodeWithoutElement { node_index: usize },
    /// An element whose nodes are all present but span no area.
    DegenerateElement { element_index: usize },
}

/// Every problem found in a mesh, in the order in which they were found.
#[derive(Clone, Debug)]
pub struct FeaError {
    pub errors: Vec<FeaErrorType>,
}

/// The decimal digit `d`.
pub open spec fn digit_char(d: nat) -> char {
    if d == 0 {
        '0'
    } else if d == 1 {
        '1'
    } else if d == 2 {
        '2'
    } else if d == 3 {
        '3'
    } else if d == 4 {
        '4'
    } else if d == 5 {
        '5'
    } else if d == 6 {
        '6'
    } else if d == 7 {
        '7'
    } else if d == 8 {
        '8'
    } else if d == 9 {
        '9'
    } else {
        '?'
    }
}

/// The decimal representation of `n`, without leading zeros.
pub open spec fn decimal(n: nat) -> Seq<char>
    decreases n,
{
    if n < 10 {
        seq![digit_char(n)]
    } else {
        decimal(n / 10).push(digit_char(n % 10))
    }
}

fn digit_str(d: usize) -> (r: &'static str)
    requires
        d < 10,
    ensures
        r@ == seq![digit_char(d as nat)],
{
    if d == 0 {
        proof {
            reveal_strlit("0");
        }
        "0"
    } else if d == 1 {
        proof {
            reveal_strlit("1");
        }
        "1"
    } else if d == 2 {
        proof {
            reveal_strlit("2");
        }
        "2"
    } else if d == 3 {
        proof {
            reveal_strlit("3");
        }
        "3"
    } else if d == 4 {
        proof {
            reveal_strlit("4");
        }
        "4"
    } else if d == 5 {
        proof {
            reveal_strlit("5");
        }
        "5"
    } else if d == 6 {
        proof {
            reveal_strlit("6");
        }
        "6"
    } else if d == 7 {
        proof {
            reveal_strlit("7");
        }
        "7"
    } else if d == 8 {
        proof {
            reveal_strlit("8");
        }
        "8"
    } else {
        proof {
            reveal_strlit("9");
        }
        "9"
    }
}

/// Writes `n` in decimal.
pub fn decimal_string(n: usize) -> (r: String)
    ensures
        r@ == decimal(n as nat),
    decreases n,
{
    if n < 10 {
        String::from_str(digit_str(n))
    } else {
        let mut s = decimal_string(n / 10);
        s.append(digit_str(n % 10));
        s
    }
}

/// The sentence that describes one problem.
pub open spec fn message_of(e: FeaErrorType) -> Seq<char> {
    match e {
        FeaErrorType::MissingNode { node_index, element_index } => "node (index: "@ + decimal(
            node_index as nat,
        ) + ") is missing from element (index: "@ + decimal(element_index as nat)
            + ") and should be replaced"@,
        FeaErrorType::NodeWithoutElement { node_index } => "node (index: "@ + decimal(
            node_index as nat,
        ) + ") is not part of an element and should be deleted"@,
        FeaErrorType::DegenerateElement { element_index } => "element (index: "@ + decimal(
            element_index as nat,
        ) + ") has no size and should be deleted"@,
    }
}

/// The report of a list of problems: each one's sentence on a line of its
/// own.
pub open spec fn report_of(errors: Seq<FeaErrorType>) -> Seq<char>
    decreases errors.len(),
{
    if errors.len() == 0 {
        seq![]
    } else {
        report_of(errors.drop_last()) + message_of(errors.last()) + "\n"@
    }
}

impl FeaErrorType {
    /// A sentence that describes the problem and what to do about it.
    pub fn message(&self) -> (r: String)
        ensures
            r@ == message_of(*self),
    {
        match *self {
            FeaErrorType::MissingNode { node_index, element_index } => {
                let mut s = String::from_str("node (index: ");
                s.append(decimal_string(node_index).as_str());
                s.append(") is missing from element (index: ");
                s.append(decimal_string(element_index).as_str());
                s.append(") and should be replaced");
                s
            },
            FeaErrorType::NodeWithoutElement { node_index } => {
                let mut s = String::from_str("node (index: ");
                s.append(decimal_string(node_index).as_str());
                s.append(") is not part of an element and should be deleted");
                s
            },
            FeaErrorType::DegenerateElement { element_index } => {
                let mut s = String::from_str("element (index: ");
                s.append(decimal_string(element_index).as_str());
                s.append(") has no size and should be deleted");
                s
            },
        }
    }
}

impl FeaError {
    /// Every problem's sentence, each on a line of its own.
    pub fn message(&self) -> (r: String)
        ensures
            r@ == report_of(self.errors@),
    {
        let mut s = String::new();
        let mut i: usize = 0;
        while i < self.errors.len()
            invariant
                i <= self.errors@.len(),
                s@ == report_of(self.errors@.take(i as int)),
            decreases self.errors@.len() - i,
        {
            s.append(self.errors[i].message().as_str());
            s.append("\n");
            proof {
                assert(self.errors@.take(i as int + 1).drop_last() =~= self.errors@.take(i as int));
            }
            i = i + 1;
        }
        assert(self.errors@.take(self.errors@.len() as int) =~= self.errors@);
        s
    }
}

/// The report for index `k` of element `e`: one `MissingNode` when that index
/// names none of the `n` nodes.
pub open spec fn missing_at(n: nat, indices: [usize; 3], k: int, e: int) -> Seq<FeaErrorType> {
    if indices@[k] as nat >= n {
        seq![FeaErrorType::MissingNode { node_index: indices@[k], element_index: e as usize }]
    } else {
        seq![]
    }
}

/// The reports for element `e`: its missing nodes in index order, then
/// `DegenerateElement` when all its nodes are present and its area is not
/// positive.
pub open spec fn element_errors(n: nat, indices: [usize; 3], e: int, positive: bool) -> Seq<
    FeaErrorType,
> {
    missing_at(n, indices, 0, e) + missing_at(n, indices, 1, e) + missing_at(n, indices, 2, e) + (
    if indices_in_range(indices, n) && !positive {
        seq![FeaErrorType::DegenerateElement { element_index: e as usize }]
    } else {
        seq![]
    })
}

/// The reports for all elements, element by element.
pub open spec fn elements_errors(n: nat, elements: Seq<T3Element>, positive: Seq<bool>) -> Seq<
    FeaErrorType,
>
    decreases elements.len(),
{
    if elements.len() == 0 {
        seq![]
    } else {
        let e = elements.len() - 1;
        elements_errors(n, elements.drop_last(), positive) + element_errors(
            n,
            elements[e].indices,
            e,
            positive[e],
        )
    }
}

/// Whether one of the first `upto` elements refers to node `v`.
pub open spec fn referenced_before(elements: Seq<T3Element>, upto: int, v: nat) -> bool {
    exists|e: int| 0 <= e < upto && indices_contain(#[trigger] elements[e].indices, v)
}

/// Whether some element refers to node `v`.
pub open spec fn referenced(elements: Seq<T3Element>, v: nat) -> bool {
    referenced_before(elements, elements.len() as int, v)
}

/// The `NodeWithoutElement` reports for nodes `0 .. count`, in node order.
pub open spec fn orphan_errors(elements: Seq<T3Element>, count: nat) -> Seq<FeaErrorType>
    decreases count,
{
    if count == 0 {
        seq![]
    } else {
        let v = (count - 1) as nat;
        orphan_errors(elements, v) + (if referenced(elements, v) {
            seq![]
        } else {
            seq![FeaErrorType::NodeWithoutElement { node_index: v as usize }]
        })
    }
}

/// Everything that validation reports for a mesh of `n` nodes, given for each
/// element whether its area is positive: first the element reports, element by
/// element, then the orphan nodes.
pub open spec fn mesh_errors(n: nat, elements: Seq<T3Element>, positive: Seq<bool>) -> Seq<
    FeaErrorType,
> {
    elements_errors(n, elements, positive) + orphan_errors(elements, n)
}

proof fn lemma_no_element_errors(n: nat, elements: Seq<T3Element>, positive: Seq<bool>)
    requires
        positive.len() == elements.len(),
        forall|e: int| 0 <= e < elements.len() ==> indices_in_range(#[trigger] elements[e].indices, n),
        forall|e: int| 0 <= e < elements.len() ==> #[trigger] positive[e],
    ensures
        elements_errors(n, elements, positive).len() == 0,
    decreases elements.len(),
{
    if elements.len() > 0 {
        let e = elements.len() - 1;
        let rest = elements.drop_last();
        assert forall|f: int| 0 <= f < rest.len() implies indices_in_range(#[trigger] rest[f].indices, n) by {
            assert(rest[f] == elements[f]);
        };
        lemma_no_element_errors(n, rest, positive.drop_last());
        assert forall|f: int| 0 <= f < rest.len() implies #[trigger] positive.drop_last()[f] by {
            assert(positive.drop_last()[f] == positive[f]);
        };
        lemma_elements_errors_agree(n, rest, positive, positive.drop_last());
        let idx = elements[e].indices;
        assert(indices_in_range(idx, n));
        assert(idx@[0] < n && idx@[1] < n && idx@[2] < n);
        assert(positive[e]);
    }
}

proof fn lemma_elements_errors_agree(
    n: nat,
    elements: Seq<T3Element>,
    p: Seq<bool>,
    q: Seq<bool>,
)
    requires
        forall|e: int| 0 <= e < elements.len() ==> p[e] == q[e],
    ensures
        elements_errors(n, elements, p) == elements_errors(n, elements, q),
    decreases elements.len(),
{
    if elements.len() > 0 {
        let e = elements.len() - 1;
        assert(p[e] == q[e]);
        lemma_elements_errors_agree(n, elements.drop_last(), p, q);
    }
}

proof fn lemma_no_orphans(elements: Seq<T3Element>, count: nat)
    requires
        forall|v: nat| v < count ==> #[trigger] referenced(elements, v),
    ensures
        orphan_errors(elements, count).len() == 0,
    decreases count,
{
    if count > 0 {
        lemma_no_orphans(elements, (count - 1) as nat);
        assert(referenced(elements, (count - 1) as nat));
    }
}

/// A mesh passes validation when every element names present nodes and has a
/// positive area, and every node belongs to some element.
pub proof fn lemma_covered_mesh_is_valid(n: nat, elements: Seq<T3Element>, positive: Seq<bool>)
    requires
        positive.len() == elements.len(),
        forall|e: int| 0 <= e < elements.len() ==> indices_in_range(#[trigger] elements[e].indices, n),
        forall|e: int| 0 <= e < elements.len() ==> #[trigger] positive[e],
        forall|v: nat| v < n ==> #[trigger] referenced(elements, v),
    ensures
        mesh_errors(n, elements, positive).len() == 0,
{
    lemma_no_element_errors(n, elements, positive);
    lemma_no_orphans(elements, n);
}

/// Checks one index of element `e` against `n` nodes: reports it when it is
/// missing, and marks it as used otherwise.
fn visit_index(
    n: usize,
    indices: [usize; 3],
    k: usize,
    e: usize,
    errors: &mut Vec<FeaErrorType>,
    used: &mut Vec<bool>,
) -> (missing: bool)
    requires
        k < 3,
        old(used).len() == n,
    ensures
        missing == (indices@[k as int] >= n),
        final(errors)@ == old(errors)@ + missing_at(n as nat, indices, k as int, e as int),
        final(used)@ == (if missing {
            old(used)@
        } else {
            old(used)@.update(indices@[k as int] as int, true)
        }),
{
    let node_index = indices[k];
    if node_index >= n {
        errors.push(FeaErrorType::MissingNode { node_index, element_index: e });
        true
    } else {
        used.set(node_index, true);
        false
    }
}

/// Lists every problem of a mesh of `n` nodes, given for each element whether
/// its area is positive (that flag is read only for elements whose nodes are
/// all present).
pub fn collect_errors(n: usize, elements: &Vec<T3Element>, positive: &Vec<bool>) -> (r: Vec<
    FeaErrorType,
>)
    requires
        positive.len() == elements.len(),
    ensures
        r@ == mesh_errors(n as nat, elements@, positive@),
{
    let mut errors: Vec<FeaErrorType> = Vec::new();
    let mut used: Vec<bool> = Vec::new();
    let mut v: usize = 0;
    while v < n
        invariant
            v <= n,
            used.len() == v,
            forall|w: int| 0 <= w < v ==> !used@[w],
        decreases n - v,
    {
        used.push(false);
        v = v + 1;
    }
    let mut e: usize = 0;
    while e < elements.len()
        invariant
            e <= elements.len(),
            positive.len() == elements.len(),
            used.len() == n,
            errors@ == elements_errors(n as nat, elements@.take(e as int), positive@),
            forall|w: int|
                0 <= w < n ==> (used@[w] <==> referenced_before(elements@, e as int, w as nat)),
        decreases elements.len() - e,
    {
        let indices = elements[e].indices;
        let ghost used0 = used@;
        let m0 = visit_index(n, indices, 0, e, &mut errors, &mut used);
        let m1 = visit_index(n, indices, 1, e, &mut errors, &mut used);
        let m2 = visit_index(n, indices, 2, e, &mut errors, &mut used);
        if !m0 && !m1 && !m2 && !positive[e] {
            errors.push(FeaErrorType::DegenerateElement { element_index: e });
        }
        proof {
            let taken = elements@.take(e as int + 1);
            assert(taken.drop_last() =~= elements@.take(e as int));
            assert(taken[e as int] == elements@[e as int]);
            if !m0 && !m1 && !m2 {
                assert(indices_in_range(indices, n as nat));
            } else {
                assert(!indices_in_range(indices, n as nat));
            }
            assert(errors@ =~= elements_errors(n as nat, taken, positive@));
            assert forall|w: int| 0 <= w < n implies (used@[w] <==> referenced_before(
                elements@,
                e as int + 1,
                w as nat,
            )) by {
                if used@[w] && !used0[w] {
                    let k: int = if indices@[0] == w {
                        0
                    } else if indices@[1] == w {
                        1
                    } else {
                        2
                    };
                    assert(indices_contain(elements@[e as int].indices, w as nat));
                }
                if referenced_before(elements@, e as int + 1, w as nat) {
                    let e2 = choose|e2: int|
                        0 <= e2 < e + 1 && indices_contain(
                            #[trigger] elements@[e2].indices,
                            w as nat,
                        );
                    if e2 == e {
                        let k = choose|k: int| 0 <= k < 3 && (#[trigger] indices@[k] as nat) == w;
                        assert(used@[w]);
                    } else {
                        assert(referenced_before(elements@, e as int, w as nat));
                    }
                }
            };
        }
        e = e + 1;
    }
    assert(elements@.take(elements.len() as int) =~= elements@);
    let mut v: usize = 0;
    while v < n
        invariant
            v <= n,
            used.len() == n,
            errors@ == elements_errors(n as nat, elements@, positive@) + orphan_errors(
                elements@,
                v as nat,
            ),
            forall|w: int|
                0 <= w < n ==> (used@[w] <==> referenced(elements@, w as nat)),
        decreases n - v,
    {
        if !used[v] {
            errors.push(FeaErrorType::NodeWithoutElement { node_index: v });
        }
        proof {
            assert(errors@ =~= elements_errors(n as nat, elements@, positive@) + orphan_errors(
                elements@,
                v as nat + 1,
            ));
        }
        v = v + 1;
    }
    errors
}

} // verus!
