use fea2d::assembly::element_in_range;
use fea2d::demo::square;
use fea2d::element::T3Element;
use fea2d::model::{init_fea, plane_stress_matrix, Lin2DStaticModel};
use fea2d::node::{KnownType, Node2D};
use fea2d::scalar::Scalar;
use fea2d::validate::{collect_errors, decimal_string, FeaError, FeaErrorType};

#[derive(Clone, Copy, Debug, PartialEq)]
struct F(f64);

impl Scalar for F {
    fn spec_zero() -> Self {
        Self::zero()
    }
    fn spec_from_int(n: i64) -> Self {
        Self::from_int(n)
    }
    fn spec_plus(self, rhs: Self) -> Self {
        self.plus(rhs)
    }
    fn spec_minus(self, rhs: Self) -> Self {
        self.minus(rhs)
    }
    fn spec_times(self, rhs: Self) -> Self {
        self.times(rhs)
    }
    fn spec_over(self, rhs: Self) -> Self {
        self.over(rhs)
    }
    fn spec_abs(self) -> Self {
        self.abs()
    }
    fn spec_is_positive(self) -> bool {
        self.is_positive()
    }
    fn spec_is_zero(self) -> bool {
        self.is_zero()
    }
    fn zero() -> Self {
        F(0.0)
    }
    fn from_int(n: i64) -> Self {
        F(n as f64)
    }
    fn plus(self, rhs: Self) -> Self {
        F(self.0 + rhs.0)
    }
    fn minus(self, rhs: Self) -> Self {
        F(self.0 - rhs.0)
    }
    fn times(self, rhs: Self) -> Self {
        F(self.0 * rhs.0)
    }
    fn over(self, rhs: Self) -> Self {
        F(self.0 / rhs.0)
    }
    fn abs(self) -> Self {
        F(self.0.abs())
    }
    fn is_positive(self) -> bool {
        self.0 > 0.0
    }
    fn is_zero(self) -> bool {
        self.0 == 0.0
    }
}

fn at(x: f64, y: f64) -> Node2D<F> {
    Node2D::zero_at((F(x), F(y)))
}

fn material() -> Lin2DStaticModel<F> {
    init_fea(F(30000.0), F(0.3), F(10000.0))
}

fn unit_square_mesh() -> Lin2DStaticModel<F> {
    let mut model = material();
    model.add_nodes(&[at(0.0, 0.0), at(1.0, 0.0), at(0.0, 1.0), at(1.0, 1.0)]);
    model.add_elements(&[[0, 1, 2], [1, 2, 3]]);
    model
}

fn pair(v: [F; 2], digits: usize) -> String {
    format!("[{:.*}, {:.*}]", digits, v[0].0, digits, v[1].0)
}

#[test]
fn square_displacements() {
    let model: Lin2DStaticModel<F> = square();
    assert_eq!(pair(model.get_node(0).displacement, 5), "[0.00000, 0.00000]");
    assert_eq!(pair(model.get_node(1).displacement, 5), "[0.00113, 0.00000]");
    assert_eq!(pair(model.get_node(2).displacement, 5), "[0.00100, 0.00027]");
    assert_eq!(pair(model.get_node(3).displacement, 5), "[0.00213, 0.00027]");
}

#[test]
fn square_strain_and_stress() {
    let model: Lin2DStaticModel<F> = square();
    let strain = model.element_strain(0).unwrap();
    assert_eq!(format!("{:.5}", strain[0].0), "0.00113");
    assert_eq!(format!("{:.5}", strain[1].0), "0.00027");
    assert_eq!(format!("{:.5}", strain[2].0), "0.00100");
    let stress = model.element_stress(0).unwrap();
    assert_eq!(format!("{:.1}", stress[0].0), "40.0");
    assert_eq!(format!("{:.1}", stress[1].0), "20.0");
    assert_eq!(format!("{:.1}", stress[2].0), "10.0");
}

#[test]
fn square_keeps_prescribed_values() {
    let model: Lin2DStaticModel<F> = square();
    let n0 = model.get_node(0);
    let n1 = model.get_node(1);
    assert_eq!(n0.known, [KnownType::Displacement, KnownType::Displacement]);
    assert_eq!(n1.known, [KnownType::Force, KnownType::Displacement]);
    assert_eq!(n0.displacement, [F(0.0), F(0.0)]);
    assert_eq!(n1.displacement[1], F(0.0));
    assert_eq!(n1.force[0], F(15.0));
    assert_eq!(model.get_node(2).force, [F(-15.0), F(5.0)]);
    assert_eq!(model.get_node(3).force, [F(25.0), F(15.0)]);
}

#[test]
fn plane_stress_matrix_entries() {
    let d = plane_stress_matrix(F(30000.0), F(0.3), F(10000.0));
    let ep = 30000.0 / (1.0 - 0.3 * 0.3);
    assert_eq!(d[0][0], F(ep));
    assert_eq!(d[1][1], F(ep));
    assert_eq!(d[0][1], F(ep * 0.3));
    assert_eq!(d[1][0], F(ep * 0.3));
    assert_eq!(d[2][2], F(10000.0));
    assert_eq!(d[0][2], F(0.0));
    assert_eq!(d[2][1], F(0.0));
}

#[test]
fn valid_mesh_passes_check() {
    let model = unit_square_mesh();
    assert!(model.check().is_ok());
}

#[test]
fn check_is_repeatable_and_rebuild_is_identical() {
    let mut model = unit_square_mesh();
    model.add_node();
    let first = model.check().unwrap_err().errors;
    let second = model.check().unwrap_err().errors;
    assert_eq!(first, second);
    model.create_stiffness_matrix();
    let k1 = model.stiffness().unwrap().clone();
    model.create_stiffness_matrix();
    let k2 = model.stiffness().unwrap();
    for r in 0..k1.rows() {
        for c in 0..k1.rows() {
            assert_eq!(k1.get(r, c).0.to_bits(), k2.get(r, c).0.to_bits());
        }
    }
}

#[test]
fn check_reports_every_problem_in_order() {
    let mut model = material();
    model.add_nodes(&[at(0.0, 0.0), at(1.0, 0.0), at(2.0, 0.0), at(0.0, 1.0), at(5.0, 5.0)]);
    model.add_elements(&[[0, 1, 3], [0, 1, 2], [0, 7, 9]]);
    let errors = model.check().unwrap_err().errors;
    assert_eq!(
        errors,
        vec![
            FeaErrorType::DegenerateElement { element_index: 1 },
            FeaErrorType::MissingNode { node_index: 7, element_index: 2 },
            FeaErrorType::MissingNode { node_index: 9, element_index: 2 },
            FeaErrorType::NodeWithoutElement { node_index: 4 },
        ]
    );
}

#[test]
fn collect_errors_reads_area_signs_only_for_present_nodes() {
    let elements = vec![T3Element::new([0, 1, 2]), T3Element::new([0, 1, 5])];
    let errors = collect_errors(3, &elements, &vec![false, false]);
    assert_eq!(
        errors,
        vec![
            FeaErrorType::DegenerateElement { element_index: 0 },
            FeaErrorType::MissingNode { node_index: 5, element_index: 1 },
        ]
    );
    assert!(collect_errors(3, &elements[..1].to_vec(), &vec![true]).is_empty());
    assert_eq!(
        collect_errors(0, &vec![], &vec![]),
        Vec::<FeaErrorType>::new()
    );
}

#[test]
fn orphan_node_is_reported() {
    let mut model = unit_square_mesh();
    model.add_node();
    let errors = model.check().unwrap_err().errors;
    assert_eq!(errors, vec![FeaErrorType::NodeWithoutElement { node_index: 4 }]);
}

#[test]
fn failed_step_leaves_model_unchanged() {
    let mut model = unit_square_mesh();
    model.add_node();
    let before = model.get_node(1);
    assert!(model.step().is_err());
    assert_eq!(model.get_node(1).displacement, before.displacement);
    assert_eq!(model.nodes_len(), 5);
}

#[test]
fn step_runs_one_sweep() {
    let mut model = unit_square_mesh();
    let mut node = model.get_node(0);
    node.known = [KnownType::Displacement, KnownType::Displacement];
    model.set_node(0, &node);
    let mut node = model.get_node(3);
    node.force = [F(10.0), F(0.0)];
    model.set_node(3, &node);
    assert!(model.step().is_ok());
    assert!(model.get_node(3).displacement[0].0 > 0.0);
    assert_eq!(model.get_node(0).displacement, [F(0.0), F(0.0)]);
}

#[test]
fn delete_node_remaps_elements() {
    let mut model = material();
    model.add_nodes(&[at(0.0, 0.0), at(1.0, 0.0), at(0.0, 1.0), at(1.0, 1.0), at(2.0, 2.0)]);
    model.add_elements(&[[1, 2, 3], [0, 2, 1]]);
    // node 4 is the last node and unused: removing it changes no reference
    model.delete_node(4);
    assert_eq!(model.nodes_len(), 4);
    assert_eq!(model.get_element_indices(0), [1, 2, 3]);
    model.delete_node(3);
    // element 0 referred to node 3, which now names the old last index
    assert_eq!(model.get_element_indices(0), [1, 2, 3]);
    assert_eq!(model.get_element_indices(1), [0, 2, 1]);
    assert!(matches!(
        model.check().unwrap_err().errors[0],
        FeaErrorType::MissingNode { node_index: 3, element_index: 0 }
    ));
}

#[test]
fn delete_node_moves_last_node_into_place() {
    let mut model = material();
    model.add_nodes(&[at(0.0, 0.0), at(1.0, 0.0), at(0.0, 1.0), at(1.0, 1.0)]);
    model.add_elements(&[[1, 2, 3]]);
    model.delete_node(0);
    assert_eq!(model.nodes_len(), 3);
    assert_eq!(model.get_node(0).position, [F(1.0), F(1.0)]);
    assert_eq!(model.get_element_indices(0), [1, 2, 0]);
    for e in 0..model.elements_len() {
        let idx = model.get_element_indices(e);
        assert!(element_in_range(idx, model.nodes_len()));
        assert!(idx[0] != idx[1] && idx[1] != idx[2] && idx[0] != idx[2]);
    }
    assert!(model.check().is_ok());
}

#[test]
fn stiffness_is_symmetric() {
    let model = unit_square_mesh();
    let k = model.stiffness().unwrap();
    assert_eq!(k.rows(), 8);
    for r in 0..8 {
        for c in 0..8 {
            let (a, b) = (k.get(r, c).0, k.get(c, r).0);
            assert!((a - b).abs() <= 1e-9 * (1.0 + a.abs()), "{r} {c}: {a} {b}");
        }
    }
    assert!(k.get(0, 0).0 > 0.0);
}

#[test]
fn unconstrained_zero_load_stays_at_rest() {
    let mut model = unit_square_mesh();
    model.step_guass_seidel(25);
    for v in 0..model.nodes_len() {
        let node = model.get_node(v);
        assert_eq!(node.displacement, [F(0.0), F(0.0)]);
        assert_eq!(node.force, [F(0.0), F(0.0)]);
    }
}

#[test]
fn element_edits() {
    let mut model = material();
    model.add_nodes(&[at(0.0, 0.0), at(1.0, 0.0), at(0.0, 1.0), at(1.0, 1.0)]);
    model.add_elem();
    assert_eq!(model.elements_len(), 1);
    assert_eq!(model.get_element_indices(0), [1, 2, 3]);
    assert_eq!(model.stiffness().unwrap().rows(), 8);
    model.add_elements(&[[0, 1, 2]]);
    model.set_element_indices(0, &[3, 2, 1]);
    assert_eq!(model.get_element_indices(0), [3, 2, 1]);
    model.delete_element(0);
    assert_eq!(model.elements_len(), 1);
    assert_eq!(model.get_element_indices(0), [0, 1, 2]);
    assert!(model.check().unwrap_err().errors
        == vec![FeaErrorType::NodeWithoutElement { node_index: 3 }]);
}

#[test]
fn degenerate_element_has_no_strain() {
    let mut model = material();
    model.add_nodes(&[at(0.0, 0.0), at(1.0, 1.0), at(2.0, 2.0)]);
    model.add_elements(&[[0, 1, 2]]);
    assert!(model.element_strain(0).is_none());
    assert_eq!(
        model.check().unwrap_err().errors,
        vec![FeaErrorType::DegenerateElement { element_index: 0 }]
    );
    let k = model.stiffness().unwrap();
    assert_eq!(k.get(0, 0), F(0.0));
}

#[test]
fn zero_at_is_at_rest() {
    let node = at(2.0, 3.0);
    assert_eq!(node.displacement, [F(0.0), F(0.0)]);
    assert_eq!(node.force, [F(0.0), F(0.0)]);
    assert_eq!(node.known, [KnownType::Force, KnownType::Force]);
}

#[test]
fn node_accessors() {
    let mut node = at(1.5, -2.0);
    assert_eq!(node.get_pos_x(), F(1.5));
    assert_eq!(node.get_pos_y(), F(-2.0));
    node.set_pos_x(F(3.0));
    node.set_pos_y(F(4.0));
    node.set_disp_x(F(0.1));
    node.set_disp_y(F(0.2));
    node.set_force_x(F(7.0));
    node.set_force_y(F(8.0));
    node.set_known_x(KnownType::Displacement);
    node.set_known_y(KnownType::Force);
    assert_eq!(node.position, [F(3.0), F(4.0)]);
    assert_eq!((node.get_disp_x(), node.get_disp_y()), (F(0.1), F(0.2)));
    assert_eq!((node.get_force_x(), node.get_force_y()), (F(7.0), F(8.0)));
    assert_eq!(node.get_known_x(), KnownType::Displacement);
    assert_eq!(node.get_known_y(), KnownType::Force);
}

#[test]
fn error_messages() {
    let missing = FeaErrorType::MissingNode { node_index: 12, element_index: 3 };
    let orphan = FeaErrorType::NodeWithoutElement { node_index: 0 };
    let flat = FeaErrorType::DegenerateElement { element_index: 105 };
    assert_eq!(
        missing.message(),
        "node (index: 12) is missing from element (index: 3) and should be replaced"
    );
    assert_eq!(orphan.message(), "node (index: 0) is not part of an element and should be deleted");
    assert_eq!(flat.message(), "element (index: 105) has no size and should be deleted");
    let report = FeaError { errors: vec![orphan, flat] }.message();
    assert_eq!(
        report,
        "node (index: 0) is not part of an element and should be deleted\n\
         element (index: 105) has no size and should be deleted\n"
    );
    assert_eq!(FeaError { errors: vec![] }.message(), "");
}

#[test]
fn decimal_rendering() {
    assert_eq!(decimal_string(0), "0");
    assert_eq!(decimal_string(7), "7");
    assert_eq!(decimal_string(10), "10");
    assert_eq!(decimal_string(90210), "90210");
    assert_eq!(decimal_string(usize::MAX), usize::MAX.to_string());
}

fn loaded_square() -> Lin2DStaticModel<F> {
    let mut model = unit_square_mesh();
    let mut node = model.get_node(0);
    node.known = [KnownType::Displacement, KnownType::Displacement];
    model.set_node(0, &node);
    let mut node = model.get_node(3);
    node.force = [F(25.0), F(15.0)];
    model.set_node(3, &node);
    model
}

fn state(model: &Lin2DStaticModel<F>) -> Vec<u64> {
    (0..model.nodes_len())
        .flat_map(|v| {
            let n = model.get_node(v);
            [n.displacement[0], n.displacement[1], n.force[0], n.force[1]]
        })
        .map(|x| x.0.to_bits())
        .collect()
}

#[test]
fn two_solves_compose() {
    let mut split = loaded_square();
    split.step_guass_seidel(3);
    split.step_guass_seidel(4);
    let mut whole = loaded_square();
    whole.step_guass_seidel(7);
    assert_eq!(state(&split), state(&whole));
    let before = state(&whole);
    whole.step_guass_seidel(0);
    assert_eq!(
        (0..4).map(|v| whole.get_node(v).displacement).collect::<Vec<_>>(),
        (0..4).map(|v| F(f64::from_bits(before[4 * v])))
            .zip((0..4).map(|v| F(f64::from_bits(before[4 * v + 1]))))
            .map(|(a, b)| [a, b])
            .collect::<Vec<_>>()
    );
}

#[test]
fn step_is_one_sweep() {
    let mut stepped = loaded_square();
    assert!(stepped.step().is_ok());
    let mut swept = loaded_square();
    swept.create_stiffness_matrix();
    swept.step_guass_seidel(1);
    assert_eq!(state(&stepped), state(&swept));
}
