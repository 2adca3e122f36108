use nalgebra::{DMatrix, DVector};
use rspice::commands::{parse_command, parse_dc_command, Command};
use rspice::matrix::{build_node_map, build_op_matrix, NodeMap, OpSystem, Stamp};
use rspice::netlist::parse_netlist;
use rspice::num::Num;
use rspice::SpiceError;

fn num_f64(n: &Num) -> f64 {
    let mut s = String::new();
    if n.neg {
        s.push('-');
    }
    if n.digits.is_empty() {
        s.push('0');
    } else {
        for d in n.digits.iter() {
            s.push((b'0' + *d) as char);
        }
    }
    s.push('e');
    s += &n.exp.to_string();
    s.parse::<f64>().unwrap()
}

fn stamp_f64(st: &Stamp) -> f64 {
    match st {
        Stamp::Conductance { neg, resistance } => {
            let g = 1.0 / num_f64(resistance);
            if *neg { -g } else { g }
        }
        Stamp::Unit { neg } => {
            if *neg { -1.0 } else { 1.0 }
        }
    }
}

fn to_dense(sys: &OpSystem) -> (DMatrix<f64>, DVector<f64>) {
    let size = sys.matrix.len();
    let mut m = DMatrix::<f64>::zeros(size, size);
    let mut b = DVector::<f64>::zeros(size);
    for i in 0..size {
        for j in 0..size {
            let mut acc = 0.0;
            for st in sys.matrix[i][j].iter() {
                acc += stamp_f64(st);
            }
            m[(i, j)] = acc;
        }
    }
    for i in 0..size {
        b[i] = num_f64(&sys.rhs[i]);
    }
    (m, b)
}

fn lines(v: &[&str]) -> Vec<String> {
    let mut out: Vec<String> = Vec::new();
    for s in v.iter() {
        out.push(s.to_string());
    }
    out
}

#[test]
fn test_node_map_first_appearance_order_and_no_ground() {
    let input = lines(&["V1 A 0 DC 5", "R1 A B 1k", "R2 B 0 2k"]);
    let netlist = parse_netlist(&input).unwrap();
    let nm: NodeMap = build_node_map(&netlist.elements);
    assert_eq!(nm.labels.len(), 2);
    assert_eq!(nm.labels[0], "A");
    assert_eq!(nm.labels[1], "B");
    assert_eq!(nm.index_of("A"), Some(0));
    assert_eq!(nm.index_of("B"), Some(1));
    assert_eq!(nm.index_of("0"), None);
}

#[test]
fn test_node_map_injective_on_shared_nodes() {
    // Both elements name node N2; it gets exactly one index.
    let input = lines(&["R1 N1 N2 1k", "R2 N2 N3 1k"]);
    let netlist = parse_netlist(&input).unwrap();
    let nm = build_node_map(&netlist.elements);
    assert_eq!(nm.labels.len(), 3);
    assert_eq!(nm.index_of("N1"), Some(0));
    assert_eq!(nm.index_of("N2"), Some(1));
    assert_eq!(nm.index_of("N3"), Some(2));
}

#[test]
fn test_comments_blanks_and_commands_are_classified() {
    let input = lines(&[
        "* a comment line",
        "",
        "   ",
        "V1 A 0 DC 5",
        ".DC V1 0 5 1",
        "R1 A 0 1k",
    ]);
    let netlist = parse_netlist(&input).unwrap();
    assert_eq!(netlist.elements.len(), 2);
    assert_eq!(netlist.commands.len(), 1);
    match &netlist.commands[0] {
        Command::DC { source, start, stop, step } => {
            assert_eq!(source, "V1");
            assert_eq!(num_f64(start), 0.0);
            assert_eq!(num_f64(stop), 5.0);
            assert_eq!(num_f64(step), 1.0);
        }
    }
}

#[test]
fn test_netlist_fails_fast_on_bad_line() {
    let input = lines(&["R1 A 0 1k", "X9 A B 2"]);
    assert!(matches!(parse_netlist(&input), Err(SpiceError::UnknownElementType { .. })));
}

#[test]
fn test_unknown_command() {
    assert!(matches!(parse_command(".TRAN 1u 1m"), Err(SpiceError::UnknownCommand { .. })));
}

#[test]
fn test_dc_command_wrong_token_count() {
    assert!(matches!(parse_dc_command(".DC V1 0 5"), Err(SpiceError::SyntaxError { .. })));
}

#[test]
fn test_dc_command_malformed_number() {
    assert!(matches!(parse_command(".DC V1 zero 5 1"), Err(SpiceError::MalformedNumber)));
}

#[test]
fn test_capacitor_contributes_no_stamp() {
    // A lone capacitor: its nodes are indexed, but no cell of the matrix
    // receives any contribution and the right-hand side stays zero.
    let input = lines(&["C1 N1 N2 20pF"]);
    let netlist = parse_netlist(&input).unwrap();
    match &netlist.elements[0] {
        rspice::elements::Element::Capacitor { capacitance, .. } => {
            assert_eq!(num_f64(capacitance), 20e-12);
        }
        _ => panic!(),
    }
    let nm = build_node_map(&netlist.elements);
    let sys = build_op_matrix(&netlist.elements, &nm);
    assert_eq!(sys.num_nodes, 2);
    assert_eq!(sys.matrix.len(), 2);
    for row in sys.matrix.iter() {
        for cell in row.iter() {
            assert!(cell.is_empty());
        }
    }
    for r in sys.rhs.iter() {
        assert_eq!(num_f64(r), 0.0);
    }
}

#[test]
fn test_resistor_only_matrix_is_symmetric() {
    let input = lines(&["R1 A B 1k", "R2 B C 2k", "R3 C 0 3k", "R4 A 0 4k"]);
    let netlist = parse_netlist(&input).unwrap();
    let nm = build_node_map(&netlist.elements);
    let sys = build_op_matrix(&netlist.elements, &nm);
    let n = sys.num_nodes;
    let (m, _b) = to_dense(&sys);
    for i in 0..n {
        for j in 0..n {
            assert_eq!(m[(i, j)], m[(j, i)]);
        }
    }
}

#[test]
fn test_voltage_divider_operating_point() {
    // V1 fixes node A at 5 V; the divider leaves node B at
    // 5 * 2000 / (1000 + 2000).
    let input = lines(&["V1 A 0 DC 5", "R1 A B 1k", "R2 B 0 2k"]);
    let netlist = parse_netlist(&input).unwrap();
    let nm = build_node_map(&netlist.elements);
    let sys = build_op_matrix(&netlist.elements, &nm);
    assert_eq!(sys.num_nodes, 2);
    assert_eq!(sys.matrix.len(), 3);
    let (m, b) = to_dense(&sys);
    let solution = m.lu().solve(&b).expect("the divider has a unique operating point");
    let va = solution[nm.index_of("A").unwrap()];
    let vb = solution[nm.index_of("B").unwrap()];
    assert!((va - 5.0).abs() < 1e-6);
    assert!((vb - 5.0 * 2000.0 / 3000.0).abs() < 1e-6);
}

#[test]
fn test_floating_network_is_singular() {
    // A lone resistor with no source: no reference excitation, the
    // system is singular and the solver reports no solution.
    let input = lines(&["R1 N1 N2 1K"]);
    let netlist = parse_netlist(&input).unwrap();
    let nm = build_node_map(&netlist.elements);
    let sys = build_op_matrix(&netlist.elements, &nm);
    let (m, b) = to_dense(&sys);
    assert!(m.lu().solve(&b).is_none());
}

#[test]
fn test_inductor_stamped_as_unit_conductance() {
    // The inductor's DC stamp is a unit conductance, not a short-circuit
    // constraint: the diagonal cells hold +1 and the off-diagonals -1.
    let input = lines(&["L1 A B 10m"]);
    let netlist = parse_netlist(&input).unwrap();
    let nm = build_node_map(&netlist.elements);
    let sys = build_op_matrix(&netlist.elements, &nm);
    let (m, _b) = to_dense(&sys);
    assert_eq!(m[(0, 0)], 1.0);
    assert_eq!(m[(1, 1)], 1.0);
    assert_eq!(m[(0, 1)], -1.0);
    assert_eq!(m[(1, 0)], -1.0);
}

#[test]
fn test_voltage_source_rows_and_rhs() {
    let input = lines(&["V1 A 0 DC 5", "R1 A 0 1k"]);
    let netlist = parse_netlist(&input).unwrap();
    let nm = build_node_map(&netlist.elements);
    let sys = build_op_matrix(&netlist.elements, &nm);
    assert_eq!(sys.num_nodes, 1);
    assert_eq!(sys.matrix.len(), 2);
    let (m, b) = to_dense(&sys);
    // Coupling entries of the source's auxiliary row/column.
    assert_eq!(m[(0, 1)], 1.0);
    assert_eq!(m[(1, 0)], 1.0);
    assert_eq!(b[0], 0.0);
    assert_eq!(b[1], 5.0);
}

#[test]
fn test_non_dc_source_contributes_zero_rhs() {
    let input = lines(&["V1 A 0 SIN(0 1 50Hz)", "R1 A 0 1k"]);
    let netlist = parse_netlist(&input).unwrap();
    let nm = build_node_map(&netlist.elements);
    let sys = build_op_matrix(&netlist.elements, &nm);
    let (_m, b) = to_dense(&sys);
    assert_eq!(b[1], 0.0);
}
