use simulink_binder::{generate_views, parse_header, Header, List, Section, ViewError, IO};

fn io(name: &str, size: Option<usize>) -> IO {
    IO { name: name.to_string(), size }
}

fn header(u: Vec<IO>, y: Vec<IO>) -> Header {
    Header { inputs: List(u), outputs: List(y), states: List(vec![]) }
}

#[test]
fn two_inputs_give_two_variants() {
    let h = parse_header("External inputs\ntypedef struct {\n  real_T a[2];\n  real_T b;\n} ExtU_M_T;\n");
    let code = generate_views("M", &h).unwrap();
    assert!(code.contains("pub enum MInputs<'a> {\n    a(&'a mut [f64]),\n    b(&'a mut [f64]),\n}\n"));
    assert!(code.contains("            MInputs::a(data) => &data[index],\n            MInputs::b(data) => &data[index],\n"));
    assert!(code.contains("            MInputs::a(data) => &mut data[index],\n            MInputs::b(data) => &mut data[index],\n"));
    assert!(code.contains("                a: MInputs::a(&mut M_U.a),\n"));
    assert!(code.contains("                b: MInputs::b(std::slice::from_mut(&mut M_U.b)),\n"));
    assert!(code.contains("pub enum MOutputs<'a> {\n}\n"));
}

#[test]
fn controller_lifecycle() {
    let code = generate_views("Ctl", &header(vec![io("u", Some(3))], vec![io("y", None)])).unwrap();
    assert!(code.contains("pub struct CtlController<'a> {\n    pub u: CtlInputs<'a>,\n    pub y: CtlOutputs<'a>,\n}\n"));
    assert!(code.contains("static mut Ctl_U: ExtU_Ctl_T;"));
    assert!(code.contains("static mut Ctl_Y: ExtY_Ctl_T;"));
    assert!(code.contains("unsafe { Ctl_initialize() };"));
    assert!(code.contains("impl<'a> Drop for CtlController<'a> {\n    fn drop(&mut self) {\n        unsafe { Ctl_terminate() };"));
    assert!(code.contains("fn next(&mut self) -> Option<()> {\n        unsafe { Ctl_step() };\n        Some(())\n"));
    assert!(code.contains("Ctl_LIVE.swap(true"));
}

#[test]
fn underscores_dropped_from_variants() {
    let code = generate_views("M", &header(vec![io("rate_cmd", Some(2))], vec![])).unwrap();
    assert!(code.contains("    ratecmd(&'a mut [f64]),\n"));
    assert!(code.contains("rate_cmd: MInputs::ratecmd(&mut M_U.rate_cmd),"));
}

#[test]
fn variant_collision_names_both_fields() {
    match generate_views("M", &header(vec![io("u_1", None), io("v", None), io("u1", Some(2))], vec![])) {
        Err(ViewError::Collision(Section::Inputs, a, b)) => {
            assert_eq!(a, "u_1");
            assert_eq!(b, "u1");
        }
        other => panic!("unexpected {:?}", other),
    }
}

#[test]
fn variant_name_must_be_identifier() {
    match generate_views("M", &header(vec![], vec![io("_9", None)])) {
        Err(ViewError::InvalidName(Section::Outputs, n)) => assert_eq!(n, "_9"),
        other => panic!("unexpected {:?}", other),
    }
    assert!(matches!(generate_views("M", &header(vec![io("_", None)], vec![])), Err(ViewError::InvalidName(_, _))));
    assert!(matches!(generate_views("1M", &header(vec![], vec![])), Err(ViewError::InvalidModelName(_))));
}

#[test]
fn input_and_output_may_not_share_a_name() {
    match generate_views("M", &header(vec![io("a", Some(2)), io("x", None)], vec![io("y", None), io("x", Some(3))])) {
        Err(ViewError::Shared(a, b)) => {
            assert_eq!(a, "x");
            assert_eq!(b, "x");
        }
        other => panic!("unexpected {:?}", other),
    }
}
