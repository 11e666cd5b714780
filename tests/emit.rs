use simulink_binder::{alias_decl, generate, parse_header, GenError, Header, List, Section, IO};

fn io(name: &str, size: Option<usize>) -> IO {
    IO { name: name.to_string(), size }
}

fn header(u: Vec<IO>, y: Vec<IO>, s: Vec<IO>) -> Header {
    Header { inputs: List(u), outputs: List(y), states: List(s) }
}

#[test]
fn quote_sets_fields_to_zero() {
    let l = List(vec![io("position", Some(3)), io("torque", None)]);
    assert_eq!(l.quote(), "            position: [0f64; 3],\n            torque: 0f64,\n");
    assert_eq!(List(vec![]).quote(), "");
    assert_eq!(List(vec![io("big", Some(1234567))]).quote(), "            big: [0f64; 1234567],\n");
}

#[test]
fn scalar_output_defaults_to_zero() {
    let h = parse_header("External outputs\ntypedef struct {\n  real_T torque;\n} ExtY_M_T;\n");
    let code = generate("M", &h).unwrap();
    assert!(code.contains("impl Default for ExtY_M_T {\n    fn default() -> Self {\n        Self {\n            torque: 0f64,\n        }\n"));
}

#[test]
fn no_fields_still_generates() {
    let code = generate("M1", &parse_header("nothing\n")).unwrap();
    assert!(code.contains("impl Default for ExtU_M1_T {\n    fn default() -> Self {\n        Self {\n        }\n"));
    assert!(code.contains("impl Default for DW_M1_T {\n    fn default() -> Self {\n        Self {\n        }\n"));
    assert!(code.contains("pub struct M1 {\n    pub inputs: ExtU_M1_T,\n    pub outputs: ExtY_M1_T,\n    states: DW_M1_T,\n}\n"));
}

#[test]
fn routines_named_after_model() {
    let code = generate("Ctl", &header(vec![], vec![], vec![])).unwrap();
    assert!(code.contains("Ctl_initialize(\n"));
    assert!(code.contains("Ctl_step(\n"));
    assert!(code.contains("let mut data: RT_MODEL_Ctl_T = tag_RTM_Ctl_T {\n            dwork: &mut this.states as *mut _,"));
    assert!(code.contains("dwork: &mut self.states as *mut _,"));
    assert!(code.contains("pub fn new() -> Self"));
    assert!(code.contains("pub fn step(&mut self)"));
}

#[test]
fn declaration_order_follows_header() {
    let h = header(vec![io("b", None), io("a", Some(2)), io("c", None)], vec![], vec![]);
    let code = generate("M", &h).unwrap();
    let pb = code.find("b: 0f64").unwrap();
    let pa = code.find("a: [0f64; 2]").unwrap();
    let pc = code.find("c: 0f64").unwrap();
    assert!(pb < pa && pa < pc);
}

#[test]
fn generation_is_repeatable() {
    let text = "External inputs\ntypedef struct {\n real_T u[3];\n} ExtU_M_T;\nBlock states\ntypedef struct {\n real_T x;\n} DW_M_T;\n";
    let a = generate("M", &parse_header(text)).unwrap();
    let b = generate("M", &parse_header(text)).unwrap();
    assert_eq!(a, b);
}

#[test]
fn duplicate_field_rejected() {
    let h = header(vec![], vec![io("y", None), io("z", None), io("y", Some(2))], vec![]);
    match generate("M", &h) {
        Err(GenError::DuplicateField(Section::Outputs, n)) => assert_eq!(n, "y"),
        other => panic!("unexpected {:?}", other),
    }
}

#[test]
fn invalid_field_name_rejected() {
    let h = header(vec![], vec![], vec![io("9lives", None)]);
    match generate("M", &h) {
        Err(GenError::InvalidFieldName(Section::States, n)) => assert_eq!(n, "9lives"),
        other => panic!("unexpected {:?}", other),
    }
}

#[test]
fn invalid_model_name_rejected() {
    match generate("my model", &header(vec![], vec![], vec![])) {
        Err(GenError::InvalidModelName(n)) => assert_eq!(n, "my model"),
        other => panic!("unexpected {:?}", other),
    }
    assert!(matches!(generate("", &header(vec![], vec![], vec![])), Err(GenError::InvalidModelName(_))));
}

#[test]
fn alias_declaration() {
    assert_eq!(alias_decl("Controller", "M2ASM"), "pub type Controller = M2ASM;\n");
}

#[test]
fn keywords_rejected_as_names() {
    for kw in ["type", "loop", "self", "Self", "fn", "_"] {
        let h = header(vec![io(kw, None)], vec![], vec![]);
        match generate("M", &h) {
            Err(GenError::InvalidFieldName(Section::Inputs, n)) => assert_eq!(n, kw),
            other => panic!("unexpected {:?}", other),
        }
    }
    assert!(matches!(generate("struct", &header(vec![], vec![], vec![])), Err(GenError::InvalidModelName(_))));
    assert!(generate("types", &header(vec![io("r#x_", None)], vec![], vec![])).is_err());
    assert!(generate("types", &header(vec![io("looped", None), io("_x", None)], vec![], vec![])).is_ok());
}
