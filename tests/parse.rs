use simulink_binder::{model_name, parse_field_line, parse_header, parse_header_with, Header, ParseMode, IO};

fn names(l: &[IO]) -> Vec<(String, Option<usize>)> {
    l.iter().map(|f| (f.name.clone(), f.size)).collect()
}

fn chars(s: &str) -> Vec<char> {
    s.chars().collect()
}

fn parse(text: &str) -> Header {
    parse_header(text)
}

#[test]
fn input_array_field() {
    let text = "/* External inputs (root inport signals with default storage) */\n\
                typedef struct {\n\
                \x20 real_T position[3];                  /* '<Root>/position' */\n\
                } ExtU_M1_T;\n";
    let h = parse(text);
    assert_eq!(names(&h.inputs.0), vec![("position".to_string(), Some(3))]);
    assert!(h.outputs.0.is_empty());
    assert!(h.states.0.is_empty());
}

#[test]
fn output_scalar_field() {
    let text = "/* External outputs (root outports fed by signals with default storage) */\n\
                typedef struct {\n\
                \x20 real_T torque;                       /* '<Root>/torque' */\n\
                } ExtY_M1_T;\n";
    let h = parse(text);
    assert_eq!(names(&h.outputs.0), vec![("torque".to_string(), None)]);
    assert!(h.inputs.0.is_empty());
}

#[test]
fn no_sections() {
    let h = parse("#ifndef RTW_HEADER_M1_h_\n#define RTW_HEADER_M1_h_\n#include \"rtwtypes.h\"\n#endif\n");
    assert!(h.inputs.0.is_empty());
    assert!(h.outputs.0.is_empty());
    assert!(h.states.0.is_empty());
}

#[test]
fn empty_text() {
    let h = parse("");
    assert!(h.inputs.0.is_empty() && h.outputs.0.is_empty() && h.states.0.is_empty());
}

const FULL: &str = "/* Block states (default storage) for system '<Root>' */\r\n\
typedef struct {\r\n\
  real_T Delay_DSTATE[4];              /* '<S1>/Delay' */\r\n\
  real_T Integrator_DSTATE;            /* '<S1>/Integrator' */\r\n\
} DW_M1_T;\r\n\
\r\n\
/* External inputs (root inport signals with default storage) */\r\n\
typedef struct {\r\n\
  real_T a[2];                         /* '<Root>/a' */\r\n\
  real_T b;                            /* '<Root>/b' */\r\n\
  real_T c[10];                        /* '<Root>/c' */\r\n\
} ExtU_M1_T;\r\n\
\r\n\
/* External outputs (root outports fed by signals with default storage) */\r\n\
typedef struct {\r\n\
  real_T y[7];                         /* '<Root>/y' */\r\n\
} ExtY_M1_T;\r\n";

#[test]
fn three_sections_in_order() {
    let h = parse(FULL);
    assert_eq!(
        names(&h.inputs.0),
        vec![("a".to_string(), Some(2)), ("b".to_string(), None), ("c".to_string(), Some(10))]
    );
    assert_eq!(names(&h.outputs.0), vec![("y".to_string(), Some(7))]);
    assert_eq!(
        names(&h.states.0),
        vec![("Delay_DSTATE".to_string(), Some(4)), ("Integrator_DSTATE".to_string(), None)]
    );
}

#[test]
fn field_count_matches_lines() {
    let mut text = String::from("/* External inputs */\ntypedef struct {\n");
    for k in 0..25 {
        text.push_str(&format!("  real_T u{}[{}];\n", k, k + 1));
    }
    text.push_str("} ExtU_M_T;\n");
    let h = parse(&text);
    assert_eq!(h.inputs.0.len(), 25);
    for (k, f) in h.inputs.0.iter().enumerate() {
        assert_eq!(f.name, format!("u{}", k));
        assert_eq!(f.size, Some(k + 1));
    }
}

#[test]
fn permuted_order_kept() {
    let h1 = parse("External outputs\ntypedef struct {\n real_T p;\n real_T q[2];\n real_T r;\n} ExtY_M_T;\n");
    let h2 = parse("External outputs\ntypedef struct {\n real_T r;\n real_T p;\n real_T q[2];\n} ExtY_M_T;\n");
    assert_eq!(
        names(&h1.outputs.0),
        vec![("p".to_string(), None), ("q".to_string(), Some(2)), ("r".to_string(), None)]
    );
    assert_eq!(
        names(&h2.outputs.0),
        vec![("r".to_string(), None), ("p".to_string(), None), ("q".to_string(), Some(2))]
    );
}

#[test]
fn missing_states_section() {
    let h = parse("External inputs\ntypedef struct {\n real_T u;\n} ExtU_M_T;\nExternal outputs\ntypedef struct {\n real_T y;\n} ExtY_M_T;\n");
    assert_eq!(h.inputs.0.len(), 1);
    assert_eq!(h.outputs.0.len(), 1);
    assert!(h.states.0.is_empty());
}

#[test]
fn marker_without_struct_is_skipped() {
    let h = parse("External inputs\n real_T u;\n} ExtU_M_T;\n");
    assert!(h.inputs.0.is_empty());
}

#[test]
fn line_after_marker_is_consumed() {
    // The line after a marker is taken even where it opens no struct, so the
    // marker on it is not seen.
    let h = parse("External inputs\nExternal outputs\ntypedef struct {\n real_T y;\n} ExtY_M_T;\n");
    assert!(h.inputs.0.is_empty());
    assert!(h.outputs.0.is_empty());
}

#[test]
fn unterminated_section_runs_to_end() {
    let h = parse("Block states\ntypedef struct {\n real_T s1;\n real_T s2[5];");
    assert_eq!(names(&h.states.0), vec![("s1".to_string(), None), ("s2".to_string(), Some(5))]);
}

#[test]
fn later_section_replaces_earlier() {
    let h = parse("External inputs\ntypedef struct {\n real_T a;\n} ExtU_M_T;\nExternal inputs\ntypedef struct {\n real_T b;\n} ExtU_M_T;\n");
    assert_eq!(names(&h.inputs.0), vec![("b".to_string(), None)]);
}

#[test]
fn two_markers_on_one_line() {
    let h = parse("External inputs External outputs\ntypedef struct {\n real_T u;\n} ExtU_M_T;\ntypedef struct {\n real_T y[2];\n} ExtY_M_T;\n");
    assert_eq!(names(&h.inputs.0), vec![("u".to_string(), None)]);
    assert_eq!(names(&h.outputs.0), vec![("y".to_string(), Some(2))]);
}

#[test]
fn non_field_lines_ignored() {
    let h = parse("External inputs\ntypedef struct {\n /* comment */\n\n int x;\n real_T v;\n} ExtU_M_T;\n");
    assert_eq!(names(&h.inputs.0), vec![("v".to_string(), None)]);
}

#[test]
fn field_line_grammar() {
    let f = parse_field_line(&chars("  real_T position[3];")).unwrap();
    assert_eq!((f.name.as_str(), f.size), ("position", Some(3)));
    let f = parse_field_line(&chars("  uint8_T flag;")).unwrap();
    assert_eq!((f.name.as_str(), f.size), ("flag", None));
    let f = parse_field_line(&chars("real_T v[3 ];")).unwrap();
    assert_eq!((f.name.as_str(), f.size), ("v", None));
    let f = parse_field_line(&chars("real_T w[99999999999999999999999];")).unwrap();
    assert_eq!((f.name.as_str(), f.size), ("w", None));
    // An array of no elements is no field.
    assert!(parse_field_line(&chars("real_T z[0]")).is_none());
    assert!(parse_field_line(&chars("real_T z[000];")).is_none());
    let f = parse_field_line(&chars("real_T z[007];")).unwrap();
    assert_eq!((f.name.as_str(), f.size), ("z", Some(7)));
    assert!(parse_field_line(&chars("real_T  x;")).is_none());
    assert!(parse_field_line(&chars("int x;")).is_none());
    assert!(parse_field_line(&chars("")).is_none());
}

#[test]
fn io_new_parses_count() {
    let f = IO::new("speed", Some("12"));
    assert_eq!((f.name.as_str(), f.size), ("speed", Some(12)));
    assert_eq!(IO::new("s", Some("+4")).size, Some(4));
    assert_eq!(IO::new("s", Some("x4")).size, None);
    assert_eq!(IO::new("s", Some("")).size, None);
    assert_eq!(IO::new("s", Some("+")).size, None);
    assert_eq!(IO::new("s", None).size, None);
    assert_eq!(IO::new("s", Some("0")).size, None);
    assert_eq!(IO::new("s", Some("+0")).size, None);
    assert_eq!(IO::new("s", Some("18446744073709551616")).size, None);
}

#[test]
fn model_name_from_file_comment() {
    let text = "/*\n * File: M2ASMcontroller.h\n *\n * Code generated for Simulink model 'M2ASMcontroller'.\n */\n";
    assert_eq!(model_name(text), Some("M2ASMcontroller".to_string()));
    assert_eq!(model_name(" * File:M1.h\n * File: M2.h\n"), Some("M1".to_string()));
    assert_eq!(model_name(" * File: M1.c\n * File: M3.h"), Some("M3".to_string()));
    assert_eq!(model_name("no name here\n"), None);
}

#[test]
fn model_header_selection() {
    assert!(simulink_binder::is_model_header("M2ASM.h"));
    assert!(simulink_binder::is_model_header("/a/b/sys/M1HPloadcells.h"));
    assert!(!simulink_binder::is_model_header("rtwtypes.h"));
    assert!(!simulink_binder::is_model_header("rt_defines.h"));
    assert!(!simulink_binder::is_model_header("M2ASM_private.h"));
    assert!(!simulink_binder::is_model_header("M2ASM_types.h"));
    assert!(!simulink_binder::is_model_header("M2ASM.c"));
    assert!(!simulink_binder::is_model_header(".h"));
}

#[test]
fn strict_mode_rejects_stray_body_line() {
    let text = "External inputs\ntypedef struct {\n  real_T u;\n  int k;\n  /* note */\n} ExtU_M_T;\n";
    match parse_header_with(text, ParseMode::Strict) {
        Err(e) => assert_eq!(e.line, "  int k;"),
        Ok(_) => panic!("strict mode accepted a stray line"),
    }
    let h = parse_header_with(text, ParseMode::Lenient).unwrap();
    assert_eq!(names(&h.inputs.0), vec![("u".to_string(), None)]);
}

#[test]
fn strict_mode_accepts_clean_header() {
    let h = parse_header_with(FULL, ParseMode::Strict).unwrap();
    assert_eq!(h.inputs.0.len(), 3);
    assert_eq!(h.outputs.0.len(), 1);
    assert_eq!(h.states.0.len(), 2);
    // Lines outside struct bodies and section openings are never faults.
    assert!(parse_header_with("int x;\nfoo\n} ExtU_M_T;\n", ParseMode::Strict).is_ok());
    // A marker on the last line leaves its section out in both modes.
    assert!(parse_header_with("int x;\nExternal inputs", ParseMode::Strict).unwrap().inputs.0.is_empty());
}

#[test]
fn zero_count_line_ignored_or_reported() {
    let text = "External inputs\ntypedef struct {\n  real_T z[0];\n  real_T u;\n} ExtU_M_T;\n";
    assert_eq!(names(&parse_header(text).inputs.0), vec![("u".to_string(), None)]);
    match parse_header_with(text, ParseMode::Strict) {
        Err(e) => assert_eq!(e.line, "  real_T z[0];"),
        Ok(_) => panic!("strict mode accepted an empty array"),
    }
}

#[test]
fn strict_mode_reports_missing_opening() {
    let text = "External inputs\n real_T u;\n} ExtU_M_T;\n";
    match parse_header_with(text, ParseMode::Strict) {
        Err(e) => assert_eq!(e.line, " real_T u;"),
        Ok(_) => panic!("strict mode accepted a section without its struct"),
    }
    assert!(parse_header_with(text, ParseMode::Lenient).unwrap().inputs.0.is_empty());
}
