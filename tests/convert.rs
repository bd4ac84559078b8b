use pytv::convert::{InstState, Session, HELPERS};
use pytv::inst::{yaml_value_as_str, YamlScalar};
use pytv::{parse_key_val, Config, Convert, ErrorKind, FileOptions, InstDoc, LineType};

fn converter(input: &str) -> Convert {
    Convert::new(
        Config::default(),
        FileOptions { input: input.to_string(), output: None },
    )
}

fn program(body: &str) -> String {
    format!("_inst_file = open('top.v.inst{}{}_inst_file.close()\n", HELPERS, body)
}

#[test]
fn test_pre_process_line() {
    let convert = Convert::default();
    assert_eq!(convert.pre_process_line("hello\they"), "hello    hey");
}

#[test]
fn test_escape_verilog() {
    let convert = Convert::default();
    assert_eq!(convert.escape_verilog("hello'world"), "hello\\'world");
    assert_eq!(convert.escape_verilog("string {foo}"), "string {{foo}}");
    assert_eq!(
        convert.escape_verilog("string {{bar}}"),
        "string {{{{bar}}}}"
    );
    assert_eq!(convert.escape_verilog("\"em"), "\"em");
}

#[test]
fn test_apply_verilog_regex() {
    let convert = Convert::default();
    assert_eq!(
        convert.apply_verilog_regex("hello `world`"),
        "hello {world}"
    );
    assert_eq!(
        convert.apply_verilog_regex("hello `world` `bar`"),
        "hello {world} {bar}"
    );
    assert_eq!(
        convert.apply_verilog_regex("`timescale 1ns / 1ps"),
        "`timescale 1ns / 1ps"
    );
}

#[test]
fn test_switch_line_type() {
    let mut line_type = LineType::default();
    let convert = Convert::default();
    convert.switch_line_type(&mut line_type, "assign a = b;");
    assert_eq!(line_type, LineType::Verilog);
    convert.switch_line_type(&mut line_type, "//! num = 2 ** n;");
    assert_eq!(line_type, LineType::PythonInline);
    convert.switch_line_type(&mut line_type, "   //! num = num + 1;");
    assert_eq!(line_type, LineType::PythonInline);
    convert.switch_line_type(&mut line_type, "/*!");
    assert_eq!(line_type, LineType::PythonBlock(false));
    convert.switch_line_type(&mut line_type, "num = 2 ** n;");
    assert_eq!(line_type, LineType::PythonBlock(true));
    convert.switch_line_type(&mut line_type, "*/");
    assert_eq!(line_type, LineType::Idle);
    convert.switch_line_type(&mut line_type, "// Verilog comment");
    assert_eq!(line_type, LineType::Verilog);
}

#[test]
fn classifier_whitespace_and_blocks() {
    let convert = Convert::default();
    let mut t = LineType::Idle;
    convert.switch_line_type(&mut t, "//! x = 1");
    assert_eq!(t, LineType::PythonInline);
    convert.switch_line_type(&mut t, " \t //! x = 1");
    assert_eq!(t, LineType::PythonInline);
    convert.switch_line_type(&mut t, "  /*!");
    assert_eq!(t, LineType::PythonBlock(false));
    convert.switch_line_type(&mut t, "//! still inside");
    assert_eq!(t, LineType::PythonBlock(true));
    convert.switch_line_type(&mut t, "  */");
    assert_eq!(t, LineType::Idle);
    convert.switch_line_type(&mut t, "/*! again");
    assert_eq!(t, LineType::PythonBlock(false));
    convert.switch_line_type(&mut t, "*/");
    assert_eq!(t, LineType::Idle);
    convert.switch_line_type(&mut t, "//! after");
    assert_eq!(t, LineType::PythonInline);
}

#[test]
fn classifier_other_magic() {
    let config = Config::new("@".to_string(), Config::default_template_re(), false, false, 4);
    let convert = Convert::new(config, FileOptions::default());
    let mut t = LineType::Idle;
    convert.switch_line_type(&mut t, "//! x");
    assert_eq!(t, LineType::Verilog);
    convert.switch_line_type(&mut t, "//@ x");
    assert_eq!(t, LineType::PythonInline);
}

#[test]
fn escape_keeps_backslashes() {
    let convert = Convert::default();
    assert_eq!(convert.escape_verilog("a\\'b"), "a\\\\'b");
    assert_eq!(convert.escape_verilog("}{"), "}}{{");
    assert_eq!(convert.escape_verilog(""), "");
}

#[test]
fn substitution_forms_agree() {
    let convert = Convert::default();
    let line = "x = `a + b`; y = `c`";
    let plain = convert.apply_verilog_regex(line);
    let guarded = convert.apply_protected_verilog_regex(line);
    assert_eq!(plain, "x = {a + b}; y = {c}");
    assert_eq!(
        guarded,
        "x = __LEFT_BRACKET__{a + b}__RIGHT_BRACKET__; y = __LEFT_BRACKET__{c}__RIGHT_BRACKET__"
    );
    assert_eq!(convert.undo_protected_brackets(&guarded), plain);
    assert_eq!(convert.apply_verilog_regex("a `` b"), "a `` b");
    assert_eq!(convert.apply_verilog_regex("a `open"), "a `open");
}

#[test]
fn unparsable_pattern_leaves_line() {
    let config = Config::new("!".to_string(), "(".to_string(), false, false, 4);
    let convert = Convert::new(config, FileOptions::default());
    assert_eq!(convert.apply_verilog_regex("a `b`"), "a `b`");
    let err = convert.convert("assign a = b;\n").unwrap_err();
    assert_eq!(err.kind, ErrorKind::BadPattern);
}

#[test]
fn quotes_escaped() {
    let convert = Convert::default();
    assert_eq!(convert.escape_single_quote("it's 'x'"), "it\\'s \\'x\\'");
}

#[test]
fn inst_markers() {
    let convert = Convert::default();
    assert_eq!(convert.inst_state("  <INST>  "), InstState::Begin);
    assert_eq!(convert.inst_state("</INST>"), InstState::End);
    assert_eq!(convert.inst_state("<INST> x"), InstState::Plain);
}

#[test]
fn plain_line_passes_through() {
    let out = converter("top.pytv").convert("assign a = b;\n").unwrap();
    assert_eq!(out, program("print(f'assign a = b;')\n"));
}

#[test]
fn end_to_end_substitution() {
    let out = converter("top.pytv").convert("assign w = wire_`sig`;").unwrap();
    assert_eq!(out, program("print(f'assign w = wire_{sig};')\n"));
}

#[test]
fn scripting_lines_copied() {
    let input = "//! for i in range(2):\n//!     x = i\n/*!\ny = 1\n*/\nwire `x`;\r\n";
    let out = converter("top.pytv").convert(input).unwrap();
    assert_eq!(
        out,
        program("for i in range(2):\n    x = i\ny = 1\nprint(f'wire {x};')\n")
    );
}

#[test]
fn indentation_lock() {
    let ok = converter("top.pytv")
        .convert("//!  if x:\n//!    y = 1\n//!  z = 2\n")
        .unwrap();
    assert_eq!(ok, program("if x:\n  y = 1\nz = 2\n"));
    let err = converter("top.pytv")
        .convert("//!  a = 1\n//! b = 2\n")
        .unwrap_err();
    assert_eq!(err.kind, ErrorKind::PyIndent(2));
    assert_eq!(err.detail, " b = 2");
}

#[test]
fn inst_nesting_errors() {
    let nested = converter("top.pytv")
        .convert("//! <INST>\n//! <INST>\n")
        .unwrap_err();
    assert_eq!(nested.kind, ErrorKind::NestedInst);
    let unmatched = converter("top.pytv").convert("//! </INST>\n").unwrap_err();
    assert_eq!(unmatched.kind, ErrorKind::UnmatchedEnd);
}

#[test]
fn inst_required_fields() {
    let no_module = converter("top.pytv")
        .convert("/*!\n<INST>\nname: u0\n</INST>\n*/\n")
        .unwrap_err();
    assert_eq!(no_module.kind, ErrorKind::NoModule);
    let no_name = converter("top.pytv")
        .convert("/*!\n<INST>\nmodule: adder\n</INST>\n*/\n")
        .unwrap_err();
    assert_eq!(no_name.kind, ErrorKind::NoName);
}

#[test]
fn inst_document_errors() {
    let bad = converter("top.pytv")
        .convert("/*!\n<INST>\nmodule: [\n</INST>\n*/\n")
        .unwrap_err();
    assert_eq!(bad.kind, ErrorKind::Yaml);
    assert!(!bad.detail.is_empty());
    let bad_vparams = converter("top.pytv")
        .convert("/*!\n<INST>\nmodule: m\nname: u\nvparams:\n  W: [1, 2]\n</INST>\n*/\n")
        .unwrap_err();
    assert_eq!(bad_vparams.kind, ErrorKind::InvalidVparams);
    let bad_ports = converter("top.pytv")
        .convert("/*!\n<INST>\nmodule: m\nname: u\nports:\n  a: {b: c}\n</INST>\n*/\n")
        .unwrap_err();
    assert_eq!(bad_ports.kind, ErrorKind::InvalidPorts);
}

#[test]
fn inst_block_compiled() {
    let input = "/*!\n<INST>\nmodule: adder\nname: u_`i`\nvparams:\n  WIDTH: 8\nports:\n  a: x\n  !grp: pairs\n</INST>\n*/\n";
    let out = converter("top.pytv").convert(input).unwrap();
    let body = [
        "print('// INST')\n",
        "_inst_file.write(f'''- module: adder\n  name: u_{i}\n  vparams:\n    WIDTH: 8\n  ports:\n    a: x\n    ''')\n",
        "_inst_file.write(f'{_inst_var_map(pairs)}')\n",
        "_inst_file.write(f'''''')\n",
        "print(f'adder', end='')\n",
        "print(f'#(\\n  parameter WIDTH = 8', end='')\n",
        "print(')')\n",
        "print(f' u_{i} (')\n",
        "print(f'  .a(x)', end='')\n",
        "print(_verilog_ports_var_map(pairs, False), end='')\n",
        "print(f'\\n);')\n",
        "print('// END of INST')\n",
    ]
    .concat();
    assert_eq!(out, program(&body));
}

#[test]
fn inst_indented_in_inline_scripting() {
    let input = "//! if True:\n//!   <INST>\n//!   module: m\n//!   name: u\n//!   </INST>\n";
    let out = converter("top.pytv").convert(input).unwrap();
    assert!(out.contains("if True:\n  print('// INST')\n  _inst_file.write(f'''- module: m\n  name: u\n''')\n"));
    assert!(out.contains("  print(f'm', end='')\n  print(f' u (')\n  print(f'\\n);')\n  print('// END of INST')\n"));
}

#[test]
fn render_groups_and_literals() {
    let doc = InstDoc {
        module: "adder".to_string(),
        name: "u0".to_string(),
        vparams: vec![
            ("WIDTH".to_string(), "8".to_string()),
            ("__group_extra".to_string(), "params".to_string()),
        ],
        ports: vec![
            ("__group_ins".to_string(), "ins".to_string()),
            ("out".to_string(), "it's".to_string()),
        ],
    };
    let listing: Vec<char> = "L".chars().collect();
    let out: String = pytv::inst::render_inst(&doc, &listing, 2).into_iter().collect();
    let expected = [
        "  _inst_file.write(f'''L''')\n",
        "  print(f'adder', end='')\n",
        "  print(f'#(\\n  parameter WIDTH = 8', end='')\n",
        "  print(_verilog_vparams_var_map(params, False), end='')\n",
        "  print(')')\n",
        "  print(f' u0 (')\n",
        "  print(_verilog_ports_var_map(ins, True), end='')\n",
        "  print(f',\\n  .out(it\\'s)', end='')\n",
        "  print(f'\\n);')\n",
    ]
    .concat();
    assert_eq!(out, expected);
}

#[test]
fn render_first_group_parameter() {
    let doc = InstDoc {
        module: "m".to_string(),
        name: "u".to_string(),
        vparams: vec![("__group_p".to_string(), "ps".to_string())],
        ports: vec![],
    };
    let out: String = pytv::inst::render_inst(&doc, &Vec::new(), 0).into_iter().collect();
    assert!(out.contains("print(_verilog_vparams_var_map(ps, True), end='')\nprint(')')\n"));
}

#[test]
fn output_names() {
    let c = converter("top.pytv");
    assert_eq!(c.output_file_name(), "top.v");
    assert_eq!(c.output_python_file_name(), "top.v.py");
    assert_eq!(c.output_inst_file_name(), "top.v.inst");
    assert_eq!(converter("dir/top").output_file_name(), "dir/top.v");
    let given = Convert::new(
        Config::default(),
        FileOptions { input: "a.pytv".to_string(), output: Some("out.sv".to_string()) },
    );
    assert_eq!(given.output_file_name(), "out.sv");
}

#[test]
fn key_value_arguments() {
    assert_eq!(
        parse_key_val("N=4=x").unwrap(),
        ("N".to_string(), "4=x".to_string())
    );
    assert_eq!(parse_key_val("=").unwrap(), (String::new(), String::new()));
    assert_eq!(
        parse_key_val("N").unwrap_err(),
        "invalid KEY=value: no `=` found in `N`"
    );
}

#[test]
fn defaults() {
    let c = Config::default();
    assert_eq!(c.magic_comment_str, "!");
    assert_eq!(c.template_re, "`([^`]+)`");
    assert_eq!(c.tab_size, 4);
    assert!(!c.run_python && !c.delete_python);
    let s = Session::new();
    assert_eq!(s.line_type, LineType::Idle);
    assert!(!s.within_inst && s.inst_str.is_empty());
}

#[test]
fn tab_width_configurable() {
    let config = Config::new("!".to_string(), Config::default_template_re(), false, false, 2);
    let c = Convert::new(config, FileOptions::default());
    assert_eq!(c.pre_process_line("\ta\t \t"), "  a");
}

#[test]
fn group_declarations_marked() {
    let text: Vec<char> = "ports:\n  a: x\n  !grp: pairs\n".chars().collect();
    let out: String = pytv::inst::apply_protected_inst_group_regex(&text).into_iter().collect();
    assert_eq!(out, "ports:\n  a: x\n  __group_grp: pairs\n");
}

#[test]
fn group_entries_expanded() {
    let record: Vec<char> = "- a: 1\n  __group_g: pairs\n".chars().collect();
    let out: String = pytv::inst::inst_group_print_to_dot_inst(&record, 2).into_iter().collect();
    assert_eq!(
        out,
        "- a: 1\n  ''')\n  _inst_file.write(f'{_inst_var_map(pairs)}')\n  _inst_file.write(f'''"
    );
}

#[test]
fn scalar_values_as_text() {
    assert_eq!(yaml_value_as_str(&YamlScalar::Text("a b".to_string())), Some("a b".to_string()));
    assert_eq!(yaml_value_as_str(&YamlScalar::Number("8".to_string())), Some("8".to_string()));
    assert_eq!(yaml_value_as_str(&YamlScalar::Bool(false)), Some("false".to_string()));
    assert_eq!(yaml_value_as_str(&YamlScalar::Other), None);
}

#[test]
fn inst_scalar_kinds() {
    let input = "/*!\n<INST>\nmodule: m\nname: u\nvparams:\n  A: true\n  B: 1.5\n</INST>\n*/\n";
    let out = converter("top.pytv").convert(input).unwrap();
    assert!(out.contains("print(f'#(\\n  parameter A = true', end='')\nprint(f',\\n  parameter B = 1.5', end='')\nprint(')')\n"));
}

#[test]
fn sentinel_strip_needs_brace_free_text() {
    let convert = Convert::default();
    let line = "`x`LEFT_BRACKET__{";
    let guarded = convert.apply_protected_verilog_regex(line);
    assert_eq!(guarded, "__LEFT_BRACKET__{x}__RIGHT_BRACKET__LEFT_BRACKET__{");
    assert_eq!(convert.undo_protected_brackets(&guarded), "{x}__RIGHT_BRACKET{");
    assert_eq!(convert.apply_verilog_regex(line), "{x}LEFT_BRACKET__{");
}
