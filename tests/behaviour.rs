use cyagen::calls::{find_func_in_list, get_callees, get_ncls};
use cyagen::ident::section_id;
use cyagen::lexical::{get_incs, get_typedefs};
use cyagen::merge::merge_with_manual_sections;
use cyagen::naming::{is_engine_template, output_file_name, with_source_name};
use cyagen::parser::Parser;
use cyagen::paths::{get_relative_path, relative_components};
use cyagen::render::{generate, render};
use cyagen::scope::find_end_of_func;
use cyagen::signature::get_fncs;
use cyagen::statics::{get_static_vars, update_static_vars_with_lsv};

#[test]
fn duplicate_includes_collapse_in_order() {
    let code = "#include <stdio.h>\n#include <stdio.h>\n#include \"test.h\"\n#include <stdio.h>\n";
    let incs = get_incs(code);
    assert_eq!(incs.len(), 2);
    assert_eq!(incs[0].captured, "#include <stdio.h>");
    assert_eq!(incs[1].captured, "#include \"test.h\"");
}

#[test]
fn typedefs_with_and_without_body() {
    let code = "typedef enum\n{\n    Idle = 0,\n    Forward\n} Direction_t;\ntypedef int my_int;\ntypedef int my_int;\n";
    let tds = get_typedefs(code);
    assert_eq!(tds.len(), 2);
    assert_eq!(tds[0].captured, "typedef enum\n{\n    Idle = 0,\n    Forward\n} Direction_t;");
    assert_eq!(tds[1].captured, "typedef int my_int;");
}

#[test]
fn void_parameter_list_is_empty() {
    let fncs = get_fncs("static int func1( void )\n{\n    return 0;\n}\n");
    assert_eq!(fncs.len(), 1);
    assert_eq!(fncs[0].name, "func1");
    assert_eq!(fncs[0].rtype, "int");
    assert!(fncs[0].is_local);
    assert_eq!(fncs[0].args, "");
    assert_eq!(fncs[0].atypes, "");
    assert_eq!(fncs[0].anames, "");
}

#[test]
fn argument_types_and_names() {
    let fncs = get_fncs("int func1() { return 0; }\nvoid f(char buf[4][8], int const * p, int n)\n{\n}\n");
    assert_eq!(fncs.len(), 2);
    assert_eq!(fncs[0].rtype, "int");
    assert!(!fncs[0].is_local);
    assert_eq!(fncs[1].args, "char buf[4][8], int const * p, int n");
    assert_eq!(fncs[1].atypes, "char**, const int *, int");
    assert_eq!(fncs[1].anames, "buf, p, n");
}

#[test]
fn if_is_never_a_function() {
    let fncs = get_fncs("void g(int x)\n{\n    if (x) {\n    } else if (x) {\n    }\n}\n");
    assert_eq!(fncs.len(), 1);
    assert_eq!(fncs[0].name, "g");
}

#[test]
fn macro_return_type_form() {
    let fncs = get_fncs("FUNC(uint8_t, CODE) Do_Step(uint8_t x)\n{\n}\n");
    assert_eq!(fncs.len(), 1);
    assert_eq!(fncs[0].name, "Do_Step");
    assert_eq!(fncs[0].rtype, "uint8_t");
    assert_eq!(fncs[0].atypes, "uint8_t");
}

#[test]
fn static_variable_fields() {
    let code = "static const int y = 5;\nstatic int x[N];\nstatic int z[-3] = { 1, 2 };\n";
    let vars = get_static_vars(code, &get_fncs(code));
    assert_eq!(vars.len(), 3);
    assert_eq!(vars[0].name, "y");
    assert_eq!(vars[0].dtype, "int");
    assert!(vars[0].is_const);
    assert_eq!(vars[0].init, "5");
    assert_eq!(vars[0].array_size, 0);
    assert_eq!(vars[1].name_expr, "x[N]");
    assert_eq!(vars[1].array_size, 0);
    assert_eq!(vars[1].init, "0");
    assert!(!vars[1].is_const);
    assert_eq!(vars[2].array_size, -3);
    assert_eq!(vars[2].init, "{ 1, 2 }");
    assert_eq!(vars[2].captured, "static int z[-3] = { 1, 2 };");
}

#[test]
fn helper_macro_declarations() {
    let code = "void tick(void)\n{\n    LOCAL_STATIC_VARIABLE(tick, const int, counter[4], 0);\n}\n";
    let mut vars = Vec::new();
    update_static_vars_with_lsv(code, "LOCAL_STATIC_VARIABLE", &mut vars);
    assert_eq!(vars.len(), 1);
    assert_eq!(vars[0].name, "counter");
    assert_eq!(vars[0].name_expr, "counter[4]");
    assert_eq!(vars[0].dtype, "const int");
    assert_eq!(vars[0].array_size, 4);
    assert_eq!(vars[0].init, "0");
    assert!(vars[0].is_const);
    assert!(vars[0].is_local);
    assert_eq!(vars[0].func_name, "tick");
    let parser = Parser::parse(code);
    assert_eq!(parser.static_vars.len(), 1);
    assert_eq!(parser.lsv_macro_name, "LOCAL_STATIC_VARIABLE");
}

#[test]
fn scope_end_balances_braces() {
    assert_eq!(find_end_of_func("{ a { b } c } d", 1), 12);
    assert_eq!(find_end_of_func("{ a { b", 1), 1);
}

#[test]
fn calls_and_callees() {
    let code = "int func1()\n{\n    return 0;\n}\nvoid func2(int a)\n{\n    func1();\n}\nvoid func3(int a)\n{\n    func1(); func2(1);\n}\n";
    let fncs = get_fncs(code);
    let ncls = get_ncls(code, &fncs);
    assert_eq!(ncls.len(), 3);
    assert_eq!(ncls[0].caller.name, "func2");
    assert_eq!(ncls[0].callee.name, "func1");
    assert_eq!(ncls[1].caller.name, "func3");
    assert_eq!(ncls[2].callee.name, "func2");
    let callees = get_callees(&ncls);
    assert_eq!(callees.len(), 2);
    assert_eq!(callees[0].name, "func1");
    assert_eq!(callees[1].name, "func2");
    assert!(find_func_in_list("func2", &fncs));
    assert!(!find_func_in_list("func4", &fncs));
}

#[test]
fn plain_ncls_lists_each_call_site() {
    let code = "int func1()\n{\n    return 0;\n}\nvoid func2(int a)\n{\n    func1();\n}\nvoid func3(int a)\n{\n    func1();\n}\n";
    let parser = Parser::parse(code);
    let out = generate(&parser, "@ncls@- @callee.name@\n@end-ncls@", "x");
    assert_eq!(out, "- func1\n- func1\n");
}

#[test]
fn removal_keeps_text_for_non_void_callee() {
    let code = "int func1()\n{\n    return 0;\n}\nint func2(int a)\n{\n    return func1();\n}\n";
    let parser = Parser::parse(code);
    let out = generate(&parser, "@ncls@return @callee.rtype.remove(0)@;@end-ncls@", "x");
    assert_eq!(out, "return 0;");
}

#[test]
fn change_directive() {
    let code = "int func1(char c)\n{\n    return 0;\n}\nint func2(int a)\n{\n    return func1(1);\n}\n";
    let parser = Parser::parse(code);
    let out = generate(
        &parser,
        "@ncls@@callee.rtype.change(int=long)@ @callee.rtype.change(void=x)@ (@callee.args.remove(, )@)@end-ncls@",
        "x",
    );
    assert_eq!(out, "long int (, )");
}

#[test]
fn local_blocks_and_names() {
    let code = "static int f1(void)\n{\n    static char buf[2];\n    return 0;\n}\nint f2(void)\n{\n    return 0;\n}\n";
    let parser = Parser::parse(code);
    let out = render(
        &parser,
        "@local-fncs@@name@;@end-local-fncs@|@static-local-vars@@func-name@:@name@@end-static-local-vars@|@sourcename@ @date@",
        "unit",
        "today",
    );
    assert_eq!(out, "f1;|f1:buf|unit today");
}

#[test]
fn unterminated_block_is_left_as_is() {
    let parser = Parser::parse("int f(void)\n{\n}\n");
    let out = render(&parser, "@fncs@@name@ and no end", "s", "d");
    assert_eq!(out, "@fncs@@name@ and no end");
}

#[test]
fn date_is_filled_in() {
    let parser = Parser::parse("");
    let out = generate(&parser, "@date@", "s");
    assert!(!out.contains("@date@"));
    assert!(out.len() >= 20);
}

#[test]
fn manual_section_survives_regeneration() {
    let first = "head v1\n// MANUAL SECTION: 1a2b-3c\ngenerated\n// MANUAL SECTION END\ntail v1\n";
    let edited = "head v1\n// MANUAL SECTION: 1a2b-3c\nhand edit\n// MANUAL SECTION END\ntail v1\n";
    let second = "head v2\n// MANUAL SECTION: 1a2b-3c\ngenerated\n// MANUAL SECTION END\ntail v2\n";
    assert_eq!(merge_with_manual_sections(first, first), first);
    let merged = merge_with_manual_sections(second, edited);
    assert_eq!(merged, "head v2\n// MANUAL SECTION: 1a2b-3c\nhand edit\n// MANUAL SECTION END\ntail v2\n");
    let fresh_only = merge_with_manual_sections(second, "nothing here");
    assert_eq!(fresh_only, second);
}

#[test]
fn section_ids_are_stable() {
    let a = section_id("main.c");
    let b = section_id("main.c");
    let c = section_id("other.c");
    assert_eq!(a, b);
    assert_ne!(a, c);
    assert_eq!(a.len(), 36);
    assert_ne!(a, "main.c");
    assert!(a.chars().all(|ch| ch.is_ascii_digit() || ('a'..='f').contains(&ch) || ch == '-'));
}

#[test]
fn relative_path_climbs_out_of_the_folder() {
    assert_eq!(get_relative_path("out/gen", "src/main.c"), Some("../../src/main.c".to_string()));
    assert_eq!(get_relative_path("src", "src/main.c"), Some("main.c".to_string()));
}

#[test]
fn relative_components_climb_then_descend() {
    let from = vec!["out".to_string(), "gen".to_string()];
    let to = vec!["src".to_string(), "main.c".to_string()];
    assert_eq!(relative_components(&from, &to), vec!["..", "..", "src", "main.c"]);
    let from = vec!["src".to_string()];
    let to = vec!["src".to_string(), "main.c".to_string()];
    assert_eq!(relative_components(&from, &to), vec!["main.c"]);
}

#[test]
fn output_names_and_engine_templates() {
    assert_eq!(output_file_name("out/@sourcename@_cfg.h.tera", "motor"), "out/motor_cfg.h");
    assert_eq!(output_file_name("out/list.txt.j2", "motor"), "out/list.txt");
    assert_eq!(output_file_name("out/plain.c", "motor"), "out/plain.c");
    assert_eq!(with_source_name("@sourcename@/@sourcename@.json", "m"), "m/m.json");
    assert!(is_engine_template("tera"));
    assert!(is_engine_template("j2"));
    assert!(is_engine_template("njk"));
    assert!(!is_engine_template("h"));
    assert!(!is_engine_template(""));
}
