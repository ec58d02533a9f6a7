use perry::arkts::{arkts_string_lit, emit_index_ets, emit_widget, wrap_index_page};
use perry::codegen::hir::{Class, ClassField, Expr, Module, Stmt};

fn empty_module() -> Module {
    Module { classes: vec![], init: vec![] }
}

fn call(method: &str, args: Vec<Expr>) -> Expr {
    Expr::NativeMethodCall {
        module: "perry/ui".to_string(),
        method: method.to_string(),
        object: None,
        args,
    }
}

#[test]
fn emits_none_for_empty_module() {
    let mut m = empty_module();
    assert!(emit_index_ets(&mut m).is_none());
}

#[test]
fn emits_text_widget_and_strips_app_call() {
    let mut m = empty_module();
    m.init.push(Stmt::Expr(call(
        "App",
        vec![Expr::Object(vec![(
            "body".to_string(),
            call("Text", vec![Expr::String("hello phase 2".to_string())]),
        )])],
    )));
    let ets = emit_index_ets(&mut m).expect("expected Index.ets");
    assert!(ets.contains("@Entry"));
    assert!(ets.contains("@Component"));
    assert!(ets.contains("struct Index"));
    assert!(ets.contains("Text('hello phase 2')"));
    assert!(ets.contains(".fontSize(20)"));
    assert_eq!(m.init.len(), 1);
    assert!(matches!(m.init[0], Stmt::Expr(Expr::Number(_))));
}

#[test]
fn unsupported_widget_degrades_with_comment_not_error() {
    let mut m = empty_module();
    m.init.push(Stmt::Expr(call(
        "App",
        vec![Expr::Object(vec![("body".to_string(), call("VStack", vec![]))])],
    )));
    let ets = emit_index_ets(&mut m).expect("expected Index.ets");
    assert!(ets.contains("// unsupported perry/ui widget: VStack"));
    assert!(ets.contains("Text('[unsupported: VStack]')"));
}

#[test]
fn string_literal_escaping() {
    assert_eq!(arkts_string_lit("hi"), "'hi'");
    assert_eq!(arkts_string_lit("he's there"), "'he\\'s there'");
    assert_eq!(arkts_string_lit("a\\b"), "'a\\\\b'");
    assert_eq!(arkts_string_lit("line1\nline2"), "'line1\\nline2'");
}

#[test]
fn string_literal_escapes_every_break() {
    assert_eq!(arkts_string_lit(""), "''");
    assert_eq!(arkts_string_lit("\r\t"), "'\\r\\t'");
    assert_eq!(arkts_string_lit("ü'"), "'ü\\''");
}

#[test]
fn closed_shape_objects_are_looked_up_by_field() {
    let field = |name: &str| ClassField { name: name.to_string(), init: None };
    let shape = Class {
        name: "__AnonShape_0".to_string(),
        extends_name: None,
        fields: vec![field("title"), field("body")],
        constructor: None,
        getters: vec![],
        setters: vec![],
    };
    let app = |class: &str| {
        Stmt::Expr(call(
            "App",
            vec![Expr::New {
                class_name: class.to_string(),
                args: vec![
                    Expr::String("X".to_string()),
                    call("Text", vec![Expr::String("inner".to_string())]),
                ],
            }],
        ))
    };
    let mut m = Module { classes: vec![shape], init: vec![Stmt::Break, app("__AnonShape_0")] };
    let ets = emit_index_ets(&mut m).expect("a page");
    assert!(ets.contains("            Text('inner').fontSize(20)\n"));
    assert!(matches!(m.init[0], Stmt::Break));
    assert!(matches!(m.init[1], Stmt::Expr(Expr::Number(0))));

    let mut other = Module { classes: vec![], init: vec![app("__AnonShape_0"), app("Plain")] };
    assert!(emit_index_ets(&mut other).is_none());
    assert_eq!(other.init.len(), 2);
    assert!(matches!(other.init[0], Stmt::Expr(Expr::NativeMethodCall { .. })));
}

#[test]
fn widgets_that_are_no_text() {
    assert_eq!(
        emit_widget(&call("Text", vec![Expr::Integer(1)])),
        "Text('[non-literal Text arg]').fontSize(20).fontColor('#888888')"
    );
    assert!(emit_widget(&Expr::This).starts_with("// unrecognized body expression"));
}

#[test]
fn pages_indent_each_line() {
    let page = wrap_index_page("a\r\nb\n");
    assert!(page.contains("Column() {\n            a\n            b\n        }\n"));
    assert!(page.ends_with("    }\n}\n"));
}
