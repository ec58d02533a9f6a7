use std::collections::{HashMap, HashSet};

use perry::codegen::classes::{
    class_uses_this_as_value, find_class, is_class_getter, is_class_setter,
};
use perry::codegen::closures::collect_closures_in_stmts;
use perry::codegen::doubles::{index_of, integer_of};
use perry::codegen::emit::emit_i64_function;
use perry::codegen::escapes::expr_contains_local_get;
use perry::codegen::escaping_arrays::{collect_non_escaping_arrays, const_index};
use perry::codegen::escaping_news::collect_non_escaping_news;
use perry::codegen::escaping_objects::collect_non_escaping_object_literals;
use perry::codegen::hir::{
    BinaryOp, CatchClause, Class, ClassField, CompareOp, Expr, Function, LocalOp, Op, Param, Stmt,
    SwitchCase, Type,
};
use perry::codegen::index_uses::collect_index_used_locals;
use perry::codegen::integers::{
    collect_integer_locals, collect_localset_ids_in_stmts, is_int32_producing_expr,
};
use perry::codegen::llvm::{LlModule, DOUBLE, I32, I64, PTR, VOID};
use perry::codegen::mutation::has_any_mutation;
use perry::codegen::numeric::{
    detect_clamp3, detect_clamp_u8, is_integer_specializable, returns_integer,
};
use perry::codegen::pointers::collect_pointer_typed_locals;
use perry::codegen::refs::{collect_let_ids, collect_ref_ids_in_stmts};
use perry::codegen::runtime_decls::{declare_phase1, declare_stdlib_ffi};
use perry::platform::Platform;

fn get(id: u32) -> Expr {
    Expr::LocalGet(id)
}

fn num(n: i64) -> Expr {
    Expr::Integer(n)
}

fn binary(op: BinaryOp, left: Expr, right: Expr) -> Expr {
    Expr::Binary { op, left: Box::new(left), right: Box::new(right) }
}

fn compare(op: CompareOp, left: Expr, right: Expr) -> Expr {
    Expr::Compare { op, left: Box::new(left), right: Box::new(right) }
}

fn declare(id: u32, ty: Type, mutable: bool, init: Option<Expr>) -> Stmt {
    Stmt::Let { id, ty, mutable, init }
}

fn ret(e: Expr) -> Stmt {
    Stmt::Return(Some(e))
}

fn guard(op: CompareOp, left: Expr, right: Expr, value: Expr) -> Stmt {
    Stmt::If {
        condition: compare(op, left, right),
        then_branch: vec![ret(value)],
        else_branch: None,
    }
}

fn function(params: Vec<u32>, return_type: Type, body: Vec<Stmt>) -> Function {
    Function {
        id: 7,
        params: params.into_iter().map(|id| Param { id, ty: Type::Number }).collect(),
        return_type,
        body,
        is_async: false,
        is_generator: false,
    }
}

fn ids(list: &[u32]) -> HashSet<u32> {
    list.iter().copied().collect()
}

fn index_get(object: Expr, index: Expr) -> Expr {
    Expr::IndexGet { object: Box::new(object), index: Box::new(index) }
}

fn property(object: Expr, name: &str) -> Expr {
    Expr::PropertyGet { object: Box::new(object), property: name.to_string() }
}

fn closure(func_id: u32, body: Vec<Stmt>, captures: Vec<u32>) -> Expr {
    Expr::Closure { func_id, body, captures, captures_this: false }
}

#[test]
fn references_and_declarations_are_collected() {
    let body = vec![
        declare(1, Type::Number, true, Some(get(9))),
        Stmt::While {
            condition: compare(CompareOp::Lt, get(1), get(2)),
            body: vec![Stmt::Expr(Expr::Update(1)), declare(3, Type::Any, false, None)],
        },
        Stmt::Expr(closure(5, vec![ret(get(4))], vec![8])),
    ];
    let mut refs = HashSet::new();
    collect_ref_ids_in_stmts(&body, &mut refs);
    assert_eq!(refs, ids(&[1, 2, 4, 8, 9]));
    let mut lets = HashSet::new();
    collect_let_ids(&body, &mut lets);
    assert_eq!(lets, ids(&[1, 3]));
}

#[test]
fn references_and_declarations_are_found_wherever_they_stand() {
    let body = vec![
        Stmt::Try {
            body: vec![Stmt::Expr(get(5)), declare(20, Type::Any, false, None)],
            catch: Some(CatchClause {
                param: Some(30),
                body: vec![declare(21, Type::Any, false, Some(get(6)))],
            }),
            finally: Some(vec![declare(22, Type::Any, false, Some(get(7)))]),
        },
        Stmt::Switch {
            discriminant: get(8),
            cases: vec![SwitchCase {
                test: Some(get(9)),
                body: vec![declare(23, Type::Any, false, Some(get(10)))],
            }],
        },
        Stmt::Labeled {
            label: "l".to_string(),
            body: Box::new(declare(24, Type::Any, false, Some(get(11)))),
        },
        Stmt::Expr(Expr::IndexUpdate { object: Box::new(get(12)), index: Box::new(get(13)) }),
        Stmt::Expr(Expr::Node { op: Op::Yield, operands: vec![get(14)] }),
        Stmt::Expr(closure(
            1,
            vec![Stmt::Try { body: vec![Stmt::Expr(get(15))], catch: None, finally: None }],
            vec![],
        )),
    ];
    let mut refs = HashSet::new();
    collect_ref_ids_in_stmts(&body, &mut refs);
    assert_eq!(refs, ids(&[5, 6, 7, 8, 9, 10, 11, 12, 13, 14, 15]));
    let mut lets = HashSet::new();
    collect_let_ids(&body, &mut lets);
    assert_eq!(lets, ids(&[20, 21, 22, 23, 24]));
}

#[test]
fn walks_leave_no_expression_out() {
    let assign = || Expr::LocalSet(7, Box::new(Expr::Number(0.5f64.to_bits())));
    let holders = |e: fn() -> Expr| {
        vec![
            Expr::New { class_name: "C".to_string(), args: vec![e()] },
            Expr::IndexUpdate { object: Box::new(get(1)), index: Box::new(e()) },
            Expr::PropertyUpdate { object: Box::new(e()), property: "p".to_string() },
            Expr::Node { op: Op::Yield, operands: vec![e()] },
            Expr::Node { op: Op::ArraySome, operands: vec![get(1), e()] },
            Expr::Node { op: Op::JsCallMethod, operands: vec![e()] },
            Expr::Node { op: Op::Other, operands: vec![e()] },
            Expr::OnLocal { op: LocalOp::ArrayPushSpread, id: 1, operands: vec![e()] },
        ]
    };
    let none = HashSet::new();
    let assigning =
        holders(|| Expr::LocalSet(7, Box::new(Expr::Number(0.5f64.to_bits()))));
    for holder in assigning {
        let body = vec![declare(7, Type::Number, true, Some(num(0))), Stmt::Expr(holder)];
        assert!(has_any_mutation(&body[1..], 7));
        assert!(!has_any_mutation(&body[1..], 8));
        assert!(!collect_integer_locals(&body, &none, &none).contains(&7));
    }
    for holder in holders(|| Expr::Closure {
        func_id: 3,
        body: vec![],
        captures: vec![],
        captures_this: false,
    }) {
        let body = vec![Stmt::Expr(holder)];
        let mut out = Vec::new();
        collect_closures_in_stmts(&body, &mut HashSet::new(), &mut out);
        assert_eq!(out.len(), 1);
    }
    for holder in holders(|| Expr::LocalGet(6)) {
        assert!(expr_contains_local_get(&holder, 6));
    }
    assert!(has_any_mutation(&[Stmt::Expr(assign())], 7));
}

#[test]
fn every_return_counts() {
    let half = || ret(Expr::Number(0.5f64.to_bits()));
    let returns = |body: Vec<Stmt>| returns_integer(&function(vec![1], Type::Number, body));
    assert!(!returns(vec![Stmt::While {
        condition: Expr::Node { op: Op::Bool, operands: vec![] },
        body: vec![half()],
    }]));
    assert!(!returns(vec![Stmt::Try { body: vec![half()], catch: None, finally: None }]));
    assert!(!returns(vec![Stmt::Labeled { label: "l".to_string(), body: Box::new(half()) }]));
    assert!(!returns(vec![Stmt::Switch {
        discriminant: get(1),
        cases: vec![SwitchCase { test: None, body: vec![half()] }],
    }]));
    assert!(!returns(vec![Stmt::Return(None)]));
    assert!(returns(vec![
        Stmt::While {
            condition: get(1),
            body: vec![ret(binary(BinaryOp::BitOr, get(1), num(0)))],
        },
        ret(num(0)),
    ]));
}

#[test]
fn closures_are_collected_once() {
    let inner = closure(2, vec![], vec![]);
    let body = vec![
        Stmt::Expr(closure(1, vec![ret(inner)], vec![])),
        Stmt::Expr(closure(1, vec![], vec![])),
        Stmt::Expr(closure(9, vec![], vec![])),
    ];
    let mut seen = ids(&[9]);
    let mut out = Vec::new();
    collect_closures_in_stmts(&body, &mut seen, &mut out);
    let mut found: Vec<u32> = out.iter().map(|c| c.0).collect();
    found.sort();
    assert_eq!(found, vec![1, 2]);
    assert_eq!(seen, ids(&[1, 2, 9]));
}

#[test]
fn mutations_are_found() {
    let pushes = vec![Stmt::Expr(Expr::OnLocal { op: LocalOp::ArrayPush, id: 3, operands: vec![num(1)] })];
    assert!(has_any_mutation(&pushes, 3));
    assert!(!has_any_mutation(&pushes, 4));
    let sets = vec![Stmt::Expr(Expr::LocalSet(1, Box::new(num(2))))];
    assert!(has_any_mutation(&sets, 1));
    assert!(!has_any_mutation(&[ret(get(1))], 1));
    let step = Expr::IndexUpdate {
        object: Box::new(index_get(get(1), num(0))),
        index: Box::new(get(2)),
    };
    let steps = vec![Stmt::Expr(step)];
    assert!(!has_any_mutation(&steps, 1) && !has_any_mutation(&steps, 2));
    let pops = vec![Stmt::Expr(Expr::OnLocal { op: LocalOp::ArrayPop, id: 3, operands: vec![] })];
    assert!(has_any_mutation(&pops, 3));
    let adds = vec![Stmt::Expr(Expr::OnLocal { op: LocalOp::SetAdd, id: 3, operands: vec![] })];
    assert!(!has_any_mutation(&adds, 3));
}

#[test]
fn index_uses_are_found() {
    let body = vec![ret(index_get(get(1), binary(BinaryOp::Add, get(2), get(3))))];
    let used = collect_index_used_locals(&body);
    assert!(!used.contains(&1));
    assert!(used.contains(&2) && used.contains(&3));
}

#[test]
fn integers_stay_integers() {
    let none = HashSet::new();
    let known = ids(&[1]);
    assert!(is_int32_producing_expr(&num(5), &known, &none, &none, &none));
    assert!(is_int32_producing_expr(&get(1), &known, &none, &none, &none));
    assert!(!is_int32_producing_expr(&get(2), &known, &none, &none, &none));
    assert!(is_int32_producing_expr(
        &binary(BinaryOp::BitOr, get(2), num(0)),
        &known,
        &none,
        &none,
        &none
    ));
    let body = vec![
        declare(1, Type::Number, true, Some(num(0))),
        declare(2, Type::Number, true, Some(num(0))),
        Stmt::Expr(Expr::LocalSet(1, Box::new(binary(BinaryOp::BitOr, get(1), num(0))))),
        Stmt::Expr(Expr::LocalSet(2, Box::new(binary(BinaryOp::Div, get(1), num(2))))),
    ];
    let found = collect_integer_locals(&body, &none, &none);
    assert!(found.contains(&1));
    assert!(!found.contains(&2));
    let mut assigned = HashSet::new();
    collect_localset_ids_in_stmts(&body, &mut assigned);
    assert_eq!(assigned, ids(&[1, 2]));
}

#[test]
fn clamps_are_recognised() {
    let clamp = function(
        vec![1, 2, 3],
        Type::Number,
        vec![
            guard(CompareOp::Lt, get(1), get(2), get(2)),
            guard(CompareOp::Gt, get(1), get(3), get(3)),
            ret(get(1)),
        ],
    );
    assert_eq!(detect_clamp3(&clamp), Some((1, 2, 3)));
    let byte = |last: Expr| {
        function(
            vec![1],
            Type::Number,
            vec![
                guard(CompareOp::Lt, get(1), num(0), num(0)),
                guard(CompareOp::Gt, get(1), num(255), num(255)),
                ret(last),
            ],
        )
    };
    assert!(detect_clamp_u8(&byte(binary(BinaryOp::BitOr, get(1), num(0)))));
    assert!(!detect_clamp_u8(&byte(get(1))));
    assert!(!detect_clamp_u8(&clamp));
    assert_eq!(detect_clamp3(&byte(get(1))), None);
}

fn fibonacci() -> Function {
    let call = |k: i64| Expr::Call {
        callee: Box::new(Expr::FuncRef(7)),
        args: vec![binary(BinaryOp::Sub, get(1), num(k))],
    };
    function(
        vec![1],
        Type::Number,
        vec![
            guard(CompareOp::Le, get(1), num(1), get(1)),
            ret(binary(BinaryOp::Add, call(1), call(2))),
        ],
    )
}

#[test]
fn recursive_functions_are_specialised() {
    let f = fibonacci();
    assert!(is_integer_specializable(&f));
    let mut generator = fibonacci();
    generator.is_generator = true;
    assert!(!is_integer_specializable(&generator));
    assert!(returns_integer(&function(
        vec![1],
        Type::Number,
        vec![ret(binary(BinaryOp::BitAnd, get(1), num(1)))]
    )));
    assert!(!returns_integer(&function(vec![1], Type::Number, vec![ret(get(1))])));

    let mut module = LlModule::new(Platform::Linux);
    emit_i64_function(&mut module, &f, "fib_i64");
    assert_eq!(module.functions.len(), 1);
    assert_eq!(module.functions[0].name, "fib_i64");
    assert!(module.functions[0].blocks.len() >= 3);
}

#[test]
fn pointer_locals_get_slots_in_order() {
    let params = vec![
        Param { id: 10, ty: Type::Number },
        Param { id: 11, ty: Type::String },
    ];
    let body = vec![
        declare(12, Type::Int32, false, None),
        declare(13, Type::Array, false, None),
    ];
    let slots = collect_pointer_typed_locals(&params, &body);
    assert_eq!(slots.get(&11), Some(&0));
    assert_eq!(slots.get(&13), Some(&1));
    assert_eq!(slots.get(&10), None);
    assert_eq!(slots.get(&12), None);
}

fn class(name: &str, extends: Option<&str>, getters: &[&str], constructor: Vec<Stmt>) -> Class {
    Class {
        name: name.to_string(),
        extends_name: extends.map(|s| s.to_string()),
        fields: vec![ClassField { name: "x".to_string(), init: None }],
        constructor: Some(function(vec![], Type::Void, constructor)),
        getters: getters.iter().map(|s| s.to_string()).collect(),
        setters: vec!["w".to_string()],
    }
}

#[test]
fn members_are_inherited() {
    let classes = vec![
        class("Base", None, &["g"], vec![]),
        class("Derived", Some("Base"), &[], vec![]),
    ];
    assert!(find_class(&classes, "Base").is_some());
    assert!(find_class(&classes, "None").is_none());
    assert!(is_class_getter(&classes, "Derived", "g"));
    assert!(!is_class_getter(&classes, "Derived", "h"));
    assert!(is_class_setter(&classes, "Derived", "w"));
    assert!(!class_uses_this_as_value(&classes[1], &classes));
    let leaks = vec![class(
        "Leaks",
        None,
        &[],
        vec![Stmt::Expr(Expr::Call { callee: Box::new(Expr::FuncRef(1)), args: vec![Expr::This] })],
    )];
    assert!(class_uses_this_as_value(&leaks[0], &leaks));
}

#[test]
fn circles_of_classes_are_gone_round_once() {
    let classes = vec![class("A", Some("B"), &[], vec![]), class("B", Some("A"), &["g"], vec![])];
    assert!(is_class_getter(&classes, "A", "g"));
    assert!(!is_class_getter(&classes, "A", "h"));
    assert!(!class_uses_this_as_value(&classes[0], &classes));
}

#[test]
fn objects_that_stay_local_are_kept_apart() {
    let none = HashSet::new();
    let globals: HashMap<u32, String> = HashMap::new();
    let classes = vec![class("P", None, &[], vec![])];
    let new = || Expr::New { class_name: "P".to_string(), args: vec![] };
    let body = vec![
        declare(1, Type::Named, false, Some(new())),
        declare(2, Type::Named, false, Some(new())),
        Stmt::Expr(property(get(1), "x")),
        ret(get(2)),
    ];
    let kept = collect_non_escaping_news(&body, &none, &globals, &classes);
    assert_eq!(kept.get(&1), Some(&"P".to_string()));
    assert!(!kept.contains_key(&2));
    assert!(!collect_non_escaping_news(&body, &ids(&[1]), &globals, &classes).contains_key(&1));
    for (op, escapes) in [(LocalOp::ArrayUnshift, false), (LocalOp::ArrayPush, true)] {
        let body = vec![
            declare(1, Type::Named, false, Some(new())),
            Stmt::Expr(Expr::OnLocal { op, id: 1, operands: vec![num(0)] }),
        ];
        let kept = collect_non_escaping_news(&body, &none, &globals, &classes);
        assert_eq!(kept.contains_key(&1), !escapes);
    }
}

#[test]
fn arrays_that_stay_local_are_kept_apart() {
    let none = HashSet::new();
    let globals: HashMap<u32, String> = HashMap::new();
    let array = |n: i64| Expr::Array((0..n).map(num).collect());
    let body = vec![
        declare(1, Type::Array, false, Some(array(3))),
        declare(2, Type::Array, false, Some(array(3))),
        declare(3, Type::Array, false, Some(array(17))),
        declare(4, Type::Array, false, Some(array(0))),
        Stmt::Expr(index_get(get(1), num(2))),
        Stmt::Expr(index_get(get(2), num(3))),
    ];
    let kept = collect_non_escaping_arrays(&body, &none, &globals);
    assert_eq!(kept.get(&1), Some(&3));
    assert_eq!(kept.len(), 1);
    assert_eq!(const_index(&num(4)), Some(4));
    assert_eq!(const_index(&num(-1)), None);
    assert_eq!(const_index(&Expr::Number(2.0f64.to_bits())), Some(2));
    assert_eq!(const_index(&Expr::Number(2.5f64.to_bits())), None);
}

#[test]
fn object_literals_that_stay_local_are_kept_apart() {
    let none = HashSet::new();
    let globals: HashMap<u32, String> = HashMap::new();
    let object = || {
        Expr::Object(vec![
            ("b".to_string(), num(1)),
            ("a".to_string(), num(2)),
            ("b".to_string(), num(3)),
        ])
    };
    let body = vec![
        declare(1, Type::Object, false, Some(object())),
        declare(2, Type::Object, false, Some(object())),
        Stmt::Expr(property(get(1), "a")),
        Stmt::Expr(property(get(2), "missing")),
    ];
    let kept = collect_non_escaping_object_literals(&body, &none, &globals);
    assert_eq!(kept.get(&1), Some(&vec!["b".to_string(), "a".to_string()]));
    assert!(!kept.contains_key(&2));
    let unknown = vec![
        declare(1, Type::Object, false, Some(object())),
        Stmt::Expr(Expr::Node { op: Op::Other, operands: vec![] }),
    ];
    assert!(collect_non_escaping_object_literals(&unknown, &none, &globals).is_empty());
}

#[test]
fn locals_are_found_in_expressions() {
    assert!(expr_contains_local_get(&binary(BinaryOp::Mul, num(1), get(6)), 6));
    assert!(!expr_contains_local_get(&binary(BinaryOp::Mul, num(1), get(6)), 7));
}

#[test]
fn doubles_are_read_by_their_bits() {
    for (value, index) in [(0.0, Some(0)), (1.0, Some(1)), (4096.0, Some(4096)), (0.5, None), (-1.0, None)] {
        assert_eq!(index_of(f64::to_bits(value)), index);
    }
    for value in [0.0, -0.0, 1.5, -1.5, 1e18, -1e18, 1e300, -1e300, f64::NAN, f64::INFINITY] {
        assert_eq!(integer_of(f64::to_bits(value)), value as i64);
    }
}

#[test]
fn the_first_declaration_counts() {
    let mut m = LlModule::new(Platform::Linux);
    m.declare_function("f", I64, &[PTR, I32]);
    m.declare_function("f", VOID, &[]);
    m.declare_function("g", DOUBLE, &[]);
    assert_eq!(m.declarations.len(), 2);
    assert_eq!(m.declarations[0].result, I64);
    assert_eq!(m.declarations[0].params, vec![PTR, I32]);
}

#[test]
fn phases_declare_the_runtime() {
    let mut m = LlModule::new(Platform::Linux);
    declare_phase1(&mut m);
    let named = |m: &LlModule, name: &str| m.declarations.iter().any(|d| d.name == name);
    assert!(named(&m, "js_gc_init"));
    assert!(named(&m, "js_console_log_dynamic"));
    let n = m.declarations.len();
    let names: HashSet<&str> = m.declarations.iter().map(|d| d.name.as_str()).collect();
    assert_eq!(names.len(), n);
    declare_phase1(&mut m);
    assert_eq!(m.declarations.len(), n);
    let mut ffi = LlModule::new(Platform::Windows);
    declare_stdlib_ffi(&mut ffi);
    assert!(!ffi.declarations.is_empty());
    assert!(ffi.declarations.iter().all(|d| named(&m, &d.name)));
}
