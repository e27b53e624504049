use reactive_transform::ast::{Ident, Lit, MemberProp, Node, VarKind};
use reactive_transform::scope::{collect, collect_params};
use reactive_transform::suspend::is_async;

fn name(sym: &str) -> Ident {
    Ident { sym: sym.to_string(), ctxt: 0 }
}

fn names(syms: &[&str]) -> Vec<Ident> {
    syms.iter().map(|s| name(s)).collect()
}

fn var(sym: &str) -> Node {
    Node::Ident(name(sym))
}

fn number(text: &str) -> Node {
    Node::Lit(Lit::Num(text.to_string()))
}

fn invoke(callee: Node, args: Vec<Node>) -> Node {
    Node::Call { callee: Box::new(callee), args }
}

fn dot(obj: Node, prop: &str) -> Node {
    Node::Member { obj: Box::new(obj), prop: MemberProp::Ident(prop.to_string()) }
}

fn log(args: Vec<Node>) -> Node {
    Node::ExprStmt(Box::new(invoke(dot(var("console"), "log"), args)))
}

fn declare(kind: VarKind, pattern: Node, init: Option<Node>) -> Node {
    Node::VarDecl {
        kind,
        decls: vec![Node::Declarator { name: Box::new(pattern), init: init.map(Box::new) }],
    }
}

fn function(params: Vec<Node>, body: Vec<Node>) -> Node {
    Node::Fn { name: None, params, body, is_async: false, is_generator: false }
}

fn function_decl(sym: &str, params: Vec<Node>, body: Vec<Node>) -> Node {
    Node::FnDecl { name: name(sym), params, body, is_async: false, is_generator: false }
}

fn lambda(params: Vec<Node>, body: Node) -> Node {
    Node::Arrow { params, body: Box::new(body), is_async: false }
}

/// A statement of a kind that the analysis does not tell apart.
fn other(children: Vec<Node>) -> Node {
    Node::Other { tag: 3, children }
}

fn free(subtree: &Node) -> Vec<Ident> {
    collect(subtree, &vec![], false).used
}

// ---- parameters ----

#[test]
fn parameters_declare_plain_names() {
    assert_eq!(collect_params(&vec![var("a"), var("b"), var("a")], false), names(&["a", "b"]));
}

#[test]
fn parameters_start_with_this_where_the_scope_binds_it() {
    assert_eq!(collect_params(&vec![var("a")], true), names(&["this", "a"]));
    assert_eq!(collect_params(&vec![], true), names(&["this"]));
    assert_eq!(collect_params(&vec![], false), names(&[]));
}

#[test]
fn array_patterns_declare_names_through_nested_arrays_and_past_holes() {
    let pattern = Node::ArrayPat(vec![
        var("a"),
        Node::Hole,
        Node::ArrayPat(vec![var("b"), Node::ArrayPat(vec![Node::Hole, var("c")])]),
        Node::ObjectPat(vec![Node::AssignPatProp { key: name("skipped"), value: None }]),
    ]);
    assert_eq!(collect_params(&vec![pattern], false), names(&["a", "b", "c"]));
}

#[test]
fn object_patterns_declare_values_shorthands_and_rest() {
    let pattern = Node::ObjectPat(vec![
        Node::KeyValuePatProp { key: Box::new(var("b")), value: Box::new(var("_3")) },
        Node::AssignPatProp { key: name("title"), value: Some(Box::new(number("1"))) },
        Node::RestPat(Box::new(var("others"))),
        Node::KeyValuePatProp {
            key: Box::new(var("deep")),
            value: Box::new(Node::ArrayPat(vec![var("skipped")])),
        },
    ]);
    assert_eq!(collect_params(&vec![pattern], false), names(&["_3", "title", "others"]));
}

#[test]
fn rest_parameter_declares_its_name() {
    let params = vec![var("e"), Node::RestPat(Box::new(var("_4")))];
    assert_eq!(collect_params(&params, false), names(&["e", "_4"]));
    let odd = vec![Node::RestPat(Box::new(Node::ArrayPat(vec![var("x")])))];
    assert_eq!(collect_params(&odd, false), names(&[]));
}

// ---- free variables ----

#[test]
fn free_variables_come_in_the_order_of_their_first_read() {
    // console.log(a, x + y); return x + 1;
    let body = Node::Block(vec![
        log(vec![var("a"), other(vec![var("x"), var("y")])]),
        Node::Return(Some(Box::new(other(vec![var("x"), number("1")])))),
    ]);
    assert_eq!(collect(&body, &names(&["a"]), false).used, names(&["console", "x", "y"]));
    assert_eq!(free(&body), names(&["console", "a", "x", "y"]));
}

#[test]
fn identifiers_are_told_apart_by_their_scope_token() {
    let inner = Node::Ident(Ident { sym: "x".to_string(), ctxt: 2 });
    let body = other(vec![var("x"), inner, var("x")]);
    assert_eq!(
        collect(&body, &names(&["x"]), false).used,
        vec![Ident { sym: "x".to_string(), ctxt: 2 }]
    );
}

#[test]
fn reserved_names_are_no_variables() {
    // console.log(null, undefined, this, globalThis, window, self, NaN, Infinity, use)
    let body = log(vec![
        Node::Lit(Lit::Null),
        var("undefined"),
        Node::This,
        var("globalThis"),
        var("window"),
        var("self"),
        var("NaN"),
        var("Infinity"),
        var("use"),
        var("Window"),
    ]);
    assert_eq!(free(&body), names(&["console", "this", "Window"]));
}

#[test]
fn this_is_free_unless_the_scope_binds_it() {
    let body = other(vec![Node::This, Node::This]);
    assert_eq!(collect(&body, &vec![], false).used, names(&["this"]));
    assert_eq!(collect(&body, &vec![], true).used, names(&[]));
}

#[test]
fn this_inside_a_function_belongs_to_the_function() {
    let body = Node::Block(vec![
        Node::ExprStmt(Box::new(function(vec![], vec![log(vec![Node::This])]))),
        function_decl("f", vec![var("a")], vec![log(vec![Node::This, var("a")])]),
    ]);
    assert_eq!(free(&body), names(&["console"]));
}

#[test]
fn this_inside_an_arrow_function_is_that_of_the_scope_around() {
    let body = lambda(vec![], dot(Node::This, "value"));
    assert_eq!(free(&body), names(&["this"]));
}

#[test]
fn this_inside_a_class_body_belongs_to_the_class() {
    // class MyClass extends ParentClass { y = this.x; method(p) { this; p; q } }
    let class = Node::ClassDecl {
        name: name("MyClass"),
        super_class: Some(Box::new(var("ParentClass"))),
        body: vec![
            other(vec![dot(Node::This, "x")]),
            other(vec![function(vec![var("p")], vec![log(vec![Node::This, var("p"), var("q")])])]),
        ],
    };
    let body = Node::Block(vec![class, log(vec![var("MyClass")])]);
    assert_eq!(free(&body), names(&["ParentClass", "console", "q"]));
}

#[test]
fn declaration_counts_for_the_whole_scope() {
    // console.log(x); const x = 1; f(); function f() {}
    let body = Node::Block(vec![
        log(vec![var("x")]),
        declare(VarKind::Const, var("x"), Some(number("1"))),
        Node::ExprStmt(Box::new(invoke(var("f"), vec![]))),
        function_decl("f", vec![], vec![]),
    ]);
    assert_eq!(free(&body), names(&["console"]));
}

#[test]
fn declaration_inside_a_statement_belongs_to_the_scope_of_the_statement() {
    // for (let i = 0; i < n; i++) { i; }  i;
    let head = declare(VarKind::Let, var("i"), Some(number("0")));
    let looping = other(vec![
        head,
        other(vec![var("i"), var("n")]),
        Node::Block(vec![Node::ExprStmt(Box::new(var("i")))]),
    ]);
    let body = Node::Block(vec![looping, Node::ExprStmt(Box::new(var("i")))]);
    assert_eq!(free(&body), names(&["n"]));
}

#[test]
fn block_keeps_its_declarations_to_itself() {
    // { const inner1 = 1; const inner2 = 2; console.log(inner1, inner2, outer1); }
    // console.log(inner1);
    let block = Node::Block(vec![
        declare(VarKind::Const, var("inner1"), Some(number("1"))),
        declare(VarKind::Const, var("inner2"), Some(number("2"))),
        log(vec![var("inner1"), var("inner2"), var("outer1")]),
    ]);
    let body = Node::Block(vec![block, log(vec![var("inner1")])]);
    assert_eq!(free(&body), names(&["console", "outer1", "inner1"]));
}

#[test]
fn block_that_shadows_a_name_reports_no_read_of_it() {
    // the closure reads `x` only inside the block that declares it
    let block = Node::Block(vec![
        declare(VarKind::Let, var("x"), Some(var("y"))),
        log(vec![var("x")]),
    ]);
    let closure_body = Node::Block(vec![block, log(vec![var("z")])]);
    assert_eq!(free(&closure_body), names(&["y", "console", "z"]));
}

#[test]
fn catch_clause_binds_its_parameter() {
    // try {} catch (e1) { console.log(e1); }  console.log(e1);
    let handler = Node::Catch { param: Some(Box::new(var("e1"))), body: vec![log(vec![var("e1")])] };
    let attempt = other(vec![Node::Block(vec![]), handler]);
    assert_eq!(free(&Node::Block(vec![attempt.duplicate()])), names(&["console"]));
    let body = Node::Block(vec![attempt, log(vec![var("e1")])]);
    assert_eq!(free(&body), names(&["console", "e1"]));
}

#[test]
fn nested_functions_bind_their_parameters() {
    // const _fn = function([fn4]) {
    //     const fn5 = 5;
    //     function innerFn(fn7) { console.log(fn4, fn5, fn7, fn8); }
    //     console.log(fn4, fn5, fn6);
    // };
    let inner = function_decl(
        "innerFn",
        vec![var("fn7")],
        vec![log(vec![var("fn4"), var("fn5"), var("fn7"), var("fn8")])],
    );
    let outer = function(
        vec![Node::ArrayPat(vec![var("fn4")])],
        vec![
            declare(VarKind::Const, var("fn5"), Some(number("5"))),
            inner,
            log(vec![var("fn4"), var("fn5"), var("fn6")]),
        ],
    );
    let body = Node::Block(vec![declare(VarKind::Const, var("_fn"), Some(outer))]);
    assert_eq!(free(&body), names(&["console", "fn8", "fn6"]));
}

#[test]
fn parameters_of_a_function_are_not_walked() {
    // function (a = b) { return a; }
    let default = other(vec![var("a"), var("b")]);
    let f = function(vec![default], vec![Node::Return(Some(Box::new(var("a"))))]);
    assert_eq!(free(&f), names(&["a"]));
}

#[test]
fn destructuring_declares_what_it_binds() {
    // const { console } = globalThis; const [p, [q]] = r; console.log(p, q, s);
    let body = Node::Block(vec![
        declare(
            VarKind::Const,
            Node::ObjectPat(vec![Node::AssignPatProp { key: name("console"), value: None }]),
            Some(var("globalThis")),
        ),
        declare(
            VarKind::Const,
            Node::ArrayPat(vec![var("p"), Node::ArrayPat(vec![var("q")])]),
            Some(var("r")),
        ),
        log(vec![var("p"), var("q"), var("s")]),
    ]);
    assert_eq!(free(&body), names(&["r", "s"]));
}

#[test]
fn names_in_an_unrecognized_pattern_count_as_reads() {
    // const { a: { b } } = c;
    let nested = Node::ObjectPat(vec![Node::AssignPatProp { key: name("b"), value: None }]);
    let pattern = Node::ObjectPat(vec![Node::KeyValuePatProp {
        key: Box::new(Node::Lit(Lit::Str("a".to_string()))),
        value: Box::new(nested),
    }]);
    let body = Node::Block(vec![declare(VarKind::Const, pattern, Some(var("c")))]);
    assert_eq!(free(&body), names(&["b", "c"]));
}

#[test]
fn enum_declares_its_name_and_hides_its_members() {
    // enum Color { Red = one }  console.log(Color.Red);
    let body = Node::Block(vec![
        Node::EnumDecl { name: name("Color"), members: vec![other(vec![var("one")])] },
        log(vec![dot(var("Color"), "Red")]),
    ]);
    assert_eq!(free(&body), names(&["console"]));
}

#[test]
fn type_only_nodes_and_element_names_are_passed_over() {
    let element = Node::Element {
        name: Box::new(var("BaseComponent")),
        attrs: vec![Node::Attr {
            name: reactive_transform::ast::AttrName::Plain("title".to_string()),
            value: Some(Box::new(Node::Container(Some(Box::new(var("t")))))),
        }],
        children: vec![Node::Container(Some(Box::new(var("c")))), Node::Text("x".to_string())],
    };
    let body = Node::Block(vec![Node::TypeOnly(4), Node::ExprStmt(Box::new(element))]);
    assert_eq!(free(&body), names(&["t", "c"]));
}

#[test]
fn capture_declaration_is_found_anywhere() {
    let plain = Node::Block(vec![log(vec![var("x")])]);
    assert!(!collect(&plain, &vec![], false).has_custom_use);

    // () => { if (c) { later(() => use(x)); } }
    let nested = Node::Block(vec![other(vec![
        var("c"),
        Node::Block(vec![Node::ExprStmt(Box::new(invoke(
            var("later"),
            vec![lambda(vec![], invoke(var("USE"), vec![var("x")]))],
        )))]),
    ])]);
    let found = collect(&nested, &vec![], false);
    assert!(found.has_custom_use);
    assert_eq!(found.used, names(&["c", "later"]));
}

#[test]
fn capture_declaration_by_another_callee_is_none() {
    let body = Node::Block(vec![Node::ExprStmt(Box::new(invoke(
        dot(var("hooks"), "use"),
        vec![var("x")],
    )))]);
    let found = collect(&body, &vec![], false);
    assert!(!found.has_custom_use);
    assert_eq!(found.used, names(&["hooks", "x"]));
}

// ---- suspend points ----

#[test]
fn await_is_a_suspend_point() {
    let e = Node::Await(Box::new(invoke(var("x"), vec![var("y")])));
    assert!(is_async(&e));
    assert!(is_async(&other(vec![number("1"), Node::Paren(Box::new(e.duplicate()))])));
    assert!(is_async(&invoke(var("f"), vec![var("a"), Node::Spread(Box::new(e))])));
}

#[test]
fn expression_without_await_has_no_suspend_point() {
    assert!(!is_async(&var("x")));
    assert!(!is_async(&other(vec![var("x"), number("1")])));
    assert!(!is_async(&invoke(dot(var("a"), "b"), vec![])));
}

#[test]
fn await_inside_a_nested_function_is_no_suspend_point() {
    let waiting = Node::Await(Box::new(var("p")));
    let arrow = Node::Arrow { params: vec![], body: Box::new(waiting.duplicate()), is_async: true };
    assert!(!is_async(&arrow));
    assert!(!is_async(&invoke(Node::Paren(Box::new(arrow)), vec![])));
    let f = Node::Fn {
        name: None,
        params: vec![],
        body: vec![Node::ExprStmt(Box::new(waiting.duplicate()))],
        is_async: true,
        is_generator: false,
    };
    assert!(!is_async(&other(vec![f])));
    let decl = Node::FnDecl {
        name: name("g"),
        params: vec![],
        body: vec![Node::ExprStmt(Box::new(waiting))],
        is_async: true,
        is_generator: false,
    };
    assert!(!is_async(&Node::Block(vec![decl])));
}

#[test]
fn parameters_come_in_the_order_in_which_they_are_bound() {
    // (e, [_1, _2], { b: _3 }, ..._4) => 0
    let params = vec![
        var("e"),
        Node::ArrayPat(vec![var("_1"), var("_2")]),
        Node::ObjectPat(vec![Node::KeyValuePatProp {
            key: Box::new(var("b")),
            value: Box::new(var("_3")),
        }]),
        Node::RestPat(Box::new(var("_4"))),
    ];
    assert_eq!(collect_params(&params, false), names(&["e", "_1", "_2", "_3", "_4"]));
    assert_eq!(collect_params(&params, true), names(&["this", "e", "_1", "_2", "_3", "_4"]));
}

#[test]
fn nested_arrays_bind_and_holes_do_not() {
    // ([[a]], [, b]) => 0
    let params = vec![
        Node::ArrayPat(vec![Node::ArrayPat(vec![var("a")])]),
        Node::ArrayPat(vec![Node::Hole, var("b")]),
    ];
    assert_eq!(collect_params(&params, false), names(&["a", "b"]));
}

#[test]
fn name_bound_twice_stands_where_it_is_first_bound() {
    let params = vec![var("b"), Node::ArrayPat(vec![var("a"), var("b")]), var("this"), var("a")];
    assert_eq!(collect_params(&params, false), names(&["b", "a", "this"]));
    assert_eq!(collect_params(&params, true), names(&["this", "b", "a"]));
}

// ---- the collector with a running list ----

use reactive_transform::scope::VariableCollector;

#[test]
fn fresh_collector_has_found_nothing() {
    let collector = VariableCollector::new();
    assert!(!collector.has_custom_use);
    assert_eq!(collector.used_variables, names(&[]));
    assert_eq!(collector.variable_declarations, names(&[]));
}

#[test]
fn nested_scope_adds_to_the_running_list() {
    // found so far: u, a; declared: d; the scope (p) => { const l = 1; f(u, d, p, l, n, a, n); }
    let mut collector = VariableCollector {
        has_custom_use: false,
        used_variables: names(&["u", "a"]),
        variable_declarations: names(&["d"]),
    };
    let body = Node::Block(vec![
        declare(VarKind::Const, var("l"), Some(number("1"))),
        Node::ExprStmt(Box::new(invoke(
            var("f"),
            vec![var("u"), var("d"), var("p"), var("l"), var("n"), var("a"), var("n")],
        ))),
    ]);
    collector.visit_block_recursive(&vec![var("p")], &body, false);
    assert_eq!(collector.used_variables, names(&["u", "a", "f", "n"]));
    assert_eq!(collector.variable_declarations, names(&["d"]));
    assert!(!collector.has_custom_use);
}

#[test]
fn nested_scope_binds_this_where_it_is_told_to() {
    let body = Node::Block(vec![log(vec![Node::This])]);
    let mut with_this = VariableCollector::new();
    with_this.visit_block_recursive(&vec![], &body, true);
    assert_eq!(with_this.used_variables, names(&["console"]));
    let mut without = VariableCollector::new();
    without.visit_block_recursive(&vec![], &body, false);
    assert_eq!(without.used_variables, names(&["console", "this"]));
}

#[test]
fn nested_scope_hands_the_capture_declaration_up() {
    let body = Node::Block(vec![Node::ExprStmt(Box::new(invoke(var("use"), vec![var("x")])))]);
    let mut collector = VariableCollector::new();
    collector.visit_block_recursive(&vec![], &body, false);
    assert!(collector.has_custom_use);
    assert_eq!(collector.used_variables, names(&[]));
    let plain = Node::Block(vec![log(vec![var("y")])]);
    collector.visit_block_recursive(&vec![], &plain, false);
    assert!(collector.has_custom_use);
    assert_eq!(collector.used_variables, names(&["console", "y"]));
}
