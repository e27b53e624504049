use reactive_transform::ast::{AttrName, Ident, Lit, MemberProp, Node, VarKind};
use reactive_transform::markers::Wrap;
use reactive_transform::visitor::{TransformVisitor, UnsupportedPrivateName};

fn id(name: &str) -> Node {
    Node::Ident(Ident { sym: name.to_string(), ctxt: 0 })
}

fn num(text: &str) -> Node {
    Node::Lit(Lit::Num(text.to_string()))
}

fn string(text: &str) -> Node {
    Node::Lit(Lit::Str(text.to_string()))
}

/// A binary operation: a construct that the transform does not tell apart.
fn bin(left: Node, right: Node) -> Node {
    Node::Other { tag: 1, children: vec![left, right] }
}

fn call(callee: Node, args: Vec<Node>) -> Node {
    Node::Call { callee: Box::new(callee), args }
}

fn member(obj: Node, name: &str) -> Node {
    Node::Member { obj: Box::new(obj), prop: MemberProp::Ident(name.to_string()) }
}

fn index(obj: Node, key: Node) -> Node {
    Node::Member { obj: Box::new(obj), prop: MemberProp::Computed(Box::new(key)) }
}

fn arrow(params: Vec<Node>, body: Node) -> Node {
    Node::Arrow { params, body: Box::new(body), is_async: false }
}

fn async_arrow(params: Vec<Node>, body: Node) -> Node {
    Node::Arrow { params, body: Box::new(body), is_async: true }
}

fn paren(e: Node) -> Node {
    Node::Paren(Box::new(e))
}

fn container(e: Node) -> Node {
    Node::Container(Some(Box::new(e)))
}

fn text(t: &str) -> Node {
    Node::Text(t.to_string())
}

fn element(name: &str, attrs: Vec<Node>, children: Vec<Node>) -> Node {
    Node::Element { name: Box::new(id(name)), attrs, children }
}

fn attr(name: &str, value: Node) -> Node {
    Node::Attr { name: AttrName::Plain(name.to_string()), value: Some(Box::new(value)) }
}

fn frontend_attr(ns: &str, value: Node) -> Node {
    Node::Attr {
        name: AttrName::Namespaced { ns: ns.to_string(), name: "frontend".to_string() },
        value: Some(Box::new(value)),
    }
}

/// The capture declaration that the closure transformer injects.
fn capture(vars: Vec<Node>) -> Node {
    call(id("use"), vars)
}

fn stmt(e: Node) -> Node {
    Node::ExprStmt(Box::new(e))
}

fn ret(e: Node) -> Node {
    Node::Return(Some(Box::new(e)))
}

fn konst(name: &str, init: Node) -> Node {
    Node::VarDecl {
        kind: VarKind::Const,
        decls: vec![Node::Declarator { name: Box::new(id(name)), init: Some(Box::new(init)) }],
    }
}

fn classify(e: &Node, wrap: Wrap) -> Node {
    TransformVisitor.transform_expr_reactive(e, wrap).unwrap()
}

fn fold(n: &Node) -> Node {
    TransformVisitor.fold(n).unwrap()
}

fn x_plus_1() -> Node {
    bin(id("x"), num("1"))
}

// ---- the classifier ----

#[test]
fn literals_identifiers_and_elements_pass_through() {
    let cases = vec![
        num("42"),
        string("hello"),
        Node::Lit(Lit::Bool(true)),
        Node::Lit(Lit::Null),
        id("x"),
        Node::This,
        element("div", vec![], vec![container(x_plus_1())]),
        paren(id("x")),
    ];
    for e in cases {
        assert_eq!(classify(&e, Wrap::Always), e);
        assert_eq!(classify(&e, Wrap::Reactive), e);
    }
}

#[test]
fn closures_pass_through() {
    let a = arrow(vec![id("item")], x_plus_1());
    assert_eq!(classify(&a, Wrap::Reactive), a);

    let f = Node::Fn {
        name: None,
        params: vec![],
        body: vec![ret(x_plus_1())],
        is_async: false,
        is_generator: false,
    };
    assert_eq!(classify(&f, Wrap::Reactive), f);
}

#[test]
fn member_access_becomes_accessor_call() {
    let e = member(id("x"), "title");
    assert_eq!(classify(&e, Wrap::Reactive), call(id("prop"), vec![id("x"), string("title")]));
}

#[test]
fn member_access_in_parentheses_becomes_accessor_call() {
    let e = paren(member(id("x"), "title"));
    assert_eq!(classify(&e, Wrap::Reactive), call(id("prop"), vec![id("x"), string("title")]));
}

#[test]
fn computed_member_access_keeps_its_key() {
    let e = index(id("x"), num("0"));
    assert_eq!(classify(&e, Wrap::Reactive), call(id("prop"), vec![id("x"), num("0")]));
}

#[test]
fn nested_member_access_is_rewritten_inside_out() {
    // x.y.z[0]
    let e = index(member(member(id("x"), "y"), "z"), num("0"));
    let xy = call(id("prop"), vec![id("x"), string("y")]);
    let xyz = call(id("prop"), vec![xy, string("z")]);
    assert_eq!(classify(&e, Wrap::Reactive), call(id("prop"), vec![xyz, num("0")]));
}

#[test]
fn object_of_member_access_is_wrapped_with_the_reactive_marker() {
    // (x + 1).y, classified at a call site
    let e = member(paren(x_plus_1()), "y");
    let object = call(id("_$"), vec![arrow(vec![], paren(x_plus_1()))]);
    assert_eq!(classify(&e, Wrap::Always), call(id("prop"), vec![object, string("y")]));
}

#[test]
fn member_of_value_accessor_is_left_alone() {
    let a = member(member(id("x"), "$"), "name");
    assert_eq!(classify(&a, Wrap::Reactive), a);
    let b = member(member(id("x"), "$$"), "name");
    assert_eq!(classify(&b, Wrap::Reactive), b);
}

#[test]
fn private_member_is_rejected() {
    let e = Node::Member {
        obj: Box::new(id("x")),
        prop: MemberProp::PrivateName("secret".to_string()),
    };
    assert_eq!(
        TransformVisitor.transform_expr_reactive(&e, Wrap::Reactive),
        Err(UnsupportedPrivateName { name: "secret".to_string() })
    );
}

#[test]
fn first_private_member_is_reported() {
    // x.#a.#b: the object is classified first
    let inner = Node::Member {
        obj: Box::new(id("x")),
        prop: MemberProp::PrivateName("a".to_string()),
    };
    let e = Node::Member { obj: Box::new(inner), prop: MemberProp::PrivateName("b".to_string()) };
    assert_eq!(
        TransformVisitor.transform_expr_reactive(&e, Wrap::Reactive),
        Err(UnsupportedPrivateName { name: "a".to_string() })
    );
}

#[test]
fn private_member_inside_a_wrapped_expression_is_accepted() {
    // x.#a + 1 is wrapped as a whole
    let private = Node::Member {
        obj: Box::new(id("x")),
        prop: MemberProp::PrivateName("a".to_string()),
    };
    let e = bin(private, num("1"));
    assert_eq!(classify(&e, Wrap::Reactive), call(id("_$"), vec![arrow(vec![], e.duplicate())]));
}

#[test]
fn private_member_in_an_interpolation_fails_the_pass() {
    let private = Node::Member {
        obj: Box::new(id("x")),
        prop: MemberProp::PrivateName("a".to_string()),
    };
    let tree = Node::Block(vec![stmt(element("div", vec![], vec![container(private)]))]);
    assert_eq!(
        TransformVisitor.fold(&tree),
        Err(UnsupportedPrivateName { name: "a".to_string() })
    );
}

#[test]
fn collection_method_becomes_tracked_method_call() {
    // array.map(item => item)
    let callback = arrow(vec![id("item")], id("item"));
    let e = call(member(id("array"), "map"), vec![callback.duplicate()]);
    assert_eq!(
        classify(&e, Wrap::Reactive),
        call(id("_$method"), vec![id("array"), string("map"), callback])
    );
}

#[test]
fn callback_of_collection_method_is_rewritten_by_the_pass() {
    // array.filter(item => <span>{item * x}</span>, keep, ...rest)
    let product = bin(id("item"), id("x"));
    let callback =
        arrow(vec![id("item")], element("span", vec![], vec![container(product.duplicate())]));
    let spread = Node::Spread(Box::new(arrow(vec![], always(x_plus_1()))));
    let e = call(
        member(id("array"), "filter"),
        vec![callback, always(num("1")), spread.duplicate()],
    );
    let reactive = call(id("_$"), vec![arrow(vec![], product)]);
    let rewritten = arrow(vec![id("item")], element("span", vec![], vec![container(reactive)]));
    assert_eq!(
        classify(&e, Wrap::Reactive),
        call(
            id("_$method"),
            vec![id("array"), string("filter"), rewritten, always(num("1")), spread]
        )
    );
}

#[test]
fn other_methods_are_wrapped() {
    let e = call(member(id("array"), "normalMethod"), vec![id("f")]);
    assert_eq!(classify(&e, Wrap::Reactive), call(id("_$"), vec![arrow(vec![], e.duplicate())]));
}

#[test]
fn calls_of_no_wrap_markers_are_left_alone() {
    for name in ["_$", "$", "$$", "prop", "_$method", "PROP", "_$Method"] {
        let e = call(id(name), vec![x_plus_1()]);
        assert_eq!(classify(&e, Wrap::Reactive), e);
        assert_eq!(classify(&e, Wrap::Always), e);
    }
}

#[test]
fn render_call_has_its_arguments_rewritten() {
    // renderBackend(<div>{x + 1}</div>, always(10))
    let e = call(
        id("renderBackend"),
        vec![element("div", vec![], vec![container(x_plus_1())]), always(num("10"))],
    );
    let reactive = call(id("_$"), vec![arrow(vec![], x_plus_1())]);
    assert_eq!(
        classify(&e, Wrap::Reactive),
        call(
            id("renderBackend"),
            vec![element("div", vec![], vec![container(reactive)]), call(id("$"), vec![num("10")])]
        )
    );
}

#[test]
fn always_call_in_a_slot_goes_to_the_call_site_rewrite() {
    assert_eq!(classify(&always(num("10")), Wrap::Reactive), call(id("$"), vec![num("10")]));
    assert_eq!(
        classify(&always(x_plus_1()), Wrap::Reactive),
        call(id("always"), vec![arrow(vec![], x_plus_1())])
    );
}

#[test]
fn expression_is_wrapped_by_default() {
    assert_eq!(
        classify(&x_plus_1(), Wrap::Always),
        call(id("always"), vec![arrow(vec![], x_plus_1())])
    );
    assert_eq!(
        classify(&x_plus_1(), Wrap::Reactive),
        call(id("_$"), vec![arrow(vec![], x_plus_1())])
    );
}

#[test]
fn wrapped_expression_keeps_its_parentheses() {
    let e = paren(x_plus_1());
    assert_eq!(classify(&e, Wrap::Reactive), call(id("_$"), vec![arrow(vec![], e.duplicate())]));
}

#[test]
fn suspending_expression_is_wrapped_and_awaited() {
    // await x(y)
    let e = Node::Await(Box::new(call(id("x"), vec![id("y")])));
    let wrapped = call(id("_$"), vec![async_arrow(vec![], e.duplicate())]);
    assert_eq!(classify(&e, Wrap::Reactive), Node::Await(Box::new(wrapped)));
}

#[test]
fn await_inside_a_nested_closure_does_not_suspend_the_wrap() {
    // (async () => await x(y))()
    let inner = async_arrow(vec![], Node::Await(Box::new(call(id("x"), vec![id("y")]))));
    let e = call(paren(inner), vec![]);
    assert_eq!(classify(&e, Wrap::Reactive), call(id("_$"), vec![arrow(vec![], e.duplicate())]));
}

#[test]
fn classifying_twice_changes_nothing_more() {
    let cases = vec![
        num("1"),
        id("x"),
        member(id("x"), "title"),
        index(member(id("x"), "y"), x_plus_1()),
        call(member(id("array"), "map"), vec![arrow(vec![id("item")], id("item"))]),
        call(id("$$"), vec![id("x")]),
        always(num("10")),
        always(x_plus_1()),
        always(member(id("x"), "y")),
        always(member(member(id("x"), "$"), "y")),
        x_plus_1(),
        call(id("f"), vec![id("x")]),
    ];
    for e in cases {
        for wrap in [Wrap::Always, Wrap::Reactive] {
            let once = classify(&e, wrap);
            assert_eq!(classify(&once, wrap), once);
        }
    }
}

// ---- the call-site rewrite ----

fn always(arg: Node) -> Node {
    call(id("always"), vec![arg])
}

fn rewrite_call(c: &Node) -> Node {
    TransformVisitor.fold_call_expr(c).unwrap()
}

#[test]
fn always_of_a_constant_becomes_stable_call() {
    assert_eq!(rewrite_call(&always(num("10"))), call(id("$"), vec![num("10")]));
    assert_eq!(rewrite_call(&always(id("x"))), call(id("$"), vec![id("x")]));
    assert_eq!(rewrite_call(&always(Node::This)), call(id("$"), vec![Node::This]));
    assert_eq!(rewrite_call(&always(paren(num("10")))), call(id("$"), vec![paren(num("10"))]));
}

#[test]
fn always_is_matched_without_regard_to_case() {
    assert_eq!(rewrite_call(&call(id("Always"), vec![num("10")])), call(id("$"), vec![num("10")]));
    assert_eq!(
        rewrite_call(&call(paren(id("ALWAYS")), vec![x_plus_1()])),
        call(id("always"), vec![arrow(vec![], x_plus_1())])
    );
}

#[test]
fn always_of_an_element_rewrites_the_element() {
    let e = always(element("div", vec![], vec![container(x_plus_1())]));
    let reactive = call(id("_$"), vec![arrow(vec![], x_plus_1())]);
    assert_eq!(
        rewrite_call(&e),
        call(id("$"), vec![element("div", vec![], vec![container(reactive)])])
    );
}

#[test]
fn always_without_arguments_gets_a_null_placeholder() {
    assert_eq!(rewrite_call(&call(id("always"), vec![])), call(id("$"), vec![Node::Lit(Lit::Null)]));
}

#[test]
fn always_of_a_closure_is_left_alone() {
    let a = always(arrow(vec![], x_plus_1()));
    assert_eq!(rewrite_call(&a), a);
    let f = always(Node::Fn {
        name: None,
        params: vec![],
        body: vec![ret(x_plus_1())],
        is_async: false,
        is_generator: false,
    });
    assert_eq!(rewrite_call(&f), f);
}

#[test]
fn always_of_an_expression_wraps_it() {
    assert_eq!(
        rewrite_call(&always(bin(id("y"), num("2")))),
        call(id("always"), vec![arrow(vec![], bin(id("y"), num("2")))])
    );
}

#[test]
fn always_adopts_the_call_that_the_classifier_returns() {
    assert_eq!(
        rewrite_call(&always(member(id("x"), "y"))),
        call(id("prop"), vec![id("x"), string("y")])
    );
    let callback = arrow(vec![id("a")], bin(id("a"), num("2")));
    assert_eq!(
        rewrite_call(&always(call(member(id("arr"), "map"), vec![callback.duplicate()]))),
        call(id("_$method"), vec![id("arr"), string("map"), callback])
    );
    assert_eq!(rewrite_call(&always(always(num("1")))), call(id("$"), vec![num("1")]));
}

#[test]
fn always_wraps_what_the_classifier_leaves_alone() {
    // always(x.$.y)
    let manual = member(member(id("x"), "$"), "y");
    assert_eq!(
        rewrite_call(&always(manual.duplicate())),
        call(id("always"), vec![arrow(vec![], manual)])
    );
}

#[test]
fn always_of_a_suspending_expression_is_wrapped_without_await() {
    let e = Node::Await(Box::new(call(id("f"), vec![])));
    assert_eq!(
        rewrite_call(&always(e.duplicate())),
        call(id("always"), vec![arrow(vec![], e)])
    );
}

#[test]
fn other_calls_have_their_children_rewritten() {
    // normalCallback(() => { return always(1); }, <a>{x + 1}</a>)
    let e = call(
        id("normalCallback"),
        vec![
            arrow(vec![], Node::Block(vec![ret(always(num("1")))])),
            element("a", vec![], vec![container(x_plus_1())]),
        ],
    );
    let reactive = call(id("_$"), vec![arrow(vec![], x_plus_1())]);
    assert_eq!(
        rewrite_call(&e),
        call(
            id("normalCallback"),
            vec![
                arrow(vec![], Node::Block(vec![ret(call(id("$"), vec![num("1")]))])),
                element("a", vec![], vec![container(reactive)]),
            ]
        )
    );
}

#[test]
fn run_and_render_frontend_make_their_closure_transferable() {
    for name in ["run", "renderFrontend", "RUN", "renderfrontend"] {
        let e = call(id(name), vec![arrow(vec![], x_plus_1())]);
        let body = Node::Block(vec![stmt(capture(vec![id("x")])), ret(x_plus_1())]);
        assert_eq!(rewrite_call(&e), call(id(name), vec![arrow(vec![], body)]));
    }
}

#[test]
fn run_without_a_closure_is_left_alone() {
    let e = call(id("run"), vec![always(num("1"))]);
    assert_eq!(rewrite_call(&e), e);
}

#[test]
fn first_argument_defaults_to_null() {
    assert_eq!(TransformVisitor::get_first_arg(&call(id("f"), vec![])), Node::Lit(Lit::Null));
    assert_eq!(TransformVisitor::get_first_arg(&call(id("f"), vec![id("a"), id("b")])), id("a"));
    assert_eq!(TransformVisitor::get_first_arg(&call(id("f"), vec![Node::Spread(Box::new(id("a")))])), id("a"));
}

// ---- the closure transformer ----

#[test]
fn capture_declaration_is_injected() {
    // (c) => { console.log(a, c); return b + a; }
    let log = call(member(id("console"), "log"), vec![id("a"), id("c")]);
    let closure = arrow(vec![id("c")], Node::Block(vec![stmt(log.duplicate()), ret(bin(id("b"), id("a")))]));
    let declared = stmt(capture(vec![id("console"), id("a"), id("b")]));
    let expected =
        arrow(vec![id("c")], Node::Block(vec![declared, stmt(log), ret(bin(id("b"), id("a")))]));
    let once = TransformVisitor::transform_transferable_closure(&closure);
    assert_eq!(once, expected);
    assert_eq!(TransformVisitor::transform_transferable_closure(&once), once);
}

#[test]
fn capture_declaration_lists_two_free_variables() {
    // () => { const c = a; return b + c; }
    let closure =
        arrow(vec![], Node::Block(vec![konst("c", id("a")), ret(bin(id("b"), id("c")))]));
    let expected = arrow(
        vec![],
        Node::Block(vec![
            stmt(capture(vec![id("a"), id("b")])),
            konst("c", id("a")),
            ret(bin(id("b"), id("c"))),
        ]),
    );
    let once = TransformVisitor::transform_transferable_closure(&closure);
    assert_eq!(once, expected);
    assert_eq!(TransformVisitor::transform_transferable_closure(&once), once);
}

#[test]
fn expression_body_becomes_a_return_statement() {
    let closure = arrow(vec![id("x")], x_plus_1());
    assert_eq!(
        TransformVisitor::transform_transferable_closure(&closure),
        arrow(vec![id("x")], Node::Block(vec![ret(x_plus_1())]))
    );
}

#[test]
fn existing_capture_declaration_suppresses_injection() {
    // () => { use(x); return x + y; }
    let body = vec![stmt(call(id("use"), vec![id("x")])), ret(bin(id("x"), id("y")))];
    let closure = arrow(vec![], Node::Block(body));
    assert_eq!(TransformVisitor::transform_transferable_closure(&closure), closure);
}

#[test]
fn capture_declaration_in_an_expression_body_suppresses_injection() {
    // () => use(this) && this.closeDialog()
    let e = bin(call(id("use"), vec![Node::This]), call(member(Node::This, "closeDialog"), vec![]));
    let closure = arrow(vec![], e.duplicate());
    assert_eq!(TransformVisitor::transform_transferable_closure(&closure), arrow(vec![], Node::Block(vec![ret(e)])));
}

#[test]
fn function_expression_is_made_transferable() {
    let closure = Node::Fn {
        name: None,
        params: vec![id("p")],
        body: vec![ret(bin(id("p"), id("q")))],
        is_async: false,
        is_generator: false,
    };
    let expected = Node::Fn {
        name: None,
        params: vec![id("p")],
        body: vec![stmt(capture(vec![id("q")])), ret(bin(id("p"), id("q")))],
        is_async: false,
        is_generator: false,
    };
    assert_eq!(TransformVisitor::transform_transferable_closure(&closure), expected);
}

#[test]
fn transferable_call_keeps_only_the_closure() {
    let e = call(id("renderFrontend"), vec![paren(arrow(vec![], id("x"))), string("Loading")]);
    let body = Node::Block(vec![stmt(capture(vec![id("x")])), ret(id("x"))]);
    assert_eq!(
        TransformVisitor::transform_transferable_call_expr(&e),
        call(id("renderFrontend"), vec![arrow(vec![], body)])
    );
}

// ---- elements ----

#[test]
fn interpolations_and_attribute_values_are_classified() {
    // <input value={count + '2'} id="a" {...rest} />
    let sum = bin(id("count"), string("2"));
    let e = element(
        "input",
        vec![
            attr("value", container(sum.duplicate())),
            attr("id", string("a")),
            Node::Spread(Box::new(always(num("1")))),
        ],
        vec![],
    );
    let reactive = call(id("_$"), vec![arrow(vec![], sum)]);
    assert_eq!(
        fold(&e),
        element(
            "input",
            vec![
                attr("value", container(reactive)),
                attr("id", string("a")),
                Node::Spread(Box::new(call(id("$"), vec![num("1")]))),
            ],
            vec![]
        )
    );
}

#[test]
fn frontend_attribute_makes_its_closure_transferable() {
    // <button onclick:frontend={() => console.log(x)} />
    let log = call(member(id("console"), "log"), vec![id("x")]);
    let e = element("button", vec![frontend_attr("onclick", container(arrow(vec![], log.duplicate())))], vec![]);
    let body = Node::Block(vec![stmt(capture(vec![id("console"), id("x")])), ret(log)]);
    assert_eq!(
        fold(&e),
        element("button", vec![frontend_attr("onclick", container(arrow(vec![], body)))], vec![])
    );
}

#[test]
fn frontend_attribute_makes_the_closure_of_a_call_transferable() {
    // <button value:frontend={always(() => x + 1)} />
    let e = element(
        "button",
        vec![frontend_attr("value", container(always(arrow(vec![], x_plus_1()))))],
        vec![],
    );
    let body = Node::Block(vec![stmt(capture(vec![id("x")])), ret(x_plus_1())]);
    assert_eq!(
        fold(&e),
        element(
            "button",
            vec![frontend_attr("value", container(always(arrow(vec![], body))))],
            vec![]
        )
    );
}

#[test]
fn frontend_attribute_classifies_other_expressions() {
    // <button value:frontend={x + 1} />
    let e = element("button", vec![frontend_attr("value", container(x_plus_1()))], vec![]);
    let reactive = call(id("_$"), vec![arrow(vec![], x_plus_1())]);
    assert_eq!(
        fold(&e),
        element("button", vec![frontend_attr("value", container(reactive))], vec![])
    );
}

#[test]
fn nested_elements_are_normalized() {
    // <div><span>{x + 1}</span><span>{x}</span><span>inline</span>{...children}</div>
    let e = element(
        "div",
        vec![],
        vec![
            element("span", vec![], vec![container(x_plus_1())]),
            element("span", vec![], vec![container(id("x"))]),
            element("span", vec![], vec![text("inline")]),
            Node::SpreadChild(Box::new(bin(id("a"), id("b")))),
            Node::Container(None),
        ],
    );
    let reactive = call(id("_$"), vec![arrow(vec![], x_plus_1())]);
    let spread = call(id("_$"), vec![arrow(vec![], bin(id("a"), id("b")))]);
    assert_eq!(
        fold(&e),
        element(
            "div",
            vec![],
            vec![
                element("span", vec![], vec![container(reactive)]),
                element("span", vec![], vec![container(id("x"))]),
                element("span", vec![], vec![text("inline")]),
                Node::SpreadChild(Box::new(spread)),
                Node::Container(None),
            ]
        )
    );
}

fn normalize(children: Vec<Node>) -> Vec<Node> {
    TransformVisitor.fold_jsx_element_childs(&children).unwrap()
}

#[test]
fn static_text_suppresses_the_next_wrap() {
    assert_eq!(
        normalize(vec![text("Count is #static"), container(x_plus_1())]),
        vec![text("Count is "), container(x_plus_1())]
    );
}

#[test]
fn static_text_is_consumed_by_another_child() {
    let reactive = call(id("_$"), vec![arrow(vec![], x_plus_1())]);
    assert_eq!(
        normalize(vec![
            text("Count is #static"),
            element("br", vec![], vec![]),
            container(x_plus_1())
        ]),
        vec![text("Count is "), element("br", vec![], vec![]), container(reactive)]
    );
}

#[test]
fn static_text_exempts_one_interpolation_only() {
    // #static{x+1}{x+2}
    let x_plus_2 = bin(id("x"), num("2"));
    let reactive = call(id("_$"), vec![arrow(vec![], x_plus_2.duplicate())]);
    assert_eq!(
        normalize(vec![text("#static"), container(x_plus_1()), container(x_plus_2)]),
        vec![text(""), container(x_plus_1()), container(reactive)]
    );
}

#[test]
fn static_marker_may_be_followed_by_white_space() {
    assert_eq!(
        normalize(vec![text("a #static \n\t"), container(member(id("x"), "y"))]),
        vec![text("a "), container(member(id("x"), "y"))]
    );
    assert_eq!(
        normalize(vec![text("#static\u{a0}\u{2003}\u{3000}"), container(x_plus_1())]),
        vec![text(""), container(x_plus_1())]
    );
}

#[test]
fn text_that_continues_after_the_marker_is_plain_text() {
    let reactive = call(id("_$"), vec![arrow(vec![], x_plus_1())]);
    assert_eq!(
        normalize(vec![text("#staticxy\n"), container(x_plus_1())]),
        vec![text("#staticxy\n"), container(reactive.duplicate())]
    );
    assert_eq!(
        normalize(vec![text("#Static"), container(x_plus_1())]),
        vec![text("#Static"), container(reactive)]
    );
}

#[test]
fn marker_text_after_marker_text_grants_the_exemption_again() {
    assert_eq!(
        normalize(vec![text("a#static"), text("b#static"), container(x_plus_1())]),
        vec![text("a"), text("b"), container(x_plus_1())]
    );
}

// ---- the pass ----

#[test]
fn pass_rewrites_calls_inside_declarations_and_functions() {
    // function f() { const y = always(42); }
    let tree = Node::FnDecl {
        name: Ident { sym: "f".to_string(), ctxt: 0 },
        params: vec![],
        body: vec![konst("y", always(num("42")))],
        is_async: false,
        is_generator: false,
    };
    let expected = Node::FnDecl {
        name: Ident { sym: "f".to_string(), ctxt: 0 },
        params: vec![],
        body: vec![konst("y", call(id("$"), vec![num("42")]))],
        is_async: false,
        is_generator: false,
    };
    assert_eq!(fold(&tree), expected);
}

#[test]
fn pass_leaves_plain_code_alone() {
    let tree = Node::Block(vec![
        konst("a", bin(id("b"), num("1"))),
        stmt(call(id("f"), vec![member(id("x"), "y"), Node::Spread(Box::new(id("rest")))])),
        Node::TypeOnly(7),
        Node::ClassDecl {
            name: Ident { sym: "A".to_string(), ctxt: 1 },
            super_class: Some(Box::new(id("B"))),
            body: vec![Node::Other { tag: 9, children: vec![id("m")] }],
        },
    ]);
    assert_eq!(fold(&tree), tree);
}

#[test]
fn child_is_rewritten_under_the_exemption_it_meets() {
    let slot = container(x_plus_1());
    let reactive = call(id("_$"), vec![arrow(vec![], x_plus_1())]);
    assert_eq!(TransformVisitor.fold_jsx_element_child(true, &slot), Ok(slot.duplicate()));
    assert_eq!(TransformVisitor.fold_jsx_element_child(false, &slot), Ok(container(reactive)));
    assert_eq!(TransformVisitor.fold_jsx_element_child(true, &text("a#static ")), Ok(text("a")));
    assert_eq!(TransformVisitor.fold_jsx_element_child(false, &text("plain ")), Ok(text("plain ")));
    let nested = element("b", vec![], vec![text("#static"), container(x_plus_1())]);
    assert_eq!(
        TransformVisitor.fold_jsx_element_child(true, &nested),
        Ok(element("b", vec![], vec![text(""), container(x_plus_1())]))
    );
}

#[test]
fn interpolation_is_classified() {
    assert_eq!(TransformVisitor.fold_jsx_expr_container(&None), Ok(Node::Container(None)));
    assert_eq!(
        TransformVisitor.fold_jsx_expr_container(&Some(Box::new(member(id("x"), "name")))),
        Ok(container(call(id("prop"), vec![id("x"), string("name")])))
    );
    assert_eq!(
        TransformVisitor.fold_jsx_expr_container(&Some(Box::new(id("x")))),
        Ok(container(id("x")))
    );
}

#[test]
fn copy_of_a_tree_equals_the_tree() {
    let tree = element(
        "div",
        vec![frontend_attr("onclick", container(arrow(vec![id("e")], x_plus_1())))],
        vec![text("a"), container(index(id("x"), num("0"))), Node::Container(None)],
    );
    assert_eq!(tree.duplicate(), tree);
    assert_eq!(tree.clone(), tree);
}

#[test]
fn async_closure_of_a_frontend_attribute_declares_what_it_captures() {
    // onclick:frontend={async () => {
    //     const x = <BaseComponent title="x"/>;
    //     const y = 10;
    //     const { console } = globalThis;
    //     console.log(x, y);
    //     globalThis.alert('feef');
    //     alert("Hello!");
    // }}
    let body = vec![
        konst("x", element("BaseComponent", vec![attr("title", string("x"))], vec![])),
        konst("y", num("10")),
        Node::VarDecl {
            kind: VarKind::Const,
            decls: vec![Node::Declarator {
                name: Box::new(Node::ObjectPat(vec![Node::AssignPatProp {
                    key: Ident { sym: "console".to_string(), ctxt: 0 },
                    value: None,
                }])),
                init: Some(Box::new(id("globalThis"))),
            }],
        },
        stmt(call(member(id("console"), "log"), vec![id("x"), id("y")])),
        stmt(call(member(id("globalThis"), "alert"), vec![string("feef")])),
        stmt(call(id("alert"), vec![string("Hello!")])),
    ];
    let input = element(
        "input",
        vec![
            attr("type", string("button")),
            frontend_attr("onclick", container(async_arrow(vec![], Node::Block(duplicate_all(&body))))),
        ],
        vec![],
    );
    let mut expected_body = vec![stmt(capture(vec![id("alert")]))];
    expected_body.extend(body);
    let expected = element(
        "input",
        vec![
            attr("type", string("button")),
            frontend_attr("onclick", container(async_arrow(vec![], Node::Block(expected_body)))),
        ],
        vec![],
    );
    assert_eq!(fold(&input), expected);
}

fn duplicate_all(nodes: &[Node]) -> Vec<Node> {
    nodes.iter().map(|n| n.duplicate()).collect()
}

#[test]
fn declared_function_is_no_capture_of_the_closure_around_it() {
    // renderFrontend(async () => {
    //     function blabla(fn1, fn2) { console.log(fn1, fn2, fn3); }
    //     console.log(fn1, blabla());
    // })
    let inner = Node::FnDecl {
        name: Ident { sym: "blabla".to_string(), ctxt: 0 },
        params: vec![id("fn1"), id("fn2")],
        body: vec![stmt(call(member(id("console"), "log"), vec![id("fn1"), id("fn2"), id("fn3")]))],
        is_async: false,
        is_generator: false,
    };
    let outer = stmt(call(
        member(id("console"), "log"),
        vec![id("fn1"), call(id("blabla"), vec![])],
    ));
    let input = call(
        id("renderFrontend"),
        vec![async_arrow(vec![], Node::Block(vec![inner.duplicate(), outer.duplicate()]))],
    );
    let declared = stmt(capture(vec![id("console"), id("fn3"), id("fn1")]));
    assert_eq!(
        fold(&input),
        call(id("renderFrontend"), vec![async_arrow(vec![], Node::Block(vec![declared, inner, outer]))])
    );
}

// ---- fragments ----

#[test]
fn fragment_among_the_children_of_an_element_is_left_alone() {
    let fragment = Node::Fragment(vec![text("a#static"), container(x_plus_1())]);
    assert_eq!(
        normalize(vec![fragment.duplicate(), container(x_plus_1())]),
        vec![fragment, container(call(id("_$"), vec![arrow(vec![], x_plus_1())]))]
    );
}

#[test]
fn fragment_after_marker_text_uses_the_exemption_up() {
    let fragment = Node::Fragment(vec![container(x_plus_1())]);
    assert_eq!(
        normalize(vec![text("a#static"), fragment.duplicate(), container(x_plus_1())]),
        vec![text("a"), fragment, container(call(id("_$"), vec![arrow(vec![], x_plus_1())]))]
    );
}

#[test]
fn fragment_elsewhere_has_its_children_normalized() {
    // const f = <>a#static{x + 1}{x + 1}</>;
    let fragment = Node::Fragment(vec![
        text("a#static"),
        container(x_plus_1()),
        container(x_plus_1()),
    ]);
    let expected = Node::Fragment(vec![
        text("a"),
        container(x_plus_1()),
        container(call(id("_$"), vec![arrow(vec![], x_plus_1())])),
    ]);
    assert_eq!(fold(&konst("f", fragment)), konst("f", expected));
}

#[test]
fn fragment_in_a_slot_is_wrapped() {
    let fragment = Node::Fragment(vec![container(x_plus_1())]);
    assert_eq!(
        classify(&fragment, Wrap::Reactive),
        call(id("_$"), vec![arrow(vec![], fragment.duplicate())])
    );
}

#[test]
fn fragment_as_the_value_of_an_attribute_is_left_alone() {
    let fragment = Node::Fragment(vec![container(x_plus_1())]);
    let e = element("a", vec![attr("icon", fragment)], vec![]);
    assert_eq!(fold(&e), e);
}

#[test]
fn closure_captures_what_a_fragment_reads() {
    // run(() => <div><>{y}</></div>)
    let body = element("div", vec![], vec![Node::Fragment(vec![container(id("y"))])]);
    let input = call(id("run"), vec![arrow(vec![], body.duplicate())]);
    let declared = stmt(capture(vec![id("y")]));
    assert_eq!(
        fold(&input),
        call(id("run"), vec![arrow(vec![], Node::Block(vec![declared, ret(body)]))])
    );
}

// ---- the capture declaration, name by name ----

fn transferable(body: Vec<Node>) -> Node {
    TransformVisitor::transform_transferable_closure(&arrow(vec![], Node::Block(body)))
}

fn with_capture(vars: Vec<Node>, body: Vec<Node>) -> Node {
    let mut stmts = vec![stmt(capture(vars))];
    stmts.extend(body);
    arrow(vec![], Node::Block(stmts))
}

fn try_catch(param: &str, handler: Vec<Node>) -> Node {
    Node::Other {
        tag: 5,
        children: vec![
            Node::Block(vec![]),
            Node::Catch { param: Some(Box::new(id(param))), body: handler },
        ],
    }
}

#[test]
fn capture_declaration_names_the_free_variables_alone() {
    // () => { const c = 1; return a + b + c; }
    let body = vec![konst("c", num("1")), ret(bin(bin(id("a"), id("b")), id("c")))];
    assert_eq!(
        transferable(duplicate_all(&body)),
        with_capture(vec![id("a"), id("b")], body)
    );
}

#[test]
fn capture_declaration_leaves_out_what_a_block_shadows() {
    // () => { { const x = 1; g(x); } }
    let body = vec![Node::Block(vec![konst("x", num("1")), stmt(call(id("g"), vec![id("x")]))])];
    assert_eq!(transferable(duplicate_all(&body)), with_capture(vec![id("g")], body));
}

#[test]
fn capture_declaration_names_what_is_read_outside_the_block_that_declares_it() {
    // () => { { const i = 1; } f(i); }
    let body = vec![Node::Block(vec![konst("i", num("1"))]), stmt(call(id("f"), vec![id("i")]))];
    assert_eq!(transferable(duplicate_all(&body)), with_capture(vec![id("f"), id("i")], body));
}

#[test]
fn capture_declaration_leaves_out_what_is_declared_after_its_read() {
    // () => { f(x); const x = 1; }
    let body = vec![stmt(call(id("f"), vec![id("x")])), konst("x", num("1"))];
    assert_eq!(transferable(duplicate_all(&body)), with_capture(vec![id("f")], body));
}

#[test]
fn capture_declaration_names_a_catch_parameter_read_after_the_catch() {
    // () => { try {} catch (e) { g(e); } h(e); }
    let body = vec![
        try_catch("e", vec![stmt(call(id("g"), vec![id("e")]))]),
        stmt(call(id("h"), vec![id("e")])),
    ];
    assert_eq!(
        transferable(duplicate_all(&body)),
        with_capture(vec![id("g"), id("h"), id("e")], body)
    );
}

#[test]
fn capture_declaration_leaves_out_reserved_names() {
    // () => { console.log(null, undefined, this, globalThis, window, NaN, Infinity); }
    let body = vec![stmt(call(
        member(id("console"), "log"),
        vec![
            Node::Lit(Lit::Null),
            id("undefined"),
            Node::This,
            id("globalThis"),
            id("window"),
            id("NaN"),
            id("Infinity"),
        ],
    ))];
    // the captured self-reference is named as the variable `this`
    assert_eq!(
        transferable(duplicate_all(&body)),
        with_capture(vec![id("console"), id("this")], body)
    );
}

#[test]
fn capture_declaration_holds_nothing_but_names() {
    let made = TransformVisitor::transform_transferable_closure(&arrow(vec![], x_plus_1()));
    let expected = arrow(
        vec![],
        Node::Block(vec![stmt(call(id("use"), vec![id("x")])), ret(x_plus_1())]),
    );
    assert_eq!(made, expected);
}
