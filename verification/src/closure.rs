//! The closure transformer: a closure that will run in another execution
//! context is given, as its first statement, a call that declares every
//! variable it captures.
use vstd::prelude::*;
use vstd::string::StringExecFns;
use crate::ast::{
    Ident, IdentV, Lit, LitV, Node, NodeV, duplicate_nodes, duplicate_opt_ident, view_node,
    view_nodes,
};
use crate::markers::Marker;
use crate::scope::{
    collect, collect_params, free_variables, has_capture_declaration, ident_set, idents_view,
    params_bindings,
};
use crate::visitor::TransformVisitor;

verus! {

/// `n` without the parentheses around it.
pub open spec fn strip_parens(n: NodeV) -> NodeV
    decreases n,
{
    match n {
        NodeV::Paren(e) => strip_parens(*e),
        _ => n,
    }
}

/// `n` without the parentheses around it.
pub fn unwrap_parens(n: &Node) -> (r: &Node)
    ensures
        r@ == strip_parens(n@),
        !(r@ is Paren),
    decreases n,
{
    match n {
        Node::Paren(e) => unwrap_parens(e),
        _ => n,
    }
}

/// Whether `n` is a closure: an arrow function or a function expression.
pub open spec fn is_closure(n: NodeV) -> bool {
    n is Arrow || n is Fn
}

/// An argument as the expression that it passes: a spread argument stands
/// for the expression that it spreads.
pub open spec fn argument_expr(arg: NodeV) -> NodeV {
    match arg {
        NodeV::Spread(e) => *e,
        _ => arg,
    }
}

/// The first argument of a call with arguments `args`; a call without
/// arguments is read as if it passed `null`.
pub open spec fn first_arg(args: Seq<NodeV>) -> NodeV {
    if args.len() == 0 {
        NodeV::Lit(LitV::Null)
    } else {
        argument_expr(args[0])
    }
}

/// The identifier under which a marker is emitted: the marker's name,
/// bound in no scope of the program.
pub open spec fn marker_ident(m: Marker) -> NodeV {
    NodeV::Ident(IdentV { sym: m.name(), ctxt: 0 })
}

/// The statement `use(v1, v2, ...)` that declares the captured variables
/// `used`: the call names each of them, in their order, and nothing else.
pub open spec fn capture_statement(used: Seq<IdentV>) -> NodeV {
    NodeV::ExprStmt(
        Box::new(
            NodeV::Call {
                callee: Box::new(marker_ident(Marker::Use)),
                args: Seq::new(used.len(), |i: int| NodeV::Ident(used[i])),
            },
        ),
    )
}

/// `stmts`, after the declaration of what the closure captures where one is
/// due: where the closure has free variables and holds no such declaration
/// yet.
pub open spec fn with_capture(used: Seq<IdentV>, has_custom_use: bool, stmts: Seq<NodeV>) -> Seq<
    NodeV,
> {
    if used.len() > 0 && !has_custom_use {
        seq![capture_statement(used)] + stmts
    } else {
        stmts
    }
}

/// The body of an arrow function as a list of statements: those of its
/// block, or the `return` of its expression.
pub open spec fn body_statements(body: NodeV) -> Seq<NodeV> {
    match body {
        NodeV::Block(stmts) => stmts,
        _ => seq![NodeV::Return(Some(Box::new(body)))],
    }
}

/// The closure `closure`, made fit to cross an execution boundary.
///
/// Its free variables are collected with its own parameters declared and
/// without an implicit `this`. Its body becomes a block that holds the
/// statements of the old body, after the capture declaration where one is
/// due. Anything but a closure is left as it is.
pub open spec fn make_transferable(closure: NodeV) -> NodeV {
    match closure {
        NodeV::Arrow { params, body, is_async } => {
            let declared = params_bindings(params);
            NodeV::Arrow {
                params,
                body: Box::new(
                    NodeV::Block(
                        with_capture(
                            free_variables(*body, declared, false),
                            has_capture_declaration(*body, declared, false),
                            body_statements(*body),
                        ),
                    ),
                ),
                is_async,
            }
        },
        NodeV::Fn { name, params, body, is_async, is_generator } => {
            let declared = params_bindings(params);
            NodeV::Fn {
                name,
                params,
                body: with_capture(
                    free_variables(NodeV::Block(body), declared, false),
                    has_capture_declaration(NodeV::Block(body), declared, false),
                    body,
                ),
                is_async,
                is_generator,
            }
        },
        _ => closure,
    }
}

/// The call `call`, with the closure that it passes made transferable.
///
/// Where the first argument is a closure, the call keeps its callee and
/// passes the transformed closure alone. Any other call is left as it is.
pub open spec fn transferable_call(call: NodeV) -> NodeV {
    match call {
        NodeV::Call { callee, args } => {
            let closure = strip_parens(first_arg(args));
            if is_closure(closure) {
                NodeV::Call { callee, args: seq![make_transferable(closure)] }
            } else {
                call
            }
        },
        _ => call,
    }
}

/// The identifier under which the marker `m` is emitted.
pub(crate) fn marker_node(m: Marker) -> (r: Node)
    ensures
        r@ == marker_ident(m),
{
    Node::Ident(Ident { sym: String::from_str(m.text()), ctxt: 0 })
}

/// The statement that declares the captured variables `used`.
fn capture_statement_for(used: &Vec<Ident>) -> (r: Node)
    ensures
        r@ == capture_statement(idents_view(used@)),
{
    proof {
        reveal_with_fuel(view_node, 3);
    }
    let mut args: Vec<Node> = Vec::new();
    let mut i: usize = 0;
    while i < used.len()
        invariant
            i <= used.len(),
            args.len() == i,
            forall|j: int| 0 <= j < i ==> (#[trigger] args[j])@ == NodeV::Ident(used[j]@),
        decreases used.len() - i,
    {
        args.push(Node::Ident(used[i].duplicate()));
        i += 1;
    }
    assert(view_nodes(args@) =~= Seq::new(
        idents_view(used@).len(),
        |i: int| NodeV::Ident(idents_view(used@)[i]),
    ));
    Node::ExprStmt(Box::new(Node::Call { callee: Box::new(marker_node(Marker::Use)), args }))
}

/// `stmts`, after the capture declaration where one is due.
fn prepend_capture(used: &Vec<Ident>, has_custom_use: bool, stmts: Vec<Node>) -> (r: Vec<Node>)
    ensures
        view_nodes(r@) == with_capture(idents_view(used@), has_custom_use, view_nodes(stmts@)),
{
    if used.len() > 0 && !has_custom_use {
        let mut out: Vec<Node> = Vec::new();
        out.push(capture_statement_for(used));
        let mut stmts = stmts;
        let ghost rest = stmts@;
        out.append(&mut stmts);
        assert(view_nodes(out@) =~= seq![capture_statement(idents_view(used@))] + view_nodes(rest));
        out
    } else {
        stmts
    }
}

impl TransformVisitor {
    /// The first argument of `call`, or `null` where it has none or is no call.
    pub fn get_first_arg(call: &Node) -> (r: Node)
        ensures
            r@ == match call@ {
                NodeV::Call { callee, args } => first_arg(args),
                _ => NodeV::Lit(LitV::Null),
            },
    {
        proof {
            reveal_with_fuel(view_node, 3);
        }
        match call {
            Node::Call { callee, args } => {
                if args.len() == 0 {
                    Node::Lit(Lit::Null)
                } else {
                    match &args[0] {
                        Node::Spread(e) => e.duplicate(),
                        other => other.duplicate(),
                    }
                }
            },
            _ => Node::Lit(Lit::Null),
        }
    }

    /// Makes `closure` fit to cross an execution boundary: see
    /// [`make_transferable`].
    pub fn transform_transferable_closure(closure: &Node) -> (r: Node)
        ensures
            r@ == make_transferable(closure@),
    {
        proof {
            reveal_with_fuel(view_node, 3);
        }
        match closure {
            Node::Arrow { params, body, is_async } => {
                let declared = collect_params(params, false);
                assert(ident_set(declared@) =~= params_bindings(view_nodes(params@)));
                let found = collect(body, &declared, false);
                let stmts = match &**body {
                    Node::Block(stmts) => duplicate_nodes(stmts),
                    other => {
                        let ret = Node::Return(Some(Box::new(other.duplicate())));
                        assert(ret@ == NodeV::Return(Some(Box::new(other@))));
                        let mut one: Vec<Node> = Vec::new();
                        one.push(ret);
                        assert(view_nodes(one@) =~= seq![NodeV::Return(Some(Box::new(other@)))]);
                        one
                    },
                };
                Node::Arrow {
                    params: duplicate_nodes(params),
                    body: Box::new(
                        Node::Block(prepend_capture(&found.used, found.has_custom_use, stmts)),
                    ),
                    is_async: *is_async,
                }
            },
            Node::Fn { name, params, body, is_async, is_generator } => {
                let declared = collect_params(params, false);
                assert(ident_set(declared@) =~= params_bindings(view_nodes(params@)));
                let block = Node::Block(duplicate_nodes(body));
                let found = collect(&block, &declared, false);
                Node::Fn {
                    name: duplicate_opt_ident(name),
                    params: duplicate_nodes(params),
                    body: prepend_capture(&found.used, found.has_custom_use, duplicate_nodes(body)),
                    is_async: *is_async,
                    is_generator: *is_generator,
                }
            },
            _ => closure.duplicate(),
        }
    }

    /// Makes the closure that `call` passes transferable: see
    /// [`transferable_call`].
    pub fn transform_transferable_call_expr(call: &Node) -> (r: Node)
        ensures
            r@ == transferable_call(call@),
    {
        match call {
            Node::Call { callee, args } => {
                let arg = Self::get_first_arg(call);
                let closure = unwrap_parens(&arg);
                match closure {
                    Node::Arrow { .. } | Node::Fn { .. } => {
                        let mut one: Vec<Node> = Vec::new();
                        one.push(Self::transform_transferable_closure(closure));
                        assert(view_nodes(one@) =~= seq![make_transferable(closure@)]);
                        Node::Call { callee: Box::new(callee.duplicate()), args: one }
                    },
                    _ => call.duplicate(),
                }
            },
            _ => call.duplicate(),
        }
    }
}

} // verus!
