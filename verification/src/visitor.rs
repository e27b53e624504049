//! The transform itself: the pass over a program, the classifier of
//! expressions in reactive slots, the rewrite of marker calls, and the
//! normalizer of element children.
//!
//! Every function here returns what [`crate::rewrite`] states of the model
//! of its argument.
use vstd::prelude::*;
use crate::ast::{
    AttrName, Lit, LitV, MemberProp, Node, NodeV, duplicate_nodes, duplicate_opt_ident, view_node,
    view_nodes, view_opt,
};
use crate::closure::{marker_node, unwrap_parens};
use crate::markers::{
    Marker, Wrap, collection_method, frontend_qualifier, lookup_marker, value_accessor,
};
use crate::rewrite::{
    armed_after, attr_with, callee_marker, classify_and_rewrite, classify_as,
    closure_body_rewritten, is_frontend_attr, is_manual_access, is_stable,
    lemma_method_args_fails, lemma_normalize_children_fails, lemma_rewrite_seq_fails, method_arg,
    method_args, method_call, next_armed, normalize_child, normalize_children, prop_call, rewrite,
    rewrite_attr, rewrite_call, rewrite_opt, rewrite_seq, stable_call, thunk, wrap_call, wrapped,
};
use crate::suspend::is_async;
use crate::text::strip_marker;

verus! {

/// The failure of a rewrite: a private member stands where an accessor call
/// is due.
#[derive(Debug, PartialEq, Eq)]
pub struct UnsupportedPrivateName {
    /// The private name, without its `#`.
    pub name: String,
}

impl View for UnsupportedPrivateName {
    type V = Seq<char>;

    open spec fn view(&self) -> Seq<char> {
        self.name@
    }
}

/// Whether the result `r` is the result `s` of the model.
pub open spec fn agrees(
    r: Result<Node, UnsupportedPrivateName>,
    s: Result<NodeV, Seq<char>>,
) -> bool {
    match r {
        Ok(n) => s == Ok::<NodeV, Seq<char>>(n@),
        Err(e) => s == Err::<NodeV, Seq<char>>(e@),
    }
}

/// Whether the result `r` for a list is the result `s` of the model.
pub open spec fn agrees_seq(
    r: Result<Vec<Node>, UnsupportedPrivateName>,
    s: Result<Seq<NodeV>, Seq<char>>,
) -> bool {
    match r {
        Ok(v) => s == Ok::<Seq<NodeV>, Seq<char>>(view_nodes(v@)),
        Err(e) => s == Err::<Seq<NodeV>, Seq<char>>(e@),
    }
}

/// Whether the result `r` for an optional node is the result `s` of the
/// model.
pub open spec fn agrees_opt(
    r: Result<Option<Box<Node>>, UnsupportedPrivateName>,
    s: Result<Option<Box<NodeV>>, Seq<char>>,
) -> bool {
    match r {
        Ok(o) => s == Ok::<Option<Box<NodeV>>, Seq<char>>(view_opt(o)),
        Err(e) => s == Err::<Option<Box<NodeV>>, Seq<char>>(e@),
    }
}

/// `prop(obj, key)`
fn make_prop_call(obj: Node, key: Node) -> (r: Node)
    ensures
        r@ == prop_call(obj@, key@),
{
    let args = vec![obj, key];
    assert(view_nodes(args@) =~= seq![obj@, key@]);
    Node::Call { callee: Box::new(marker_node(Marker::Prop)), args }
}

/// `_$method(receiver, "name", ...rest)`
fn make_method_call(receiver: Node, name: &String, rest: Vec<Node>) -> (r: Node)
    ensures
        r@ == method_call(receiver@, name@, view_nodes(rest@)),
{
    let lit = Node::Lit(Lit::Str(name.clone()));
    let mut args = vec![receiver, lit];
    let mut rest = rest;
    let ghost tail = view_nodes(rest@);
    args.append(&mut rest);
    assert(view_nodes(args@) =~= seq![receiver@, NodeV::Lit(LitV::Str(name@))] + tail);
    Node::Call { callee: Box::new(marker_node(Marker::Method)), args }
}

/// `$(arg)`
fn make_stable_call(arg: Node) -> (r: Node)
    ensures
        r@ == stable_call(arg@),
{
    let args = vec![arg];
    assert(view_nodes(args@) =~= seq![arg@]);
    Node::Call { callee: Box::new(marker_node(Marker::Stable)), args }
}

/// `marker(() => e)`
fn make_wrap_call(m: Marker, e: Node, is_async: bool) -> (r: Node)
    ensures
        r@ == wrap_call(m, e@, is_async),
{
    let params: Vec<Node> = Vec::new();
    assert(view_nodes(params@) =~= Seq::empty());
    let closure = Node::Arrow { params, body: Box::new(e), is_async };
    assert(closure@ == thunk(e@, is_async));
    let args = vec![closure];
    assert(view_nodes(args@) =~= seq![closure@]);
    Node::Call { callee: Box::new(marker_node(m)), args }
}

/// `e`, wrapped for tracking under the marker of `w`.
fn make_wrapped(e: &Node, w: Wrap) -> (r: Node)
    ensures
        r@ == wrapped(e@, w),
{
    let suspends = is_async(e);
    let call = make_wrap_call(w.as_marker(), e.duplicate(), suspends);
    if suspends {
        Node::Await(Box::new(call))
    } else {
        call
    }
}

/// `name={e}`
fn make_attr(name: &AttrName, e: Node) -> (r: Node)
    ensures
        r@ == attr_with(name@, e@),
{
    proof {
        reveal_with_fuel(view_node, 3);
    }
    let container = Node::Container(Some(Box::new(e)));
    assert(container@ == NodeV::Container(Some(Box::new(e@))));
    Node::Attr { name: name.duplicate(), value: Some(Box::new(container)) }
}

/// Exec form of [`is_manual_access`].
fn manual_access(obj: &Node) -> (r: bool)
    ensures
        r == is_manual_access(obj@),
{
    match obj {
        Node::Member { obj: inner, prop: MemberProp::Ident(name) } => value_accessor(name.as_str()),
        _ => false,
    }
}

/// Exec form of [`callee_marker`].
fn marker_of_callee(callee: &Node) -> (r: Option<Marker>)
    ensures
        r == callee_marker(callee@),
{
    match callee {
        Node::Ident(i) => lookup_marker(i.sym.as_str()),
        _ => None,
    }
}

/// Exec form of [`is_stable`].
fn stable(n: &Node) -> (r: bool)
    ensures
        r == is_stable(n@),
{
    match n {
        Node::Lit(_) | Node::Element { .. } | Node::Ident(_) | Node::This => true,
        _ => false,
    }
}

/// Exec form of [`is_frontend_attr`].
fn frontend_attr(name: &AttrName) -> (r: bool)
    ensures
        r == is_frontend_attr(name@),
{
    match name {
        AttrName::Namespaced { ns, name: local } => frontend_qualifier(local.as_str()),
        _ => false,
    }
}

/// The rewrite engine. It holds no state: every call is a function of its
/// arguments.
#[derive(Debug, Clone, Copy, PartialEq, Eq)]
pub struct TransformVisitor;

impl TransformVisitor {
    /// Rewrites a whole tree: see [`rewrite`].
    pub fn fold(&self, n: &Node) -> (r: Result<Node, UnsupportedPrivateName>)
        ensures
            agrees(r, rewrite(n@)),
        decreases n, 1int,
    {
        match n {
            Node::Lit(_) | Node::Ident(_) | Node::This | Node::Text(_) | Node::Hole
            | Node::TypeOnly(_) => Ok(n.duplicate()),
            Node::Call { .. } => self.fold_call_expr(n),
            Node::Attr { .. } => self.fold_jsx_attr(n),
            Node::Container(o) => self.fold_jsx_expr_container(o),
            Node::SpreadChild(e) => match self.transform_expr_reactive(e, Wrap::Reactive) {
                Ok(r) => Ok(Node::SpreadChild(Box::new(r))),
                Err(x) => Err(x),
            },
            Node::Element { name, attrs, children } => {
                let a = match self.fold_nodes(attrs) {
                    Ok(a) => a,
                    Err(x) => { return Err(x); },
                };
                let c = match self.fold_jsx_element_childs(children) {
                    Ok(c) => c,
                    Err(x) => { return Err(x); },
                };
                Ok(Node::Element { name: Box::new(name.duplicate()), attrs: a, children: c })
            },
            Node::Fragment(children) => match self.fold_jsx_element_childs(children) {
                Ok(c) => Ok(Node::Fragment(c)),
                Err(x) => Err(x),
            },
            Node::Paren(e) => match self.fold(e) {
                Ok(r) => Ok(Node::Paren(Box::new(r))),
                Err(x) => Err(x),
            },
            Node::Member { obj, prop } => {
                let o = match self.fold(obj) {
                    Ok(o) => o,
                    Err(x) => { return Err(x); },
                };
                match prop {
                    MemberProp::Computed(k) => match self.fold(k) {
                        Ok(k1) => Ok(
                            Node::Member {
                                obj: Box::new(o),
                                prop: MemberProp::Computed(Box::new(k1)),
                            },
                        ),
                        Err(x) => Err(x),
                    },
                    _ => Ok(Node::Member { obj: Box::new(o), prop: prop.duplicate() }),
                }
            },
            Node::Spread(e) => match self.fold(e) {
                Ok(r) => Ok(Node::Spread(Box::new(r))),
                Err(x) => Err(x),
            },
            Node::Arrow { params, body, is_async } => {
                let p = match self.fold_nodes(params) {
                    Ok(p) => p,
                    Err(x) => { return Err(x); },
                };
                match self.fold(body) {
                    Ok(b) => Ok(Node::Arrow { params: p, body: Box::new(b), is_async: *is_async }),
                    Err(x) => Err(x),
                }
            },
            Node::Fn { name, params, body, is_async, is_generator } => {
                let p = match self.fold_nodes(params) {
                    Ok(p) => p,
                    Err(x) => { return Err(x); },
                };
                match self.fold_nodes(body) {
                    Ok(b) => Ok(
                        Node::Fn {
                            name: duplicate_opt_ident(name),
                            params: p,
                            body: b,
                            is_async: *is_async,
                            is_generator: *is_generator,
                        },
                    ),
                    Err(x) => Err(x),
                }
            },
            Node::Await(e) => match self.fold(e) {
                Ok(r) => Ok(Node::Await(Box::new(r))),
                Err(x) => Err(x),
            },
            Node::Block(s) => match self.fold_nodes(s) {
                Ok(r) => Ok(Node::Block(r)),
                Err(x) => Err(x),
            },
            Node::ExprStmt(e) => match self.fold(e) {
                Ok(r) => Ok(Node::ExprStmt(Box::new(r))),
                Err(x) => Err(x),
            },
            Node::Return(o) => match self.fold_opt(o) {
                Ok(r) => Ok(Node::Return(r)),
                Err(x) => Err(x),
            },
            Node::VarDecl { kind, decls } => match self.fold_nodes(decls) {
                Ok(r) => Ok(Node::VarDecl { kind: *kind, decls: r }),
                Err(x) => Err(x),
            },
            Node::Declarator { name, init } => {
                let p = match self.fold(name) {
                    Ok(p) => p,
                    Err(x) => { return Err(x); },
                };
                match self.fold_opt(init) {
                    Ok(i) => Ok(Node::Declarator { name: Box::new(p), init: i }),
                    Err(x) => Err(x),
                }
            },
            Node::FnDecl { name, params, body, is_async, is_generator } => {
                let p = match self.fold_nodes(params) {
                    Ok(p) => p,
                    Err(x) => { return Err(x); },
                };
                match self.fold_nodes(body) {
                    Ok(b) => Ok(
                        Node::FnDecl {
                            name: name.duplicate(),
                            params: p,
                            body: b,
                            is_async: *is_async,
                            is_generator: *is_generator,
                        },
                    ),
                    Err(x) => Err(x),
                }
            },
            Node::ClassDecl { name, super_class, body } => {
                let s = match self.fold_opt(super_class) {
                    Ok(s) => s,
                    Err(x) => { return Err(x); },
                };
                match self.fold_nodes(body) {
                    Ok(b) => Ok(
                        Node::ClassDecl { name: name.duplicate(), super_class: s, body: b },
                    ),
                    Err(x) => Err(x),
                }
            },
            Node::EnumDecl { name, members } => match self.fold_nodes(members) {
                Ok(r) => Ok(Node::EnumDecl { name: name.duplicate(), members: r }),
                Err(x) => Err(x),
            },
            Node::Catch { param, body } => {
                let p = match self.fold_opt(param) {
                    Ok(p) => p,
                    Err(x) => { return Err(x); },
                };
                match self.fold_nodes(body) {
                    Ok(b) => Ok(Node::Catch { param: p, body: b }),
                    Err(x) => Err(x),
                }
            },
            Node::ArrayPat(s) => match self.fold_nodes(s) {
                Ok(r) => Ok(Node::ArrayPat(r)),
                Err(x) => Err(x),
            },
            Node::ObjectPat(s) => match self.fold_nodes(s) {
                Ok(r) => Ok(Node::ObjectPat(r)),
                Err(x) => Err(x),
            },
            Node::KeyValuePatProp { key, value } => {
                let k = match self.fold(key) {
                    Ok(k) => k,
                    Err(x) => { return Err(x); },
                };
                match self.fold(value) {
                    Ok(v) => Ok(Node::KeyValuePatProp { key: Box::new(k), value: Box::new(v) }),
                    Err(x) => Err(x),
                }
            },
            Node::AssignPatProp { key, value } => match self.fold_opt(value) {
                Ok(r) => Ok(Node::AssignPatProp { key: key.duplicate(), value: r }),
                Err(x) => Err(x),
            },
            Node::RestPat(e) => match self.fold(e) {
                Ok(r) => Ok(Node::RestPat(Box::new(r))),
                Err(x) => Err(x),
            },
            Node::Other { tag, children } => match self.fold_nodes(children) {
                Ok(r) => Ok(Node::Other { tag: *tag, children: r }),
                Err(x) => Err(x),
            },
        }
    }

    /// Rewrites each tree of a list: see [`rewrite_seq`].
    pub fn fold_nodes(&self, v: &Vec<Node>) -> (r: Result<Vec<Node>, UnsupportedPrivateName>)
        ensures
            agrees_seq(r, rewrite_seq(view_nodes(v@))),
        decreases v, 0int,
    {
        let ghost all = view_nodes(v@);
        let mut out: Vec<Node> = Vec::new();
        let mut i: usize = 0;
        assert(view_nodes(out@) =~= Seq::empty());
        assert(all.take(0) =~= Seq::empty());
        while i < v.len()
            invariant
                i <= v.len(),
                all == view_nodes(v@),
                rewrite_seq(all.take(i as int)) == Ok::<Seq<NodeV>, Seq<char>>(view_nodes(out@)),
                forall|j: int| 0 <= j < v.len() ==> decreases_to!(v => #[trigger] v[j]),
            decreases v.len() - i,
        {
            proof {
                assert(all.take(i as int + 1).drop_last() =~= all.take(i as int));
                assert(all.take(i as int + 1).last() == v[i as int]@);
            }
            match self.fold(&v[i]) {
                Ok(x) => {
                    assert(view_nodes(out@.push(x)) =~= view_nodes(out@).push(x@));
                    out.push(x);
                },
                Err(x) => {
                    proof {
                        lemma_rewrite_seq_fails(all, i as int + 1);
                    }
                    return Err(x);
                },
            }
            i += 1;
        }
        proof {
            assert(all.take(i as int) =~= all);
        }
        Ok(out)
    }

    /// Rewrites an optional tree: see [`rewrite_opt`].
    pub fn fold_opt(&self, o: &Option<Box<Node>>) -> (r: Result<
        Option<Box<Node>>,
        UnsupportedPrivateName,
    >)
        ensures
            agrees_opt(r, rewrite_opt(view_opt(*o))),
        decreases o, 0int,
    {
        match o {
            None => Ok(None),
            Some(b) => match self.fold(b) {
                Ok(r) => Ok(Some(Box::new(r))),
                Err(x) => Err(x),
            },
        }
    }

    /// Rewrites an interpolation that holds `expr`: its expression is
    /// classified under [`Wrap::Reactive`].
    pub fn fold_jsx_expr_container(&self, expr: &Option<Box<Node>>) -> (r: Result<
        Node,
        UnsupportedPrivateName,
    >)
        ensures
            agrees(r, rewrite(NodeV::Container(view_opt(*expr)))),
        decreases expr, 3int,
    {
        proof {
            reveal_with_fuel(view_node, 3);
        }
        match expr {
            None => Ok(Node::Container(None)),
            Some(e) => match self.transform_expr_reactive(e, Wrap::Reactive) {
                Ok(r) => Ok(Node::Container(Some(Box::new(r)))),
                Err(x) => Err(x),
            },
        }
    }

    /// Rewrites a call by the marker that its callee names: see
    /// [`rewrite_call`].
    pub fn fold_call_expr(&self, call: &Node) -> (r: Result<Node, UnsupportedPrivateName>)
        ensures
            agrees(r, rewrite_call(call@)),
        decreases call, 0int,
    {
        proof {
            reveal_with_fuel(view_node, 3);
        }
        match call {
            Node::Call { callee, args } => {
                match marker_of_callee(unwrap_parens(callee)) {
                    Some(Marker::Always) => {
                        if args.len() == 0 {
                            return Ok(make_stable_call(Node::Lit(Lit::Null)));
                        }
                        let arg: &Node = match &args[0] {
                            Node::Spread(e) => e,
                            other => other,
                        };
                        let inner = unwrap_parens(arg);
                        if stable(inner) {
                            match self.fold(arg) {
                                Ok(a) => Ok(make_stable_call(a)),
                                Err(x) => Err(x),
                            }
                        } else {
                            match inner {
                                Node::Arrow { .. } | Node::Fn { .. } => Ok(call.duplicate()),
                                _ => match self.transform_expr_reactive(arg, Wrap::Always) {
                                    Ok(r) => {
                                        let adopted = unwrap_parens(&r);
                                        match adopted {
                                            Node::Call { .. } => Ok(adopted.duplicate()),
                                            _ => Ok(
                                                make_wrap_call(
                                                    Marker::Always,
                                                    arg.duplicate(),
                                                    false,
                                                ),
                                            ),
                                        }
                                    },
                                    Err(x) => Err(x),
                                },
                            }
                        }
                    },
                    Some(Marker::Run) | Some(Marker::RenderFrontend) => Ok(
                        Self::transform_transferable_call_expr(call),
                    ),
                    _ => {
                        let c = match self.fold(callee) {
                            Ok(c) => c,
                            Err(x) => { return Err(x); },
                        };
                        match self.fold_nodes(args) {
                            Ok(a) => Ok(Node::Call { callee: Box::new(c), args: a }),
                            Err(x) => Err(x),
                        }
                    },
                }
            },
            _ => Ok(call.duplicate()),
        }
    }

    /// Rewrites an attribute: see [`rewrite_attr`].
    pub fn fold_jsx_attr(&self, attr: &Node) -> (r: Result<Node, UnsupportedPrivateName>)
        ensures
            agrees(r, rewrite_attr(attr@)),
        decreases attr, 0int,
    {
        proof {
            reveal_with_fuel(view_node, 5);
        }
        match attr {
            Node::Attr { name, value: Some(v) } => match &**v {
                Node::Container(Some(e)) => {
                    let inner = unwrap_parens(e);
                    let frontend = frontend_attr(name);
                    match inner {
                        Node::Arrow { .. } if frontend => Ok(
                            make_attr(name, Self::transform_transferable_closure(inner)),
                        ),
                        Node::Fn { .. } if frontend => Ok(
                            make_attr(name, Self::transform_transferable_closure(inner)),
                        ),
                        Node::Call { .. } if frontend => Ok(
                            make_attr(name, Self::transform_transferable_call_expr(inner)),
                        ),
                        _ => match self.transform_expr_reactive(e, Wrap::Reactive) {
                            Ok(r) => Ok(make_attr(name, r)),
                            Err(x) => Err(x),
                        },
                    }
                },
                _ => Ok(attr.duplicate()),
            },
            _ => Ok(attr.duplicate()),
        }
    }

    /// Rewrites one child of an element, where `armed` says whether the
    /// child is exempt from tracking if it is an interpolation: see
    /// [`normalize_child`].
    pub fn fold_jsx_element_child(&self, armed: bool, child: &Node) -> (r: Result<
        Node,
        UnsupportedPrivateName,
    >)
        ensures
            agrees(r, normalize_child(armed, child@)),
        decreases child, 2int,
    {
        match child {
            Node::Container(_) if armed => Ok(child.duplicate()),
            Node::Text(t) => match strip_marker(t.as_str()) {
                Some(stripped) => Ok(Node::Text(stripped)),
                None => Ok(child.duplicate()),
            },
            Node::Fragment(_) => Ok(child.duplicate()),
            _ => self.fold(child),
        }
    }

    /// Rewrites the children of an element, in document order: see
    /// [`normalize_children`].
    pub fn fold_jsx_element_childs(&self, children: &Vec<Node>) -> (r: Result<
        Vec<Node>,
        UnsupportedPrivateName,
    >)
        ensures
            agrees_seq(r, normalize_children(view_nodes(children@))),
        decreases children, 0int,
    {
        let ghost all = view_nodes(children@);
        let mut out: Vec<Node> = Vec::new();
        let mut previous_was_hash_text = false;
        let mut i: usize = 0;
        assert(view_nodes(out@) =~= Seq::empty());
        assert(all.take(0) =~= Seq::empty());
        while i < children.len()
            invariant
                i <= children.len(),
                all == view_nodes(children@),
                normalize_children(all.take(i as int)) == Ok::<Seq<NodeV>, Seq<char>>(
                    view_nodes(out@),
                ),
                previous_was_hash_text == armed_after(all.take(i as int)),
                forall|j: int|
                    0 <= j < children.len() ==> decreases_to!(children => #[trigger] children[j]),
            decreases children.len() - i,
        {
            proof {
                assert(all.take(i as int + 1).drop_last() =~= all.take(i as int));
                assert(all.take(i as int + 1).last() == children[i as int]@);
            }
            let child = &children[i];
            match self.fold_jsx_element_child(previous_was_hash_text, child) {
                Ok(x) => {
                    assert(view_nodes(out@.push(x)) =~= view_nodes(out@).push(x@));
                    out.push(x);
                },
                Err(x) => {
                    proof {
                        lemma_normalize_children_fails(all, i as int + 1);
                    }
                    return Err(x);
                },
            }
            previous_was_hash_text = next_state(previous_was_hash_text, child);
            i += 1;
        }
        proof {
            assert(all.take(i as int) =~= all);
        }
        Ok(out)
    }

    /// Classifies an expression in a reactive slot and rewrites it: see
    /// [`classify_and_rewrite`].
    pub fn transform_expr_reactive(&self, e: &Node, wrap: Wrap) -> (r: Result<
        Node,
        UnsupportedPrivateName,
    >)
        ensures
            agrees(r, classify_and_rewrite(e@, wrap)),
        decreases e, 2int,
    {
        self.classify(e, e, wrap)
    }

    /// The classifier at work on `whole`, of which `cur` is what is left
    /// once the parentheses seen so far are removed.
    fn classify(&self, whole: &Node, cur: &Node, wrap: Wrap) -> (r: Result<
        Node,
        UnsupportedPrivateName,
    >)
        ensures
            agrees(r, classify_as(whole@, cur@, wrap)),
        decreases cur, 1int,
    {
        proof {
            reveal_with_fuel(view_node, 3);
        }
        match cur {
            Node::Paren(inner) => self.classify(whole, inner, wrap),
            Node::Lit(_) | Node::Element { .. } | Node::Ident(_) | Node::This => Ok(
                whole.duplicate(),
            ),
            Node::Arrow { .. } | Node::Fn { .. } => Ok(whole.duplicate()),
            Node::Member { obj, prop } => {
                if manual_access(obj) {
                    Ok(whole.duplicate())
                } else {
                    let o = match self.transform_expr_reactive(obj, Wrap::Reactive) {
                        Ok(o) => o,
                        Err(x) => { return Err(x); },
                    };
                    match prop {
                        MemberProp::Ident(name) => Ok(
                            make_prop_call(o, Node::Lit(Lit::Str(name.clone()))),
                        ),
                        MemberProp::Computed(k) => Ok(make_prop_call(o, k.duplicate())),
                        MemberProp::PrivateName(name) => Err(
                            UnsupportedPrivateName { name: name.clone() },
                        ),
                    }
                }
            },
            Node::Call { callee, args } => {
                match &**callee {
                    Node::Member { obj, prop: MemberProp::Ident(name) } if collection_method(
                        name.as_str(),
                    ) => {
                        return match self.fold_method_args(args) {
                            Ok(rest) => Ok(make_method_call(obj.duplicate(), name, rest)),
                            Err(x) => Err(x),
                        };
                    },
                    _ => {},
                }
                match marker_of_callee(callee) {
                    Some(m) => {
                        if m.no_wrap() {
                            Ok(whole.duplicate())
                        } else if m.render() {
                            let c = match self.fold(callee) {
                                Ok(c) => c,
                                Err(x) => { return Err(x); },
                            };
                            match self.fold_nodes(args) {
                                Ok(a) => Ok(Node::Call { callee: Box::new(c), args: a }),
                                Err(x) => Err(x),
                            }
                        } else {
                            match m {
                                Marker::Always => self.fold_call_expr(cur),
                                _ => Ok(make_wrapped(whole, wrap)),
                            }
                        }
                    },
                    None => Ok(make_wrapped(whole, wrap)),
                }
            },
            _ => Ok(make_wrapped(whole, wrap)),
        }
    }

    /// The arguments of a collection method, as they are handed to the
    /// runtime: see [`method_args`].
    fn fold_method_args(&self, args: &Vec<Node>) -> (r: Result<Vec<Node>, UnsupportedPrivateName>)
        ensures
            agrees_seq(r, method_args(view_nodes(args@))),
        decreases args, 0int,
    {
        let ghost all = view_nodes(args@);
        let mut out: Vec<Node> = Vec::new();
        let mut i: usize = 0;
        assert(view_nodes(out@) =~= Seq::empty());
        assert(all.take(0) =~= Seq::empty());
        while i < args.len()
            invariant
                i <= args.len(),
                all == view_nodes(args@),
                method_args(all.take(i as int)) == Ok::<Seq<NodeV>, Seq<char>>(view_nodes(out@)),
                forall|j: int| 0 <= j < args.len() ==> decreases_to!(args => #[trigger] args[j]),
            decreases args.len() - i,
        {
            proof {
                assert(all.take(i as int + 1).drop_last() =~= all.take(i as int));
                assert(all.take(i as int + 1).last() == args[i as int]@);
            }
            let arg = &args[i];
            let rewritten = match arg {
                Node::Spread(_) => Ok(arg.duplicate()),
                _ => match self.fold_closure_body(arg) {
                    Some(r) => r,
                    None => Ok(arg.duplicate()),
                },
            };
            assert(agrees(rewritten, method_arg(arg@)));
            match rewritten {
                Ok(x) => {
                    assert(view_nodes(out@.push(x)) =~= view_nodes(out@).push(x@));
                    out.push(x);
                },
                Err(x) => {
                    proof {
                        lemma_method_args_fails(all, i as int + 1);
                    }
                    return Err(x);
                },
            }
            i += 1;
        }
        proof {
            assert(all.take(i as int) =~= all);
        }
        Ok(out)
    }

    /// The closure that `cur` is once its parentheses are removed, with its
    /// body rewritten by the pass; `None` where `cur` is no closure.
    fn fold_closure_body(&self, cur: &Node) -> (r: Option<Result<Node, UnsupportedPrivateName>>)
        ensures
            match r {
                Some(x) => closure_body_rewritten(cur@) matches Some(s) && agrees(x, s),
                None => closure_body_rewritten(cur@) is None,
            },
        decreases cur, 0int,
    {
        match cur {
            Node::Paren(inner) => self.fold_closure_body(inner),
            Node::Arrow { params, body, is_async } => Some(
                match self.fold(body) {
                    Ok(b) => Ok(
                        Node::Arrow {
                            params: duplicate_nodes(params),
                            body: Box::new(b),
                            is_async: *is_async,
                        },
                    ),
                    Err(x) => Err(x),
                },
            ),
            Node::Fn { name, params, body, is_async, is_generator } => Some(
                match self.fold_nodes(body) {
                    Ok(b) => Ok(
                        Node::Fn {
                            name: duplicate_opt_ident(name),
                            params: duplicate_nodes(params),
                            body: b,
                            is_async: *is_async,
                            is_generator: *is_generator,
                        },
                    ),
                    Err(x) => Err(x),
                },
            ),
            _ => None,
        }
    }
}

/// Exec form of [`next_armed`].
fn next_state(armed: bool, child: &Node) -> (r: bool)
    ensures
        r == next_armed(armed, child@),
{
    match child {
        Node::Container(_) if armed => false,
        Node::Text(t) => strip_marker(t.as_str()).is_some(),
        _ => false,
    }
}

} // verus!
