//! What the transform computes, as mathematical functions on models of
//! syntax trees.
//!
//! A rewrite either succeeds with the new tree or fails with the name of
//! the first private member that stands where an accessor call is due: the
//! accessor call takes the property as a string, and a private name has
//! none.
use vstd::prelude::*;
use crate::ast::{AttrNameV, LitV, MemberPropV, NodeV};
use crate::closure::{
    argument_expr, is_closure, make_transferable, marker_ident, strip_parens, transferable_call,
};
use crate::markers::{
    Marker, Wrap, is_collection_method, is_frontend_qualifier, is_value_accessor, marker_of,
};
use crate::suspend::has_suspend_point;
use crate::text::{has_static_marker, strip_static_marker};

verus! {

// ---------------------------------------------------------------------
// The shapes that the rewrite emits
// ---------------------------------------------------------------------

/// `prop(obj, key)`: the read of a property through the runtime.
pub open spec fn prop_call(obj: NodeV, key: NodeV) -> NodeV {
    NodeV::Call { callee: Box::new(marker_ident(Marker::Prop)), args: seq![obj, key] }
}

/// `_$method(receiver, "name", ...rest)`: the call of a collection method
/// through the runtime.
pub open spec fn method_call(receiver: NodeV, name: Seq<char>, rest: Seq<NodeV>) -> NodeV {
    NodeV::Call {
        callee: Box::new(marker_ident(Marker::Method)),
        args: seq![receiver, NodeV::Lit(LitV::Str(name))] + rest,
    }
}

/// `$(arg)`: a value that needs no tracking.
pub open spec fn stable_call(arg: NodeV) -> NodeV {
    NodeV::Call { callee: Box::new(marker_ident(Marker::Stable)), args: seq![arg] }
}

/// `() => e`, or `async () => e`.
pub open spec fn thunk(e: NodeV, is_async: bool) -> NodeV {
    NodeV::Arrow { params: Seq::empty(), body: Box::new(e), is_async }
}

/// `marker(() => e)`, the closure marked as suspending if `is_async`.
pub open spec fn wrap_call(m: Marker, e: NodeV, is_async: bool) -> NodeV {
    NodeV::Call { callee: Box::new(marker_ident(m)), args: seq![thunk(e, is_async)] }
}

/// `e` wrapped for tracking under the marker of `w`. Where `e` has a
/// suspend point the closure is marked as suspending and the call is
/// awaited.
pub open spec fn wrapped(e: NodeV, w: Wrap) -> NodeV {
    if has_suspend_point(e) {
        NodeV::Await(Box::new(wrap_call(w.marker(), e, true)))
    } else {
        wrap_call(w.marker(), e, false)
    }
}

// ---------------------------------------------------------------------
// The shapes that the rewrite tells apart
// ---------------------------------------------------------------------

/// Whether `obj` is a member access that ends in a value accessor, as in
/// `x.$`: a member of it is tracked by hand.
pub open spec fn is_manual_access(obj: NodeV) -> bool {
    obj matches NodeV::Member { obj: inner, prop: MemberPropV::Ident(name) } && is_value_accessor(
        name,
    )
}

/// The receiver and the name of the method, where `callee` is the access of
/// a collection method, as in `list.map`.
pub open spec fn collection_callee(callee: NodeV) -> Option<(NodeV, Seq<char>)> {
    match callee {
        NodeV::Member { obj, prop: MemberPropV::Ident(name) } => if is_collection_method(name) {
            Some((*obj, name))
        } else {
            None
        },
        _ => None,
    }
}

/// The marker that a callee names, where it is a plain identifier.
pub open spec fn callee_marker(callee: NodeV) -> Option<Marker> {
    match callee {
        NodeV::Ident(i) => marker_of(i.sym),
        _ => None,
    }
}

/// Whether `n` needs no tracking as it stands: a literal, an element, a
/// plain identifier or the self-reference.
pub open spec fn is_stable(n: NodeV) -> bool {
    n is Lit || n is Element || n is Ident || n is This
}

/// Whether an attribute of that name marks its value as crossing to the
/// frontend.
pub open spec fn is_frontend_attr(name: AttrNameV) -> bool {
    name matches AttrNameV::Namespaced { ns, name: local } && is_frontend_qualifier(local)
}

/// Whether an element child is literal text that ends with the marker.
pub open spec fn is_marker_text(child: NodeV) -> bool {
    child matches NodeV::Text(t) && has_static_marker(t)
}

// ---------------------------------------------------------------------
// Results
// ---------------------------------------------------------------------

/// Both results, or the first failure.
pub open spec fn both<A, B>(a: Result<A, Seq<char>>, b: Result<B, Seq<char>>) -> Result<
    (A, B),
    Seq<char>,
> {
    match a {
        Err(e) => Err(e),
        Ok(x) => match b {
            Err(e) => Err(e),
            Ok(y) => Ok((x, y)),
        },
    }
}

// ---------------------------------------------------------------------
// The rewrite
// ---------------------------------------------------------------------

/// The pass over a whole tree. Calls are rewritten by [`rewrite_call`],
/// attributes by [`rewrite_attr`], the children of an element or of a
/// fragment by [`normalize_children`], and the expression of an
/// interpolation by [`classify_and_rewrite`]; every other node keeps its
/// shape and has its sub-trees rewritten.
pub open spec fn rewrite(n: NodeV) -> Result<NodeV, Seq<char>>
    decreases n, 1int,
{
    match n {
        NodeV::Lit(_) | NodeV::Ident(_) | NodeV::This | NodeV::Text(_) | NodeV::Hole
        | NodeV::TypeOnly(_) => Ok(n),
        NodeV::Call { .. } => rewrite_call(n),
        NodeV::Attr { .. } => rewrite_attr(n),
        NodeV::Container(o) => match o {
            None => Ok(n),
            Some(e) => match classify_and_rewrite(*e, Wrap::Reactive) {
                Err(x) => Err(x),
                Ok(r) => Ok(NodeV::Container(Some(Box::new(r)))),
            },
        },
        NodeV::SpreadChild(e) => match classify_and_rewrite(*e, Wrap::Reactive) {
            Err(x) => Err(x),
            Ok(r) => Ok(NodeV::SpreadChild(Box::new(r))),
        },
        NodeV::Element { name, attrs, children } => match both(
            rewrite_seq(attrs),
            normalize_children(children),
        ) {
            Err(x) => Err(x),
            Ok((a, c)) => Ok(NodeV::Element { name, attrs: a, children: c }),
        },
        NodeV::Fragment(children) => match normalize_children(children) {
            Err(x) => Err(x),
            Ok(c) => Ok(NodeV::Fragment(c)),
        },
        NodeV::Paren(e) => match rewrite(*e) {
            Err(x) => Err(x),
            Ok(r) => Ok(NodeV::Paren(Box::new(r))),
        },
        NodeV::Member { obj, prop } => match rewrite(*obj) {
            Err(x) => Err(x),
            Ok(o) => match prop {
                MemberPropV::Computed(k) => match rewrite(*k) {
                    Err(x) => Err(x),
                    Ok(k1) => Ok(
                        NodeV::Member {
                            obj: Box::new(o),
                            prop: MemberPropV::Computed(Box::new(k1)),
                        },
                    ),
                },
                _ => Ok(NodeV::Member { obj: Box::new(o), prop }),
            },
        },
        NodeV::Spread(e) => match rewrite(*e) {
            Err(x) => Err(x),
            Ok(r) => Ok(NodeV::Spread(Box::new(r))),
        },
        NodeV::Arrow { params, body, is_async } => match both(rewrite_seq(params), rewrite(*body)) {
            Err(x) => Err(x),
            Ok((p, b)) => Ok(NodeV::Arrow { params: p, body: Box::new(b), is_async }),
        },
        NodeV::Fn { name, params, body, is_async, is_generator } => match both(
            rewrite_seq(params),
            rewrite_seq(body),
        ) {
            Err(x) => Err(x),
            Ok((p, b)) => Ok(NodeV::Fn { name, params: p, body: b, is_async, is_generator }),
        },
        NodeV::Await(e) => match rewrite(*e) {
            Err(x) => Err(x),
            Ok(r) => Ok(NodeV::Await(Box::new(r))),
        },
        NodeV::Block(s) => match rewrite_seq(s) {
            Err(x) => Err(x),
            Ok(r) => Ok(NodeV::Block(r)),
        },
        NodeV::ExprStmt(e) => match rewrite(*e) {
            Err(x) => Err(x),
            Ok(r) => Ok(NodeV::ExprStmt(Box::new(r))),
        },
        NodeV::Return(o) => match rewrite_opt(o) {
            Err(x) => Err(x),
            Ok(r) => Ok(NodeV::Return(r)),
        },
        NodeV::VarDecl { kind, decls } => match rewrite_seq(decls) {
            Err(x) => Err(x),
            Ok(r) => Ok(NodeV::VarDecl { kind, decls: r }),
        },
        NodeV::Declarator { name, init } => match both(rewrite(*name), rewrite_opt(init)) {
            Err(x) => Err(x),
            Ok((p, i)) => Ok(NodeV::Declarator { name: Box::new(p), init: i }),
        },
        NodeV::FnDecl { name, params, body, is_async, is_generator } => match both(
            rewrite_seq(params),
            rewrite_seq(body),
        ) {
            Err(x) => Err(x),
            Ok((p, b)) => Ok(NodeV::FnDecl { name, params: p, body: b, is_async, is_generator }),
        },
        NodeV::ClassDecl { name, super_class, body } => match both(
            rewrite_opt(super_class),
            rewrite_seq(body),
        ) {
            Err(x) => Err(x),
            Ok((s, b)) => Ok(NodeV::ClassDecl { name, super_class: s, body: b }),
        },
        NodeV::EnumDecl { name, members } => match rewrite_seq(members) {
            Err(x) => Err(x),
            Ok(r) => Ok(NodeV::EnumDecl { name, members: r }),
        },
        NodeV::Catch { param, body } => match both(rewrite_opt(param), rewrite_seq(body)) {
            Err(x) => Err(x),
            Ok((p, b)) => Ok(NodeV::Catch { param: p, body: b }),
        },
        NodeV::ArrayPat(s) => match rewrite_seq(s) {
            Err(x) => Err(x),
            Ok(r) => Ok(NodeV::ArrayPat(r)),
        },
        NodeV::ObjectPat(s) => match rewrite_seq(s) {
            Err(x) => Err(x),
            Ok(r) => Ok(NodeV::ObjectPat(r)),
        },
        NodeV::KeyValuePatProp { key, value } => match both(rewrite(*key), rewrite(*value)) {
            Err(x) => Err(x),
            Ok((k, v)) => Ok(NodeV::KeyValuePatProp { key: Box::new(k), value: Box::new(v) }),
        },
        NodeV::AssignPatProp { key, value } => match rewrite_opt(value) {
            Err(x) => Err(x),
            Ok(r) => Ok(NodeV::AssignPatProp { key, value: r }),
        },
        NodeV::RestPat(e) => match rewrite(*e) {
            Err(x) => Err(x),
            Ok(r) => Ok(NodeV::RestPat(Box::new(r))),
        },
        NodeV::Other { tag, children } => match rewrite_seq(children) {
            Err(x) => Err(x),
            Ok(r) => Ok(NodeV::Other { tag, children: r }),
        },
    }
}

/// The pass over each node of a list, in order.
pub open spec fn rewrite_seq(s: Seq<NodeV>) -> Result<Seq<NodeV>, Seq<char>>
    decreases s, 0int,
{
    if s.len() == 0 {
        Ok(Seq::empty())
    } else {
        match both(rewrite_seq(s.drop_last()), rewrite(s.last())) {
            Err(x) => Err(x),
            Ok((p, r)) => Ok(p.push(r)),
        }
    }
}

/// The pass over an optional node.
pub open spec fn rewrite_opt(o: Option<Box<NodeV>>) -> Result<Option<Box<NodeV>>, Seq<char>>
    decreases o, 0int,
{
    match o {
        None => Ok(None),
        Some(b) => match rewrite(*b) {
            Err(x) => Err(x),
            Ok(r) => Ok(Some(Box::new(r))),
        },
    }
}

/// The call-site rewrite, by the marker that the callee names once the
/// parentheses around it are removed.
///
/// * `always(arg)`: where the argument is stable, `$(arg')` with the
///   argument rewritten by the pass; where it is a closure, the call as it
///   is; otherwise what the classifier makes of the argument under
///   [`Wrap::Always`] if that is a call, and `always(() => arg)` if it is
///   not.
/// * `run(..)`, `renderFrontend(..)`: see [`transferable_call`].
/// * any other callee: the call with its callee and arguments rewritten by
///   the pass.
///
/// Anything but a call is left as it is.
pub open spec fn rewrite_call(call: NodeV) -> Result<NodeV, Seq<char>>
    decreases call, 0int,
{
    match call {
        NodeV::Call { callee, args } => match callee_marker(strip_parens(*callee)) {
            Some(Marker::Always) => if args.len() == 0 {
                Ok(stable_call(NodeV::Lit(LitV::Null)))
            } else {
                let arg = argument_expr(args[0]);
                if is_stable(strip_parens(arg)) {
                    match rewrite(arg) {
                        Err(x) => Err(x),
                        Ok(a) => Ok(stable_call(a)),
                    }
                } else if is_closure(strip_parens(arg)) {
                    Ok(call)
                } else {
                    match classify_and_rewrite(arg, Wrap::Always) {
                        Err(x) => Err(x),
                        Ok(r) => if strip_parens(r) is Call {
                            Ok(strip_parens(r))
                        } else {
                            Ok(wrap_call(Marker::Always, arg, false))
                        },
                    }
                }
            },
            Some(Marker::Run) | Some(Marker::RenderFrontend) => Ok(transferable_call(call)),
            _ => match both(rewrite(*callee), rewrite_seq(args)) {
                Err(x) => Err(x),
                Ok((c, a)) => Ok(NodeV::Call { callee: Box::new(c), args: a }),
            },
        },
        _ => Ok(call),
    }
}

/// The rewrite of an attribute.
///
/// Only a value that is an interpolation with an expression is rewritten.
/// Under a name with the `frontend` qualifier a closure is made
/// transferable and a call has its closure made transferable; every other
/// expression is classified under [`Wrap::Reactive`].
pub open spec fn rewrite_attr(attr: NodeV) -> Result<NodeV, Seq<char>>
    decreases attr, 0int,
{
    match attr {
        NodeV::Attr { name, value: Some(v) } => match *v {
            NodeV::Container(Some(e)) => {
                let inner = strip_parens(*e);
                if is_frontend_attr(name) && is_closure(inner) {
                    Ok(attr_with(name, make_transferable(inner)))
                } else if is_frontend_attr(name) && inner is Call {
                    Ok(attr_with(name, transferable_call(inner)))
                } else {
                    match classify_and_rewrite(*e, Wrap::Reactive) {
                        Err(x) => Err(x),
                        Ok(r) => Ok(attr_with(name, r)),
                    }
                }
            },
            _ => Ok(attr),
        },
        _ => Ok(attr),
    }
}

/// The attribute `name={e}`.
pub open spec fn attr_with(name: AttrNameV, e: NodeV) -> NodeV {
    NodeV::Attr { name, value: Some(Box::new(NodeV::Container(Some(Box::new(e))))) }
}

/// The classifier: what an expression in a reactive slot becomes. The
/// expression is read without the parentheses around it. The cases are
/// tried in this order, and the first that fits decides:
///
/// * a literal, an element, a plain identifier, `this`: unchanged;
/// * a closure: unchanged;
/// * a member of a member access that ends in a value accessor, as in
///   `x.$.y`: unchanged;
/// * any other member access: `prop(obj', key)`, where `obj'` is the object
///   classified under [`Wrap::Reactive`] and `key` is the property's name
///   as a string, or the computed key as it is; a private name fails;
/// * a call of a collection method, as in `list.map(f)`:
///   `_$method(list, "map", f')`, see [`method_args`];
/// * a call of a marker that needs no wrap: unchanged;
/// * a call of a render-mode marker: the call with its callee and
///   arguments rewritten by the pass;
/// * a call of `always`: see [`rewrite_call`];
/// * anything else: wrapped, see [`wrapped`].
pub open spec fn classify_and_rewrite(e: NodeV, w: Wrap) -> Result<NodeV, Seq<char>>
    decreases e, 2int,
{
    classify_as(e, e, w)
}

/// The classifier at work on `whole`, of which `cur` is what is left once
/// the parentheses seen so far are removed.
pub open spec fn classify_as(whole: NodeV, cur: NodeV, w: Wrap) -> Result<NodeV, Seq<char>>
    decreases cur, 1int,
{
    match cur {
        NodeV::Paren(inner) => classify_as(whole, *inner, w),
        NodeV::Lit(_) | NodeV::Element { .. } | NodeV::Ident(_) | NodeV::This => Ok(whole),
        NodeV::Arrow { .. } | NodeV::Fn { .. } => Ok(whole),
        NodeV::Member { obj, prop } => if is_manual_access(*obj) {
            Ok(whole)
        } else {
            match classify_and_rewrite(*obj, Wrap::Reactive) {
                Err(x) => Err(x),
                Ok(o) => match prop {
                    MemberPropV::Ident(name) => Ok(prop_call(o, NodeV::Lit(LitV::Str(name)))),
                    MemberPropV::Computed(k) => Ok(prop_call(o, *k)),
                    MemberPropV::PrivateName(name) => Err(name),
                },
            }
        },
        NodeV::Call { callee, args } => match collection_callee(*callee) {
            Some((receiver, name)) => match method_args(args) {
                Err(x) => Err(x),
                Ok(rest) => Ok(method_call(receiver, name, rest)),
            },
            None => match callee_marker(*callee) {
                Some(m) => if m.is_no_wrap() {
                    Ok(whole)
                } else if m.is_render() {
                    match both(rewrite(*callee), rewrite_seq(args)) {
                        Err(x) => Err(x),
                        Ok((c, a)) => Ok(NodeV::Call { callee: Box::new(c), args: a }),
                    }
                } else if m == Marker::Always {
                    rewrite_call(cur)
                } else {
                    Ok(wrapped(whole, w))
                },
                None => Ok(wrapped(whole, w)),
            },
        },
        _ => Ok(wrapped(whole, w)),
    }
}

/// The arguments of a collection method, as they are handed to the runtime:
/// an argument that is a closure, and no spread, has its body rewritten by
/// the pass; every other argument stays as it is.
pub open spec fn method_args(args: Seq<NodeV>) -> Result<Seq<NodeV>, Seq<char>>
    decreases args, 0int,
{
    if args.len() == 0 {
        Ok(Seq::empty())
    } else {
        match both(method_args(args.drop_last()), method_arg(args.last())) {
            Err(x) => Err(x),
            Ok((p, r)) => Ok(p.push(r)),
        }
    }
}

/// One argument of a collection method: see [`method_args`].
pub open spec fn method_arg(arg: NodeV) -> Result<NodeV, Seq<char>>
    decreases arg, 1int,
{
    match arg {
        NodeV::Spread(_) => Ok(arg),
        _ => match closure_body_rewritten(arg) {
            Some(r) => r,
            None => Ok(arg),
        },
    }
}

/// The closure that `cur` is once its parentheses are removed, with its
/// body rewritten by the pass; `None` where `cur` is no closure.
pub open spec fn closure_body_rewritten(cur: NodeV) -> Option<Result<NodeV, Seq<char>>>
    decreases cur, 0int,
{
    match cur {
        NodeV::Paren(inner) => closure_body_rewritten(*inner),
        NodeV::Arrow { params, body, is_async } => Some(
            match rewrite(*body) {
                Err(x) => Err(x),
                Ok(b) => Ok(NodeV::Arrow { params, body: Box::new(b), is_async }),
            },
        ),
        NodeV::Fn { name, params, body, is_async, is_generator } => Some(
            match rewrite_seq(body) {
                Err(x) => Err(x),
                Ok(b) => Ok(NodeV::Fn { name, params, body: b, is_async, is_generator }),
            },
        ),
        _ => None,
    }
}

/// Whether the child after `child` is exempt from tracking if it is an
/// interpolation, where `armed` says so of `child` itself: an interpolation
/// uses the exemption up, and literal text that ends with the marker
/// grants it.
pub open spec fn next_armed(armed: bool, child: NodeV) -> bool {
    if armed && child is Container {
        false
    } else {
        is_marker_text(child)
    }
}

/// Whether the child that follows `children` is exempt from tracking if it
/// is an interpolation.
pub open spec fn armed_after(children: Seq<NodeV>) -> bool
    decreases children.len(),
{
    if children.len() == 0 {
        false
    } else {
        next_armed(armed_after(children.drop_last()), children.last())
    }
}

/// What one child of an element becomes, where `armed` says whether it is
/// exempt from tracking if it is an interpolation: an exempt interpolation
/// stays as it is; literal text that ends with the marker loses the marker;
/// a fragment among the children stays as it is; any other child is
/// rewritten by the pass.
pub open spec fn normalize_child(armed: bool, child: NodeV) -> Result<NodeV, Seq<char>>
    decreases child, 2int,
{
    if armed && child is Container {
        Ok(child)
    } else {
        match child {
            NodeV::Text(t) => if has_static_marker(t) {
                Ok(NodeV::Text(strip_static_marker(t)))
            } else {
                Ok(child)
            },
            NodeV::Fragment(_) => Ok(child),
            _ => rewrite(child),
        }
    }
}

/// What the children of an element become, in document order.
pub open spec fn normalize_children(children: Seq<NodeV>) -> Result<Seq<NodeV>, Seq<char>>
    decreases children, 0int,
{
    if children.len() == 0 {
        Ok(Seq::empty())
    } else {
        match both(
            normalize_children(children.drop_last()),
            normalize_child(armed_after(children.drop_last()), children.last()),
        ) {
            Err(x) => Err(x),
            Ok((p, r)) => Ok(p.push(r)),
        }
    }
}

// ---------------------------------------------------------------------
// A failure in a list is the first failure
// ---------------------------------------------------------------------

/// Where the pass fails on a prefix of a list, it fails on the list, and
/// with the same name.
pub proof fn lemma_rewrite_seq_fails(s: Seq<NodeV>, k: int)
    requires
        0 <= k <= s.len(),
        rewrite_seq(s.take(k)) is Err,
    ensures
        rewrite_seq(s) == rewrite_seq(s.take(k)),
    decreases s.len(),
{
    if k == s.len() {
        assert(s.take(k) =~= s);
    } else {
        assert(s.drop_last().take(k) =~= s.take(k));
        lemma_rewrite_seq_fails(s.drop_last(), k);
    }
}

/// Where the arguments of a collection method fail on a prefix, they fail
/// as a whole, and with the same name.
pub proof fn lemma_method_args_fails(s: Seq<NodeV>, k: int)
    requires
        0 <= k <= s.len(),
        method_args(s.take(k)) is Err,
    ensures
        method_args(s) == method_args(s.take(k)),
    decreases s.len(),
{
    if k == s.len() {
        assert(s.take(k) =~= s);
    } else {
        assert(s.drop_last().take(k) =~= s.take(k));
        lemma_method_args_fails(s.drop_last(), k);
    }
}

/// Where the children of an element fail on a prefix, they fail as a
/// whole, and with the same name.
pub proof fn lemma_normalize_children_fails(s: Seq<NodeV>, k: int)
    requires
        0 <= k <= s.len(),
        normalize_children(s.take(k)) is Err,
    ensures
        normalize_children(s) == normalize_children(s.take(k)),
    decreases s.len(),
{
    if k == s.len() {
        assert(s.take(k) =~= s);
    } else {
        assert(s.drop_last().take(k) =~= s.take(k));
        lemma_normalize_children_fails(s.drop_last(), k);
    }
}

} // verus!
