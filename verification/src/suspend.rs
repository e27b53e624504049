//! The check for a suspend point: whether an expression awaits directly,
//! that is, outside any function nested in it.
use vstd::prelude::*;
use crate::ast::{MemberProp, MemberPropV, Node, NodeV, view_nodes, view_opt};

verus! {

/// Whether `n` holds an `await` outside any nested closure or function.
pub open spec fn has_suspend_point(n: NodeV) -> bool
    decreases n,
{
    match n {
        NodeV::Await(_) => true,
        // a nested function suspends on its own account
        NodeV::Arrow { .. } | NodeV::Fn { .. } | NodeV::FnDecl { .. } => false,
        NodeV::Lit(_) | NodeV::Ident(_) | NodeV::This | NodeV::Text(_) | NodeV::Hole
        | NodeV::TypeOnly(_) => false,
        NodeV::Paren(e) => has_suspend_point(*e),
        NodeV::Member { obj, prop } => has_suspend_point(*obj) || match prop {
            MemberPropV::Computed(k) => has_suspend_point(*k),
            _ => false,
        },
        NodeV::Call { callee, args } => has_suspend_point(*callee) || any_suspend_point(args),
        NodeV::Spread(e) => has_suspend_point(*e),
        NodeV::Element { name, attrs, children } => has_suspend_point(*name) || any_suspend_point(
            attrs,
        ) || any_suspend_point(children),
        NodeV::Attr { name, value } => opt_suspend_point(value),
        NodeV::Container(o) => opt_suspend_point(o),
        NodeV::SpreadChild(e) => has_suspend_point(*e),
        NodeV::Fragment(s) => any_suspend_point(s),
        NodeV::Block(s) => any_suspend_point(s),
        NodeV::ExprStmt(e) => has_suspend_point(*e),
        NodeV::Return(o) => opt_suspend_point(o),
        NodeV::VarDecl { kind, decls } => any_suspend_point(decls),
        NodeV::Declarator { name, init } => has_suspend_point(*name) || opt_suspend_point(init),
        NodeV::ClassDecl { name, super_class, body } => opt_suspend_point(super_class)
            || any_suspend_point(body),
        NodeV::EnumDecl { name, members } => any_suspend_point(members),
        NodeV::Catch { param, body } => opt_suspend_point(param) || any_suspend_point(body),
        NodeV::ArrayPat(s) => any_suspend_point(s),
        NodeV::ObjectPat(s) => any_suspend_point(s),
        NodeV::KeyValuePatProp { key, value } => has_suspend_point(*key) || has_suspend_point(
            *value,
        ),
        NodeV::AssignPatProp { key, value } => opt_suspend_point(value),
        NodeV::RestPat(e) => has_suspend_point(*e),
        NodeV::Other { tag, children } => any_suspend_point(children),
    }
}

/// Whether one of the nodes of `s` has a suspend point.
pub open spec fn any_suspend_point(s: Seq<NodeV>) -> bool
    decreases s,
{
    exists|i: int| 0 <= i < s.len() && has_suspend_point(#[trigger] s[i])
}

/// Whether an optional node has a suspend point.
pub open spec fn opt_suspend_point(o: Option<Box<NodeV>>) -> bool
    decreases o,
{
    match o {
        Some(b) => has_suspend_point(*b),
        None => false,
    }
}

/// Whether `expr` holds an `await` outside any nested closure or function.
pub fn is_async(expr: &Node) -> (r: bool)
    ensures
        r == has_suspend_point(expr@),
    decreases expr,
{
    match expr {
        Node::Await(_) => true,
        Node::Arrow { .. } | Node::Fn { .. } | Node::FnDecl { .. } => false,
        Node::Lit(_) | Node::Ident(_) | Node::This | Node::Text(_) | Node::Hole | Node::TypeOnly(
            _,
        ) => false,
        Node::Paren(e) => is_async(e),
        Node::Member { obj, prop } => is_async(obj) || match prop {
            MemberProp::Computed(k) => is_async(k),
            _ => false,
        },
        Node::Call { callee, args } => is_async(callee) || any_async(args),
        Node::Spread(e) => is_async(e),
        Node::Element { name, attrs, children } => is_async(name) || any_async(attrs) || any_async(
            children,
        ),
        Node::Attr { name, value } => opt_async(value),
        Node::Container(o) => opt_async(o),
        Node::SpreadChild(e) => is_async(e),
        Node::Fragment(s) => any_async(s),
        Node::Block(s) => any_async(s),
        Node::ExprStmt(e) => is_async(e),
        Node::Return(o) => opt_async(o),
        Node::VarDecl { kind, decls } => any_async(decls),
        Node::Declarator { name, init } => is_async(name) || opt_async(init),
        Node::ClassDecl { name, super_class, body } => opt_async(super_class) || any_async(body),
        Node::EnumDecl { name, members } => any_async(members),
        Node::Catch { param, body } => opt_async(param) || any_async(body),
        Node::ArrayPat(s) => any_async(s),
        Node::ObjectPat(s) => any_async(s),
        Node::KeyValuePatProp { key, value } => is_async(key) || is_async(value),
        Node::AssignPatProp { key, value } => opt_async(value),
        Node::RestPat(e) => is_async(e),
        Node::Other { tag, children } => any_async(children),
    }
}

/// Whether one of the nodes of `v` has a suspend point.
fn any_async(v: &Vec<Node>) -> (r: bool)
    ensures
        r == any_suspend_point(view_nodes(v@)),
    decreases v,
{
    let mut i: usize = 0;
    while i < v.len()
        invariant
            i <= v.len(),
            forall|j: int| 0 <= j < i ==> !has_suspend_point(#[trigger] view_nodes(v@)[j]),
            forall|j: int| 0 <= j < v.len() ==> decreases_to!(v => #[trigger] v[j]),
        decreases v.len() - i,
    {
        if is_async(&v[i]) {
            assert(has_suspend_point(view_nodes(v@)[i as int]));
            return true;
        }
        i += 1;
    }
    false
}

/// Whether an optional node has a suspend point.
fn opt_async(o: &Option<Box<Node>>) -> (r: bool)
    ensures
        r == opt_suspend_point(view_opt(*o)),
    decreases o,
{
    match o {
        Some(b) => is_async(b),
        None => false,
    }
}

} // verus!
