//! Laws of the transform, each stated over the models and proved.
use vstd::prelude::*;
use crate::ast::{IdentV, LitV, MemberPropV, NodeV};
use crate::closure::{
    argument_expr, body_statements, capture_statement, is_closure, make_transferable,
    marker_ident, strip_parens, with_capture,
};
use crate::markers::{Marker, Wrap, lemma_marker_of_name};
use crate::rewrite::{
    armed_after, both, callee_marker, classify_and_rewrite, classify_as, closure_body_rewritten,
    collection_callee, is_manual_access, is_marker_text, is_stable, method_arg, method_args,
    next_armed, normalize_child, normalize_children, rewrite, rewrite_attr, rewrite_call,
    rewrite_opt, rewrite_seq, stable_call, thunk, wrap_call, wrapped,
};
use crate::scope::{
    Facts, array_bindings, array_names, declared_in, declared_in_opt, declared_in_seq, distinct,
    extend_unique, facts, facts_opt, facts_seq, free_variables, has_capture_declaration,
    implicit_this, is_capture_callee, lemma_extend_unique_concat,
    lemma_extend_unique_no_duplicates, lemma_extend_unique_one, lemma_extend_unique_set,
    nested_facts, object_bindings, object_names, object_prop_names, opt_pattern_bindings,
    params_bindings, params_names, pattern_bindings, pattern_names, push_unique, read_name,
    scope_facts, scope_of, this_first, this_ident,
};
use crate::suspend::has_suspend_point;
use crate::text::{has_static_marker, strip_static_marker};

verus! {

// ---------------------------------------------------------------------
// The names that parameters declare
// ---------------------------------------------------------------------

/// What a concatenation holds is what its parts hold.
proof fn lemma_concat_to_set(a: Seq<IdentV>, b: Seq<IdentV>)
    ensures
        (a + b).to_set() == a.to_set().union(b.to_set()),
{
    assert forall|x: IdentV| (a + b).contains(x) <==> a.contains(x) || b.contains(x) by {
        if (a + b).contains(x) {
            let i = choose|i: int| 0 <= i < (a + b).len() && (a + b)[i] == x;
            if i < a.len() {
                assert(a[i] == x);
            } else {
                assert(b[i - a.len()] == x);
            }
        }
        if a.contains(x) {
            let i = choose|i: int| 0 <= i < a.len() && a[i] == x;
            assert((a + b)[i] == x);
        }
        if b.contains(x) {
            let i = choose|i: int| 0 <= i < b.len() && b[i] == x;
            assert((a + b)[a.len() + i] == x);
        }
    }
    assert((a + b).to_set() =~= a.to_set().union(b.to_set()));
}

/// A list of one name holds that name.
proof fn lemma_one_to_set(x: IdentV)
    ensures
        seq![x].to_set() == set![x],
{
    assert forall|y: IdentV| seq![x].contains(y) <==> y == x by {
        assert(seq![x][0] == x);
    }
    assert(seq![x].to_set() =~= set![x]);
}

/// The empty list holds nothing.
proof fn lemma_empty_to_set()
    ensures
        Seq::<IdentV>::empty().to_set() == Set::<IdentV>::empty(),
{
    assert(Seq::<IdentV>::empty().to_set() =~= Set::<IdentV>::empty());
}

/// The names that the elements of an array pattern declare in order are
/// the names that they declare.
pub proof fn lemma_array_names_are_the_bindings(elems: Seq<NodeV>)
    ensures
        array_names(elems).to_set() == array_bindings(elems),
    decreases elems,
{
    lemma_empty_to_set();
    if elems.len() > 0 {
        lemma_array_names_are_the_bindings(elems.drop_last());
        let last = match elems.last() {
            NodeV::Ident(i) => seq![i],
            NodeV::ArrayPat(inner) => array_names(inner),
            _ => Seq::empty(),
        };
        match elems.last() {
            NodeV::Ident(i) => {
                lemma_one_to_set(i);
            },
            NodeV::ArrayPat(inner) => {
                lemma_array_names_are_the_bindings(inner);
            },
            _ => {},
        }
        lemma_concat_to_set(array_names(elems.drop_last()), last);
    }
}

/// The names that the entries of an object pattern declare in order are
/// the names that they declare.
pub proof fn lemma_object_names_are_the_bindings(props: Seq<NodeV>)
    ensures
        object_names(props).to_set() == object_bindings(props),
    decreases props.len(),
{
    lemma_empty_to_set();
    if props.len() > 0 {
        lemma_object_names_are_the_bindings(props.drop_last());
        let last = object_prop_names(props.last());
        match props.last() {
            NodeV::KeyValuePatProp { key, value } => {
                match *value {
                    NodeV::Ident(i) => {
                        lemma_one_to_set(i);
                    },
                    _ => {},
                }
            },
            NodeV::AssignPatProp { key, value } => {
                lemma_one_to_set(key);
            },
            NodeV::RestPat(arg) => {
                match *arg {
                    NodeV::Ident(i) => {
                        lemma_one_to_set(i);
                    },
                    _ => {},
                }
            },
            _ => {},
        }
        lemma_concat_to_set(object_names(props.drop_last()), last);
    }
}

/// The names that a pattern declares in order are the names that it
/// declares.
pub proof fn lemma_pattern_names_are_the_bindings(p: NodeV)
    ensures
        pattern_names(p).to_set() == pattern_bindings(p),
{
    lemma_empty_to_set();
    match p {
        NodeV::Ident(i) => {
            lemma_one_to_set(i);
        },
        NodeV::ArrayPat(elems) => {
            lemma_array_names_are_the_bindings(elems);
        },
        NodeV::ObjectPat(props) => {
            lemma_object_names_are_the_bindings(props);
        },
        NodeV::RestPat(arg) => {
            match *arg {
                NodeV::Ident(i) => {
                    lemma_one_to_set(i);
                },
                _ => {},
            }
        },
        _ => {},
    }
}

/// The names that a parameter list declares in order are the names that it
/// declares.
pub proof fn lemma_params_names_are_the_bindings(params: Seq<NodeV>)
    ensures
        params_names(params).to_set() == params_bindings(params),
    decreases params.len(),
{
    lemma_empty_to_set();
    if params.len() > 0 {
        lemma_params_names_are_the_bindings(params.drop_last());
        lemma_pattern_names_are_the_bindings(params.last());
        lemma_concat_to_set(params_names(params.drop_last()), pattern_names(params.last()));
    }
}

/// `s` without the variable `x`.
pub open spec fn without(s: Seq<IdentV>, x: IdentV) -> Seq<IdentV>
    decreases s.len(),
{
    if s.len() == 0 {
        s
    } else if s.last() == x {
        without(s.drop_last(), x)
    } else {
        without(s.drop_last(), x).push(s.last())
    }
}

/// A list without `x` holds what the list holds, but for `x`.
proof fn lemma_without_contains(s: Seq<IdentV>, x: IdentV, y: IdentV)
    ensures
        without(s, x).contains(y) <==> (s.contains(y) && y != x),
    decreases s.len(),
{
    if s.len() > 0 {
        lemma_without_contains(s.drop_last(), x, y);
        let w = without(s.drop_last(), x);
        if s.drop_last().contains(y) {
            let i = choose|i: int| 0 <= i < s.drop_last().len() && s.drop_last()[i] == y;
            assert(s[i] == y);
        }
        if s.contains(y) {
            let i = choose|i: int| 0 <= i < s.len() && s[i] == y;
            if i < s.len() - 1 {
                assert(s.drop_last()[i] == y);
            }
        }
        assert(s[s.len() - 1] == s.last());
        if s.last() != x {
            let r = w.push(s.last());
            assert(r[w.len() as int] == s.last());
            if w.contains(y) {
                let i = choose|i: int| 0 <= i < w.len() && w[i] == y;
                assert(r[i] == y);
            }
            if r.contains(y) {
                let i = choose|i: int| 0 <= i < r.len() && r[i] == y;
                if i < w.len() {
                    assert(w[i] == y);
                }
            }
        }
    }
}

/// Where the scope binds `this`, `this` comes first, and after it come the
/// names that are listed without it, but for `this` itself.
pub proof fn lemma_this_comes_first(names: Seq<IdentV>)
    ensures
        distinct(this_first(true) + names) == seq![this_ident()] + without(
            distinct(names),
            this_ident(),
        ),
        distinct(this_first(false) + names) == distinct(names),
{
    assert(this_first(false) + names =~= names);
    lemma_extend_unique_one(Seq::empty(), this_ident());
    lemma_extend_unique_concat(Seq::empty(), seq![this_ident()], names);
    assert(push_unique(Seq::<IdentV>::empty(), this_ident()) =~= seq![this_ident()]);
    lemma_extend_after_first(this_ident(), names);
}

/// Extending the list of one variable is that variable, followed by what
/// the extension lists without it.
proof fn lemma_extend_after_first(t: IdentV, s: Seq<IdentV>)
    ensures
        extend_unique(seq![t], s) == seq![t] + without(extend_unique(Seq::empty(), s), t),
    decreases s.len(),
{
    let empty = Seq::<IdentV>::empty();
    if s.len() == 0 {
        assert(seq![t] + without(empty, t) =~= seq![t]);
    } else {
        lemma_extend_after_first(t, s.drop_last());
        let x = s.last();
        let d = extend_unique(empty, s.drop_last());
        let w = without(d, t);
        let left = seq![t] + w;
        lemma_without_contains(d, t, x);
        assert(left.contains(x) <==> (x == t || w.contains(x))) by {
            if left.contains(x) {
                let i = choose|i: int| 0 <= i < left.len() && left[i] == x;
                if i > 0 {
                    assert(w[i - 1] == x);
                }
            }
            if w.contains(x) {
                let i = choose|i: int| 0 <= i < w.len() && w[i] == x;
                assert(left[i + 1] == x);
            }
            assert(left[0] == t);
        }
        if x == t {
            if !d.contains(x) {
                assert(d.push(x).drop_last() =~= d);
            }
        } else {
            if !d.contains(x) {
                assert(d.push(x).drop_last() =~= d);
                assert(left.push(x) =~= seq![t] + w.push(x));
            }
        }
    }
}

// ---------------------------------------------------------------------
// Scope correctness
// ---------------------------------------------------------------------

/// What a concatenation holds is held by one of its parts.
proof fn lemma_concat_contains(a: Seq<IdentV>, b: Seq<IdentV>, x: IdentV)
    requires
        (a + b).contains(x),
    ensures
        a.contains(x) || b.contains(x),
{
    let i = choose|i: int| 0 <= i < (a + b).len() && (a + b)[i] == x;
    if i < a.len() {
        assert(a[i] == x);
    } else {
        assert(b[i - a.len()] == x);
    }
}

/// A walk reports no variable that is declared where the walk starts.
pub proof fn lemma_reported_is_undeclared(n: NodeV, d: Set<IdentV>, x: IdentV)
    requires
        facts(n, d).uses.contains(x),
    ensures
        !d.contains(x),
    decreases n,
{
    match n {
        NodeV::Lit(_) | NodeV::Text(_) | NodeV::Hole | NodeV::TypeOnly(_) => {},
        NodeV::EnumDecl { .. } => {},
        NodeV::Ident(i) => {
            assert(facts(n, d).uses[0] == i);
        },
        NodeV::This => {},
        NodeV::Paren(e) => {
            lemma_reported_is_undeclared(*e, d, x);
        },
        NodeV::Member { obj, prop } => {
            let f2 = match prop {
                MemberPropV::Computed(k) => facts(*k, d),
                _ => Facts::nothing(),
            };
            lemma_concat_contains(facts(*obj, d).uses, f2.uses, x);
            if facts(*obj, d).uses.contains(x) {
                lemma_reported_is_undeclared(*obj, d, x);
            } else {
                match prop {
                    MemberPropV::Computed(k) => {
                        lemma_reported_is_undeclared(*k, d, x);
                    },
                    _ => {},
                }
            }
        },
        NodeV::Call { callee, args } => {
            if !is_capture_callee(*callee) {
                lemma_concat_contains(facts(*callee, d).uses, facts_seq(args, d).uses, x);
                if facts(*callee, d).uses.contains(x) {
                    lemma_reported_is_undeclared(*callee, d, x);
                } else {
                    lemma_reported_is_undeclared_seq(args, d, x);
                }
            }
        },
        NodeV::Spread(e) => {
            lemma_reported_is_undeclared(*e, d, x);
        },
        NodeV::Arrow { params, body, is_async } => {
            lemma_reported_is_undeclared(
                *body,
                scope_of(d, false, params_bindings(params), declared_in(*body)),
                x,
            );
        },
        NodeV::Fn { name, params, body, is_async, is_generator } => {
            lemma_reported_is_undeclared_seq(
                body,
                scope_of(d, true, params_bindings(params), declared_in_seq(body)),
                x,
            );
        },
        NodeV::Await(e) => {
            lemma_reported_is_undeclared(*e, d, x);
        },
        NodeV::Element { name, attrs, children } => {
            lemma_concat_contains(facts_seq(attrs, d).uses, facts_seq(children, d).uses, x);
            if facts_seq(attrs, d).uses.contains(x) {
                lemma_reported_is_undeclared_seq(attrs, d, x);
            } else {
                lemma_reported_is_undeclared_seq(children, d, x);
            }
        },
        NodeV::Attr { name, value } => {
            lemma_reported_is_undeclared_opt(value, d, x);
        },
        NodeV::Container(o) => {
            lemma_reported_is_undeclared_opt(o, d, x);
        },
        NodeV::SpreadChild(e) => {
            lemma_reported_is_undeclared(*e, d, x);
        },
        NodeV::Fragment(s) => {
            lemma_reported_is_undeclared_seq(s, d, x);
        },
        NodeV::Block(s) => {
            lemma_reported_is_undeclared_seq(
                s,
                scope_of(d, false, Set::empty(), declared_in_seq(s)),
                x,
            );
        },
        NodeV::ExprStmt(e) => {
            lemma_reported_is_undeclared(*e, d, x);
        },
        NodeV::Return(o) => {
            lemma_reported_is_undeclared_opt(o, d, x);
        },
        NodeV::VarDecl { kind, decls } => {
            lemma_reported_is_undeclared_seq(decls, d, x);
        },
        NodeV::Declarator { name, init } => {
            lemma_concat_contains(facts(*name, d).uses, facts_opt(init, d).uses, x);
            if facts(*name, d).uses.contains(x) {
                lemma_reported_is_undeclared(*name, d, x);
            } else {
                lemma_reported_is_undeclared_opt(init, d, x);
            }
        },
        NodeV::FnDecl { name, params, body, is_async, is_generator } => {
            lemma_reported_is_undeclared_seq(
                body,
                scope_of(d, true, params_bindings(params), declared_in_seq(body)),
                x,
            );
        },
        NodeV::ClassDecl { name, super_class, body } => {
            let inner = scope_of(d, true, Set::empty(), declared_in_seq(body));
            lemma_concat_contains(facts_opt(super_class, d).uses, facts_seq(body, inner).uses, x);
            if facts_opt(super_class, d).uses.contains(x) {
                lemma_reported_is_undeclared_opt(super_class, d, x);
            } else {
                lemma_reported_is_undeclared_seq(body, inner, x);
            }
        },
        NodeV::Catch { param, body } => {
            lemma_reported_is_undeclared_seq(
                body,
                scope_of(
                    d,
                    false,
                    opt_pattern_bindings(param),
                    declared_in_seq(body),
                ),
                x,
            );
        },
        NodeV::ArrayPat(s) => {
            lemma_reported_is_undeclared_seq(s, d, x);
        },
        NodeV::ObjectPat(s) => {
            lemma_reported_is_undeclared_seq(s, d, x);
        },
        NodeV::KeyValuePatProp { key, value } => {
            lemma_concat_contains(facts(*key, d).uses, facts(*value, d).uses, x);
            if facts(*key, d).uses.contains(x) {
                lemma_reported_is_undeclared(*key, d, x);
            } else {
                lemma_reported_is_undeclared(*value, d, x);
            }
        },
        NodeV::AssignPatProp { key, value } => {
            let f1 = read_name(key, d);
            lemma_concat_contains(f1.uses, facts_opt(value, d).uses, x);
            if f1.uses.contains(x) {
                assert(f1.uses[0] == key);
            } else {
                lemma_reported_is_undeclared_opt(value, d, x);
            }
        },
        NodeV::RestPat(e) => {
            lemma_reported_is_undeclared(*e, d, x);
        },
        NodeV::Other { tag, children } => {
            lemma_reported_is_undeclared_seq(children, d, x);
        },
    }
}

/// [`lemma_reported_is_undeclared`] for a list of nodes.
pub proof fn lemma_reported_is_undeclared_seq(s: Seq<NodeV>, d: Set<IdentV>, x: IdentV)
    requires
        facts_seq(s, d).uses.contains(x),
    ensures
        !d.contains(x),
    decreases s,
{
    if s.len() > 0 {
        lemma_concat_contains(facts_seq(s.drop_last(), d).uses, facts(s.last(), d).uses, x);
        if facts_seq(s.drop_last(), d).uses.contains(x) {
            lemma_reported_is_undeclared_seq(s.drop_last(), d, x);
        } else {
            lemma_reported_is_undeclared(s.last(), d, x);
        }
    }
}

/// [`lemma_reported_is_undeclared`] for an optional node.
pub proof fn lemma_reported_is_undeclared_opt(o: Option<Box<NodeV>>, d: Set<IdentV>, x: IdentV)
    requires
        facts_opt(o, d).uses.contains(x),
    ensures
        !d.contains(x),
    decreases o,
{
    match o {
        Some(b) => {
            lemma_reported_is_undeclared(*b, d, x);
        },
        None => {},
    }
}

/// No free variable of a sub-tree is declared around the sub-tree, is
/// declared by the sub-tree in its own scope, or is the `this` that its
/// scope binds.
pub proof fn lemma_free_variables_are_undeclared(
    subtree: NodeV,
    declared: Set<IdentV>,
    add_implicit_this: bool,
    x: IdentV,
)
    requires
        free_variables(subtree, declared, add_implicit_this).contains(x),
    ensures
        !declared.contains(x),
        !declared_in(subtree).contains(x),
        !implicit_this(add_implicit_this).contains(x),
{
    let f = scope_facts(subtree, declared, add_implicit_this);
    lemma_extend_unique_set(Seq::empty(), f.uses);
    assert(Seq::<IdentV>::empty().to_set() =~= Set::empty());
    assert(distinct(f.uses).to_set().contains(x));
    assert(f.uses.to_set().contains(x));
    lemma_reported_is_undeclared(
        subtree,
        scope_of(declared, add_implicit_this, Set::empty(), declared_in(subtree)),
        x,
    );
}

/// The free variables of a sub-tree are exactly the variables that the walk
/// reports, and none of them is listed twice.
pub proof fn lemma_free_variables_are_the_reported(
    subtree: NodeV,
    declared: Set<IdentV>,
    add_implicit_this: bool,
)
    ensures
        free_variables(subtree, declared, add_implicit_this).no_duplicates(),
        free_variables(subtree, declared, add_implicit_this).to_set() == scope_facts(
            subtree,
            declared,
            add_implicit_this,
        ).uses.to_set(),
{
    let f = scope_facts(subtree, declared, add_implicit_this);
    lemma_extend_unique_no_duplicates(Seq::empty(), f.uses);
    lemma_extend_unique_set(Seq::empty(), f.uses);
    assert(Seq::<IdentV>::empty().to_set() =~= Set::empty());
}

/// What a nested scope adds to the list of the variables found so far.
pub open spec fn added(before: Seq<IdentV>, found: Seq<IdentV>) -> Seq<IdentV> {
    extend_unique(before, found).subrange(
        before.len() as int,
        extend_unique(before, found).len() as int,
    )
}

/// The list of the variables found so far is a running list: what was found
/// before stays in its place, and what is added is what the walk found that
/// was not found before, each once.
pub proof fn lemma_running_list(before: Seq<IdentV>, found: Seq<IdentV>)
    ensures
        before.len() <= extend_unique(before, found).len(),
        extend_unique(before, found) == before + added(before, found),
        added(before, found).no_duplicates(),
        forall|x: IdentV|
            #[trigger] added(before, found).contains(x) <==> (found.contains(x)
                && !before.contains(x)),
    decreases found.len(),
{
    let after = extend_unique(before, found);
    if found.len() == 0 {
        assert(added(before, found) =~= Seq::<IdentV>::empty());
        assert(after =~= before + added(before, found));
    } else {
        let front = found.drop_last();
        let x = found.last();
        let p = extend_unique(before, front);
        let a = added(before, front);
        lemma_running_list(before, front);
        assert(found[found.len() - 1] == x);
        assert forall|y: IdentV| found.contains(y) <==> (front.contains(y) || y == x) by {
            if found.contains(y) {
                let i = choose|i: int| 0 <= i < found.len() && found[i] == y;
                if i < found.len() - 1 {
                    assert(front[i] == y);
                }
            }
            if front.contains(y) {
                let i = choose|i: int| 0 <= i < front.len() && front[i] == y;
                assert(found[i] == y);
            }
        }
        assert forall|y: IdentV| p.contains(y) <==> (before.contains(y) || a.contains(y)) by {
            if p.contains(y) {
                let i = choose|i: int| 0 <= i < p.len() && p[i] == y;
                if i < before.len() {
                    assert(before[i] == y);
                } else {
                    assert(a[i - before.len()] == y);
                }
            }
            if before.contains(y) {
                let i = choose|i: int| 0 <= i < before.len() && before[i] == y;
                assert(p[i] == y);
            }
            if a.contains(y) {
                let i = choose|i: int| 0 <= i < a.len() && a[i] == y;
                assert(p[before.len() + i] == y);
            }
        }
        if p.contains(x) {
            assert(after == p);
        } else {
            assert(after == p.push(x));
            let b = added(before, found);
            assert(b =~= a.push(x));
            assert(after =~= before + b);
            assert(b[a.len() as int] == x);
            assert forall|y: IdentV| b.contains(y) <==> (a.contains(y) || y == x) by {
                if b.contains(y) {
                    let i = choose|i: int| 0 <= i < b.len() && b[i] == y;
                    if i < a.len() {
                        assert(a[i] == y);
                    }
                }
                if a.contains(y) {
                    let i = choose|i: int| 0 <= i < a.len() && a[i] == y;
                    assert(b[i] == y);
                }
            }
        }
    }
}

/// Scope correctness of a nested scope: a nested scope reports no variable
/// that is declared around it, that is one of its parameters, that it
/// declares itself, or that is the `this` it binds.
pub proof fn lemma_nested_scope_reports_no_declared_name(
    subtree: NodeV,
    declared: Set<IdentV>,
    params: Seq<NodeV>,
    has_this: bool,
    x: IdentV,
)
    requires
        nested_facts(subtree, declared, params, has_this).uses.contains(x),
    ensures
        !declared.contains(x),
        !params_bindings(params).contains(x),
        !declared_in(subtree).contains(x),
        !implicit_this(has_this).contains(x),
{
    lemma_reported_is_undeclared(
        subtree,
        scope_of(declared, has_this, params_bindings(params), declared_in(subtree)),
        x,
    );
}

/// A block that declares a variable shadows it: whatever is declared
/// around the block, the block reports no read of a variable of that name
/// and scope as free.
pub proof fn lemma_block_shadows(stmts: Seq<NodeV>, d: Set<IdentV>, x: IdentV)
    requires
        declared_in_seq(stmts).contains(x),
    ensures
        !facts(NodeV::Block(stmts), d).uses.contains(x),
{
    if facts(NodeV::Block(stmts), d).uses.contains(x) {
        lemma_reported_is_undeclared_seq(
            stmts,
            scope_of(d, false, Set::empty(), declared_in_seq(stmts)),
            x,
        );
    }
}

// ---------------------------------------------------------------------
// The classifier
// ---------------------------------------------------------------------

/// The classifier reads through parentheses.
pub proof fn lemma_classify_through_parens(whole: NodeV, cur: NodeV, w: Wrap)
    ensures
        classify_as(whole, cur, w) == classify_as(whole, strip_parens(cur), w),
        !(strip_parens(cur) is Paren),
    decreases cur,
{
    match cur {
        NodeV::Paren(inner) => {
            lemma_classify_through_parens(whole, *inner, w);
        },
        _ => {},
    }
}

/// An expression that needs no tracking is returned as it is: a literal, an
/// element, a plain identifier and `this`, in parentheses or not.
pub proof fn lemma_stable_passes_through(e: NodeV, w: Wrap)
    requires
        is_stable(strip_parens(e)),
    ensures
        classify_and_rewrite(e, w) == Ok::<NodeV, Seq<char>>(e),
{
    lemma_classify_through_parens(e, e, w);
}

/// A closure is returned as it is, in parentheses or not.
pub proof fn lemma_closure_passes_through(e: NodeV, w: Wrap)
    requires
        is_closure(strip_parens(e)),
    ensures
        classify_and_rewrite(e, w) == Ok::<NodeV, Seq<char>>(e),
{
    lemma_classify_through_parens(e, e, w);
}

/// Whether a call of a render-mode marker is rewritten to a call that the
/// pass leaves as it is.
pub open spec fn render_settles(callee: NodeV, args: Seq<NodeV>) -> bool {
    match both(rewrite(callee), rewrite_seq(args)) {
        Ok((c, a)) => both(rewrite(c), rewrite_seq(a)) == Ok::<(NodeV, Seq<NodeV>), Seq<char>>(
            (c, a),
        ),
        Err(_) => true,
    }
}

/// Whether the classifier, run on what it made of `e`, changes nothing
/// more.
///
/// That fails in two cases, and in what is built on them. An expression
/// with a suspend point that is wrapped becomes an awaited call, which is
/// wrapped again. And a call of a render-mode marker has its arguments
/// rewritten by the pass, which need not leave its own result alone: text
/// that ends with the marker loses the marker, and with it the exemption
/// of the interpolation that follows.
pub open spec fn settles(e: NodeV) -> bool {
    settles_as(e, e)
}

/// [`settles`] for `whole`, of which `cur` is what is left once the
/// parentheses seen so far are removed.
pub open spec fn settles_as(whole: NodeV, cur: NodeV) -> bool
    decreases cur,
{
    match cur {
        NodeV::Paren(inner) => settles_as(whole, *inner),
        NodeV::Lit(_) | NodeV::Element { .. } | NodeV::Ident(_) | NodeV::This => true,
        NodeV::Arrow { .. } | NodeV::Fn { .. } => true,
        NodeV::Member { .. } => true,
        NodeV::Call { callee, args } => match collection_callee(*callee) {
            Some(_) => true,
            None => match callee_marker(*callee) {
                Some(m) => if m.is_no_wrap() {
                    true
                } else if m.is_render() {
                    render_settles(*callee, args)
                } else if m == Marker::Always {
                    if args.len() == 0 {
                        true
                    } else {
                        let arg = argument_expr(args[0]);
                        if is_stable(strip_parens(arg)) || is_closure(strip_parens(arg)) {
                            true
                        } else {
                            match classify_and_rewrite(arg, Wrap::Always) {
                                Ok(r) => strip_parens(r) is Call ==> settles_as(arg, arg),
                                Err(_) => true,
                            }
                        }
                    }
                } else {
                    !has_suspend_point(whole)
                },
                None => !has_suspend_point(whole),
            },
        },
        _ => !has_suspend_point(whole),
    }
}

/// Whether the classifier leaves `r` as it is, under every wrap, in
/// parentheses or not.
pub open spec fn is_settled(r: NodeV, w: Wrap) -> bool {
    &&& classify_and_rewrite(r, w) == Ok::<NodeV, Seq<char>>(r)
    &&& classify_and_rewrite(strip_parens(r), w) == Ok::<NodeV, Seq<char>>(strip_parens(r))
}

/// A call of a marker that needs no wrap is settled.
proof fn lemma_no_wrap_call_is_settled(m: Marker, args: Seq<NodeV>, w: Wrap)
    requires
        m.is_no_wrap(),
    ensures
        is_settled(NodeV::Call { callee: Box::new(marker_ident(m)), args }, w),
{
    lemma_marker_of_name(m);
}

/// `always(() => e)` is settled.
proof fn lemma_always_thunk_is_settled(e: NodeV, w: Wrap)
    ensures
        is_settled(wrap_call(Marker::Always, e, false), w),
{
    lemma_marker_of_name(Marker::Always);
    let r = wrap_call(Marker::Always, e, false);
    assert(r->args[0] == thunk(e, false));
    assert(rewrite_call(r) == Ok::<NodeV, Seq<char>>(r));
}

/// An expression that the classifier returns as it is, whatever stands
/// around it, is settled.
proof fn lemma_unchanged_is_settled(whole: NodeV, cur: NodeV, w2: Wrap)
    requires
        strip_parens(whole) == cur,
        classify_as(whole, cur, w2) == Ok::<NodeV, Seq<char>>(whole),
        classify_as(cur, cur, w2) == Ok::<NodeV, Seq<char>>(cur),
    ensures
        is_settled(whole, w2),
{
    lemma_classify_through_parens(whole, whole, w2);
}

/// What the call-site rewrite made of a call of `always` whose argument
/// settles is settled.
proof fn lemma_always_is_settled(cur: NodeV, w2: Wrap)
    requires
        cur matches NodeV::Call { callee, args } && collection_callee(*callee) is None
            && callee_marker(*callee) == Some(Marker::Always),
        settles_as(cur, cur),
        rewrite_call(cur) is Ok,
    ensures
        is_settled(rewrite_call(cur)->Ok_0, w2),
    decreases cur, 0int,
{
    let r = rewrite_call(cur)->Ok_0;
    let callee = cur->callee;
    let args = cur->args;
    assert(strip_parens(*callee) == *callee);
    if args.len() == 0 {
        lemma_no_wrap_call_is_settled(Marker::Stable, r->args, w2);
    } else {
        let arg = argument_expr(args[0]);
        if is_stable(strip_parens(arg)) {
            lemma_no_wrap_call_is_settled(Marker::Stable, r->args, w2);
        } else if is_closure(strip_parens(arg)) {
            assert(r == cur);
            assert(classify_as(cur, cur, w2) == rewrite_call(cur));
            assert(strip_parens(cur) == cur);
        } else {
            let r0 = classify_and_rewrite(arg, Wrap::Always)->Ok_0;
            assert(classify_and_rewrite(arg, Wrap::Always) == classify_as(arg, arg, Wrap::Always));
            if strip_parens(r0) is Call {
                lemma_classified_is_settled(arg, arg, Wrap::Always, w2);
                assert(r == strip_parens(r0));
                assert(strip_parens(r) == r);
            } else {
                assert(r == wrap_call(Marker::Always, arg, false));
                lemma_always_thunk_is_settled(arg, w2);
            }
        }
    }
}

/// What the classifier made of an expression that settles is settled.
proof fn lemma_classified_is_settled(whole: NodeV, cur: NodeV, w: Wrap, w2: Wrap)
    requires
        settles_as(whole, cur),
        strip_parens(whole) == strip_parens(cur),
        classify_as(whole, cur, w) is Ok,
    ensures
        is_settled(classify_as(whole, cur, w)->Ok_0, w2),
    decreases cur, 1int,
{
    let r = classify_as(whole, cur, w)->Ok_0;
    match cur {
        NodeV::Paren(inner) => {
            lemma_classified_is_settled(whole, *inner, w, w2);
        },
        NodeV::Lit(_) | NodeV::Element { .. } | NodeV::Ident(_) | NodeV::This => {
            lemma_unchanged_is_settled(whole, cur, w2);
        },
        NodeV::Arrow { .. } | NodeV::Fn { .. } => {
            lemma_unchanged_is_settled(whole, cur, w2);
        },
        NodeV::Member { obj, prop } => {
            if is_manual_access(*obj) {
                lemma_unchanged_is_settled(whole, cur, w2);
            } else {
                lemma_no_wrap_call_is_settled(Marker::Prop, r->args, w2);
            }
        },
        NodeV::Call { callee, args } => {
            match collection_callee(*callee) {
                Some((receiver, name)) => {
                    lemma_no_wrap_call_is_settled(Marker::Method, r->args, w2);
                },
                None => match callee_marker(*callee) {
                    Some(m) => {
                        if m.is_no_wrap() {
                            lemma_unchanged_is_settled(whole, cur, w2);
                        } else if m.is_render() {
                            assert(rewrite(*callee) == Ok::<NodeV, Seq<char>>(*callee));
                            assert(r->callee == callee);
                            assert(classify_as(r, r, w2) == Ok::<NodeV, Seq<char>>(r));
                            assert(strip_parens(r) == r);
                        } else if m == Marker::Always {
                            assert(classify_as(whole, cur, w) == rewrite_call(cur));
                            assert(settles_as(cur, cur));
                            lemma_always_is_settled(cur, w2);
                        } else {
                            lemma_wrapped_is_settled(whole, w, w2);
                        }
                    },
                    None => {
                        lemma_wrapped_is_settled(whole, w, w2);
                    },
                },
            }
        },
        _ => {
            lemma_wrapped_is_settled(whole, w, w2);
        },
    }
}

/// An expression without a suspend point that is wrapped is settled.
proof fn lemma_wrapped_is_settled(e: NodeV, w: Wrap, w2: Wrap)
    requires
        !has_suspend_point(e),
    ensures
        is_settled(wrapped(e, w), w2),
{
    match w {
        Wrap::Always => {
            lemma_always_thunk_is_settled(e, w2);
        },
        Wrap::Reactive => {
            lemma_no_wrap_call_is_settled(Marker::Reactive, seq![thunk(e, false)], w2);
        },
    }
}

/// The classifier is idempotent: run on what it made of an expression that
/// settles, it changes nothing more, whichever wrap the second run uses.
pub proof fn lemma_classify_idempotent(e: NodeV, w: Wrap, w2: Wrap)
    requires
        settles(e),
        classify_and_rewrite(e, w) is Ok,
    ensures
        classify_and_rewrite(classify_and_rewrite(e, w)->Ok_0, w2) == classify_and_rewrite(e, w),
{
    lemma_classified_is_settled(e, e, w, w2);
}

// ---------------------------------------------------------------------
// The closure transformer
// ---------------------------------------------------------------------

/// The walk over a list that starts with a capture declaration meets a
/// call of the capture-declaration marker.
proof fn lemma_capture_statement_is_met(used: Seq<IdentV>, rest: Seq<NodeV>, d: Set<IdentV>)
    ensures
        facts_seq(seq![capture_statement(used)] + rest, d).capture,
    decreases rest.len(),
{
    let all = seq![capture_statement(used)] + rest;
    lemma_marker_of_name(Marker::Use);
    if rest.len() == 0 {
        assert(all.last() == capture_statement(used));
        assert(facts(all.last(), d).capture) by {
            assert(facts(all.last(), d) == facts(*all.last()->ExprStmt_0, d));
        }
    } else {
        assert(all.drop_last() =~= seq![capture_statement(used)] + rest.drop_last());
        lemma_capture_statement_is_met(used, rest.drop_last(), d);
    }
}

/// The walk finds in a block what it finds in the statements of the block,
/// taken as a scope of their own.
proof fn lemma_facts_of_block(stmts: Seq<NodeV>, declared: Set<IdentV>)
    ensures
        scope_facts(NodeV::Block(stmts), declared, false) == facts_seq(
            stmts,
            declared.union(declared_in_seq(stmts)),
        ),
{
    let outer = scope_of(declared, false, Set::empty(), declared_in(NodeV::Block(stmts)));
    assert(outer =~= declared);
    let inner = scope_of(outer, false, Set::empty(), declared_in_seq(stmts));
    assert(inner =~= declared.union(declared_in_seq(stmts)));
}

/// The walk finds in the `return` of an expression what it finds in the
/// expression.
proof fn lemma_facts_of_return(e: NodeV, declared: Set<IdentV>)
    ensures
        scope_facts(NodeV::Block(seq![NodeV::Return(Some(Box::new(e)))]), declared, false)
            == scope_facts(e, declared, false),
{
    let ret = NodeV::Return(Some(Box::new(e)));
    let stmts = seq![ret];
    lemma_facts_of_block(stmts, declared);
    assert(stmts.drop_last() =~= Seq::<NodeV>::empty());
    assert(stmts.last() == ret);
    assert(declared_in_seq(stmts) =~= declared_in(e)) by {
        assert(declared_in_seq(stmts.drop_last()) =~= Set::<IdentV>::empty());
        assert(declared_in_opt(Some(Box::new(e))) == declared_in(e));
        assert(declared_in(ret) == declared_in(e));
    }
    let d = declared.union(declared_in_seq(stmts));
    assert(d =~= scope_of(declared, false, Set::empty(), declared_in(e)));
    assert(facts_seq(stmts, d) == facts(e, d)) by {
        assert(facts_seq(stmts.drop_last(), d) == Facts::nothing());
        assert(facts_opt(Some(Box::new(e)), d) == facts(e, d));
        assert(facts(ret, d) == facts(e, d));
        assert(Seq::<IdentV>::empty() + facts(e, d).uses =~= facts(e, d).uses);
    }
}

/// The capture declaration is injected exactly where it is due: into an
/// arrow function that holds none yet and has free variables. It is then
/// the first statement of the body and names the free variables alone, each
/// once, in the order of their first read; the statements of the old body
/// follow it. A closure without free variables gets none.
pub proof fn lemma_capture_declaration_is_injected(
    params: Seq<NodeV>,
    body: NodeV,
    is_async: bool,
)
    requires
        !has_capture_declaration(body, params_bindings(params), false),
    ensures
        ({
            let free = free_variables(body, params_bindings(params), false);
            let made = make_transferable(NodeV::Arrow { params, body: Box::new(body), is_async });
            let stmts = if free.len() > 0 {
                seq![capture_statement(free)] + body_statements(body)
            } else {
                body_statements(body)
            };
            &&& made == NodeV::Arrow { params, body: Box::new(NodeV::Block(stmts)), is_async }
            &&& free.no_duplicates()
            &&& capture_statement(free) matches NodeV::ExprStmt(call)
            &&& *call matches NodeV::Call { callee, args }
            &&& args.len() == free.len()
            &&& forall|i: int| 0 <= i < free.len() ==> #[trigger] args[i] == NodeV::Ident(free[i])
        }),
{
    lemma_free_variables_are_the_reported(body, params_bindings(params), false);
}

/// Making a closure transferable is idempotent: the capture declaration
/// that the first run injects is the one that the second run finds.
pub proof fn lemma_make_transferable_idempotent(closure: NodeV)
    ensures
        make_transferable(make_transferable(closure)) == make_transferable(closure),
{
    match closure {
        NodeV::Arrow { params, body, is_async } => {
            let declared = params_bindings(params);
            let used = free_variables(*body, declared, false);
            let found = has_capture_declaration(*body, declared, false);
            let stmts = body_statements(*body);
            let next = with_capture(used, found, stmts);
            lemma_facts_of_block(next, declared);
            if used.len() > 0 && !found {
                lemma_capture_statement_is_met(used, stmts, declared.union(declared_in_seq(next)));
            } else {
                match *body {
                    NodeV::Block(_) => {},
                    _ => {
                        lemma_facts_of_return(*body, declared);
                    },
                }
            }
            assert(body_statements(NodeV::Block(next)) == next);
        },
        NodeV::Fn { name, params, body, is_async, is_generator } => {
            let declared = params_bindings(params);
            let used = free_variables(NodeV::Block(body), declared, false);
            let found = has_capture_declaration(NodeV::Block(body), declared, false);
            let next = with_capture(used, found, body);
            lemma_facts_of_block(next, declared);
            if used.len() > 0 && !found {
                lemma_capture_statement_is_met(used, body, declared.union(declared_in_seq(next)));
            }
        },
        _ => {},
    }
}

// ---------------------------------------------------------------------
// The children of an element
// ---------------------------------------------------------------------

/// The children of an element are rewritten one by one: as many come out
/// as went in, and each is what [`normalize_child`] makes of it under the
/// exemption that the children before it leave.
pub proof fn lemma_children_one_by_one(children: Seq<NodeV>)
    requires
        normalize_children(children) is Ok,
    ensures
        normalize_children(children)->Ok_0.len() == children.len(),
        forall|i: int|
            0 <= i < children.len() ==> normalize_child(
                armed_after(children.take(i)),
                #[trigger] children[i],
            ) == Ok::<NodeV, Seq<char>>(normalize_children(children)->Ok_0[i]),
    decreases children.len(),
{
    if children.len() > 0 {
        let front = children.drop_last();
        lemma_children_one_by_one(front);
        let r = normalize_children(children)->Ok_0;
        assert forall|i: int| 0 <= i < children.len() implies normalize_child(
            armed_after(children.take(i)),
            #[trigger] children[i],
        ) == Ok::<NodeV, Seq<char>>(r[i]) by {
            if i < children.len() - 1 {
                assert(front.take(i) =~= children.take(i));
                assert(front[i] == children[i]);
            } else {
                assert(children.take(i) =~= front);
            }
        }
    }
}

/// A child of an element stays a child of its kind: text stays text, an
/// interpolation an interpolation, a spread child a spread child, an
/// element an element, a fragment a fragment.
pub proof fn lemma_child_keeps_its_kind(armed: bool, child: NodeV)
    requires
        normalize_child(armed, child) is Ok,
    ensures
        child is Text ==> normalize_child(armed, child)->Ok_0 is Text,
        child is Container ==> normalize_child(armed, child)->Ok_0 is Container,
        child is SpreadChild ==> normalize_child(armed, child)->Ok_0 is SpreadChild,
        child is Element ==> normalize_child(armed, child)->Ok_0 is Element,
        child is Fragment ==> normalize_child(armed, child)->Ok_0 is Fragment,
{
    assert(child is Container ==> rewrite(child) is Ok ==> rewrite(child)->Ok_0 is Container);
    assert(child is SpreadChild ==> rewrite(child) is Ok ==> rewrite(child)->Ok_0 is SpreadChild);
    assert(child is Element ==> rewrite(child) is Ok ==> rewrite(child)->Ok_0 is Element);
}

/// Text that ends with the marker exempts the interpolation after it: the
/// text loses the marker and the interpolation stays as it is, whatever it
/// holds.
pub proof fn lemma_static_text_exempts(text: Seq<char>, slot: Option<Box<NodeV>>)
    requires
        has_static_marker(text),
    ensures
        normalize_children(seq![NodeV::Text(text), NodeV::Container(slot)]) == Ok::<
            Seq<NodeV>,
            Seq<char>,
        >(seq![NodeV::Text(strip_static_marker(text)), NodeV::Container(slot)]),
{
    let children = seq![NodeV::Text(text), NodeV::Container(slot)];
    let first = seq![NodeV::Text(text)];
    assert(children.drop_last() =~= first);
    assert(first.drop_last() =~= Seq::<NodeV>::empty());
    assert(normalize_children(first.drop_last()) == Ok::<Seq<NodeV>, Seq<char>>(Seq::empty()));
    assert(armed_after(first.drop_last()) == false);
    assert(normalize_child(false, NodeV::Text(text)) == Ok::<NodeV, Seq<char>>(
        NodeV::Text(strip_static_marker(text)),
    ));
    assert(normalize_children(first) == Ok::<Seq<NodeV>, Seq<char>>(
        seq![NodeV::Text(strip_static_marker(text))],
    )) by {
        assert(Seq::<NodeV>::empty().push(NodeV::Text(strip_static_marker(text)))
            =~= seq![NodeV::Text(strip_static_marker(text))]);
    }
    assert(armed_after(first));
    assert(normalize_child(true, NodeV::Container(slot)) == Ok::<NodeV, Seq<char>>(
        NodeV::Container(slot),
    ));
    assert(seq![NodeV::Text(strip_static_marker(text))].push(NodeV::Container(slot))
        =~= seq![NodeV::Text(strip_static_marker(text)), NodeV::Container(slot)]);
}

/// The exemption lasts for one child: a child between the text and the
/// interpolation uses it up, and the interpolation is rewritten as any
/// other.
pub proof fn lemma_static_text_is_used_up(text: Seq<char>, between: NodeV, slot: Option<Box<NodeV>>)
    requires
        has_static_marker(text),
        !is_marker_text(between),
    ensures
        !armed_after(seq![NodeV::Text(text), between]),
        normalize_child(
            armed_after(seq![NodeV::Text(text), between]),
            NodeV::Container(slot),
        ) == rewrite(NodeV::Container(slot)),
{
    let two = seq![NodeV::Text(text), between];
    let first = seq![NodeV::Text(text)];
    assert(two.drop_last() =~= first);
    assert(first.drop_last() =~= Seq::<NodeV>::empty());
    assert(armed_after(first.drop_last()) == false);
    assert(armed_after(first));
    assert(armed_after(two) == next_armed(true, between));
}

// ---------------------------------------------------------------------
// A rewritten tree fits where the tree stood
// ---------------------------------------------------------------------

/// Whether two nodes are of the same kind.
pub open spec fn same_kind(a: NodeV, b: NodeV) -> bool {
    &&& a is Lit <==> b is Lit
    &&& a is Ident <==> b is Ident
    &&& a is This <==> b is This
    &&& a is Paren <==> b is Paren
    &&& a is Member <==> b is Member
    &&& a is Call <==> b is Call
    &&& a is Spread <==> b is Spread
    &&& a is Arrow <==> b is Arrow
    &&& a is Fn <==> b is Fn
    &&& a is Await <==> b is Await
    &&& a is Element <==> b is Element
    &&& a is Attr <==> b is Attr
    &&& a is Text <==> b is Text
    &&& a is Container <==> b is Container
    &&& a is SpreadChild <==> b is SpreadChild
    &&& a is Fragment <==> b is Fragment
    &&& a is Block <==> b is Block
    &&& a is ExprStmt <==> b is ExprStmt
    &&& a is Return <==> b is Return
    &&& a is VarDecl <==> b is VarDecl
    &&& a is Declarator <==> b is Declarator
    &&& a is FnDecl <==> b is FnDecl
    &&& a is ClassDecl <==> b is ClassDecl
    &&& a is EnumDecl <==> b is EnumDecl
    &&& a is Catch <==> b is Catch
    &&& a is ArrayPat <==> b is ArrayPat
    &&& a is Hole <==> b is Hole
    &&& a is ObjectPat <==> b is ObjectPat
    &&& a is KeyValuePatProp <==> b is KeyValuePatProp
    &&& a is AssignPatProp <==> b is AssignPatProp
    &&& a is RestPat <==> b is RestPat
    &&& a is TypeOnly <==> b is TypeOnly
    &&& a is Other <==> b is Other
}

/// The call-site rewrite makes a call of a call.
pub proof fn lemma_call_stays_call(call: NodeV)
    requires
        call is Call,
        rewrite_call(call) is Ok,
    ensures
        rewrite_call(call)->Ok_0 is Call,
{
}

/// The pass leaves every node a node of its kind: a statement stays a
/// statement, a pattern a pattern, a part of an element that part, and a
/// call a call.
pub proof fn lemma_pass_keeps_kind(n: NodeV)
    requires
        rewrite(n) is Ok,
    ensures
        same_kind(n, rewrite(n)->Ok_0),
{
    match n {
        NodeV::Call { .. } => {
            assert(rewrite(n) == rewrite_call(n));
            lemma_call_stays_call(n);
        },
        NodeV::Attr { .. } => {
            assert(rewrite(n) == rewrite_attr(n));
        },
        _ => {},
    }
}

/// An expression stays an expression: the classifier returns the
/// expression it was given, a call, or an awaited call.
pub proof fn lemma_classified_stays_expression(e: NodeV, w: Wrap)
    requires
        classify_and_rewrite(e, w) is Ok,
    ensures
        ({
            let r = classify_and_rewrite(e, w)->Ok_0;
            r == e || r is Call || (r matches NodeV::Await(inner) && *inner is Call)
        }),
{
    lemma_classify_as_stays_expression(e, e, w);
}

/// [`lemma_classified_stays_expression`] for the classifier at work.
proof fn lemma_classify_as_stays_expression(whole: NodeV, cur: NodeV, w: Wrap)
    requires
        classify_as(whole, cur, w) is Ok,
    ensures
        ({
            let r = classify_as(whole, cur, w)->Ok_0;
            r == whole || r is Call || (r matches NodeV::Await(inner) && *inner is Call)
        }),
    decreases cur,
{
    match cur {
        NodeV::Paren(inner) => {
            lemma_classify_as_stays_expression(whole, *inner, w);
        },
        NodeV::Call { callee, args } => {
            if collection_callee(*callee) is None && callee_marker(*callee) == Some(
                Marker::Always,
            ) {
                assert(classify_as(whole, cur, w) == rewrite_call(cur));
                lemma_call_stays_call(cur);
            }
        },
        _ => {},
    }
}

// ---------------------------------------------------------------------
// When a rewrite fails
// ---------------------------------------------------------------------

/// The private names of the member accesses in `n`.
pub open spec fn private_names(n: NodeV) -> Set<Seq<char>>
    decreases n,
{
    match n {
        NodeV::Lit(_) | NodeV::Ident(_) | NodeV::This | NodeV::Text(_) | NodeV::Hole
        | NodeV::TypeOnly(_) => Set::empty(),
        NodeV::Paren(e) => private_names(*e),
        NodeV::Member { obj, prop } => private_names(*obj).union(
            match prop {
                MemberPropV::Ident(_) => Set::empty(),
                MemberPropV::Computed(k) => private_names(*k),
                MemberPropV::PrivateName(name) => set![name],
            },
        ),
        NodeV::Call { callee, args } => private_names(*callee).union(private_names_seq(args)),
        NodeV::Spread(e) => private_names(*e),
        NodeV::Arrow { params, body, is_async } => private_names_seq(params).union(
            private_names(*body),
        ),
        NodeV::Fn { name, params, body, is_async, is_generator } => private_names_seq(
            params,
        ).union(private_names_seq(body)),
        NodeV::Await(e) => private_names(*e),
        NodeV::Element { name, attrs, children } => private_names_seq(attrs).union(
            private_names_seq(children),
        ),
        NodeV::Attr { name, value } => private_names_opt(value),
        NodeV::Container(o) => private_names_opt(o),
        NodeV::SpreadChild(e) => private_names(*e),
        NodeV::Fragment(s) => private_names_seq(s),
        NodeV::Block(s) => private_names_seq(s),
        NodeV::ExprStmt(e) => private_names(*e),
        NodeV::Return(o) => private_names_opt(o),
        NodeV::VarDecl { kind, decls } => private_names_seq(decls),
        NodeV::Declarator { name, init } => private_names(*name).union(private_names_opt(init)),
        NodeV::FnDecl { name, params, body, is_async, is_generator } => private_names_seq(
            params,
        ).union(private_names_seq(body)),
        NodeV::ClassDecl { name, super_class, body } => private_names_opt(super_class).union(
            private_names_seq(body),
        ),
        NodeV::EnumDecl { name, members } => private_names_seq(members),
        NodeV::Catch { param, body } => private_names_opt(param).union(private_names_seq(body)),
        NodeV::ArrayPat(s) => private_names_seq(s),
        NodeV::ObjectPat(s) => private_names_seq(s),
        NodeV::KeyValuePatProp { key, value } => private_names(*key).union(
            private_names(*value),
        ),
        NodeV::AssignPatProp { key, value } => private_names_opt(value),
        NodeV::RestPat(e) => private_names(*e),
        NodeV::Other { tag, children } => private_names_seq(children),
    }
}

/// The private names of the member accesses in the nodes of `s`.
pub open spec fn private_names_seq(s: Seq<NodeV>) -> Set<Seq<char>>
    decreases s,
{
    if s.len() == 0 {
        Set::empty()
    } else {
        private_names_seq(s.drop_last()).union(private_names(s.last()))
    }
}

/// The private names of the member accesses in an optional node.
pub open spec fn private_names_opt(o: Option<Box<NodeV>>) -> Set<Seq<char>>
    decreases o,
{
    match o {
        Some(b) => private_names(*b),
        None => Set::empty(),
    }
}

/// Whether a result is a success, or fails with one of `names`.
pub open spec fn fails_only_with<T>(r: Result<T, Seq<char>>, names: Set<Seq<char>>) -> bool {
    match r {
        Ok(_) => true,
        Err(name) => names.contains(name),
    }
}

/// A list holds the private names of each of its nodes.
proof fn lemma_private_names_of_item(s: Seq<NodeV>, i: int)
    requires
        0 <= i < s.len(),
    ensures
        private_names(s[i]).subset_of(private_names_seq(s)),
    decreases s.len(),
{
    if i < s.len() - 1 {
        lemma_private_names_of_item(s.drop_last(), i);
    }
}

/// The pass fails only with the private name of a member access in the
/// tree. A tree without private member accesses is always rewritten.
pub proof fn lemma_pass_fails_only_with_private_name(n: NodeV)
    ensures
        fails_only_with(rewrite(n), private_names(n)),
    decreases n, 1int,
{
    match n {
        NodeV::Lit(_) | NodeV::Ident(_) | NodeV::This | NodeV::Text(_) | NodeV::Hole
        | NodeV::TypeOnly(_) => {},
        NodeV::Call { .. } => {
            lemma_call_fails_only_with_private_name(n);
        },
        NodeV::Attr { .. } => {
            lemma_attr_fails_only_with_private_name(n);
        },
        NodeV::Container(o) => {
            match o {
                Some(e) => {
                    lemma_classifier_fails_only_with_private_name(*e, *e, Wrap::Reactive);
                    assert(private_names_opt(o) == private_names(*e));
                    assert(classify_and_rewrite(*e, Wrap::Reactive) == classify_as(
                        *e,
                        *e,
                        Wrap::Reactive,
                    ));
                },
                None => {},
            }
        },
        NodeV::SpreadChild(e) => {
            lemma_classifier_fails_only_with_private_name(*e, *e, Wrap::Reactive);
            assert(classify_and_rewrite(*e, Wrap::Reactive) == classify_as(
                *e,
                *e,
                Wrap::Reactive,
            ));
        },
        NodeV::Element { name, attrs, children } => {
            lemma_list_fails_only_with_private_name(attrs);
            lemma_children_fail_only_with_private_name(children);
        },
        NodeV::Fragment(children) => {
            lemma_children_fail_only_with_private_name(children);
        },
        NodeV::Paren(e) => {
            lemma_pass_fails_only_with_private_name(*e);
        },
        NodeV::Member { obj, prop } => {
            lemma_pass_fails_only_with_private_name(*obj);
            match prop {
                MemberPropV::Computed(k) => {
                    lemma_pass_fails_only_with_private_name(*k);
                },
                _ => {},
            }
        },
        NodeV::Spread(e) => {
            lemma_pass_fails_only_with_private_name(*e);
        },
        NodeV::Arrow { params, body, is_async } => {
            lemma_list_fails_only_with_private_name(params);
            lemma_pass_fails_only_with_private_name(*body);
        },
        NodeV::Fn { name, params, body, is_async, is_generator } => {
            lemma_list_fails_only_with_private_name(params);
            lemma_list_fails_only_with_private_name(body);
        },
        NodeV::Await(e) => {
            lemma_pass_fails_only_with_private_name(*e);
        },
        NodeV::Block(s) => {
            lemma_list_fails_only_with_private_name(s);
        },
        NodeV::ExprStmt(e) => {
            lemma_pass_fails_only_with_private_name(*e);
        },
        NodeV::Return(o) => {
            lemma_option_fails_only_with_private_name(o);
        },
        NodeV::VarDecl { kind, decls } => {
            lemma_list_fails_only_with_private_name(decls);
        },
        NodeV::Declarator { name, init } => {
            lemma_pass_fails_only_with_private_name(*name);
            lemma_option_fails_only_with_private_name(init);
        },
        NodeV::FnDecl { name, params, body, is_async, is_generator } => {
            lemma_list_fails_only_with_private_name(params);
            lemma_list_fails_only_with_private_name(body);
        },
        NodeV::ClassDecl { name, super_class, body } => {
            lemma_option_fails_only_with_private_name(super_class);
            lemma_list_fails_only_with_private_name(body);
        },
        NodeV::EnumDecl { name, members } => {
            lemma_list_fails_only_with_private_name(members);
        },
        NodeV::Catch { param, body } => {
            lemma_option_fails_only_with_private_name(param);
            lemma_list_fails_only_with_private_name(body);
        },
        NodeV::ArrayPat(s) => {
            lemma_list_fails_only_with_private_name(s);
        },
        NodeV::ObjectPat(s) => {
            lemma_list_fails_only_with_private_name(s);
        },
        NodeV::KeyValuePatProp { key, value } => {
            lemma_pass_fails_only_with_private_name(*key);
            lemma_pass_fails_only_with_private_name(*value);
        },
        NodeV::AssignPatProp { key, value } => {
            lemma_option_fails_only_with_private_name(value);
        },
        NodeV::RestPat(e) => {
            lemma_pass_fails_only_with_private_name(*e);
        },
        NodeV::Other { tag, children } => {
            lemma_list_fails_only_with_private_name(children);
        },
    }
}

/// [`lemma_pass_fails_only_with_private_name`] for a list of nodes.
pub proof fn lemma_list_fails_only_with_private_name(s: Seq<NodeV>)
    ensures
        fails_only_with(rewrite_seq(s), private_names_seq(s)),
    decreases s, 0int,
{
    if s.len() > 0 {
        lemma_list_fails_only_with_private_name(s.drop_last());
        lemma_pass_fails_only_with_private_name(s.last());
    }
}

/// [`lemma_pass_fails_only_with_private_name`] for an optional node.
pub proof fn lemma_option_fails_only_with_private_name(o: Option<Box<NodeV>>)
    ensures
        fails_only_with(rewrite_opt(o), private_names_opt(o)),
    decreases o, 0int,
{
    match o {
        Some(b) => {
            lemma_pass_fails_only_with_private_name(*b);
        },
        None => {},
    }
}

/// The call-site rewrite fails only with the private name of a member
/// access in the call.
pub proof fn lemma_call_fails_only_with_private_name(call: NodeV)
    ensures
        fails_only_with(rewrite_call(call), private_names(call)),
    decreases call, 0int,
{
    match call {
        NodeV::Call { callee, args } => {
            match callee_marker(strip_parens(*callee)) {
                Some(Marker::Always) => {
                    if args.len() > 0 {
                        let arg = argument_expr(args[0]);
                        lemma_private_names_of_item(args, 0);
                        assert(private_names(arg) == private_names(args[0]));
                        if is_stable(strip_parens(arg)) {
                            lemma_pass_fails_only_with_private_name(arg);
                        } else if !is_closure(strip_parens(arg)) {
                            lemma_classifier_fails_only_with_private_name(arg, arg, Wrap::Always);
                        }
                    }
                },
                Some(Marker::Run) | Some(Marker::RenderFrontend) => {},
                _ => {
                    lemma_pass_fails_only_with_private_name(*callee);
                    lemma_list_fails_only_with_private_name(args);
                },
            }
        },
        _ => {},
    }
}

/// The rewrite of an attribute fails only with the private name of a member
/// access in the attribute.
pub proof fn lemma_attr_fails_only_with_private_name(attr: NodeV)
    ensures
        fails_only_with(rewrite_attr(attr), private_names(attr)),
    decreases attr, 0int,
{
    match attr {
        NodeV::Attr { name, value: Some(v) } => {
            match *v {
                NodeV::Container(Some(e)) => {
                    assert(private_names(attr) == private_names(*e)) by {
                        assert(private_names_opt(Some(v)) == private_names(*v));
                        assert(private_names_opt(Some(e)) == private_names(*e));
                    }
                    lemma_classifier_fails_only_with_private_name(*e, *e, Wrap::Reactive);
                },
                _ => {},
            }
        },
        _ => {},
    }
}

/// The classifier fails only with the private name of a member access in
/// the expression.
pub proof fn lemma_classifier_fails_only_with_private_name(whole: NodeV, cur: NodeV, w: Wrap)
    ensures
        fails_only_with(classify_as(whole, cur, w), private_names(cur)),
    decreases cur, 1int,
{
    match cur {
        NodeV::Paren(inner) => {
            lemma_classifier_fails_only_with_private_name(whole, *inner, w);
        },
        NodeV::Member { obj, prop } => {
            lemma_classifier_fails_only_with_private_name(*obj, *obj, Wrap::Reactive);
            assert(classify_and_rewrite(*obj, Wrap::Reactive) == classify_as(
                *obj,
                *obj,
                Wrap::Reactive,
            ));
        },
        NodeV::Call { callee, args } => {
            match collection_callee(*callee) {
                Some(_) => {
                    lemma_method_args_fail_only_with_private_name(args);
                },
                None => match callee_marker(*callee) {
                    Some(m) => {
                        if m.is_no_wrap() {
                        } else if m.is_render() {
                            lemma_pass_fails_only_with_private_name(*callee);
                            lemma_list_fails_only_with_private_name(args);
                        } else if m == Marker::Always {
                            lemma_call_fails_only_with_private_name(cur);
                            assert(classify_as(whole, cur, w) == rewrite_call(cur));
                        }
                    },
                    None => {},
                },
            }
        },
        _ => {},
    }
}

/// The arguments of a collection method fail only with the private name of
/// a member access in them.
proof fn lemma_method_args_fail_only_with_private_name(args: Seq<NodeV>)
    ensures
        fails_only_with(method_args(args), private_names_seq(args)),
    decreases args, 0int,
{
    if args.len() > 0 {
        lemma_method_args_fail_only_with_private_name(args.drop_last());
        let arg = args.last();
        assert(fails_only_with(method_arg(arg), private_names(arg))) by {
            match arg {
                NodeV::Spread(_) => {},
                _ => {
                    lemma_closure_body_fails_only_with_private_name(arg);
                },
            }
        }
    }
}

/// The rewrite of the body of a closure fails only with the private name of
/// a member access in the closure.
proof fn lemma_closure_body_fails_only_with_private_name(cur: NodeV)
    ensures
        closure_body_rewritten(cur) matches Some(r) ==> fails_only_with(r, private_names(cur)),
    decreases cur, 0int,
{
    match cur {
        NodeV::Paren(inner) => {
            lemma_closure_body_fails_only_with_private_name(*inner);
        },
        NodeV::Arrow { params, body, is_async } => {
            lemma_pass_fails_only_with_private_name(*body);
        },
        NodeV::Fn { name, params, body, is_async, is_generator } => {
            lemma_list_fails_only_with_private_name(body);
        },
        _ => {},
    }
}

/// The children of an element fail only with the private name of a member
/// access in them.
pub proof fn lemma_children_fail_only_with_private_name(children: Seq<NodeV>)
    ensures
        fails_only_with(normalize_children(children), private_names_seq(children)),
    decreases children, 0int,
{
    if children.len() > 0 {
        lemma_children_fail_only_with_private_name(children.drop_last());
        let child = children.last();
        let armed = armed_after(children.drop_last());
        assert(fails_only_with(normalize_child(armed, child), private_names(child))) by {
            lemma_pass_fails_only_with_private_name(child);
        }
    }
}

/// A call of `always` without arguments is no failure: it is read as if it
/// passed `null`.
pub proof fn lemma_always_without_arguments(callee: NodeV)
    requires
        callee_marker(strip_parens(callee)) == Some(Marker::Always),
    ensures
        rewrite_call(NodeV::Call { callee: Box::new(callee), args: Seq::empty() }) == Ok::<
            NodeV,
            Seq<char>,
        >(stable_call(NodeV::Lit(LitV::Null))),
{
}

} // verus!
