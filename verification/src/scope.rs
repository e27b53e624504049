//! Scope analysis: which names a sub-tree declares, and which variables it
//! reads without declaring them.
//!
//! A scope is entered at every function body, block, class body and catch
//! clause. The names that a scope declares are gathered before its
//! statements are walked, so a name counts as declared in the whole of its
//! scope, also where it is read above its declaration.
use vstd::prelude::*;
use crate::ast::{Ident, IdentV, MemberProp, MemberPropV, Node, NodeV, view_nodes, view_opt};
use crate::markers::{Marker, is_reserved_name, lookup_marker, marker_of, reserved_name};

verus! {

/// The models of a list of identifiers, in order.
pub open spec fn idents_view(v: Seq<Ident>) -> Seq<IdentV> {
    Seq::new(v.len(), |i: int| v[i]@)
}

/// The set of variables that a list of identifiers names.
pub open spec fn ident_set(v: Seq<Ident>) -> Set<IdentV> {
    idents_view(v).to_set()
}

/// The variable that stands for the self-reference `this`.
pub open spec fn this_ident() -> IdentV {
    IdentV { sym: "this"@, ctxt: 0 }
}

/// The set that holds `this` where a scope binds it, and nothing otherwise.
pub open spec fn implicit_this(add_this: bool) -> Set<IdentV> {
    if add_this {
        set![this_ident()]
    } else {
        Set::empty()
    }
}

// ---------------------------------------------------------------------
// Names declared by patterns
// ---------------------------------------------------------------------

/// The names that a binding pattern declares.
///
/// Recognized are a plain name; an array pattern, for those of its elements
/// that are plain names or array patterns again (holes declare nothing); an
/// object pattern, for a `key: name` entry, a shorthand entry and a rest
/// entry that is a plain name; and a rest parameter that is a plain name.
pub open spec fn pattern_bindings(p: NodeV) -> Set<IdentV>
    decreases p,
{
    match p {
        NodeV::Ident(i) => set![i],
        NodeV::ArrayPat(elems) => array_bindings(elems),
        NodeV::ObjectPat(props) => object_bindings(props),
        NodeV::RestPat(arg) => rest_binding(*arg),
        _ => Set::empty(),
    }
}

/// The names that the elements of an array pattern declare.
pub open spec fn array_bindings(elems: Seq<NodeV>) -> Set<IdentV>
    decreases elems,
{
    if elems.len() == 0 {
        Set::empty()
    } else {
        array_bindings(elems.drop_last()).union(
            match elems.last() {
                NodeV::Ident(i) => set![i],
                NodeV::ArrayPat(inner) => array_bindings(inner),
                _ => Set::empty(),
            },
        )
    }
}

/// The name that a rest pattern declares: that of its argument, where the
/// argument is a plain name.
pub open spec fn rest_binding(arg: NodeV) -> Set<IdentV> {
    match arg {
        NodeV::Ident(i) => set![i],
        _ => Set::empty(),
    }
}

/// The names that one entry of an object pattern declares.
pub open spec fn object_prop_binding(prop: NodeV) -> Set<IdentV> {
    match prop {
        NodeV::KeyValuePatProp { key, value } => rest_binding(*value),
        NodeV::AssignPatProp { key, value } => set![key],
        NodeV::RestPat(arg) => rest_binding(*arg),
        _ => Set::empty(),
    }
}

/// The names that the entries of an object pattern declare.
pub open spec fn object_bindings(props: Seq<NodeV>) -> Set<IdentV>
    decreases props.len(),
{
    if props.len() == 0 {
        Set::empty()
    } else {
        object_bindings(props.drop_last()).union(object_prop_binding(props.last()))
    }
}

/// The names that a parameter list declares.
pub open spec fn params_bindings(params: Seq<NodeV>) -> Set<IdentV>
    decreases params.len(),
{
    if params.len() == 0 {
        Set::empty()
    } else {
        params_bindings(params.drop_last()).union(pattern_bindings(params.last()))
    }
}

/// The names that an optional pattern declares.
pub open spec fn opt_pattern_bindings(p: Option<Box<NodeV>>) -> Set<IdentV> {
    match p {
        Some(b) => pattern_bindings(*b),
        None => Set::empty(),
    }
}

// ---------------------------------------------------------------------
// Names declared by patterns, in source order
// ---------------------------------------------------------------------

/// The names that a binding pattern declares, in source order; a name
/// occurs once for each place that binds it. The patterns that are
/// recognized are those of [`pattern_bindings`].
pub open spec fn pattern_names(p: NodeV) -> Seq<IdentV>
    decreases p,
{
    match p {
        NodeV::Ident(i) => seq![i],
        NodeV::ArrayPat(elems) => array_names(elems),
        NodeV::ObjectPat(props) => object_names(props),
        NodeV::RestPat(arg) => rest_name(*arg),
        _ => Seq::empty(),
    }
}

/// The names that the elements of an array pattern declare, in source
/// order.
pub open spec fn array_names(elems: Seq<NodeV>) -> Seq<IdentV>
    decreases elems,
{
    if elems.len() == 0 {
        Seq::empty()
    } else {
        array_names(elems.drop_last()) + match elems.last() {
            NodeV::Ident(i) => seq![i],
            NodeV::ArrayPat(inner) => array_names(inner),
            _ => Seq::empty(),
        }
    }
}

/// The name that a rest pattern declares, as a list of one name or none.
pub open spec fn rest_name(arg: NodeV) -> Seq<IdentV> {
    match arg {
        NodeV::Ident(i) => seq![i],
        _ => Seq::empty(),
    }
}

/// The names that one entry of an object pattern declares.
pub open spec fn object_prop_names(prop: NodeV) -> Seq<IdentV> {
    match prop {
        NodeV::KeyValuePatProp { key, value } => rest_name(*value),
        NodeV::AssignPatProp { key, value } => seq![key],
        NodeV::RestPat(arg) => rest_name(*arg),
        _ => Seq::empty(),
    }
}

/// The names that the entries of an object pattern declare, in source
/// order.
pub open spec fn object_names(props: Seq<NodeV>) -> Seq<IdentV>
    decreases props.len(),
{
    if props.len() == 0 {
        Seq::empty()
    } else {
        object_names(props.drop_last()) + object_prop_names(props.last())
    }
}

/// The names that a parameter list declares, in source order.
pub open spec fn params_names(params: Seq<NodeV>) -> Seq<IdentV>
    decreases params.len(),
{
    if params.len() == 0 {
        Seq::empty()
    } else {
        params_names(params.drop_last()) + pattern_names(params.last())
    }
}

/// The list that holds `this` where a scope binds it, and nothing
/// otherwise.
pub open spec fn this_first(add_this: bool) -> Seq<IdentV> {
    if add_this {
        seq![this_ident()]
    } else {
        Seq::empty()
    }
}

// ---------------------------------------------------------------------
// Names declared in a scope
// ---------------------------------------------------------------------

/// The names that `n` declares in the scope it stands in: those of variable
/// declarations and of function, class and enum declarations, found in `n`
/// outside any nested scope.
pub open spec fn declared_in(n: NodeV) -> Set<IdentV>
    decreases n,
{
    match n {
        NodeV::Lit(_) | NodeV::Ident(_) | NodeV::This | NodeV::Text(_) | NodeV::Hole
        | NodeV::TypeOnly(_) => Set::empty(),
        // nested scopes keep their declarations to themselves
        NodeV::Arrow { .. } | NodeV::Fn { .. } | NodeV::Block(_) | NodeV::Catch { .. } => {
            Set::empty()
        },
        NodeV::FnDecl { name, .. } => set![name],
        NodeV::ClassDecl { name, super_class, .. } => set![name].union(
            declared_in_opt(super_class),
        ),
        NodeV::EnumDecl { name, .. } => set![name],
        NodeV::Declarator { name, init } => pattern_bindings(*name).union(declared_in_opt(init)),
        NodeV::Paren(e) => declared_in(*e),
        NodeV::Member { obj, prop } => declared_in(*obj).union(
            match prop {
                MemberPropV::Computed(k) => declared_in(*k),
                _ => Set::empty(),
            },
        ),
        NodeV::Call { callee, args } => declared_in(*callee).union(declared_in_seq(args)),
        NodeV::Spread(e) => declared_in(*e),
        NodeV::Await(e) => declared_in(*e),
        NodeV::Element { name, attrs, children } => declared_in_seq(attrs).union(
            declared_in_seq(children),
        ),
        NodeV::Attr { name, value } => declared_in_opt(value),
        NodeV::Container(o) => declared_in_opt(o),
        NodeV::SpreadChild(e) => declared_in(*e),
        NodeV::Fragment(s) => declared_in_seq(s),
        NodeV::ExprStmt(e) => declared_in(*e),
        NodeV::Return(o) => declared_in_opt(o),
        NodeV::VarDecl { kind, decls } => declared_in_seq(decls),
        NodeV::ArrayPat(s) => declared_in_seq(s),
        NodeV::ObjectPat(s) => declared_in_seq(s),
        NodeV::KeyValuePatProp { key, value } => declared_in(*key).union(declared_in(*value)),
        NodeV::AssignPatProp { key, value } => declared_in_opt(value),
        NodeV::RestPat(e) => declared_in(*e),
        NodeV::Other { tag, children } => declared_in_seq(children),
    }
}

/// The names that a list of nodes declares in the scope it stands in.
pub open spec fn declared_in_seq(s: Seq<NodeV>) -> Set<IdentV>
    decreases s,
{
    if s.len() == 0 {
        Set::empty()
    } else {
        declared_in_seq(s.drop_last()).union(declared_in(s.last()))
    }
}

/// The names that an optional node declares in the scope it stands in.
pub open spec fn declared_in_opt(o: Option<Box<NodeV>>) -> Set<IdentV>
    decreases o,
{
    match o {
        Some(b) => declared_in(*b),
        None => Set::empty(),
    }
}

// ---------------------------------------------------------------------
// Lists of variables without repetition
// ---------------------------------------------------------------------

/// `acc`, with `x` added at its end unless `acc` holds it already.
pub open spec fn push_unique(acc: Seq<IdentV>, x: IdentV) -> Seq<IdentV> {
    if acc.contains(x) {
        acc
    } else {
        acc.push(x)
    }
}

/// `acc`, followed by the items of `s` that neither `acc` nor an earlier
/// place in `s` holds, in the order in which they first occur.
pub open spec fn extend_unique(acc: Seq<IdentV>, s: Seq<IdentV>) -> Seq<IdentV>
    decreases s.len(),
{
    if s.len() == 0 {
        acc
    } else {
        push_unique(extend_unique(acc, s.drop_last()), s.last())
    }
}

/// The items of `s`, each once, in the order in which they first occur.
pub open spec fn distinct(s: Seq<IdentV>) -> Seq<IdentV> {
    extend_unique(Seq::empty(), s)
}

/// Extending by one item is adding it unless it is there.
pub proof fn lemma_extend_unique_one(acc: Seq<IdentV>, x: IdentV)
    ensures
        extend_unique(acc, seq![x]) == push_unique(acc, x),
{
    assert(seq![x].drop_last() =~= Seq::<IdentV>::empty());
    assert(extend_unique(acc, Seq::<IdentV>::empty()) == acc);
}

/// Extending by a concatenation is extending by its parts in turn.
pub proof fn lemma_extend_unique_concat(acc: Seq<IdentV>, a: Seq<IdentV>, b: Seq<IdentV>)
    ensures
        extend_unique(acc, a + b) == extend_unique(extend_unique(acc, a), b),
    decreases b.len(),
{
    if b.len() == 0 {
        assert(a + b =~= a);
    } else {
        assert((a + b).drop_last() =~= a + b.drop_last());
        assert((a + b).last() == b.last());
        lemma_extend_unique_concat(acc, a, b.drop_last());
    }
}

/// A list without repetition stays one when it is extended.
pub proof fn lemma_extend_unique_no_duplicates(acc: Seq<IdentV>, s: Seq<IdentV>)
    requires
        acc.no_duplicates(),
    ensures
        extend_unique(acc, s).no_duplicates(),
    decreases s.len(),
{
    if s.len() > 0 {
        lemma_extend_unique_no_duplicates(acc, s.drop_last());
        lemma_push_unique_no_duplicates(extend_unique(acc, s.drop_last()), s.last());
    }
}

/// What `extend_unique` holds: what `acc` held and what `s` holds.
pub proof fn lemma_extend_unique_set(acc: Seq<IdentV>, s: Seq<IdentV>)
    ensures
        extend_unique(acc, s).to_set() == acc.to_set().union(s.to_set()),
    decreases s.len(),
{
    if s.len() == 0 {
        assert(s.to_set() =~= Set::empty());
    } else {
        lemma_extend_unique_set(acc, s.drop_last());
        let p = extend_unique(acc, s.drop_last());
        lemma_push_unique_set(p, s.last());
        assert(s.to_set() =~= s.drop_last().to_set().insert(s.last())) by {
            assert forall|x: IdentV| s.contains(x) implies s.drop_last().contains(x) || x
                == s.last() by {
                let i = choose|i: int| 0 <= i < s.len() && s[i] == x;
                if i < s.len() - 1 {
                    assert(s.drop_last()[i] == x);
                }
            }
            assert forall|x: IdentV| s.drop_last().contains(x) implies s.contains(x) by {
                let i = choose|i: int| 0 <= i < s.drop_last().len() && s.drop_last()[i] == x;
                assert(s[i] == x);
            }
            assert(s.contains(s.last())) by {
                assert(s[s.len() - 1] == s.last());
            }
        }
    }
}

/// What `push_unique` holds: what `acc` held, and `x`.
pub proof fn lemma_push_unique_set(acc: Seq<IdentV>, x: IdentV)
    ensures
        push_unique(acc, x).to_set() == acc.to_set().insert(x),
{
    if acc.contains(x) {
        assert(acc.to_set().insert(x) =~= acc.to_set());
    } else {
        let r = acc.push(x);
        assert forall|y: IdentV| r.contains(y) implies acc.contains(y) || y == x by {
            let i = choose|i: int| 0 <= i < r.len() && r[i] == y;
            if i < acc.len() {
                assert(acc[i] == y);
            }
        }
        assert forall|y: IdentV| acc.contains(y) implies r.contains(y) by {
            let i = choose|i: int| 0 <= i < acc.len() && acc[i] == y;
            assert(r[i] == y);
        }
        assert(r.contains(x)) by {
            assert(r[acc.len() as int] == x);
        }
        assert(r.to_set() =~= acc.to_set().insert(x));
    }
}

/// Adding an item unless it is there keeps a list without repetition.
pub proof fn lemma_push_unique_no_duplicates(acc: Seq<IdentV>, x: IdentV)
    requires
        acc.no_duplicates(),
    ensures
        push_unique(acc, x).no_duplicates(),
{
}

/// Whether `after` names no variable twice, provided that `before` names
/// none twice.
pub open spec fn stays_unique(before: Seq<Ident>, after: Seq<Ident>) -> bool {
    idents_view(before).no_duplicates() ==> idents_view(after).no_duplicates()
}

/// Whether `after` is `before`, followed by those of `names` that neither
/// `before` nor an earlier place in `names` holds, in the order of `names`.
pub open spec fn bound(before: Seq<Ident>, after: Seq<Ident>, names: Seq<IdentV>) -> bool {
    idents_view(after) == extend_unique(idents_view(before), names)
}

/// Binding one list of names and then another is binding the two in a row.
proof fn lemma_bound_join(
    before: Seq<Ident>,
    middle: Seq<Ident>,
    after: Seq<Ident>,
    first: Seq<IdentV>,
    second: Seq<IdentV>,
)
    requires
        bound(before, middle, first),
        bound(middle, after, second),
    ensures
        bound(before, after, first + second),
{
    lemma_extend_unique_concat(idents_view(before), first, second);
}

/// Whether `v` holds the variable `x`.
pub(crate) fn contains_ident(v: &Vec<Ident>, x: &Ident) -> (r: bool)
    ensures
        r == idents_view(v@).contains(x@),
{
    let mut i: usize = 0;
    while i < v.len()
        invariant
            i <= v.len(),
            forall|j: int| 0 <= j < i ==> (#[trigger] idents_view(v@)[j]) != x@,
        decreases v.len() - i,
    {
        if v[i].same(x) {
            assert(idents_view(v@)[i as int] == x@);
            return true;
        }
        i += 1;
    }
    false
}

/// Adds the variable `x` to `v` unless `v` holds it already.
pub(crate) fn insert_ident(v: &mut Vec<Ident>, x: &Ident)
    ensures
        idents_view(final(v)@) == push_unique(idents_view(old(v)@), x@),
        ident_set(final(v)@) == ident_set(old(v)@).insert(x@),
        stays_unique(old(v)@, final(v)@),
        bound(old(v)@, final(v)@, seq![x@]),
{
    proof {
        lemma_push_unique_set(idents_view(v@), x@);
        lemma_extend_unique_one(idents_view(v@), x@);
        if idents_view(v@).no_duplicates() {
            lemma_push_unique_no_duplicates(idents_view(v@), x@);
        }
    }
    if !contains_ident(v, x) {
        v.push(x.duplicate());
        assert(idents_view(v@) =~= idents_view(old(v)@).push(x@));
    }
}

/// A copy of a list of identifiers.
pub(crate) fn duplicate_idents(v: &Vec<Ident>) -> (r: Vec<Ident>)
    ensures
        idents_view(r@) == idents_view(v@),
{
    let mut out: Vec<Ident> = Vec::new();
    let mut i: usize = 0;
    while i < v.len()
        invariant
            i <= v.len(),
            out.len() == i,
            forall|j: int| 0 <= j < i ==> (#[trigger] out[j])@ == v[j]@,
        decreases v.len() - i,
    {
        out.push(v[i].duplicate());
        i += 1;
    }
    assert(idents_view(out@) =~= idents_view(v@));
    out
}

// ---------------------------------------------------------------------
// Gathering declared names
// ---------------------------------------------------------------------

/// Adds to `out` the name that a rest pattern with argument `arg` declares.
fn bind_rest(arg: &Node, out: &mut Vec<Ident>)
    ensures
        ident_set(final(out)@) == ident_set(old(out)@).union(rest_binding(arg@)),
        stays_unique(old(out)@, final(out)@),
        bound(old(out)@, final(out)@, rest_name(arg@)),
{
    match arg {
        Node::Ident(i) => {
            insert_ident(out, i);
        },
        _ => {},
    }
}

/// Adds to `out` the names that the elements of an array pattern declare.
fn bind_array(elems: &Vec<Node>, out: &mut Vec<Ident>)
    ensures
        ident_set(final(out)@) == ident_set(old(out)@).union(array_bindings(view_nodes(elems@))),
        stays_unique(old(out)@, final(out)@),
        bound(old(out)@, final(out)@, array_names(view_nodes(elems@))),
    decreases elems,
{
    let ghost all = view_nodes(elems@);
    let mut i: usize = 0;
    while i < elems.len()
        invariant
            i <= elems.len(),
            all == view_nodes(elems@),
            ident_set(out@) == ident_set(old(out)@).union(array_bindings(all.take(i as int))),
            stays_unique(old(out)@, out@),
            bound(old(out)@, out@, array_names(all.take(i as int))),
            forall|j: int| 0 <= j < elems.len() ==> decreases_to!(elems => #[trigger] elems[j]),
        decreases elems.len() - i,
    {
        proof {
            assert(all.take(i as int + 1).drop_last() =~= all.take(i as int));
            assert(all.take(i as int + 1).last() == elems[i as int]@);
        }
        let ghost middle = out@;
        match &elems[i] {
            Node::Ident(id) => {
                insert_ident(out, id);
            },
            Node::ArrayPat(inner) => {
                bind_array(inner, out);
            },
            _ => {},
        }
        proof {
            let last = match elems[i as int]@ {
                NodeV::Ident(id) => seq![id],
                NodeV::ArrayPat(inner) => array_names(inner),
                _ => Seq::empty(),
            };
            assert(bound(middle, out@, last));
            lemma_bound_join(old(out)@, middle, out@, array_names(all.take(i as int)), last);
        }
        i += 1;
    }
    proof {
        assert(all.take(i as int) =~= all);
    }
}

/// Adds to `out` the names that the entries of an object pattern declare.
fn bind_object(props: &Vec<Node>, out: &mut Vec<Ident>)
    ensures
        ident_set(final(out)@) == ident_set(old(out)@).union(object_bindings(view_nodes(props@))),
        stays_unique(old(out)@, final(out)@),
        bound(old(out)@, final(out)@, object_names(view_nodes(props@))),
{
    let ghost all = view_nodes(props@);
    let mut i: usize = 0;
    while i < props.len()
        invariant
            i <= props.len(),
            all == view_nodes(props@),
            ident_set(out@) == ident_set(old(out)@).union(object_bindings(all.take(i as int))),
            stays_unique(old(out)@, out@),
            bound(old(out)@, out@, object_names(all.take(i as int))),
        decreases props.len() - i,
    {
        proof {
            assert(all.take(i as int + 1).drop_last() =~= all.take(i as int));
            assert(all.take(i as int + 1).last() == props[i as int]@);
        }
        let ghost middle = out@;
        match &props[i] {
            Node::KeyValuePatProp { key, value } => {
                bind_rest(value, out);
            },
            Node::AssignPatProp { key, value } => {
                insert_ident(out, key);
            },
            Node::RestPat(arg) => {
                bind_rest(arg, out);
            },
            _ => {},
        }
        proof {
            assert(bound(middle, out@, object_prop_names(props[i as int]@)));
            lemma_bound_join(
                old(out)@,
                middle,
                out@,
                object_names(all.take(i as int)),
                object_prop_names(props[i as int]@),
            );
        }
        i += 1;
    }
    proof {
        assert(all.take(i as int) =~= all);
    }
}

/// Adds to `out` the names that the pattern `p` declares.
pub(crate) fn bind_pattern(p: &Node, out: &mut Vec<Ident>)
    ensures
        ident_set(final(out)@) == ident_set(old(out)@).union(pattern_bindings(p@)),
        stays_unique(old(out)@, final(out)@),
        bound(old(out)@, final(out)@, pattern_names(p@)),
{
    match p {
        Node::Ident(i) => {
            insert_ident(out, i);
        },
        Node::ArrayPat(elems) => {
            bind_array(elems, out);
        },
        Node::ObjectPat(props) => {
            bind_object(props, out);
        },
        Node::RestPat(arg) => {
            bind_rest(arg, out);
        },
        _ => {},
    }
}

/// Adds to `out` the names that a parameter list declares.
pub(crate) fn bind_params(params: &Vec<Node>, out: &mut Vec<Ident>)
    ensures
        ident_set(final(out)@) == ident_set(old(out)@).union(params_bindings(view_nodes(params@))),
        stays_unique(old(out)@, final(out)@),
        bound(old(out)@, final(out)@, params_names(view_nodes(params@))),
{
    let ghost all = view_nodes(params@);
    let mut i: usize = 0;
    while i < params.len()
        invariant
            i <= params.len(),
            all == view_nodes(params@),
            ident_set(out@) == ident_set(old(out)@).union(params_bindings(all.take(i as int))),
            stays_unique(old(out)@, out@),
            bound(old(out)@, out@, params_names(all.take(i as int))),
        decreases params.len() - i,
    {
        proof {
            assert(all.take(i as int + 1).drop_last() =~= all.take(i as int));
            assert(all.take(i as int + 1).last() == params[i as int]@);
        }
        let ghost middle = out@;
        bind_pattern(&params[i], out);
        proof {
            lemma_bound_join(
                old(out)@,
                middle,
                out@,
                params_names(all.take(i as int)),
                pattern_names(params[i as int]@),
            );
        }
        i += 1;
    }
    proof {
        assert(all.take(i as int) =~= all);
    }
}

/// The variable that stands for `this`.
pub(crate) fn this_variable() -> (r: Ident)
    ensures
        r@ == this_ident(),
{
    Ident { sym: "this".to_owned(), ctxt: 0 }
}

/// The names that a parameter list declares: `this` first where the scope
/// binds it, then each name once, at the place where it is first bound.
pub fn collect_params(params: &Vec<Node>, add_this: bool) -> (r: Vec<Ident>)
    ensures
        idents_view(r@) == distinct(this_first(add_this) + params_names(view_nodes(params@))),
        ident_set(r@) == implicit_this(add_this).union(params_bindings(view_nodes(params@))),
        idents_view(r@).no_duplicates(),
{
    let mut result: Vec<Ident> = Vec::new();
    let ghost empty = result@;
    assert(ident_set(result@) =~= Set::empty());
    assert(idents_view(result@).no_duplicates());
    assert(idents_view(empty) =~= Seq::<IdentV>::empty());
    if add_this {
        let this = this_variable();
        insert_ident(&mut result, &this);
    }
    let ghost middle = result@;
    assert(bound(empty, middle, this_first(add_this)));
    bind_params(params, &mut result);
    proof {
        lemma_bound_join(
            empty,
            middle,
            result@,
            this_first(add_this),
            params_names(view_nodes(params@)),
        );
    }
    result
}

/// Adds to `out` the names that `n` declares in the scope it stands in.
pub(crate) fn hoist(n: &Node, out: &mut Vec<Ident>)
    ensures
        ident_set(final(out)@) == ident_set(old(out)@).union(declared_in(n@)),
    decreases n,
{
    match n {
        Node::Lit(_) | Node::Ident(_) | Node::This | Node::Text(_) | Node::Hole | Node::TypeOnly(
            _,
        ) => {},
        Node::Arrow { .. } | Node::Fn { .. } | Node::Block(_) | Node::Catch { .. } => {},
        Node::FnDecl { name, .. } => {
            insert_ident(out, name);
        },
        Node::ClassDecl { name, super_class, .. } => {
            insert_ident(out, name);
            hoist_opt(super_class, out);
        },
        Node::EnumDecl { name, .. } => {
            insert_ident(out, name);
        },
        Node::Declarator { name, init } => {
            bind_pattern(name, out);
            hoist_opt(init, out);
        },
        Node::Paren(e) => {
            hoist(e, out);
        },
        Node::Member { obj, prop } => {
            hoist(obj, out);
            match prop {
                MemberProp::Computed(k) => {
                    hoist(k, out);
                },
                _ => {},
            }
        },
        Node::Call { callee, args } => {
            hoist(callee, out);
            hoist_nodes(args, out);
        },
        Node::Spread(e) => {
            hoist(e, out);
        },
        Node::Await(e) => {
            hoist(e, out);
        },
        Node::Element { name, attrs, children } => {
            hoist_nodes(attrs, out);
            hoist_nodes(children, out);
        },
        Node::Attr { name, value } => {
            hoist_opt(value, out);
        },
        Node::Container(o) => {
            hoist_opt(o, out);
        },
        Node::SpreadChild(e) => {
            hoist(e, out);
        },
        Node::Fragment(s) => {
            hoist_nodes(s, out);
        },
        Node::ExprStmt(e) => {
            hoist(e, out);
        },
        Node::Return(o) => {
            hoist_opt(o, out);
        },
        Node::VarDecl { kind, decls } => {
            hoist_nodes(decls, out);
        },
        Node::ArrayPat(s) => {
            hoist_nodes(s, out);
        },
        Node::ObjectPat(s) => {
            hoist_nodes(s, out);
        },
        Node::KeyValuePatProp { key, value } => {
            hoist(key, out);
            hoist(value, out);
        },
        Node::AssignPatProp { key, value } => {
            hoist_opt(value, out);
        },
        Node::RestPat(e) => {
            hoist(e, out);
        },
        Node::Other { tag, children } => {
            hoist_nodes(children, out);
        },
    }
}

/// Adds to `out` the names that the nodes of `v` declare in the scope they
/// stand in.
pub(crate) fn hoist_nodes(v: &Vec<Node>, out: &mut Vec<Ident>)
    ensures
        ident_set(final(out)@) == ident_set(old(out)@).union(declared_in_seq(view_nodes(v@))),
    decreases v,
{
    let ghost all = view_nodes(v@);
    let mut i: usize = 0;
    while i < v.len()
        invariant
            i <= v.len(),
            all == view_nodes(v@),
            ident_set(out@) == ident_set(old(out)@).union(declared_in_seq(all.take(i as int))),
            forall|j: int| 0 <= j < v.len() ==> decreases_to!(v => #[trigger] v[j]),
        decreases v.len() - i,
    {
        proof {
            assert(all.take(i as int + 1).drop_last() =~= all.take(i as int));
            assert(all.take(i as int + 1).last() == v[i as int]@);
        }
        hoist(&v[i], out);
        i += 1;
    }
    proof {
        assert(all.take(i as int) =~= all);
    }
}

/// Adds to `out` the names that an optional node declares in the scope it
/// stands in.
pub(crate) fn hoist_opt(o: &Option<Box<Node>>, out: &mut Vec<Ident>)
    ensures
        ident_set(final(out)@) == ident_set(old(out)@).union(declared_in_opt(view_opt(*o))),
    decreases o,
{
    match o {
        Some(b) => {
            hoist(b, out);
        },
        None => {},
    }
}

// ---------------------------------------------------------------------
// Free variables
// ---------------------------------------------------------------------

/// What a walk over a sub-tree finds.
pub struct Facts {
    /// Every read of a variable that no enclosing scope of the read
    /// declares, in the order of the walk; a variable occurs once for each
    /// such read.
    pub uses: Seq<IdentV>,
    /// Whether the walk met a call of the capture-declaration marker.
    pub capture: bool,
}

impl Facts {
    /// Nothing found.
    pub open spec fn nothing() -> Facts {
        Facts { uses: Seq::empty(), capture: false }
    }

    /// One read of the variable `i`.
    pub open spec fn read(i: IdentV) -> Facts {
        Facts { uses: seq![i], capture: false }
    }

    /// A call of the capture-declaration marker.
    pub open spec fn capture_call() -> Facts {
        Facts { uses: Seq::empty(), capture: true }
    }

    /// What is found by this walk and then by `next`.
    pub open spec fn join(self, next: Facts) -> Facts {
        Facts { uses: self.uses + next.uses, capture: self.capture || next.capture }
    }
}

/// A read of the variable `i` where `d` is declared.
pub open spec fn read_variable(i: IdentV, d: Set<IdentV>) -> Facts {
    if d.contains(i) {
        Facts::nothing()
    } else {
        Facts::read(i)
    }
}

/// A read of the name `i` where `d` is declared; a reserved name is no
/// variable.
pub open spec fn read_name(i: IdentV, d: Set<IdentV>) -> Facts {
    if is_reserved_name(i.sym) {
        Facts::nothing()
    } else {
        read_variable(i, d)
    }
}

/// Whether a callee is the capture-declaration marker.
pub open spec fn is_capture_callee(callee: NodeV) -> bool {
    callee matches NodeV::Ident(i) && marker_of(i.sym) == Some(Marker::Use)
}

/// What is declared inside a scope that is entered where `d` is declared:
/// `d`, the self-reference where the scope binds it, the names of the
/// scope's parameters, and `own`, the names that the scope's statements
/// declare.
pub open spec fn scope_of(
    d: Set<IdentV>,
    add_this: bool,
    params: Set<IdentV>,
    own: Set<IdentV>,
) -> Set<IdentV> {
    d.union(implicit_this(add_this)).union(params).union(own)
}

/// What the walk over `n` finds where `d` is declared.
///
/// The walk reads every identifier and every `this`. It enters a scope at
/// a function, a class body, a block and a catch clause. It passes over
/// type-only nodes, the members of an enum, the name of an element, the
/// parameters of a function, and the arguments of a call of the
/// capture-declaration marker.
pub open spec fn facts(n: NodeV, d: Set<IdentV>) -> Facts
    decreases n,
{
    match n {
        NodeV::Lit(_) | NodeV::Text(_) | NodeV::Hole | NodeV::TypeOnly(_) => Facts::nothing(),
        NodeV::EnumDecl { .. } => Facts::nothing(),
        NodeV::Ident(i) => read_name(i, d),
        NodeV::This => read_variable(this_ident(), d),
        NodeV::Paren(e) => facts(*e, d),
        NodeV::Member { obj, prop } => facts(*obj, d).join(
            match prop {
                MemberPropV::Computed(k) => facts(*k, d),
                _ => Facts::nothing(),
            },
        ),
        NodeV::Call { callee, args } => if is_capture_callee(*callee) {
            Facts::capture_call()
        } else {
            facts(*callee, d).join(facts_seq(args, d))
        },
        NodeV::Spread(e) => facts(*e, d),
        NodeV::Arrow { params, body, is_async } => facts(
            *body,
            scope_of(d, false, params_bindings(params), declared_in(*body)),
        ),
        NodeV::Fn { name, params, body, is_async, is_generator } => facts_seq(
            body,
            scope_of(d, true, params_bindings(params), declared_in_seq(body)),
        ),
        NodeV::Await(e) => facts(*e, d),
        NodeV::Element { name, attrs, children } => facts_seq(attrs, d).join(
            facts_seq(children, d),
        ),
        NodeV::Attr { name, value } => facts_opt(value, d),
        NodeV::Container(o) => facts_opt(o, d),
        NodeV::SpreadChild(e) => facts(*e, d),
        NodeV::Fragment(s) => facts_seq(s, d),
        NodeV::Block(s) => facts_seq(s, scope_of(d, false, Set::empty(), declared_in_seq(s))),
        NodeV::ExprStmt(e) => facts(*e, d),
        NodeV::Return(o) => facts_opt(o, d),
        NodeV::VarDecl { kind, decls } => facts_seq(decls, d),
        NodeV::Declarator { name, init } => facts(*name, d).join(facts_opt(init, d)),
        NodeV::FnDecl { name, params, body, is_async, is_generator } => facts_seq(
            body,
            scope_of(d, true, params_bindings(params), declared_in_seq(body)),
        ),
        NodeV::ClassDecl { name, super_class, body } => facts_opt(super_class, d).join(
            facts_seq(body, scope_of(d, true, Set::empty(), declared_in_seq(body))),
        ),
        NodeV::Catch { param, body } => facts_seq(
            body,
            scope_of(d, false, opt_pattern_bindings(param), declared_in_seq(body)),
        ),
        NodeV::ArrayPat(s) => facts_seq(s, d),
        NodeV::ObjectPat(s) => facts_seq(s, d),
        NodeV::KeyValuePatProp { key, value } => facts(*key, d).join(facts(*value, d)),
        NodeV::AssignPatProp { key, value } => read_name(key, d).join(facts_opt(value, d)),
        NodeV::RestPat(e) => facts(*e, d),
        NodeV::Other { tag, children } => facts_seq(children, d),
    }
}

/// What the walk over the nodes of `s`, in order, finds where `d` is
/// declared.
pub open spec fn facts_seq(s: Seq<NodeV>, d: Set<IdentV>) -> Facts
    decreases s,
{
    if s.len() == 0 {
        Facts::nothing()
    } else {
        facts_seq(s.drop_last(), d).join(facts(s.last(), d))
    }
}

/// What the walk over an optional node finds where `d` is declared.
pub open spec fn facts_opt(o: Option<Box<NodeV>>, d: Set<IdentV>) -> Facts
    decreases o,
{
    match o {
        Some(b) => facts(*b, d),
        None => Facts::nothing(),
    }
}

/// What the walk finds in `subtree`, taken as a scope of its own that is
/// entered where `declared` is declared.
pub open spec fn scope_facts(
    subtree: NodeV,
    declared: Set<IdentV>,
    add_implicit_this: bool,
) -> Facts {
    facts(subtree, scope_of(declared, add_implicit_this, Set::empty(), declared_in(subtree)))
}

/// The free variables of `subtree`: the variables that it reads and that
/// neither `declared` nor a scope around the read declares, each once, in
/// the order of their first read.
pub open spec fn free_variables(
    subtree: NodeV,
    declared: Set<IdentV>,
    add_implicit_this: bool,
) -> Seq<IdentV> {
    distinct(scope_facts(subtree, declared, add_implicit_this).uses)
}

/// Whether `subtree` holds a call of the capture-declaration marker.
pub open spec fn has_capture_declaration(
    subtree: NodeV,
    declared: Set<IdentV>,
    add_implicit_this: bool,
) -> bool {
    scope_facts(subtree, declared, add_implicit_this).capture
}

/// How a walk changes the list of variables found so far.
pub open spec fn walked(before: Seq<Ident>, after: Seq<Ident>, capture: bool, f: Facts) -> bool {
    &&& idents_view(after) == extend_unique(idents_view(before), f.uses)
    &&& capture == f.capture
}

/// Two walks in a row are the walk of what they find together.
proof fn lemma_walked_join(
    before: Seq<Ident>,
    middle: Seq<Ident>,
    after: Seq<Ident>,
    c1: bool,
    c2: bool,
    f1: Facts,
    f2: Facts,
)
    requires
        walked(before, middle, c1, f1),
        walked(middle, after, c2, f2),
    ensures
        walked(before, after, c1 || c2, f1.join(f2)),
{
    lemma_extend_unique_concat(idents_view(before), f1.uses, f2.uses);
}

/// A copy of `declared` to which a scope adds what it binds.
fn open_scope(declared: &Vec<Ident>, add_this: bool) -> (r: Vec<Ident>)
    ensures
        ident_set(r@) == ident_set(declared@).union(implicit_this(add_this)),
{
    let mut inner = duplicate_idents(declared);
    if add_this {
        let this = this_variable();
        insert_ident(&mut inner, &this);
    }
    inner
}

/// Walks `n` where `declared` is declared, and adds to `used` the free
/// variables that it reads. Returns whether it met a call of the
/// capture-declaration marker.
pub(crate) fn walk(n: &Node, declared: &Vec<Ident>, used: &mut Vec<Ident>) -> (capture: bool)
    ensures
        walked(old(used)@, final(used)@, capture, facts(n@, ident_set(declared@))),
    decreases n,
{
    let ghost d = ident_set(declared@);
    let ghost before = used@;
    match n {
        Node::Lit(_) | Node::Text(_) | Node::Hole | Node::TypeOnly(_) => false,
        Node::EnumDecl { .. } => false,
        Node::Ident(i) => {
            walk_name(i, declared, used);
            false
        },
        Node::This => {
            let this = this_variable();
            proof {
                lemma_extend_unique_one(idents_view(used@), this@);
                lemma_contains_in_set(idents_view(declared@), this@);
            }
            if !contains_ident(declared, &this) {
                insert_ident(used, &this);
            }
            false
        },
        Node::Paren(e) => walk(e, declared, used),
        Node::Member { obj, prop } => {
            let c1 = walk(obj, declared, used);
            let ghost middle = used@;
            let c2 = match prop {
                MemberProp::Computed(k) => walk(k, declared, used),
                _ => false,
            };
            proof {
                let f2 = match prop@ {
                    MemberPropV::Computed(k) => facts(*k, d),
                    _ => Facts::nothing(),
                };
                lemma_walked_join(before, middle, used@, c1, c2, facts(obj@, d), f2);
            }
            c1 || c2
        },
        Node::Call { callee, args } => {
            if capture_callee(callee) {
                true
            } else {
                let c1 = walk(callee, declared, used);
                let ghost middle = used@;
                let c2 = walk_nodes(args, declared, used);
                proof {
                    lemma_walked_join(
                        before,
                        middle,
                        used@,
                        c1,
                        c2,
                        facts(callee@, d),
                        facts_seq(view_nodes(args@), d),
                    );
                }
                c1 || c2
            }
        },
        Node::Spread(e) => walk(e, declared, used),
        Node::Arrow { params, body, is_async } => {
            let mut inner = open_scope(declared, false);
            bind_params(params, &mut inner);
            hoist(body, &mut inner);
            assert(ident_set(inner@) =~= scope_of(
                d,
                false,
                params_bindings(view_nodes(params@)),
                declared_in(body@),
            ));
            walk(body, &inner, used)
        },
        Node::Fn { name, params, body, is_async, is_generator } => {
            let mut inner = open_scope(declared, true);
            bind_params(params, &mut inner);
            hoist_nodes(body, &mut inner);
            assert(ident_set(inner@) =~= scope_of(
                d,
                true,
                params_bindings(view_nodes(params@)),
                declared_in_seq(view_nodes(body@)),
            ));
            walk_nodes(body, &inner, used)
        },
        Node::Await(e) => walk(e, declared, used),
        Node::Element { name, attrs, children } => {
            let c1 = walk_nodes(attrs, declared, used);
            let ghost middle = used@;
            let c2 = walk_nodes(children, declared, used);
            proof {
                lemma_walked_join(
                    before,
                    middle,
                    used@,
                    c1,
                    c2,
                    facts_seq(view_nodes(attrs@), d),
                    facts_seq(view_nodes(children@), d),
                );
            }
            c1 || c2
        },
        Node::Attr { name, value } => walk_opt(value, declared, used),
        Node::Container(o) => walk_opt(o, declared, used),
        Node::SpreadChild(e) => walk(e, declared, used),
        Node::Fragment(s) => walk_nodes(s, declared, used),
        Node::Block(s) => {
            let mut inner = open_scope(declared, false);
            hoist_nodes(s, &mut inner);
            assert(ident_set(inner@) =~= scope_of(
                d,
                false,
                Set::empty(),
                declared_in_seq(view_nodes(s@)),
            ));
            walk_nodes(s, &inner, used)
        },
        Node::ExprStmt(e) => walk(e, declared, used),
        Node::Return(o) => walk_opt(o, declared, used),
        Node::VarDecl { kind, decls } => walk_nodes(decls, declared, used),
        Node::Declarator { name, init } => {
            let c1 = walk(name, declared, used);
            let ghost middle = used@;
            let c2 = walk_opt(init, declared, used);
            proof {
                lemma_walked_join(
                    before,
                    middle,
                    used@,
                    c1,
                    c2,
                    facts(name@, d),
                    facts_opt(view_opt(*init), d),
                );
            }
            c1 || c2
        },
        Node::FnDecl { name, params, body, is_async, is_generator } => {
            let mut inner = open_scope(declared, true);
            bind_params(params, &mut inner);
            hoist_nodes(body, &mut inner);
            assert(ident_set(inner@) =~= scope_of(
                d,
                true,
                params_bindings(view_nodes(params@)),
                declared_in_seq(view_nodes(body@)),
            ));
            walk_nodes(body, &inner, used)
        },
        Node::ClassDecl { name, super_class, body } => {
            let c1 = walk_opt(super_class, declared, used);
            let ghost middle = used@;
            let mut inner = open_scope(declared, true);
            hoist_nodes(body, &mut inner);
            assert(ident_set(inner@) =~= scope_of(
                d,
                true,
                Set::empty(),
                declared_in_seq(view_nodes(body@)),
            ));
            let c2 = walk_nodes(body, &inner, used);
            proof {
                lemma_walked_join(
                    before,
                    middle,
                    used@,
                    c1,
                    c2,
                    facts_opt(view_opt(*super_class), d),
                    facts_seq(
                        view_nodes(body@),
                        scope_of(d, true, Set::empty(), declared_in_seq(view_nodes(body@))),
                    ),
                );
            }
            c1 || c2
        },
        Node::Catch { param, body } => {
            let mut inner = open_scope(declared, false);
            match param {
                Some(p) => {
                    bind_pattern(p, &mut inner);
                },
                None => {},
            }
            hoist_nodes(body, &mut inner);
            assert(ident_set(inner@) =~= scope_of(
                d,
                false,
                opt_pattern_bindings(view_opt(*param)),
                declared_in_seq(view_nodes(body@)),
            ));
            walk_nodes(body, &inner, used)
        },
        Node::ArrayPat(s) => walk_nodes(s, declared, used),
        Node::ObjectPat(s) => walk_nodes(s, declared, used),
        Node::KeyValuePatProp { key, value } => {
            let c1 = walk(key, declared, used);
            let ghost middle = used@;
            let c2 = walk(value, declared, used);
            proof {
                lemma_walked_join(before, middle, used@, c1, c2, facts(key@, d), facts(value@, d));
            }
            c1 || c2
        },
        Node::AssignPatProp { key, value } => {
            walk_name(key, declared, used);
            let ghost middle = used@;
            let c2 = walk_opt(value, declared, used);
            proof {
                lemma_walked_join(
                    before,
                    middle,
                    used@,
                    false,
                    c2,
                    read_name(key@, d),
                    facts_opt(view_opt(*value), d),
                );
            }
            c2
        },
        Node::RestPat(e) => walk(e, declared, used),
        Node::Other { tag, children } => walk_nodes(children, declared, used),
    }
}

/// Reads the name `i` where `declared` is declared.
fn walk_name(i: &Ident, declared: &Vec<Ident>, used: &mut Vec<Ident>)
    ensures
        walked(old(used)@, final(used)@, false, read_name(i@, ident_set(declared@))),
{
    proof {
        lemma_extend_unique_one(idents_view(used@), i@);
        lemma_contains_in_set(idents_view(declared@), i@);
    }
    if !reserved_name(i.sym.as_str()) && !contains_ident(declared, i) {
        insert_ident(used, i);
    }
}

/// A list holds what its set holds.
proof fn lemma_contains_in_set(s: Seq<IdentV>, x: IdentV)
    ensures
        s.to_set().contains(x) == s.contains(x),
{
}

/// Exec form of [`is_capture_callee`].
pub(crate) fn capture_callee(callee: &Node) -> (r: bool)
    ensures
        r == is_capture_callee(callee@),
{
    match callee {
        Node::Ident(i) => match lookup_marker(i.sym.as_str()) {
            Some(Marker::Use) => true,
            _ => false,
        },
        _ => false,
    }
}

/// Walks the nodes of `v` in order; see [`walk`].
pub(crate) fn walk_nodes(v: &Vec<Node>, declared: &Vec<Ident>, used: &mut Vec<Ident>) -> (capture:
    bool)
    ensures
        walked(
            old(used)@,
            final(used)@,
            capture,
            facts_seq(view_nodes(v@), ident_set(declared@)),
        ),
    decreases v,
{
    let ghost all = view_nodes(v@);
    let ghost d = ident_set(declared@);
    let mut capture = false;
    let mut i: usize = 0;
    while i < v.len()
        invariant
            i <= v.len(),
            all == view_nodes(v@),
            d == ident_set(declared@),
            walked(old(used)@, used@, capture, facts_seq(all.take(i as int), d)),
            forall|j: int| 0 <= j < v.len() ==> decreases_to!(v => #[trigger] v[j]),
        decreases v.len() - i,
    {
        let ghost middle = used@;
        let c = walk(&v[i], declared, used);
        proof {
            assert(all.take(i as int + 1).drop_last() =~= all.take(i as int));
            assert(all.take(i as int + 1).last() == v[i as int]@);
            lemma_walked_join(
                old(used)@,
                middle,
                used@,
                capture,
                c,
                facts_seq(all.take(i as int), d),
                facts(v[i as int]@, d),
            );
        }
        capture = capture || c;
        i += 1;
    }
    proof {
        assert(all.take(i as int) =~= all);
    }
    capture
}

/// Walks an optional node; see [`walk`].
pub(crate) fn walk_opt(
    o: &Option<Box<Node>>,
    declared: &Vec<Ident>,
    used: &mut Vec<Ident>,
) -> (capture: bool)
    ensures
        walked(old(used)@, final(used)@, capture, facts_opt(view_opt(*o), ident_set(declared@))),
    decreases o,
{
    match o {
        Some(b) => walk(b, declared, used),
        None => false,
    }
}

/// What the walk finds in `subtree`, taken as a scope that is entered where
/// `declared` is declared, that binds `this` if `has_this` says so, and
/// whose parameters are `params`.
pub open spec fn nested_facts(
    subtree: NodeV,
    declared: Set<IdentV>,
    params: Seq<NodeV>,
    has_this: bool,
) -> Facts {
    facts(subtree, scope_of(declared, has_this, params_bindings(params), declared_in(subtree)))
}

/// The state of a collector: the names that are declared where it walks,
/// the free variables that it has found so far, and whether it has met a
/// call of the capture-declaration marker.
#[derive(Debug)]
pub struct VariableCollector {
    pub has_custom_use: bool,
    /// The free variables found so far, each once, in the order of their
    /// first read.
    pub used_variables: Vec<Ident>,
    /// The names that are declared around what the collector walks.
    pub variable_declarations: Vec<Ident>,
}

impl VariableCollector {
    /// A collector that has found nothing, where nothing is declared.
    pub fn new() -> (r: VariableCollector)
        ensures
            !r.has_custom_use,
            r.used_variables@.len() == 0,
            r.variable_declarations@.len() == 0,
    {
        VariableCollector {
            has_custom_use: false,
            used_variables: Vec::new(),
            variable_declarations: Vec::new(),
        }
    }

    /// Walks `visitable` as a nested scope with the parameters `params`.
    ///
    /// What the scope declares stays in the scope: the collector's
    /// declarations are as they were. The variables found so far stay in
    /// their places, and after them come the free variables of the scope
    /// that were not found before, each once, in the order of their first
    /// read.
    pub fn visit_block_recursive(&mut self, params: &Vec<Node>, visitable: &Node, has_this: bool)
        ensures
            final(self).variable_declarations == old(self).variable_declarations,
            idents_view(final(self).used_variables@) == extend_unique(
                idents_view(old(self).used_variables@),
                nested_facts(
                    visitable@,
                    ident_set(old(self).variable_declarations@),
                    view_nodes(params@),
                    has_this,
                ).uses,
            ),
            final(self).has_custom_use == (old(self).has_custom_use || nested_facts(
                visitable@,
                ident_set(old(self).variable_declarations@),
                view_nodes(params@),
                has_this,
            ).capture),
    {
        let mut inner = open_scope(&self.variable_declarations, has_this);
        bind_params(params, &mut inner);
        hoist(visitable, &mut inner);
        assert(ident_set(inner@) =~= scope_of(
            ident_set(self.variable_declarations@),
            has_this,
            params_bindings(view_nodes(params@)),
            declared_in(visitable@),
        ));
        let capture = walk(visitable, &inner, &mut self.used_variables);
        if capture {
            self.has_custom_use = true;
        }
    }
}

/// What [`collect`] returns.
#[derive(Debug)]
pub struct Capture {
    /// The free variables, each once, in the order of their first read.
    pub used: Vec<Ident>,
    /// Whether a call of the capture-declaration marker was met.
    pub has_custom_use: bool,
}

/// Collects the free variables of `subtree`, taken as a scope of its own
/// that is entered where `declared` is declared and that binds `this` if
/// `add_implicit_this` says so.
pub fn collect(subtree: &Node, declared: &Vec<Ident>, add_implicit_this: bool) -> (r: Capture)
    ensures
        idents_view(r.used@) == free_variables(
            subtree@,
            ident_set(declared@),
            add_implicit_this,
        ),
        r.has_custom_use == has_capture_declaration(
            subtree@,
            ident_set(declared@),
            add_implicit_this,
        ),
{
    let mut collector = VariableCollector {
        has_custom_use: false,
        used_variables: Vec::new(),
        variable_declarations: duplicate_idents(declared),
    };
    let params: Vec<Node> = Vec::new();
    assert(idents_view(collector.used_variables@) =~= Seq::empty());
    assert(params_bindings(view_nodes(params@)) =~= Set::empty());
    assert(scope_of(
        ident_set(collector.variable_declarations@),
        add_implicit_this,
        params_bindings(view_nodes(params@)),
        declared_in(subtree@),
    ) =~= scope_of(ident_set(declared@), add_implicit_this, Set::empty(), declared_in(subtree@)));
    collector.visit_block_recursive(&params, subtree, add_implicit_this);
    Capture { used: collector.used_variables, has_custom_use: collector.has_custom_use }
}

} // verus!
