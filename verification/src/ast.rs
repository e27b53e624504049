//! The syntax tree that the transform reads and rewrites, and its
//! mathematical model.
//!
//! A tree is a value of [`Node`]. Every syntactic category of the host
//! language (expressions, statements, binding patterns, elements, fragments
//! and their parts) is a variant of that one type, so that a single traversal
//! covers a whole program. Constructs that no analysis here tells apart are
//! held as [`Node::Other`], which keeps their sub-trees in source order.
//!
//! Contracts speak of the view of a tree, [`NodeV`], in which strings are
//! `Seq<char>` and child lists are `Seq<NodeV>`.
use vstd::prelude::*;

verus! {

/// A variable as the scope analysis sees it: its name and the token that
/// tells apart equal names bound in different lexical scopes.
#[derive(Debug, PartialEq, Eq)]
pub struct Ident {
    pub sym: String,
    pub ctxt: u32,
}

/// Model of [`Ident`].
pub struct IdentV {
    pub sym: Seq<char>,
    pub ctxt: u32,
}

impl View for Ident {
    type V = IdentV;

    open spec fn view(&self) -> IdentV {
        IdentV { sym: self.sym@, ctxt: self.ctxt }
    }
}

/// A literal value. Numbers are held as their source text.
#[derive(Debug, PartialEq, Eq)]
pub enum Lit {
    Str(String),
    Num(String),
    Bool(bool),
    Null,
    /// Any other literal (a regular expression, a big integer), by an
    /// opaque handle.
    Other(u64),
}

/// Model of [`Lit`].
pub enum LitV {
    Str(Seq<char>),
    Num(Seq<char>),
    Bool(bool),
    Null,
    Other(u64),
}

impl View for Lit {
    type V = LitV;

    open spec fn view(&self) -> LitV {
        match *self {
            Lit::Str(s) => LitV::Str(s@),
            Lit::Num(s) => LitV::Num(s@),
            Lit::Bool(b) => LitV::Bool(b),
            Lit::Null => LitV::Null,
            Lit::Other(h) => LitV::Other(h),
        }
    }
}

/// The property named by a member access.
#[derive(Debug, PartialEq, Eq)]
pub enum MemberProp {
    /// `obj.name`
    Ident(String),
    /// `obj[key]`
    Computed(Box<Node>),
    /// `obj.#name`
    PrivateName(String),
}

/// Model of [`MemberProp`].
pub enum MemberPropV {
    Ident(Seq<char>),
    Computed(Box<NodeV>),
    PrivateName(Seq<char>),
}

/// The name of an element attribute.
#[derive(Debug, PartialEq, Eq)]
pub enum AttrName {
    /// `name`
    Plain(String),
    /// `ns:name`
    Namespaced { ns: String, name: String },
}

/// Model of [`AttrName`].
pub enum AttrNameV {
    Plain(Seq<char>),
    Namespaced { ns: Seq<char>, name: Seq<char> },
}

impl View for AttrName {
    type V = AttrNameV;

    open spec fn view(&self) -> AttrNameV {
        match *self {
            AttrName::Plain(s) => AttrNameV::Plain(s@),
            AttrName::Namespaced { ns, name } => AttrNameV::Namespaced { ns: ns@, name: name@ },
        }
    }
}

/// The keyword that introduces a variable declaration.
#[derive(Debug, Clone, Copy, PartialEq, Eq, Structural)]
pub enum VarKind {
    Var,
    Let,
    Const,
}

/// A node of the syntax tree.
#[derive(Debug, PartialEq, Eq)]
#[allow(inconsistent_fields)]
pub enum Node {
    // ---- expressions ----
    Lit(Lit),
    Ident(Ident),
    /// The self-reference `this`.
    This,
    /// `(expr)`
    Paren(Box<Node>),
    /// `obj.prop`, `obj[key]`, `obj.#name`
    Member { obj: Box<Node>, prop: MemberProp },
    /// `callee(args)`; an argument may be a [`Node::Spread`].
    Call { callee: Box<Node>, args: Vec<Node> },
    /// `...expr` as a call argument or as an element attribute.
    Spread(Box<Node>),
    /// `(params) => body`; the body is a [`Node::Block`] or an expression.
    Arrow { params: Vec<Node>, body: Box<Node>, is_async: bool },
    /// `function name(params) { body }` in expression position.
    Fn {
        name: Option<Ident>,
        params: Vec<Node>,
        body: Vec<Node>,
        is_async: bool,
        is_generator: bool,
    },
    /// `await expr`
    Await(Box<Node>),
    /// `<name attrs>children</name>`
    Element { name: Box<Node>, attrs: Vec<Node>, children: Vec<Node> },
    // ---- parts of an element ----
    /// `name=value`; the value is a literal, a [`Node::Container`] or an
    /// element.
    Attr { name: AttrName, value: Option<Box<Node>> },
    /// Literal text between element tags.
    Text(String),
    /// `{expr}`, an interpolation slot; `{}` holds nothing.
    Container(Option<Box<Node>>),
    /// `{...expr}` among the children of an element.
    SpreadChild(Box<Node>),
    /// `<>children</>`, a list of children without an element around it.
    Fragment(Vec<Node>),
    // ---- statements and declarations ----
    /// `{ statements }`
    Block(Vec<Node>),
    /// `expr;`
    ExprStmt(Box<Node>),
    /// `return expr;`
    Return(Option<Box<Node>>),
    /// `var`/`let`/`const` with its [`Node::Declarator`]s.
    VarDecl { kind: VarKind, decls: Vec<Node> },
    /// `pattern = init` inside a variable declaration.
    Declarator { name: Box<Node>, init: Option<Box<Node>> },
    /// `function name(params) { body }` as a declaration.
    FnDecl {
        name: Ident,
        params: Vec<Node>,
        body: Vec<Node>,
        is_async: bool,
        is_generator: bool,
    },
    /// `class name extends super_class { body }` as a declaration.
    ClassDecl { name: Ident, super_class: Option<Box<Node>>, body: Vec<Node> },
    /// `enum name { members }`
    EnumDecl { name: Ident, members: Vec<Node> },
    /// `catch (param) { body }`
    Catch { param: Option<Box<Node>>, body: Vec<Node> },
    // ---- binding patterns ----
    /// `[a, , b]`; a missing element is a [`Node::Hole`].
    ArrayPat(Vec<Node>),
    /// An elision in an array pattern.
    Hole,
    /// `{ k: v, s = d, ...r }`
    ObjectPat(Vec<Node>),
    /// `key: value` in an object pattern.
    KeyValuePatProp { key: Box<Node>, value: Box<Node> },
    /// `key` or `key = value` in an object pattern.
    AssignPatProp { key: Ident, value: Option<Box<Node>> },
    /// `...arg` in a pattern or a parameter list.
    RestPat(Box<Node>),
    // ---- the rest ----
    /// A type annotation, type alias or interface: it names nothing that
    /// exists at run time. Held by an opaque handle.
    TypeOnly(u64),
    /// Any other construct, by an opaque tag, with its sub-trees in source
    /// order.
    Other { tag: u64, children: Vec<Node> },
}

/// Model of [`Node`].
#[allow(inconsistent_fields)]
pub enum NodeV {
    Lit(LitV),
    Ident(IdentV),
    This,
    Paren(Box<NodeV>),
    Member { obj: Box<NodeV>, prop: MemberPropV },
    Call { callee: Box<NodeV>, args: Seq<NodeV> },
    Spread(Box<NodeV>),
    Arrow { params: Seq<NodeV>, body: Box<NodeV>, is_async: bool },
    Fn {
        name: Option<IdentV>,
        params: Seq<NodeV>,
        body: Seq<NodeV>,
        is_async: bool,
        is_generator: bool,
    },
    Await(Box<NodeV>),
    Element { name: Box<NodeV>, attrs: Seq<NodeV>, children: Seq<NodeV> },
    Attr { name: AttrNameV, value: Option<Box<NodeV>> },
    Text(Seq<char>),
    Container(Option<Box<NodeV>>),
    SpreadChild(Box<NodeV>),
    Fragment(Seq<NodeV>),
    Block(Seq<NodeV>),
    ExprStmt(Box<NodeV>),
    Return(Option<Box<NodeV>>),
    VarDecl { kind: VarKind, decls: Seq<NodeV> },
    Declarator { name: Box<NodeV>, init: Option<Box<NodeV>> },
    FnDecl {
        name: IdentV,
        params: Seq<NodeV>,
        body: Seq<NodeV>,
        is_async: bool,
        is_generator: bool,
    },
    ClassDecl { name: IdentV, super_class: Option<Box<NodeV>>, body: Seq<NodeV> },
    EnumDecl { name: IdentV, members: Seq<NodeV> },
    Catch { param: Option<Box<NodeV>>, body: Seq<NodeV> },
    ArrayPat(Seq<NodeV>),
    Hole,
    ObjectPat(Seq<NodeV>),
    KeyValuePatProp { key: Box<NodeV>, value: Box<NodeV> },
    AssignPatProp { key: IdentV, value: Option<Box<NodeV>> },
    RestPat(Box<NodeV>),
    TypeOnly(u64),
    Other { tag: u64, children: Seq<NodeV> },
}

/// The model of an optional name.
pub open spec fn view_opt_ident(o: Option<Ident>) -> Option<IdentV> {
    match o {
        Some(i) => Some(i@),
        None => None,
    }
}

/// The model of a list of trees: the models of its items, in order.
pub open spec fn view_nodes(s: Seq<Node>) -> Seq<NodeV>
    decreases s,
{
    Seq::new(
        s.len(),
        |i: int|
            if 0 <= i < s.len() {
                view_node(s[i])
            } else {
                arbitrary()
            },
    )
}

/// The model of an optional tree.
pub open spec fn view_opt(o: Option<Box<Node>>) -> Option<Box<NodeV>>
    decreases o,
{
    match o {
        Some(b) => Some(Box::new(view_node(*b))),
        None => None,
    }
}

/// The model of a tree.
pub open spec fn view_node(n: Node) -> NodeV
    decreases n,
{
    match n {
        Node::Lit(l) => NodeV::Lit(l@),
        Node::Ident(i) => NodeV::Ident(i@),
        Node::This => NodeV::This,
        Node::Paren(e) => NodeV::Paren(Box::new(view_node(*e))),
        Node::Member { obj, prop } => NodeV::Member {
            obj: Box::new(view_node(*obj)),
            prop: match prop {
                MemberProp::Ident(s) => MemberPropV::Ident(s@),
                MemberProp::Computed(k) => MemberPropV::Computed(Box::new(view_node(*k))),
                MemberProp::PrivateName(s) => MemberPropV::PrivateName(s@),
            },
        },
        Node::Call { callee, args } => NodeV::Call {
            callee: Box::new(view_node(*callee)),
            args: view_nodes(args@),
        },
        Node::Spread(e) => NodeV::Spread(Box::new(view_node(*e))),
        Node::Arrow { params, body, is_async } => NodeV::Arrow {
            params: view_nodes(params@),
            body: Box::new(view_node(*body)),
            is_async,
        },
        Node::Fn { name, params, body, is_async, is_generator } => NodeV::Fn {
            name: view_opt_ident(name),
            params: view_nodes(params@),
            body: view_nodes(body@),
            is_async,
            is_generator,
        },
        Node::Await(e) => NodeV::Await(Box::new(view_node(*e))),
        Node::Element { name, attrs, children } => NodeV::Element {
            name: Box::new(view_node(*name)),
            attrs: view_nodes(attrs@),
            children: view_nodes(children@),
        },
        Node::Attr { name, value } => NodeV::Attr { name: name@, value: view_opt(value) },
        Node::Text(s) => NodeV::Text(s@),
        Node::Container(o) => NodeV::Container(view_opt(o)),
        Node::SpreadChild(e) => NodeV::SpreadChild(Box::new(view_node(*e))),
        Node::Fragment(s) => NodeV::Fragment(view_nodes(s@)),
        Node::Block(s) => NodeV::Block(view_nodes(s@)),
        Node::ExprStmt(e) => NodeV::ExprStmt(Box::new(view_node(*e))),
        Node::Return(o) => NodeV::Return(view_opt(o)),
        Node::VarDecl { kind, decls } => NodeV::VarDecl { kind, decls: view_nodes(decls@) },
        Node::Declarator { name, init } => NodeV::Declarator {
            name: Box::new(view_node(*name)),
            init: view_opt(init),
        },
        Node::FnDecl { name, params, body, is_async, is_generator } => NodeV::FnDecl {
            name: name@,
            params: view_nodes(params@),
            body: view_nodes(body@),
            is_async,
            is_generator,
        },
        Node::ClassDecl { name, super_class, body } => NodeV::ClassDecl {
            name: name@,
            super_class: view_opt(super_class),
            body: view_nodes(body@),
        },
        Node::EnumDecl { name, members } => NodeV::EnumDecl {
            name: name@,
            members: view_nodes(members@),
        },
        Node::Catch { param, body } => NodeV::Catch {
            param: view_opt(param),
            body: view_nodes(body@),
        },
        Node::ArrayPat(s) => NodeV::ArrayPat(view_nodes(s@)),
        Node::Hole => NodeV::Hole,
        Node::ObjectPat(s) => NodeV::ObjectPat(view_nodes(s@)),
        Node::KeyValuePatProp { key, value } => NodeV::KeyValuePatProp {
            key: Box::new(view_node(*key)),
            value: Box::new(view_node(*value)),
        },
        Node::AssignPatProp { key, value } => NodeV::AssignPatProp {
            key: key@,
            value: view_opt(value),
        },
        Node::RestPat(e) => NodeV::RestPat(Box::new(view_node(*e))),
        Node::TypeOnly(h) => NodeV::TypeOnly(h),
        Node::Other { tag, children } => NodeV::Other { tag, children: view_nodes(children@) },
    }
}

impl View for Node {
    type V = NodeV;

    open spec fn view(&self) -> NodeV {
        view_node(*self)
    }
}

impl View for MemberProp {
    type V = MemberPropV;

    open spec fn view(&self) -> MemberPropV {
        match *self {
            MemberProp::Ident(s) => MemberPropV::Ident(s@),
            MemberProp::Computed(k) => MemberPropV::Computed(Box::new(view_node(*k))),
            MemberProp::PrivateName(s) => MemberPropV::PrivateName(s@),
        }
    }
}

impl Ident {
    /// A copy of the identifier.
    pub fn duplicate(&self) -> (r: Ident)
        ensures
            r@ == self@,
    {
        Ident { sym: self.sym.clone(), ctxt: self.ctxt }
    }

    /// Whether two identifiers are the same variable: equal names and equal
    /// scope tokens.
    pub fn same(&self, other: &Ident) -> (r: bool)
        ensures
            r == (self@ == other@),
    {
        self.ctxt == other.ctxt && self.sym == other.sym
    }
}

impl Lit {
    /// A copy of the literal.
    pub fn duplicate(&self) -> (r: Lit)
        ensures
            r@ == self@,
    {
        match self {
            Lit::Str(s) => Lit::Str(s.clone()),
            Lit::Num(s) => Lit::Num(s.clone()),
            Lit::Bool(b) => Lit::Bool(*b),
            Lit::Null => Lit::Null,
            Lit::Other(h) => Lit::Other(*h),
        }
    }
}

impl AttrName {
    /// A copy of the attribute name.
    pub fn duplicate(&self) -> (r: AttrName)
        ensures
            r@ == self@,
    {
        match self {
            AttrName::Plain(s) => AttrName::Plain(s.clone()),
            AttrName::Namespaced { ns, name } => AttrName::Namespaced {
                ns: ns.clone(),
                name: name.clone(),
            },
        }
    }
}

/// A copy of an optional name.
pub fn duplicate_opt_ident(o: &Option<Ident>) -> (r: Option<Ident>)
    ensures
        view_opt_ident(r) == view_opt_ident(*o),
{
    match o {
        Some(i) => Some(i.duplicate()),
        None => None,
    }
}

/// A copy of a list of trees.
pub fn duplicate_nodes(v: &Vec<Node>) -> (r: Vec<Node>)
    ensures
        view_nodes(r@) == view_nodes(v@),
    decreases v,
{
    let mut out: Vec<Node> = Vec::new();
    let mut i: usize = 0;
    while i < v.len()
        invariant
            i <= v.len(),
            out.len() == i,
            forall|j: int| 0 <= j < i ==> (#[trigger] out[j])@ == v[j]@,
            forall|j: int| 0 <= j < v.len() ==> decreases_to!(v => #[trigger] v[j]),
        decreases v.len() - i,
    {
        let x = v[i].duplicate();
        out.push(x);
        i += 1;
    }
    assert(view_nodes(out@) =~= view_nodes(v@));
    out
}

/// A copy of an optional tree.
pub fn duplicate_opt(o: &Option<Box<Node>>) -> (r: Option<Box<Node>>)
    ensures
        view_opt(r) == view_opt(*o),
    decreases o,
{
    match o {
        Some(b) => Some(Box::new(b.duplicate())),
        None => None,
    }
}

impl MemberProp {
    /// A copy of the property.
    pub fn duplicate(&self) -> (r: MemberProp)
        ensures
            r@ == self@,
        decreases self,
    {
        match self {
            MemberProp::Ident(s) => MemberProp::Ident(s.clone()),
            MemberProp::Computed(k) => MemberProp::Computed(Box::new(k.duplicate())),
            MemberProp::PrivateName(s) => MemberProp::PrivateName(s.clone()),
        }
    }
}

impl Node {
    /// A copy of the tree.
    pub fn duplicate(&self) -> (r: Node)
        ensures
            r@ == self@,
        decreases self,
    {
        match self {
            Node::Lit(l) => Node::Lit(l.duplicate()),
            Node::Ident(i) => Node::Ident(i.duplicate()),
            Node::This => Node::This,
            Node::Paren(e) => Node::Paren(Box::new(e.duplicate())),
            Node::Member { obj, prop } => Node::Member {
                obj: Box::new(obj.duplicate()),
                prop: prop.duplicate(),
            },
            Node::Call { callee, args } => Node::Call {
                callee: Box::new(callee.duplicate()),
                args: duplicate_nodes(args),
            },
            Node::Spread(e) => Node::Spread(Box::new(e.duplicate())),
            Node::Arrow { params, body, is_async } => Node::Arrow {
                params: duplicate_nodes(params),
                body: Box::new(body.duplicate()),
                is_async: *is_async,
            },
            Node::Fn { name, params, body, is_async, is_generator } => Node::Fn {
                name: duplicate_opt_ident(name),
                params: duplicate_nodes(params),
                body: duplicate_nodes(body),
                is_async: *is_async,
                is_generator: *is_generator,
            },
            Node::Await(e) => Node::Await(Box::new(e.duplicate())),
            Node::Element { name, attrs, children } => Node::Element {
                name: Box::new(name.duplicate()),
                attrs: duplicate_nodes(attrs),
                children: duplicate_nodes(children),
            },
            Node::Attr { name, value } => Node::Attr {
                name: name.duplicate(),
                value: duplicate_opt(value),
            },
            Node::Text(s) => Node::Text(s.clone()),
            Node::Container(o) => Node::Container(duplicate_opt(o)),
            Node::SpreadChild(e) => Node::SpreadChild(Box::new(e.duplicate())),
            Node::Fragment(s) => Node::Fragment(duplicate_nodes(s)),
            Node::Block(s) => Node::Block(duplicate_nodes(s)),
            Node::ExprStmt(e) => Node::ExprStmt(Box::new(e.duplicate())),
            Node::Return(o) => Node::Return(duplicate_opt(o)),
            Node::VarDecl { kind, decls } => Node::VarDecl {
                kind: *kind,
                decls: duplicate_nodes(decls),
            },
            Node::Declarator { name, init } => Node::Declarator {
                name: Box::new(name.duplicate()),
                init: duplicate_opt(init),
            },
            Node::FnDecl { name, params, body, is_async, is_generator } => Node::FnDecl {
                name: name.duplicate(),
                params: duplicate_nodes(params),
                body: duplicate_nodes(body),
                is_async: *is_async,
                is_generator: *is_generator,
            },
            Node::ClassDecl { name, super_class, body } => Node::ClassDecl {
                name: name.duplicate(),
                super_class: duplicate_opt(super_class),
                body: duplicate_nodes(body),
            },
            Node::EnumDecl { name, members } => Node::EnumDecl {
                name: name.duplicate(),
                members: duplicate_nodes(members),
            },
            Node::Catch { param, body } => Node::Catch {
                param: duplicate_opt(param),
                body: duplicate_nodes(body),
            },
            Node::ArrayPat(s) => Node::ArrayPat(duplicate_nodes(s)),
            Node::Hole => Node::Hole,
            Node::ObjectPat(s) => Node::ObjectPat(duplicate_nodes(s)),
            Node::KeyValuePatProp { key, value } => Node::KeyValuePatProp {
                key: Box::new(key.duplicate()),
                value: Box::new(value.duplicate()),
            },
            Node::AssignPatProp { key, value } => Node::AssignPatProp {
                key: key.duplicate(),
                value: duplicate_opt(value),
            },
            Node::RestPat(e) => Node::RestPat(Box::new(e.duplicate())),
            Node::TypeOnly(h) => Node::TypeOnly(*h),
            Node::Other { tag, children } => Node::Other {
                tag: *tag,
                children: duplicate_nodes(children),
            },
        }
    }
}

impl Clone for Node {
    fn clone(&self) -> (r: Node)
        ensures
            r@ == self@,
    {
        self.duplicate()
    }
}

impl Clone for MemberProp {
    fn clone(&self) -> (r: MemberProp)
        ensures
            r@ == self@,
    {
        self.duplicate()
    }
}

impl Clone for Ident {
    fn clone(&self) -> (r: Ident)
        ensures
            r@ == self@,
    {
        self.duplicate()
    }
}

impl Clone for Lit {
    fn clone(&self) -> (r: Lit)
        ensures
            r@ == self@,
    {
        self.duplicate()
    }
}

impl Clone for AttrName {
    fn clone(&self) -> (r: AttrName)
        ensures
            r@ == self@,
    {
        self.duplicate()
    }
}

} // verus!
