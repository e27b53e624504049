//! The closed vocabulary of names through which rewritten code talks to the
//! reactivity runtime, and the fixed sets of names that the analyses treat
//! specially.
use vstd::prelude::*;
use crate::text::{eq_ascii_nocase, same_text};

verus! {

/// A name of the runtime's vocabulary. A callee is matched against these
/// names without regard to ASCII case.
#[derive(Debug, Clone, Copy, PartialEq, Eq, Structural)]
pub enum Marker {
    /// `always`: wraps a computation so that it is tracked.
    Always,
    /// `_$`: the tracked wrap that is put around an interpolation.
    Reactive,
    /// `$`: passes a value through that needs no tracking.
    Stable,
    /// `$$`: passes a value through that is tracked already.
    PreTracked,
    /// `prop`: reads a property of a tracked value.
    Prop,
    /// `_$method`: calls a collection method on a tracked value.
    Method,
    /// `use`: declares what a closure captures.
    Use,
    /// `run`: runs a closure once.
    Run,
    RenderFrontend,
    RenderBackend,
    RenderStatic,
    RenderDynamic,
    RenderHybrid,
    RenderPreview,
}

/// The marker under which a wrapped expression is emitted.
#[derive(Debug, Clone, Copy, PartialEq, Eq, Structural)]
pub enum Wrap {
    /// At a call site: `always(() => e)`.
    Always,
    /// Inside an element tree: `_$(() => e)`.
    Reactive,
}

impl Marker {
    /// The name as it is written in emitted code.
    pub open spec fn name(self) -> Seq<char> {
        match self {
            Marker::Always => "always"@,
            Marker::Reactive => "_$"@,
            Marker::Stable => "$"@,
            Marker::PreTracked => "$$"@,
            Marker::Prop => "prop"@,
            Marker::Method => "_$method"@,
            Marker::Use => "use"@,
            Marker::Run => "run"@,
            Marker::RenderFrontend => "renderFrontend"@,
            Marker::RenderBackend => "renderBackend"@,
            Marker::RenderStatic => "renderStatic"@,
            Marker::RenderDynamic => "renderDynamic"@,
            Marker::RenderHybrid => "renderHybrid"@,
            Marker::RenderPreview => "renderPreview"@,
        }
    }

    /// Whether a call to this marker is already tracked, so that it is never
    /// wrapped again.
    pub open spec fn is_no_wrap(self) -> bool {
        self == Marker::Reactive || self == Marker::Stable || self == Marker::PreTracked
            || self == Marker::Prop || self == Marker::Method
    }

    /// Whether this marker is one of the render-mode entry points.
    pub open spec fn is_render(self) -> bool {
        self == Marker::RenderFrontend || self == Marker::RenderBackend
            || self == Marker::RenderStatic || self == Marker::RenderDynamic
            || self == Marker::RenderHybrid || self == Marker::RenderPreview
    }

    /// The marker's name, for emitted code.
    pub fn text(self) -> (r: &'static str)
        ensures
            r@ == self.name(),
    {
        match self {
            Marker::Always => "always",
            Marker::Reactive => "_$",
            Marker::Stable => "$",
            Marker::PreTracked => "$$",
            Marker::Prop => "prop",
            Marker::Method => "_$method",
            Marker::Use => "use",
            Marker::Run => "run",
            Marker::RenderFrontend => "renderFrontend",
            Marker::RenderBackend => "renderBackend",
            Marker::RenderStatic => "renderStatic",
            Marker::RenderDynamic => "renderDynamic",
            Marker::RenderHybrid => "renderHybrid",
            Marker::RenderPreview => "renderPreview",
        }
    }

    /// Exec form of [`Marker::is_no_wrap`].
    pub fn no_wrap(self) -> (r: bool)
        ensures
            r == self.is_no_wrap(),
    {
        match self {
            Marker::Reactive | Marker::Stable | Marker::PreTracked | Marker::Prop
            | Marker::Method => true,
            _ => false,
        }
    }

    /// Exec form of [`Marker::is_render`].
    pub fn render(self) -> (r: bool)
        ensures
            r == self.is_render(),
    {
        match self {
            Marker::RenderFrontend | Marker::RenderBackend | Marker::RenderStatic
            | Marker::RenderDynamic | Marker::RenderHybrid | Marker::RenderPreview => true,
            _ => false,
        }
    }
}

impl Wrap {
    /// The marker that this wrap emits.
    pub open spec fn marker(self) -> Marker {
        match self {
            Wrap::Always => Marker::Always,
            Wrap::Reactive => Marker::Reactive,
        }
    }

    /// Exec form of [`Wrap::marker`].
    pub fn as_marker(self) -> (r: Marker)
        ensures
            r == self.marker(),
    {
        match self {
            Wrap::Always => Marker::Always,
            Wrap::Reactive => Marker::Reactive,
        }
    }
}

/// The marker that `name` stands for, if any.
pub open spec fn marker_of(name: Seq<char>) -> Option<Marker> {
    if eq_ascii_nocase(name, Marker::Always.name()) {
        Some(Marker::Always)
    } else if eq_ascii_nocase(name, Marker::Reactive.name()) {
        Some(Marker::Reactive)
    } else if eq_ascii_nocase(name, Marker::Stable.name()) {
        Some(Marker::Stable)
    } else if eq_ascii_nocase(name, Marker::PreTracked.name()) {
        Some(Marker::PreTracked)
    } else if eq_ascii_nocase(name, Marker::Prop.name()) {
        Some(Marker::Prop)
    } else if eq_ascii_nocase(name, Marker::Method.name()) {
        Some(Marker::Method)
    } else if eq_ascii_nocase(name, Marker::Use.name()) {
        Some(Marker::Use)
    } else if eq_ascii_nocase(name, Marker::Run.name()) {
        Some(Marker::Run)
    } else if eq_ascii_nocase(name, Marker::RenderFrontend.name()) {
        Some(Marker::RenderFrontend)
    } else if eq_ascii_nocase(name, Marker::RenderBackend.name()) {
        Some(Marker::RenderBackend)
    } else if eq_ascii_nocase(name, Marker::RenderStatic.name()) {
        Some(Marker::RenderStatic)
    } else if eq_ascii_nocase(name, Marker::RenderDynamic.name()) {
        Some(Marker::RenderDynamic)
    } else if eq_ascii_nocase(name, Marker::RenderHybrid.name()) {
        Some(Marker::RenderHybrid)
    } else if eq_ascii_nocase(name, Marker::RenderPreview.name()) {
        Some(Marker::RenderPreview)
    } else {
        None
    }
}

/// Looks `name` up in the vocabulary.
pub fn lookup_marker(name: &str) -> (r: Option<Marker>)
    ensures
        r == marker_of(name@),
{
    if name.eq_ignore_ascii_case("always") {
        Some(Marker::Always)
    } else if name.eq_ignore_ascii_case("_$") {
        Some(Marker::Reactive)
    } else if name.eq_ignore_ascii_case("$") {
        Some(Marker::Stable)
    } else if name.eq_ignore_ascii_case("$$") {
        Some(Marker::PreTracked)
    } else if name.eq_ignore_ascii_case("prop") {
        Some(Marker::Prop)
    } else if name.eq_ignore_ascii_case("_$method") {
        Some(Marker::Method)
    } else if name.eq_ignore_ascii_case("use") {
        Some(Marker::Use)
    } else if name.eq_ignore_ascii_case("run") {
        Some(Marker::Run)
    } else if name.eq_ignore_ascii_case("renderFrontend") {
        Some(Marker::RenderFrontend)
    } else if name.eq_ignore_ascii_case("renderBackend") {
        Some(Marker::RenderBackend)
    } else if name.eq_ignore_ascii_case("renderStatic") {
        Some(Marker::RenderStatic)
    } else if name.eq_ignore_ascii_case("renderDynamic") {
        Some(Marker::RenderDynamic)
    } else if name.eq_ignore_ascii_case("renderHybrid") {
        Some(Marker::RenderHybrid)
    } else if name.eq_ignore_ascii_case("renderPreview") {
        Some(Marker::RenderPreview)
    } else {
        None
    }
}

/// Every marker is found under its own name: no two names of the vocabulary
/// are equal up to case.
pub proof fn lemma_marker_of_name(m: Marker)
    ensures
        marker_of(m.name()) == Some(m),
{
    reveal_strlit("always");
    reveal_strlit("_$");
    reveal_strlit("$");
    reveal_strlit("$$");
    reveal_strlit("prop");
    reveal_strlit("_$method");
    reveal_strlit("use");
    reveal_strlit("run");
    reveal_strlit("renderFrontend");
    reveal_strlit("renderBackend");
    reveal_strlit("renderStatic");
    reveal_strlit("renderDynamic");
    reveal_strlit("renderHybrid");
    reveal_strlit("renderPreview");
    let n = m.name();
    assert(eq_ascii_nocase(n, n));
    match m {
        Marker::PreTracked => {
            assert(fold_first(n) != fold_first(Marker::Reactive.name()));
        },
        Marker::Run => {
            assert(fold_first(n) != fold_first(Marker::Use.name()));
        },
        Marker::RenderDynamic => {
            assert(fold_seventh(n) != fold_seventh(Marker::RenderBackend.name()));
        },
        Marker::RenderHybrid => {
            assert(fold_seventh(n) != fold_seventh(Marker::RenderStatic.name()));
        },
        Marker::RenderPreview => {
            assert(fold_seventh(n) != fold_seventh(Marker::RenderBackend.name()));
            assert(fold_seventh(n) != fold_seventh(Marker::RenderDynamic.name()));
        },
        _ => {},
    }
}

/// The case-folded first character of a name.
spec fn fold_first(s: Seq<char>) -> u32 {
    crate::text::fold_ascii_case(s[0])
}

/// The case-folded character after the prefix `render`.
spec fn fold_seventh(s: Seq<char>) -> u32 {
    crate::text::fold_ascii_case(s[6])
}

/// Whether a property of that name is a collection transform, a call of
/// which is routed through the tracked-method helper.
pub open spec fn is_collection_method(name: Seq<char>) -> bool {
    name == "map"@ || name == "filter"@ || name == "reduce"@
}

/// Exec form of [`is_collection_method`].
pub fn collection_method(name: &str) -> (r: bool)
    ensures
        r == is_collection_method(name@),
{
    same_text(name, "map") || same_text(name, "filter") || same_text(name, "reduce")
}

/// Whether a property of that name reads the current value of a tracked
/// value by hand.
pub open spec fn is_value_accessor(name: Seq<char>) -> bool {
    name == "$"@ || name == "$$"@
}

/// Exec form of [`is_value_accessor`].
pub fn value_accessor(name: &str) -> (r: bool)
    ensures
        r == is_value_accessor(name@),
{
    same_text(name, "$") || same_text(name, "$$")
}

/// Whether `name` is never a variable of the program: an alias of the global
/// object, a literal spelled as an identifier, or the capture-declaration
/// marker itself.
pub open spec fn is_reserved_name(name: Seq<char>) -> bool {
    ||| name == "globalThis"@
    ||| name == "self"@
    ||| name == "window"@
    ||| name == "undefined"@
    ||| name == "NaN"@
    ||| name == "Infinity"@
    ||| name == "use"@
}

/// Exec form of [`is_reserved_name`].
pub fn reserved_name(name: &str) -> (r: bool)
    ensures
        r == is_reserved_name(name@),
{
    same_text(name, "globalThis") || same_text(name, "self") || same_text(name, "window")
        || same_text(name, "undefined") || same_text(name, "NaN") || same_text(
        name,
        "Infinity",
    ) || same_text(name, "use")
}

/// The local part of the attribute namespace that marks a value as crossing
/// to the frontend; it is matched without regard to ASCII case.
pub open spec fn is_frontend_qualifier(name: Seq<char>) -> bool {
    eq_ascii_nocase(name, "frontend"@)
}

/// Exec form of [`is_frontend_qualifier`].
pub fn frontend_qualifier(name: &str) -> (r: bool)
    ensures
        r == is_frontend_qualifier(name@),
{
    name.eq_ignore_ascii_case("frontend")
}

} // verus!
