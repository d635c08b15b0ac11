//! The statement interpreter: routes untyped statements into typed nodes of
//! a requested sort.

use vstd::prelude::*;
use crate::statement::{Statement, StatementError, StatementModel};
use crate::text::{same_text, views};
use crate::typed::{
    AdvancedRepeat, Cond, Diff, Fold, FoldFunc, FunctionTf, GeometryMarker, Isect, Let, NamedGeometry,
    NamedOpaqueShape, NamedTransparentShape, Node, OpaqueMarker, OpaqueShape, Onionize, RawGeometry,
    RawOpaque, RawTransparent, Scale, SmoothUnion, Tf, Transform, TransparentMarker, TransparentShape,
    TypeMarker, Union, sort_of, tf_arity_ok, well_sorted,
};

verus! {

/// The names of the transforms that remap space through a library function.
pub open spec fn is_simple_tf(name: Seq<char>) -> bool {
    name == "at"@ || name == "vat"@ || name == "rotate"@ || name == "repeat"@ || name == "at_t"@
        || name == "start_at_t"@ || name == "end_at_t"@ || name == "repeat_t"@ || name == "map_t"@
}

/// What a statement name means to the interpreter.
#[derive(Debug, Clone, Copy, PartialEq, Eq, Structural)]
pub enum Keyword {
    Raw,
    Union,
    Intersection,
    Difference,
    SmoothUnion,
    Opaque,
    Transparent,
    AdvancedRepeat,
    Let,
    Onionize,
    Scale,
    Cond,
    /// one of the spatial remaps through a library function
    Simple,
    /// a primitive of the shader library
    Other,
}

/// The meaning of a statement name.
pub open spec fn keyword(name: Seq<char>) -> Keyword {
    if name == "raw"@ {
        Keyword::Raw
    } else if name == "union"@ {
        Keyword::Union
    } else if name == "intersection"@ {
        Keyword::Intersection
    } else if name == "difference"@ {
        Keyword::Difference
    } else if name == "smooth_union"@ {
        Keyword::SmoothUnion
    } else if name == "advanced_repeat"@ {
        Keyword::AdvancedRepeat
    } else if name == "opaque"@ {
        Keyword::Opaque
    } else if name == "transparent"@ {
        Keyword::Transparent
    } else if name == "onionize"@ {
        Keyword::Onionize
    } else if name == "scale"@ {
        Keyword::Scale
    } else if name == "cond"@ {
        Keyword::Cond
    } else if name == "let"@ {
        Keyword::Let
    } else if is_simple_tf(name) {
        Keyword::Simple
    } else {
        Keyword::Other
    }
}

/// The meaning of a statement name.
pub fn keyword_of(name: &str) -> (r: Keyword)
    ensures
        r == keyword(name@),
{
    if same_text(name, "raw") {
        Keyword::Raw
    } else if same_text(name, "union") {
        Keyword::Union
    } else if same_text(name, "intersection") {
        Keyword::Intersection
    } else if same_text(name, "difference") {
        Keyword::Difference
    } else if same_text(name, "smooth_union") {
        Keyword::SmoothUnion
    } else if same_text(name, "advanced_repeat") {
        Keyword::AdvancedRepeat
    } else if same_text(name, "opaque") {
        Keyword::Opaque
    } else if same_text(name, "transparent") {
        Keyword::Transparent
    } else if same_text(name, "onionize") {
        Keyword::Onionize
    } else if same_text(name, "scale") {
        Keyword::Scale
    } else if same_text(name, "cond") {
        Keyword::Cond
    } else if same_text(name, "let") {
        Keyword::Let
    } else if same_text(name, "at") || same_text(name, "vat") || same_text(name, "rotate")
        || same_text(name, "repeat") || same_text(name, "at_t") || same_text(name, "start_at_t")
        || same_text(name, "end_at_t") || same_text(name, "repeat_t") || same_text(name, "map_t") {
        Keyword::Simple
    } else {
        Keyword::Other
    }
}

/// The statement is legal under sort `m`: known names have their arities,
/// shapes stand only under their own sort, and primitives have no body.
pub open spec fn accepted(st: StatementModel, m: TypeMarker) -> bool
    decreases st,
{
    let n = st.args.len();
    let body_ok = forall|i: int| 0 <= i < st.body.len() ==> accepted(#[trigger] st.body[i], m);
    let geom_ok = forall|i: int|
        0 <= i < st.body.len() ==> accepted(
            #[trigger] st.body[i],
            TypeMarker::Geometry(GeometryMarker),
        );
    match keyword(st.name) {
        Keyword::Raw => n == 1,
        Keyword::Union | Keyword::Intersection | Keyword::Difference => n == 0 && body_ok,
        Keyword::SmoothUnion | Keyword::Onionize | Keyword::Scale | Keyword::Cond => n == 1 && body_ok,
        Keyword::AdvancedRepeat | Keyword::Let => n == 3 && body_ok,
        Keyword::Opaque => geom_ok && m == TypeMarker::Opaque(OpaqueMarker),
        Keyword::Transparent => geom_ok && m == TypeMarker::Transparent(TransparentMarker),
        Keyword::Simple => body_ok,
        Keyword::Other => st.body.len() == 0,
    }
}

/// `x` is a fold of sort `m` whose items are the body of `st`, each
/// interpreted under `m`.
pub open spec fn folds_body(st: StatementModel, m: TypeMarker, x: Fold) -> bool
    decreases st, 0int,
{
    &&& x.marker == m
    &&& x.items@.len() == st.body.len()
    &&& forall|i: int|
        0 <= i < st.body.len() ==> interprets(st.body[i], m, #[trigger] x.items@[i])
}

/// `n` is a union of the body of `st` under `m`.
pub open spec fn unions_body(st: StatementModel, m: TypeMarker, n: Node) -> bool
    decreases st, 1int,
{
    match n {
        Node::Fold(x) => x.func is Union && folds_body(st, m, x),
        _ => false,
    }
}

/// `t` is a transform of sort `m` around the union of the body of `st`.
pub open spec fn wraps_body(st: StatementModel, m: TypeMarker, t: Transform) -> bool
    decreases st, 2int,
{
    t.marker == m && unions_body(st, m, *t.item)
}

/// `n` is what `st` becomes under sort `m`.
pub open spec fn interprets(st: StatementModel, m: TypeMarker, n: Node) -> bool
    decreases st, 3int,
{
    let k = st.name;
    let geometry = TypeMarker::Geometry(GeometryMarker);
    let opaque = TypeMarker::Opaque(OpaqueMarker);
    let transparent = TypeMarker::Transparent(TransparentMarker);
    match keyword(k) {
        Keyword::Raw => match n {
            Node::RawGeometry(r) => m == geometry && r.expr@ == st.args[0],
            Node::RawOpaque(r) => m == opaque && r.expr@ == st.args[0],
            Node::RawTransparent(r) => m == transparent && r.expr@ == st.args[0],
            _ => false,
        },
        Keyword::Union => n matches Node::Fold(x) && x.func is Union && folds_body(st, m, x),
        Keyword::Intersection => n matches Node::Fold(x) && x.func is Isect && folds_body(st, m, x),
        Keyword::Difference => n matches Node::Fold(x) && x.func is Diff && folds_body(st, m, x),
        Keyword::SmoothUnion => n matches Node::Fold(x) && folds_body(st, m, x) && (
        x.func matches FoldFunc::SmoothUnion(u) && views(u.args@) == st.args),
        Keyword::Opaque => n matches Node::Opaque(o) && views(o.color@) == st.args && unions_body(
            st,
            geometry,
            *o.geometry,
        ),
        Keyword::Transparent => n matches Node::Transparent(o) && views(o.color@) == st.args
            && unions_body(st, geometry, *o.geometry),
        Keyword::AdvancedRepeat => n matches Node::Transform(t) && wraps_body(st, m, t) && (
        t.tf matches Tf::AdvancedRepeat(x) && views(x.args@) == st.args),
        Keyword::Let => n matches Node::Transform(t) && wraps_body(st, m, t) && (
        t.tf matches Tf::Let(x) && views(x.args@) == st.args),
        Keyword::Onionize => n matches Node::Transform(t) && wraps_body(st, m, t) && (
        t.tf matches Tf::Onionize(x) && views(x.args@) == st.args),
        Keyword::Scale => n matches Node::Transform(t) && wraps_body(st, m, t) && (
        t.tf matches Tf::Scale(x) && views(x.args@) == st.args),
        Keyword::Cond => n matches Node::Transform(t) && wraps_body(st, m, t) && (
        t.tf matches Tf::Cond(x) && views(x.args@) == st.args),
        Keyword::Simple => n matches Node::Transform(t) && wraps_body(st, m, t) && (
        t.tf matches Tf::Function(x) && x.func@ == k && views(x.args@) == st.args),
        Keyword::Other => match n {
            Node::NamedGeometry(x) => m == geometry && x.name@ == k && views(x.args@) == st.args,
            Node::NamedOpaque(x) => m == opaque && x.name@ == k && views(x.args@) == st.args,
            Node::NamedTransparent(x) => m == transparent && x.name@ == k && views(x.args@)
                == st.args,
            _ => false,
        },
    }
}

proof fn lemma_keyword_opaque()
    ensures
        keyword("opaque"@) == Keyword::Opaque,
{
    reveal_strlit("raw");
    reveal_strlit("union");
    reveal_strlit("intersection");
    reveal_strlit("difference");
    reveal_strlit("smooth_union");
    reveal_strlit("advanced_repeat");
    reveal_strlit("opaque");
    reveal_strlit("transparent");
    assert("raw"@.len() == 3);
    assert("union"@.len() == 5);
    assert("intersection"@.len() == 12);
    assert("difference"@.len() == 10);
    assert("smooth_union"@.len() == 12);
    assert("advanced_repeat"@.len() == 15);
    assert("opaque"@.len() == 6);
    assert("transparent"@.len() == 11);
}

/// `opaque(...)` is refused under the geometry sort, whatever its arguments
/// and body.
pub proof fn lemma_opaque_refused_as_geometry(st: StatementModel)
    requires
        st.name == "opaque"@,
    ensures
        !accepted(st, TypeMarker::Geometry(GeometryMarker)),
{
    lemma_keyword_opaque();
}

/// `opaque(...)` is accepted under the opaque sort whenever its body is
/// legal geometry.
pub proof fn lemma_opaque_accepted(st: StatementModel)
    requires
        st.name == "opaque"@,
        forall|i: int| 0 <= i < st.body.len() ==> accepted(#[trigger] st.body[i], TypeMarker::Geometry(GeometryMarker)),
    ensures
        accepted(st, TypeMarker::Opaque(OpaqueMarker)),
{
    lemma_keyword_opaque();
}

/// A copy of a vector of strings.
pub fn copy_strings(v: &Vec<String>) -> (r: Vec<String>)
    ensures
        r@ == v@,
{
    let mut r: Vec<String> = Vec::new();
    let mut i: usize = 0;
    while i < v.len()
        invariant
            0 <= i <= v@.len(),
            r@ == v@.take(i as int),
        decreases v@.len() - i,
    {
        r.push(v[i].clone());
        assert(v@.take(i + 1) == v@.take(i as int).push(v@[i as int]));
        i = i + 1;
    }
    assert(v@.take(v@.len() as int) == v@);
    r
}

fn error_text(what: &str, name: &String) -> (r: StatementError) {
    let mut s = what.to_owned();
    s.append(name.as_str());
    StatementError(s)
}

/// A visitor fixes the sort that statements are interpreted at.
pub trait StatementVisitor {
    spec fn marker(&self) -> TypeMarker;

    fn get_type_marker(&self) -> (r: TypeMarker)
        ensures
            r == self.marker(),
    ;
}

/// Interprets statements as bare geometry.
pub struct GeometryVisitor;

/// Interprets statements as opaque shapes.
pub struct OpaqueVisitor;

/// Interprets statements as transparent shapes.
pub struct TransparentVisitor;

impl StatementVisitor for GeometryVisitor {
    open spec fn marker(&self) -> TypeMarker {
        TypeMarker::Geometry(GeometryMarker)
    }

    fn get_type_marker(&self) -> (r: TypeMarker) {
        TypeMarker::Geometry(GeometryMarker)
    }
}

impl StatementVisitor for OpaqueVisitor {
    open spec fn marker(&self) -> TypeMarker {
        TypeMarker::Opaque(OpaqueMarker)
    }

    fn get_type_marker(&self) -> (r: TypeMarker) {
        TypeMarker::Opaque(OpaqueMarker)
    }
}

impl StatementVisitor for TransparentVisitor {
    open spec fn marker(&self) -> TypeMarker {
        TypeMarker::Transparent(TransparentMarker)
    }

    fn get_type_marker(&self) -> (r: TypeMarker) {
        TypeMarker::Transparent(TransparentMarker)
    }
}

impl Statement {
    /// Interprets this statement at the sort of `vis`.
    pub fn apply<V: StatementVisitor>(&self, vis: &V) -> (r: Result<Node, StatementError>)
        ensures
            match r {
                Ok(n) => accepted(self@, vis.marker()) && interprets(self@, vis.marker(), n)
                    && well_sorted(n) && sort_of(n) == vis.marker(),
                Err(_) => !accepted(self@, vis.marker()),
            },
    {
        let m = vis.get_type_marker();
        self.apply_sort(m)
    }

    /// Interprets this statement at sort `m`.
    pub fn apply_sort(&self, m: TypeMarker) -> (r: Result<Node, StatementError>)
        ensures
            match r {
                Ok(n) => accepted(self@, m) && interprets(self@, m, n) && well_sorted(n) && sort_of(
                    n,
                ) == m,
                Err(_) => !accepted(self@, m),
            },
        decreases self, 1int,
    {
        let kw = keyword_of(self.name.as_str());
        let n = self.args.len();
        let ghost st = self@;
        let geometry = TypeMarker::Geometry(GeometryMarker);
        match kw {
            Keyword::Raw => {
                if n != 1 {
                    return Err(error_text("wrong number of arguments: ", &self.name));
                }
                let expr = self.args[0].clone();
                assert(expr@ == st.args[0]);
                Ok(
                    match m {
                        TypeMarker::Geometry(_) => Node::RawGeometry(RawGeometry { expr }),
                        TypeMarker::Opaque(_) => Node::RawOpaque(RawOpaque { expr }),
                        TypeMarker::Transparent(_) => Node::RawTransparent(RawTransparent { expr }),
                    },
                )
            },
            Keyword::Union | Keyword::Intersection | Keyword::Difference | Keyword::SmoothUnion => {
                let want: usize = if kw == Keyword::SmoothUnion { 1 } else { 0 };
                if n != want {
                    return Err(error_text("wrong number of arguments: ", &self.name));
                }
                let items = match self.visit_body(m) {
                    Ok(items) => items,
                    Err(e) => return Err(e),
                };
                let func = match kw {
                    Keyword::Union => FoldFunc::Union(Union),
                    Keyword::Intersection => FoldFunc::Isect(Isect),
                    Keyword::Difference => FoldFunc::Diff(Diff),
                    _ => FoldFunc::SmoothUnion(SmoothUnion { args: copy_strings(&self.args) }),
                };
                let x = Fold { func, items, marker: m };
                assert(folds_body(st, m, x));
                let r = Node::Fold(x);
                assert(accepted(st, m));
                assert(interprets(st, m, r));
                assert(well_sorted(r));
                Ok(r)
            },
            Keyword::Opaque | Keyword::Transparent => {
                let items = match self.visit_body(geometry) {
                    Ok(items) => items,
                    Err(e) => return Err(e),
                };
                let x = Fold { func: FoldFunc::Union(Union), items, marker: geometry };
                assert(folds_body(st, geometry, x));
                let g = Box::new(Node::Fold(x));
                assert(unions_body(st, geometry, *g));
                let color = copy_strings(&self.args);
                assert(forall|i: int| 0 <= i < st.body.len() ==> accepted(#[trigger] st.body[i], geometry));
                assert(well_sorted(*g));
                if kw == Keyword::Opaque {
                    match m {
                        TypeMarker::Opaque(_) => Ok(Node::Opaque(OpaqueShape { color, geometry: g })),
                        _ => Err(error_text("cannot construct opaque shape: ", &self.name)),
                    }
                } else {
                    match m {
                        TypeMarker::Transparent(_) => Ok(
                            Node::Transparent(TransparentShape { color, geometry: g }),
                        ),
                        _ => Err(error_text("cannot construct transparent shape: ", &self.name)),
                    }
                }
            },
            Keyword::Other => {
                if self.body.len() != 0 {
                    return Err(error_text("a primitive takes no body: ", &self.name));
                }
                let name = self.name.clone();
                let args = copy_strings(&self.args);
                Ok(
                    match m {
                        TypeMarker::Geometry(_) => Node::NamedGeometry(NamedGeometry { name, args }),
                        TypeMarker::Opaque(_) => Node::NamedOpaque(NamedOpaqueShape { name, args }),
                        TypeMarker::Transparent(_) => Node::NamedTransparent(
                            NamedTransparentShape { name, args },
                        ),
                    },
                )
            },
            _ => {
                let want: usize = match kw {
                    Keyword::AdvancedRepeat | Keyword::Let => 3,
                    Keyword::Simple => n,
                    _ => 1,
                };
                if n != want {
                    return Err(error_text("wrong number of arguments: ", &self.name));
                }
                let items = match self.visit_body(m) {
                    Ok(items) => items,
                    Err(e) => return Err(e),
                };
                let x = Fold { func: FoldFunc::Union(Union), items, marker: m };
                assert(folds_body(st, m, x));
                let item = Box::new(Node::Fold(x));
                assert(unions_body(st, m, *item));
                let args = copy_strings(&self.args);
                let tf = match kw {
                    Keyword::AdvancedRepeat => Tf::AdvancedRepeat(AdvancedRepeat { args }),
                    Keyword::Let => Tf::Let(Let { args }),
                    Keyword::Onionize => Tf::Onionize(Onionize { args }),
                    Keyword::Scale => Tf::Scale(Scale { args }),
                    Keyword::Cond => Tf::Cond(Cond { args }),
                    _ => Tf::Function(FunctionTf { func: self.name.clone(), args }),
                };
                assert(args@.len() == n);
                assert(tf_arity_ok(tf));
                assert(well_sorted(*item));
                let t = Transform { tf, item, marker: m };
                assert(wraps_body(st, m, t));
                let r = Node::Transform(t);
                assert(accepted(st, m));
                assert(interprets(st, m, r));
                assert(well_sorted(r));
                Ok(r)
            },
        }
    }

    /// Interprets each statement of the body at sort `m`.
    pub fn visit_body(&self, m: TypeMarker) -> (r: Result<Vec<Node>, StatementError>)
        ensures
            match r {
                Ok(items) => {
                    &&& items@.len() == self@.body.len()
                    &&& forall|i: int| 0 <= i < items@.len() ==> accepted(#[trigger] self@.body[i], m)
                    &&& forall|i: int|
                        0 <= i < items@.len() ==> accepted(self@.body[i], m) && interprets(
                            self@.body[i],
                            m,
                            #[trigger] items@[i],
                        ) && well_sorted(items@[i]) && sort_of(items@[i]) == m
                },
                Err(_) => exists|i: int| 0 <= i < self@.body.len() && !accepted(#[trigger] self@.body[i], m),
            },
        decreases self, 0int,
    {
        let mut items: Vec<Node> = Vec::new();
        let mut i: usize = 0;
        while i < self.body.len()
            invariant
                0 <= i <= self.body@.len(),
                items@.len() == i,
                self@.body.len() == self.body@.len(),
                forall|j: int| 0 <= j < i ==> accepted(#[trigger] self@.body[j], m),
                forall|j: int|
                    0 <= j < i ==> accepted(self@.body[j], m) && interprets(
                        self@.body[j],
                        m,
                        #[trigger] items@[j],
                    ) && well_sorted(items@[j]) && sort_of(items@[j]) == m,
            decreases self.body@.len() - i,
        {
            assert(decreases_to!(self => self.body@[i as int]));
            assert(self@.body[i as int] == self.body@[i as int]@);
            match self.body[i].apply_sort(m) {
                Ok(n) => items.push(n),
                Err(e) => return Err(e),
            }
            i = i + 1;
        }
        Ok(items)
    }
}

} // verus!
