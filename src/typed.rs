//! The typed intermediate representation: a closed set of node kinds,
//! each carrying its sort, and the code each one generates.

use vstd::prelude::*;
use crate::codegen::{
    bound, call_of, def_name, defined, expr_text, expr_texts, lemma_def_name_injective, Expr, Function,
    FunctionCall, FunctionModel,
};
use crate::text::{substitute, substitute_arg, views, same_text};

verus! {

/// The sort of bare distances.
#[derive(Debug, Clone, Copy, PartialEq, Eq, Structural, Default)]
pub struct GeometryMarker;

/// The sort of opaque colored shapes.
#[derive(Debug, Clone, Copy, PartialEq, Eq, Structural, Default)]
pub struct OpaqueMarker;

/// The sort of transparent colored shapes.
#[derive(Debug, Clone, Copy, PartialEq, Eq, Structural, Default)]
pub struct TransparentMarker;

/// The sort of a node: bare distance, opaque colored shape, or transparent
/// colored shape.
#[derive(Debug, Clone, Copy, PartialEq, Eq, Structural)]
pub enum TypeMarker {
    Geometry(GeometryMarker),
    Opaque(OpaqueMarker),
    Transparent(TransparentMarker),
}

/// The type that code of a sort has.
pub open spec fn sort_type(m: TypeMarker) -> Seq<char> {
    match m {
        TypeMarker::Geometry(_) => "float"@,
        TypeMarker::Opaque(_) => "vec4"@,
        TypeMarker::Transparent(_) => "MapTransparent"@,
    }
}

impl TypeMarker {
    /// The type that code of this sort has.
    pub fn typ(&self) -> (r: &'static str)
        ensures
            r@ == sort_type(*self),
    {
        match self {
            TypeMarker::Geometry(_) => "float",
            TypeMarker::Opaque(_) => "vec4",
            TypeMarker::Transparent(_) => "MapTransparent",
        }
    }
}

/// The context threaded through generation: the name of the current
/// argument variable.
#[derive(Debug)]
pub struct Context {
    pub arg: String,
}

impl Context {
    /// The context at the top of a function: the argument variable `arg`.
    pub fn new() -> (r: Context)
        ensures
            r.arg@ == "arg"@,
    {
        Context { arg: "arg".to_owned() }
    }

    /// A context whose argument variable is `arg`.
    pub fn with_arg(arg: String) -> (r: Context)
        ensures
            r.arg == arg,
    {
        Context { arg }
    }
}

/// The union of shapes: the nearer distance.
#[derive(Debug, Clone, Copy, PartialEq, Eq, Structural)]
pub struct Union;

/// The intersection of shapes.
#[derive(Debug, Clone, Copy, PartialEq, Eq, Structural)]
pub struct Isect;

/// The first shape without the others.
#[derive(Debug, Clone, Copy, PartialEq, Eq, Structural)]
pub struct Diff;

/// A union with blended seams; its argument is the blend radius.
#[derive(Debug)]
pub struct SmoothUnion {
    pub args: Vec<String>,
}

/// An associative combination of distances.
#[derive(Debug)]
pub enum FoldFunc {
    Union(Union),
    Isect(Isect),
    Diff(Diff),
    SmoothUnion(SmoothUnion),
}

/// The function that combines two values of sort `m`.
pub open spec fn fold_name(func: FoldFunc, m: TypeMarker) -> Seq<char> {
    match func {
        FoldFunc::Union(_) => match m {
            TypeMarker::Geometry(_) => "sd_union"@,
            TypeMarker::Opaque(_) => "csd_union"@,
            TypeMarker::Transparent(_) => "tsd_union"@,
        },
        FoldFunc::Isect(_) => match m {
            TypeMarker::Geometry(_) => "sd_isect"@,
            TypeMarker::Opaque(_) => "csd_isect"@,
            TypeMarker::Transparent(_) => "tsd_isect"@,
        },
        FoldFunc::Diff(_) => match m {
            TypeMarker::Geometry(_) => "sd_diff"@,
            TypeMarker::Opaque(_) => "csd_diff"@,
            TypeMarker::Transparent(_) => "tsd_diff"@,
        },
        FoldFunc::SmoothUnion(_) => match m {
            TypeMarker::Geometry(_) => "sd_smooth_union"@,
            TypeMarker::Opaque(_) => "csd_smooth_union"@,
            TypeMarker::Transparent(_) => "tsd_smooth_union"@,
        },
    }
}

/// The identity of a combination at sort `m`: what an empty fold yields.
pub open spec fn fold_id(func: FoldFunc, m: TypeMarker) -> Seq<char> {
    match func {
        FoldFunc::Isect(_) => match m {
            TypeMarker::Geometry(_) => "0.0"@,
            TypeMarker::Opaque(_) => "vec4(0,0,0, 0.0)"@,
            TypeMarker::Transparent(_) => "MapTransparent(vec4(0), 0.0)"@,
        },
        _ => union_id(m),
    }
}

/// The identity of union at sort `m`: infinite distance.
pub open spec fn union_id(m: TypeMarker) -> Seq<char> {
    match m {
        TypeMarker::Geometry(_) => "1.0/0.0"@,
        TypeMarker::Opaque(_) => "vec4(0,0,0, 1.0/0.0)"@,
        TypeMarker::Transparent(_) => "MapTransparent(vec4(0), 1.0/0.0)"@,
    }
}

impl FoldFunc {
    /// The function that combines two values of sort `typ`.
    pub fn name(&self, typ: TypeMarker) -> (r: &'static str)
        ensures
            r@ == fold_name(*self, typ),
    {
        match self {
            FoldFunc::Union(_) => match typ {
                TypeMarker::Geometry(_) => "sd_union",
                TypeMarker::Opaque(_) => "csd_union",
                TypeMarker::Transparent(_) => "tsd_union",
            },
            FoldFunc::Isect(_) => match typ {
                TypeMarker::Geometry(_) => "sd_isect",
                TypeMarker::Opaque(_) => "csd_isect",
                TypeMarker::Transparent(_) => "tsd_isect",
            },
            FoldFunc::Diff(_) => match typ {
                TypeMarker::Geometry(_) => "sd_diff",
                TypeMarker::Opaque(_) => "csd_diff",
                TypeMarker::Transparent(_) => "tsd_diff",
            },
            FoldFunc::SmoothUnion(_) => match typ {
                TypeMarker::Geometry(_) => "sd_smooth_union",
                TypeMarker::Opaque(_) => "csd_smooth_union",
                TypeMarker::Transparent(_) => "tsd_smooth_union",
            },
        }
    }

    /// The identity of this combination at sort `typ`.
    pub fn id(&self, typ: TypeMarker) -> (r: &'static str)
        ensures
            r@ == fold_id(*self, typ),
    {
        match self {
            FoldFunc::Isect(_) => match typ {
                TypeMarker::Geometry(_) => "0.0",
                TypeMarker::Opaque(_) => "vec4(0,0,0, 0.0)",
                TypeMarker::Transparent(_) => "MapTransparent(vec4(0), 0.0)",
            },
            _ => union_identity(typ),
        }
    }
}

fn union_identity(typ: TypeMarker) -> (r: &'static str)
    ensures
        r@ == union_id(typ),
{
    match typ {
        TypeMarker::Geometry(_) => "1.0/0.0",
        TypeMarker::Opaque(_) => "vec4(0,0,0, 1.0/0.0)",
        TypeMarker::Transparent(_) => "MapTransparent(vec4(0), 1.0/0.0)",
    }
}

/// A reference to a library function producing a distance.
#[derive(Debug)]
pub struct NamedGeometry {
    pub name: String,
    pub args: Vec<String>,
}

/// A literal distance expression template.
#[derive(Debug)]
pub struct RawGeometry {
    pub expr: String,
}

/// A reference to a library function producing an opaque shape.
#[derive(Debug)]
pub struct NamedOpaqueShape {
    pub name: String,
    pub args: Vec<String>,
}

/// A literal opaque-shape expression template.
#[derive(Debug)]
pub struct RawOpaque {
    pub expr: String,
}

/// A reference to a library function producing a transparent shape.
#[derive(Debug)]
pub struct NamedTransparentShape {
    pub name: String,
    pub args: Vec<String>,
}

/// A literal transparent-shape expression template.
#[derive(Debug)]
pub struct RawTransparent {
    pub expr: String,
}

/// A combination of same-sort children.
#[derive(Debug)]
pub struct Fold {
    pub func: FoldFunc,
    pub items: Vec<Node>,
    pub marker: TypeMarker,
}

/// A structural wrapper around one same-sort child.
#[derive(Debug)]
pub struct Transform {
    pub tf: Tf,
    pub item: Box<Node>,
    pub marker: TypeMarker,
}

/// A geometry with an opaque color.
#[derive(Debug)]
pub struct OpaqueShape {
    pub color: Vec<String>,
    pub geometry: Box<Node>,
}

/// A geometry with a transparent color.
#[derive(Debug)]
pub struct TransparentShape {
    pub color: Vec<String>,
    pub geometry: Box<Node>,
}

/// A spatial remap through a library function (`at`, `rotate`, ...).
#[derive(Debug)]
pub struct FunctionTf {
    pub func: String,
    pub args: Vec<String>,
}

/// An onion shell of the given thickness.
#[derive(Debug)]
pub struct Onionize {
    pub args: Vec<String>,
}

/// A uniform scale by the given factor.
#[derive(Debug)]
pub struct Scale {
    pub args: Vec<String>,
}

/// A repetition along the three axes, with the neighbouring cells.
#[derive(Debug)]
pub struct AdvancedRepeat {
    pub args: Vec<String>,
}

/// The child where the condition holds, else nothing.
#[derive(Debug)]
pub struct Cond {
    pub args: Vec<String>,
}

/// A binding `type name = value;` visible to the child.
#[derive(Debug)]
pub struct Let {
    pub args: Vec<String>,
}

/// The transforms.
#[derive(Debug)]
pub enum Tf {
    Function(FunctionTf),
    Onionize(Onionize),
    Scale(Scale),
    AdvancedRepeat(AdvancedRepeat),
    Cond(Cond),
    Let(Let),
}

/// A node of the intermediate representation.
#[derive(Debug)]
pub enum Node {
    NamedGeometry(NamedGeometry),
    RawGeometry(RawGeometry),
    NamedOpaque(NamedOpaqueShape),
    RawOpaque(RawOpaque),
    NamedTransparent(NamedTransparentShape),
    RawTransparent(RawTransparent),
    Fold(Fold),
    Transform(Transform),
    Opaque(OpaqueShape),
    Transparent(TransparentShape),
}

/// The sort of the code that a node generates.
pub open spec fn sort_of(n: Node) -> TypeMarker {
    match n {
        Node::NamedGeometry(_) | Node::RawGeometry(_) => TypeMarker::Geometry(GeometryMarker),
        Node::NamedOpaque(_) | Node::RawOpaque(_) | Node::Opaque(_) => TypeMarker::Opaque(OpaqueMarker),
        Node::NamedTransparent(_) | Node::RawTransparent(_) | Node::Transparent(_) => TypeMarker::Transparent(TransparentMarker),
        Node::Fold(x) => x.marker,
        Node::Transform(x) => x.marker,
    }
}

/// The number of arguments a transform takes, if fixed.
pub open spec fn tf_arity_ok(tf: Tf) -> bool {
    match tf {
        Tf::Function(_) => true,
        Tf::Onionize(x) => x.args@.len() == 1,
        Tf::Scale(x) => x.args@.len() == 1,
        Tf::AdvancedRepeat(x) => x.args@.len() == 3,
        Tf::Cond(x) => x.args@.len() == 1,
        Tf::Let(x) => x.args@.len() == 3,
    }
}

/// Every child has the sort its parent expects, and every transform its
/// arguments.
pub open spec fn well_sorted(n: Node) -> bool
    decreases n,
{
    match n {
        Node::Fold(x) => forall|i: int|
            0 <= i < x.items@.len() ==> sort_of(#[trigger] x.items@[i]) == x.marker && well_sorted(
                x.items@[i],
            ),
        Node::Transform(x) => tf_arity_ok(x.tf) && sort_of(*x.item) == x.marker && well_sorted(
            *x.item,
        ),
        Node::Opaque(x) => sort_of(*x.geometry) == TypeMarker::Geometry(GeometryMarker)
            && well_sorted(*x.geometry),
        Node::Transparent(x) => sort_of(*x.geometry) == TypeMarker::Geometry(GeometryMarker)
            && well_sorted(*x.geometry),
        _ => true,
    }
}

/// Each template instantiated with the argument variable `a`.
pub open spec fn instantiated(ts: Seq<Seq<char>>, a: Seq<char>) -> Seq<Seq<char>> {
    ts.map_values(|t: Seq<char>| substitute(t, a))
}

/// A call of a library function: its arguments instantiated, then the
/// argument variable.
pub open spec fn named_text(name: Seq<char>, args: Seq<Seq<char>>, a: Seq<char>) -> Seq<char> {
    call_of(name, instantiated(args, a).push(a))
}

/// Text and function state after generating `n` with argument variable `a`.
pub open spec fn gen(n: Node, a: Seq<char>, f: FunctionModel) -> (Seq<char>, FunctionModel)
    decreases n, 0int, 0int,
{
    match n {
        Node::NamedGeometry(x) => (named_text(x.name@, views(x.args@), a), f),
        Node::NamedOpaque(x) => (named_text(x.name@, views(x.args@), a), f),
        Node::NamedTransparent(x) => (named_text(x.name@, views(x.args@), a), f),
        Node::RawGeometry(x) => (substitute(x.expr@, a), f),
        Node::RawOpaque(x) => (substitute(x.expr@, a), f),
        Node::RawTransparent(x) => (substitute(x.expr@, a), f),
        Node::Fold(x) => gen_fold(x.func, x.marker, x.items@, a, f),
        Node::Transform(x) => gen_transform(x.tf, *x.item, x.marker, a, f),
        Node::Opaque(x) => {
            let (g, f1) = gen(*x.geometry, a, f);
            (call_of("vec4"@, instantiated(views(x.color@), a).push(g)), f1)
        },
        Node::Transparent(x) => {
            let (g, f1) = gen(*x.geometry, a, f);
            (
                call_of(
                    "MapTransparent"@,
                    seq![call_of("vec4"@, instantiated(views(x.color@), a)), g],
                ),
                f1,
            )
        },
    }
}

/// A fold: the identity when empty, the only item alone, else the items
/// combined from the left.
pub open spec fn gen_fold(
    func: FoldFunc,
    m: TypeMarker,
    items: Seq<Node>,
    a: Seq<char>,
    f: FunctionModel,
) -> (Seq<char>, FunctionModel)
    decreases items, 1int, 0int,
{
    if items.len() == 0 {
        (fold_id(func, m), f)
    } else {
        let (e0, f0) = gen(items[0], a, f);
        gen_fold_rest(fold_name(func, m), items, 1, e0, a, f0)
    }
}

/// The items from `k` on, each combined with what came before.
pub open spec fn gen_fold_rest(
    fname: Seq<char>,
    items: Seq<Node>,
    k: int,
    acc: Seq<char>,
    a: Seq<char>,
    f: FunctionModel,
) -> (Seq<char>, FunctionModel)
    decreases items, 0int, items.len() - k,
{
    if k < 1 || k >= items.len() {
        (acc, f)
    } else {
        let (e, f1) = gen(items[k], a, f);
        gen_fold_rest(fname, items, k + 1, call_of(fname, seq![acc, e]), a, f1)
    }
}

/// The text `((offset) * (mult))` of one repetition offset.
pub open spec fn offset_text(offset: Seq<char>, mult: int) -> Seq<char> {
    "(("@ + offset + ") * ("@ + (if mult < 0 {
        "-1"@
    } else if mult == 0 {
        "0"@
    } else {
        "1"@
    }) + "))"@
}

/// The cell offsets of the `k`-th neighbour, each in -1..=1.
pub open spec fn cell(k: int) -> (int, int, int) {
    (k / 9 - 1, (k / 3) % 3 - 1, k % 3 - 1)
}

/// Neighbours are visited only along axes whose period is not `0`.
pub open spec fn cell_kept(args: Seq<Seq<char>>, k: int) -> bool {
    let (x, y, z) = cell(k);
    (x == 0 || args[0] != "0"@) && (y == 0 || args[1] != "0"@) && (z == 0 || args[2] != "0"@)
}

/// The `at` offsets of the `k`-th neighbour.
pub open spec fn cell_offsets(args: Seq<Seq<char>>, k: int) -> Seq<Seq<char>> {
    let (x, y, z) = cell(k);
    seq![offset_text(args[0], x), offset_text(args[1], y), offset_text(args[2], z)]
}

/// A transform around `item`.
pub open spec fn gen_transform(
    tf: Tf,
    item: Node,
    m: TypeMarker,
    a: Seq<char>,
    f: FunctionModel,
) -> (Seq<char>, FunctionModel)
    decreases item, 2int, 0int,
{
    match tf {
        Tf::Function(x) => {
            let (d, f1) = defined(f, "Arg"@, named_text(x.func@, views(x.args@), a));
            gen(item, d, f1)
        },
        Tf::Onionize(x) => {
            let (e, f1) = gen(item, a, f);
            let (d, f2) = defined(f1, "float"@, e);
            (call_of("sd_onionize"@, seq![substitute(x.args@[0]@, a), d]), f2)
        },
        Tf::Scale(x) => {
            let k = x.args@[0]@;
            let (d, f1) = defined(f, "Arg"@, call_of("uscale"@, seq![substitute(k, a), a]));
            let (e, f2) = gen(item, d, f1);
            match m {
                TypeMarker::Geometry(_) => (substitute("(("@ + e + ") * ("@ + k + "))"@, a), f2),
                TypeMarker::Opaque(_) => {
                    let (v, f3) = defined(f2, "vec4"@, e);
                    (
                        substitute(
                            "vec4("@ + v + ".xyz, "@ + v + ".w * ("@ + k + "))"@,
                            a,
                        ),
                        f3,
                    )
                },
                TypeMarker::Transparent(_) => {
                    let (v, f3) = defined(f2, "MapTransparent"@, e);
                    (
                        substitute(
                            "MapTransparent("@ + v + ".color, "@ + v + ".dist * ("@ + k + "))"@,
                            a,
                        ),
                        f3,
                    )
                },
            }
        },
        Tf::AdvancedRepeat(x) => {
            let (d, f1) = defined(f, "Arg"@, named_text("repeat"@, views(x.args@), a));
            gen_cells(item, m, views(x.args@), d, 0, None, f1)
        },
        Tf::Cond(x) => {
            let (e, f1) = gen(item, a, f);
            (
                "(("@ + substitute(x.args@[0]@, a) + ") ? ("@ + e + ") : ("@ + union_id(m)
                    + "))"@,
                f1,
            )
        },
        Tf::Let(x) => {
            let f1 = bound(f, x.args@[0]@, x.args@[1]@, substitute(x.args@[2]@, a));
            gen(item, a, f1)
        },
    }
}

/// The kept neighbours from `k` on, each `item` moved by its offset, in a
/// union with what came before.
pub open spec fn gen_cells(
    item: Node,
    m: TypeMarker,
    args: Seq<Seq<char>>,
    d: Seq<char>,
    k: int,
    acc: Option<Seq<char>>,
    f: FunctionModel,
) -> (Seq<char>, FunctionModel)
    decreases item, 1int, 27 - k,
{
    if k < 0 || k >= 27 {
        match acc {
            Some(e) => (e, f),
            None => (union_id(m), f),
        }
    } else if !cell_kept(args, k) {
        gen_cells(item, m, args, d, k + 1, acc, f)
    } else {
        let (c, f1) = defined(f, "Arg"@, named_text("at"@, cell_offsets(args, k), d));
        let (e, f2) = gen(item, c, f1);
        let next = match acc {
            Some(x) => call_of(fold_name(FoldFunc::Union(Union), m), seq![x, e]),
            None => e,
        };
        gen_cells(item, m, args, d, k + 1, Some(next), f2)
    }
}

/// Generation keeps what names the function, and never takes back a
/// temporary.
pub open spec fn frame_kept(f: FunctionModel, g: FunctionModel) -> bool {
    &&& g.above == f.above
    &&& g.ret == f.ret
    &&& g.name == f.name
    &&& g.params == f.params
    &&& g.uniq >= f.uniq
}

/// Generating a node keeps its function's number, type, name and
/// parameters, and hands out temporaries only forward.
pub proof fn lemma_gen_frame(n: Node, a: Seq<char>, f: FunctionModel)
    ensures
        frame_kept(f, gen(n, a, f).1),
    decreases n, 0int, 0int,
{
    match n {
        Node::Fold(x) => lemma_fold_frame(x.func, x.marker, x.items@, a, f),
        Node::Transform(x) => lemma_transform_frame(x.tf, *x.item, x.marker, a, f),
        Node::Opaque(x) => lemma_gen_frame(*x.geometry, a, f),
        Node::Transparent(x) => lemma_gen_frame(*x.geometry, a, f),
        _ => {},
    }
}

proof fn lemma_fold_frame(func: FoldFunc, m: TypeMarker, items: Seq<Node>, a: Seq<char>, f: FunctionModel)
    ensures
        frame_kept(f, gen_fold(func, m, items, a, f).1),
    decreases items, 1int, 0int,
{
    if items.len() > 0 {
        let (e0, f0) = gen(items[0], a, f);
        lemma_gen_frame(items[0], a, f);
        lemma_fold_rest_frame(fold_name(func, m), items, 1, e0, a, f0);
    }
}

proof fn lemma_fold_rest_frame(
    fname: Seq<char>,
    items: Seq<Node>,
    k: int,
    acc: Seq<char>,
    a: Seq<char>,
    f: FunctionModel,
)
    ensures
        frame_kept(f, gen_fold_rest(fname, items, k, acc, a, f).1),
    decreases items, 0int, items.len() - k,
{
    if 1 <= k < items.len() {
        let (e, f1) = gen(items[k], a, f);
        lemma_gen_frame(items[k], a, f);
        lemma_fold_rest_frame(fname, items, k + 1, call_of(fname, seq![acc, e]), a, f1);
    }
}

/// A transform through a library function binds at least one temporary.
proof fn lemma_transform_frame(tf: Tf, item: Node, m: TypeMarker, a: Seq<char>, f: FunctionModel)
    ensures
        frame_kept(f, gen_transform(tf, item, m, a, f).1),
        tf is Function ==> gen_transform(tf, item, m, a, f).1.uniq > f.uniq,
    decreases item, 2int, 0int,
{
    match tf {
        Tf::Function(x) => {
            let (d, f1) = defined(f, "Arg"@, named_text(x.func@, views(x.args@), a));
            lemma_gen_frame(item, d, f1);
        },
        Tf::Onionize(x) => {
            lemma_gen_frame(item, a, f);
        },
        Tf::Scale(x) => {
            let k = x.args@[0]@;
            let (d, f1) = defined(f, "Arg"@, call_of("uscale"@, seq![substitute(k, a), a]));
            lemma_gen_frame(item, d, f1);
        },
        Tf::AdvancedRepeat(x) => {
            let (d, f1) = defined(f, "Arg"@, named_text("repeat"@, views(x.args@), a));
            lemma_cells_frame(item, m, views(x.args@), d, 0, None, f1);
        },
        Tf::Cond(x) => {
            lemma_gen_frame(item, a, f);
        },
        Tf::Let(x) => {
            let f1 = bound(f, x.args@[0]@, x.args@[1]@, substitute(x.args@[2]@, a));
            lemma_gen_frame(item, a, f1);
        },
    }
}

proof fn lemma_cells_frame(
    item: Node,
    m: TypeMarker,
    args: Seq<Seq<char>>,
    d: Seq<char>,
    k: int,
    acc: Option<Seq<char>>,
    f: FunctionModel,
)
    ensures
        frame_kept(f, gen_cells(item, m, args, d, k, acc, f).1),
    decreases item, 1int, 27 - k,
{
    if 0 <= k < 27 {
        if !cell_kept(args, k) {
            lemma_cells_frame(item, m, args, d, k + 1, acc, f);
        } else {
            let (c, f1) = defined(f, "Arg"@, named_text("at"@, cell_offsets(args, k), d));
            let (e, f2) = gen(item, c, f1);
            lemma_gen_frame(item, c, f1);
            let next = match acc {
                Some(x) => call_of(fold_name(FoldFunc::Union(Union), m), seq![x, e]),
                None => e,
            };
            lemma_cells_frame(item, m, args, d, k + 1, Some(next), f2);
        }
    }
}

/// An empty fold generates the identity of its combination and binds
/// nothing.
pub proof fn lemma_empty_fold(x: Fold, a: Seq<char>, f: FunctionModel)
    requires
        x.items@.len() == 0,
    ensures
        gen(Node::Fold(x), a, f) == (fold_id(x.func, x.marker), f),
{
    assert(gen(Node::Fold(x), a, f) == gen_fold(x.func, x.marker, x.items@, a, f));
}

/// A fold of one item generates exactly that item, with no combining call
/// around it.
pub proof fn lemma_singleton_fold(x: Fold, a: Seq<char>, f: FunctionModel)
    requires
        x.items@.len() == 1,
    ensures
        gen(Node::Fold(x), a, f) == gen(x.items@[0], a, f),
{
    assert(gen(Node::Fold(x), a, f) == gen_fold(x.func, x.marker, x.items@, a, f));
    let (e0, f0) = gen(x.items@[0], a, f);
    assert(gen_fold_rest(fold_name(x.func, x.marker), x.items@, 1, e0, a, f0) == (e0, f0));
}

/// Two sibling transforms through library functions (two `at`, say),
/// generated one after the other, bind distinct temporaries: the first binds
/// `def_name(f.above, f.uniq + 1)`, the second binds the next fresh name
/// after everything the first generated.
pub proof fn lemma_sibling_transforms_hygienic(t1: Transform, a: Seq<char>, f: FunctionModel)
    requires
        t1.tf is Function,
    ensures
        ({
            let f1 = gen(Node::Transform(t1), a, f).1;
            def_name(f.above, f.uniq + 1) != def_name(f1.above, f1.uniq + 1)
        }),
{
    let f1 = gen(Node::Transform(t1), a, f).1;
    lemma_transform_frame(t1.tf, *t1.item, t1.marker, a, f);
    if def_name(f.above, f.uniq + 1) == def_name(f1.above, f1.uniq + 1) {
        lemma_def_name_injective(f.above, f.uniq + 1, f1.above, f1.uniq + 1);
    }
}

/// The text of an optional accumulated expression.
pub open spec fn opt_text(acc: Option<Expr>) -> Option<Seq<char>> {
    match acc {
        Some(e) => Some(expr_text(e)),
        None => None,
    }
}

fn text_expr(s: String) -> (r: Expr)
    ensures
        expr_text(r) == s@,
{
    Expr::String(s)
}

fn call(name: &str, args: Vec<Expr>) -> (r: Expr)
    ensures
        expr_text(r) == call_of(name@, expr_texts(args@)),
{
    let c = FunctionCall { name: name.to_owned(), args };
    Expr::FunctionCall(c)
}

fn pair(a: Expr, b: Expr) -> (r: Vec<Expr>)
    ensures
        expr_texts(r@) == seq![expr_text(a), expr_text(b)],
{
    let mut v = Vec::new();
    v.push(a);
    v.push(b);
    assert(expr_texts(v@) =~= seq![expr_text(v@[0]), expr_text(v@[1])]);
    v
}

/// The templates `ts` instantiated with `a`, as expressions.
fn instantiate_all(ts: &Vec<String>, a: &str) -> (r: Vec<Expr>)
    ensures
        expr_texts(r@) == instantiated(views(ts@), a@),
{
    let mut r: Vec<Expr> = Vec::new();
    let mut i: usize = 0;
    while i < ts.len()
        invariant
            0 <= i <= ts@.len(),
            expr_texts(r@) == instantiated(views(ts@), a@).take(i as int),
        decreases ts@.len() - i,
    {
        let ghost before = r@;
        let t = substitute_arg(ts[i].as_str(), a);
        r.push(Expr::String(t));
        assert(expr_texts(r@) =~= expr_texts(before).push(substitute(ts@[i as int]@, a@)));
        assert(instantiated(views(ts@), a@).take(i + 1) =~= instantiated(views(ts@), a@).take(
            i as int,
        ).push(substitute(ts@[i as int]@, a@)));
        i = i + 1;
    }
    assert(instantiated(views(ts@), a@).take(ts@.len() as int) =~= instantiated(views(ts@), a@));
    r
}

/// A call of `name` on the instantiated templates, then the argument variable.
fn named_call(name: &str, ts: &Vec<String>, a: &str) -> (r: Expr)
    ensures
        expr_text(r) == named_text(name@, views(ts@), a@),
{
    let mut v = instantiate_all(ts, a);
    let ghost before = v@;
    v.push(Expr::String(a.to_owned()));
    assert(expr_texts(v@) =~= expr_texts(before).push(a@));
    call(name, v)
}

fn offset_string(offset: &String, k: usize) -> (r: String)
    requires
        k < 3,
    ensures
        r@ == offset_text(offset@, k - 1),
{
    let mut r = "((".to_owned();
    r.append(offset.as_str());
    r.append(") * (");
    if k == 0 {
        r.append("-1");
    } else if k == 1 {
        r.append("0");
    } else {
        r.append("1");
    }
    r.append("))");
    r
}

impl Node {
    /// The sort of the code this node generates.
    pub fn sort(&self) -> (r: TypeMarker)
        ensures
            r == sort_of(*self),
    {
        match self {
            Node::NamedGeometry(_) | Node::RawGeometry(_) => TypeMarker::Geometry(GeometryMarker),
            Node::NamedOpaque(_) | Node::RawOpaque(_) | Node::Opaque(_) => TypeMarker::Opaque(
                OpaqueMarker,
            ),
            Node::NamedTransparent(_) | Node::RawTransparent(_) | Node::Transparent(_) => {
                TypeMarker::Transparent(TransparentMarker)
            },
            Node::Fold(x) => x.marker,
            Node::Transform(x) => x.marker,
        }
    }

    /// Generates the expression of this node in `func`, with the argument
    /// variable of `ctx`; bindings it needs are added to `func`.
    pub fn make_expr(&self, ctx: &Context, func: &mut Function) -> (r: Expr)
        requires
            old(func).wf(),
            well_sorted(*self),
        ensures
            final(func).wf(),
            (expr_text(r), final(func)@) == gen(*self, ctx.arg@, old(func)@),
        decreases self, 0int, 0int,
    {
        let a = ctx.arg.as_str();
        match self {
            Node::NamedGeometry(x) => named_call(x.name.as_str(), &x.args, a),
            Node::NamedOpaque(x) => named_call(x.name.as_str(), &x.args, a),
            Node::NamedTransparent(x) => named_call(x.name.as_str(), &x.args, a),
            Node::RawGeometry(x) => text_expr(substitute_arg(x.expr.as_str(), a)),
            Node::RawOpaque(x) => text_expr(substitute_arg(x.expr.as_str(), a)),
            Node::RawTransparent(x) => text_expr(substitute_arg(x.expr.as_str(), a)),
            Node::Fold(x) => fold_expr(&x.func, x.marker, &x.items, ctx, func),
            Node::Transform(x) => transform_expr(&x.tf, &x.item, x.marker, ctx, func),
            Node::Opaque(x) => {
                let g = x.geometry.make_expr(ctx, func);
                let mut v = instantiate_all(&x.color, a);
                let ghost before = v@;
                let ghost gt = expr_text(g);
                v.push(g);
                assert(expr_texts(v@) =~= expr_texts(before).push(gt));
                call("vec4", v)
            },
            Node::Transparent(x) => {
                let g = x.geometry.make_expr(ctx, func);
                let color = call("vec4", instantiate_all(&x.color, a));
                call("MapTransparent", pair(color, g))
            },
        }
    }
}

fn fold_expr(fold: &FoldFunc, m: TypeMarker, items: &Vec<Node>, ctx: &Context, func: &mut Function) -> (r: Expr)
    requires
        old(func).wf(),
        forall|i: int| 0 <= i < items@.len() ==> well_sorted(#[trigger] items@[i]),
    ensures
        final(func).wf(),
        (expr_text(r), final(func)@) == gen_fold(*fold, m, items@, ctx.arg@, old(func)@),
    decreases items@, 1int, 0int,
{
    if items.len() == 0 {
        return text_expr(fold.id(m).to_owned());
    }
    let fname = fold.name(m);
    let mut acc = items[0].make_expr(ctx, func);
    let ghost start = (expr_text(acc), func@);
    let mut k: usize = 1;
    while k < items.len()
        invariant
            1 <= k <= items@.len(),
            func.wf(),
            forall|i: int| 0 <= i < items@.len() ==> well_sorted(#[trigger] items@[i]),
            fname@ == fold_name(*fold, m),
            gen_fold(*fold, m, items@, ctx.arg@, old(func)@) == gen_fold_rest(
                fname@,
                items@,
                k as int,
                expr_text(acc),
                ctx.arg@,
                func@,
            ),
        decreases items@.len() - k,
    {
        let e = items[k].make_expr(ctx, func);
        acc = call(fname, pair(acc, e));
        k = k + 1;
    }
    acc
}

fn transform_expr(tf: &Tf, item: &Node, m: TypeMarker, ctx: &Context, func: &mut Function) -> (r: Expr)
    requires
        old(func).wf(),
        tf_arity_ok(*tf),
        well_sorted(*item),
    ensures
        final(func).wf(),
        (expr_text(r), final(func)@) == gen_transform(*tf, *item, m, ctx.arg@, old(func)@),
    decreases item, 2int, 0int,
{
    let a = ctx.arg.as_str();
    match tf {
        Tf::Function(x) => {
            let c = named_call(x.func.as_str(), &x.args, a);
            let d = func.gen_definition("Arg", c.to_string().as_str());
            item.make_expr(&Context::with_arg(d), func)
        },
        Tf::Onionize(x) => {
            let e = item.make_expr(ctx, func);
            let d = func.gen_definition("float", e.to_string().as_str());
            let t = text_expr(substitute_arg(x.args[0].as_str(), a));
            call("sd_onionize", pair(t, text_expr(d)))
        },
        Tf::Scale(x) => {
            let k = &x.args[0];
            let t = text_expr(substitute_arg(k.as_str(), a));
            let u = call("uscale", pair(t, text_expr(a.to_owned())));
            let d = func.gen_definition("Arg", u.to_string().as_str());
            let e = item.make_expr(&Context::with_arg(d), func);
            let s = match m {
                TypeMarker::Geometry(_) => {
                    let mut s = "((".to_owned();
                    s.append(e.to_string().as_str());
                    s.append(") * (");
                    s.append(k.as_str());
                    s.append("))");
                    s
                },
                TypeMarker::Opaque(_) => {
                    let v = func.gen_definition("vec4", e.to_string().as_str());
                    let mut s = "vec4(".to_owned();
                    s.append(v.as_str());
                    s.append(".xyz, ");
                    s.append(v.as_str());
                    s.append(".w * (");
                    s.append(k.as_str());
                    s.append("))");
                    s
                },
                TypeMarker::Transparent(_) => {
                    let v = func.gen_definition("MapTransparent", e.to_string().as_str());
                    let mut s = "MapTransparent(".to_owned();
                    s.append(v.as_str());
                    s.append(".color, ");
                    s.append(v.as_str());
                    s.append(".dist * (");
                    s.append(k.as_str());
                    s.append("))");
                    s
                },
            };
            text_expr(substitute_arg(s.as_str(), a))
        },
        Tf::AdvancedRepeat(x) => {
            let rc = named_call("repeat", &x.args, a);
            let d = func.gen_definition("Arg", rc.to_string().as_str());
            let ghost args = views(x.args@);
            let ghost f1 = func@;
            let keep_x = !same_text(x.args[0].as_str(), "0");
            let keep_y = !same_text(x.args[1].as_str(), "0");
            let keep_z = !same_text(x.args[2].as_str(), "0");
            let mut acc: Option<Expr> = None;
            let mut k: usize = 0;
            while k < 27
                invariant
                    0 <= k <= 27,
                    func.wf(),
                    well_sorted(*item),
                    args == views(x.args@),
                    args.len() == 3,
                    keep_x == (args[0] != "0"@),
                    keep_y == (args[1] != "0"@),
                    keep_z == (args[2] != "0"@),
                    gen_transform(*tf, *item, m, ctx.arg@, old(func)@) == gen_cells(
                        *item,
                        m,
                        args,
                        d@,
                        k as int,
                        opt_text(acc),
                        func@,
                    ),
                decreases 27 - k,
            {
                let cx = k / 9;
                let cy = (k / 3) % 3;
                let cz = k % 3;
                if (cx == 1 || keep_x) && (cy == 1 || keep_y) && (cz == 1 || keep_z) {
                    let mut offsets: Vec<String> = Vec::new();
                    offsets.push(offset_string(&x.args[0], cx));
                    offsets.push(offset_string(&x.args[1], cy));
                    offsets.push(offset_string(&x.args[2], cz));
                    assert(views(offsets@) =~= cell_offsets(args, k as int));
                    let at = named_call("at", &offsets, d.as_str());
                    let c = func.gen_definition("Arg", at.to_string().as_str());
                    let e = item.make_expr(&Context::with_arg(c), func);
                    acc = match acc {
                        Some(prev) => Some(call(fold_name_union(m), pair(prev, e))),
                        None => Some(e),
                    };
                }
                k = k + 1;
            }
            match acc {
                Some(e) => e,
                None => text_expr(union_identity(m).to_owned()),
            }
        },
        Tf::Cond(x) => {
            let e = item.make_expr(ctx, func);
            let mut s = "((".to_owned();
            s.append(substitute_arg(x.args[0].as_str(), a).as_str());
            s.append(") ? (");
            s.append(e.to_string().as_str());
            s.append(") : (");
            s.append(union_identity(m));
            s.append("))");
            text_expr(s)
        },
        Tf::Let(x) => {
            let v = substitute_arg(x.args[2].as_str(), a);
            func.bind(x.args[0].as_str(), x.args[1].as_str(), v.as_str());
            item.make_expr(ctx, func)
        },
    }
}

fn fold_name_union(m: TypeMarker) -> (r: &'static str)
    ensures
        r@ == fold_name(FoldFunc::Union(Union), m),
{
    match m {
        TypeMarker::Geometry(_) => "sd_union",
        TypeMarker::Opaque(_) => "csd_union",
        TypeMarker::Transparent(_) => "tsd_union",
    }
}

} // verus!
