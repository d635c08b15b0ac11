//! The scene compiler: top-level statements to shader sources and camera.

use vstd::prelude::*;
use crate::camera::{camera_of, camera_ok, CameraDesc, CameraDescError};
use crate::codegen::{function_text, gen_model_start, Glsl};
use crate::interp::{accepted, interprets, OpaqueVisitor};
use crate::parser::{models, scene, scene_of};
use crate::statement::{Statement, StatementError, StatementModel};
use crate::text::{joined, same_text, split_words, views, words};
use crate::typed::{
    gen, lemma_gen_frame, sort_type, well_sorted, Context, GeometryMarker, Node, OpaqueMarker,
    TransparentMarker, TypeMarker,
};

verus! {

/// The fixed shader text around the generated functions.
#[derive(Debug)]
pub struct GeneratedScene {
    pub vertex: String,
    pub header: String,
    pub library: String,
    pub footer: String,
}

impl GeneratedScene {
    /// The vertex shader.
    pub fn get_vertex(&self) -> (r: String)
        ensures
            r@ == self.vertex@,
    {
        self.vertex.clone()
    }

    /// The fragment shader: header, library, the generated functions, footer.
    pub fn compile_fragment(&self, main: &str) -> (r: String)
        ensures
            r@ == self.header@ + self.library@ + main@ + self.footer@,
    {
        let mut r = self.header.clone();
        r.append(self.library.as_str());
        r.append(main);
        r.append(self.footer.as_str());
        r
    }
}

/// Reads a parameter declaration `type name`: its first two words, where
/// it has two or more.
pub fn parameter(decl: &str) -> (r: Option<(String, String)>)
    ensures
        match r {
            Some((t, n)) => words(decl@).len() >= 2 && t@ == words(decl@)[0] && n@ == words(
                decl@,
            )[1],
            None => words(decl@).len() < 2,
        },
{
    let ws = split_words(decl);
    assert(ws@.len() == views(ws@).len());
    if ws.len() < 2 {
        None
    } else {
        Some((ws[0].clone(), ws[1].clone()))
    }
}

/// The sort a `define_*` statement defines, if it is one.
pub open spec fn define_sort(name: Seq<char>) -> Option<TypeMarker> {
    if name == "define_geometry"@ {
        Some(TypeMarker::Geometry(GeometryMarker))
    } else if name == "define_opaque"@ {
        Some(TypeMarker::Opaque(OpaqueMarker))
    } else if name == "define_transparent"@ {
        Some(TypeMarker::Transparent(TransparentMarker))
    } else {
        None
    }
}

/// A union statement over `body`.
pub open spec fn union_of(body: Seq<StatementModel>) -> StatementModel {
    StatementModel { name: "union"@, args: Seq::empty(), body }
}

/// The parameters that a definition declares: `type name` for each argument
/// after the first, then the argument variable.
pub open spec fn params_of(args: Seq<Seq<char>>) -> Seq<(Seq<char>, Seq<char>)> {
    Seq::new(
        (args.len() - 1) as nat,
        |i: int| (words(args[i + 1])[0], words(args[i + 1])[1]),
    ).push(("Arg"@, "arg"@))
}

/// The definition `st` of sort `m` compiles: it names itself, its body is
/// legal at its sort, and each parameter has a type and a name.
pub open spec fn define_ok(st: StatementModel, m: TypeMarker) -> bool {
    &&& st.args.len() >= 1
    &&& accepted(union_of(st.body), m)
    &&& forall|i: int| 1 <= i < st.args.len() ==> words(#[trigger] st.args[i]).len() >= 2
}

/// The text of a function named `name` returning `typ`, the `above`-th of
/// its compile, that returns the code of `n`.
pub open spec fn function_of(
    typ: Seq<char>,
    name: Seq<char>,
    params: Seq<(Seq<char>, Seq<char>)>,
    n: Node,
    above: nat,
) -> Seq<char> {
    let f0 = gen_model_start(above, typ, name, params);
    let (e, f) = gen(n, "arg"@, f0);
    function_text(typ, name, params, f.definitions, e)
}

/// Compiles the definition `stmt` of sort `m` into a function of `glsl`.
pub fn define_object(glsl: &mut Glsl, stmt: Statement, m: TypeMarker) -> (r: Result<(), StatementError>)
    requires
        old(glsl)@.uniq < u128::MAX,
    ensures
        match r {
            Ok(()) => define_ok(stmt@, m) && final(glsl)@.uniq == old(glsl)@.uniq + 1 && exists|n: Node|
                interprets(union_of(stmt@.body), m, n) && final(glsl)@.functions
                    == old(glsl)@.functions.push(
                    function_of(
                        sort_type(m),
                        stmt@.args[0],
                        params_of(stmt@.args),
                        n,
                        old(glsl)@.uniq + 1,
                    ),
                ),
            Err(_) => !define_ok(stmt@, m) && final(glsl)@ == old(glsl)@,
        },
{
    let ghost st = stmt@;
    if stmt.args.len() == 0 {
        return Err(StatementError("a definition needs a name".to_owned()));
    }
    let fold = Statement { name: "union".to_owned(), args: Vec::new(), body: stmt.body };
    assert(fold@ =~= union_of(st.body)) by {
        assert(fold@.body =~= st.body);
        assert(fold@.args =~= Seq::<Seq<char>>::empty());
    }
    let object = match fold.apply_sort(m) {
        Ok(n) => n,
        Err(e) => return Err(e),
    };
    let mut params: Vec<(String, String)> = Vec::new();
    let mut i: usize = 1;
    while i < stmt.args.len()
        invariant
            1 <= i <= stmt.args@.len(),
            st.args == views(stmt.args@),
            params@.len() == i - 1,
            forall|j: int| 1 <= j < i ==> words(#[trigger] st.args[j]).len() >= 2,
            forall|j: int|
                0 <= j < i - 1 ==> ((#[trigger] params@[j]).0@, params@[j].1@) == (
                    words(st.args[j + 1])[0],
                    words(st.args[j + 1])[1],
                ),
        decreases stmt.args@.len() - i,
    {
        assert(st.args[i as int] == stmt.args@[i as int]@);
        match parameter(stmt.args[i].as_str()) {
            Some(p) => params.push(p),
            None => return Err(StatementError("a parameter needs a type and a name".to_owned())),
        }
        i = i + 1;
    }
    params.push(("Arg".to_owned(), "arg".to_owned()));
    let ghost pm = params@.map_values(|p: (String, String)| (p.0@, p.1@));
    assert(pm =~= params_of(st.args));
    let typ = m.typ();
    let ghost above = glsl@.uniq + 1;
    let mut func = glsl.add_function(typ, stmt.args[0].as_str(), params);
    let ghost f0 = func@;
    assert(f0 == gen_model_start(above, sort_type(m), st.args[0], params_of(st.args)));
    let expr = object.make_expr(&Context::new(), &mut func);
    proof {
        lemma_gen_frame(object, "arg"@, f0);
    }
    let text = expr.to_string();
    func.ret(glsl, text.as_str());
    assert(interprets(union_of(st.body), m, object));
    assert(glsl@.functions == old(glsl)@.functions.push(
        function_of(sort_type(m), st.args[0], params_of(st.args), object, above),
    ));
    Ok(())
}

/// Why a scene does not compile.
#[derive(Debug)]
pub enum SceneDescError {
    ParseError,
    StatementError(StatementError),
    DuplicateCamera,
    CameraError(CameraDescError),
}

/// A compiled scene: the two shader sources and the camera, if any.
#[derive(Debug)]
pub struct SceneDesc {
    pub vertex: String,
    pub fragment: String,
    pub camera: Option<CameraDesc>,
}

/// The kinds of compile failure of a parsed scene.
pub enum SceneFault {
    Statement,
    DuplicateCamera,
    Camera,
}

/// The kind of failure an error reports.
pub open spec fn error_fault(e: SceneDescError) -> Option<SceneFault> {
    match e {
        SceneDescError::ParseError => None,
        SceneDescError::StatementError(_) => Some(SceneFault::Statement),
        SceneDescError::DuplicateCamera => Some(SceneFault::DuplicateCamera),
        SceneDescError::CameraError(_) => Some(SceneFault::Camera),
    }
}

/// The name of the camera block.
pub open spec fn is_camera(name: Seq<char>) -> bool {
    name == "camera"@
}

/// A top-level statement that is neither a definition nor the camera.
pub open spec fn is_residual(st: StatementModel) -> bool {
    define_sort(st.name) is None && !is_camera(st.name)
}

/// The residual statements of `ms[..i]` that are legal as transparent
/// shapes (`transparent`) or that are not (otherwise), in order.
pub open spec fn residuals(ms: Seq<StatementModel>, i: int, transparent: bool) -> Seq<StatementModel>
    decreases i,
{
    if i <= 0 {
        Seq::empty()
    } else {
        let st = ms[i - 1];
        if is_residual(st) && accepted(st, TypeMarker::Transparent(TransparentMarker))
            == transparent {
            residuals(ms, i - 1, transparent).push(st)
        } else {
            residuals(ms, i - 1, transparent)
        }
    }
}

/// The definitions among `ms[..i]`, in order.
pub open spec fn definitions(ms: Seq<StatementModel>, i: int) -> Seq<StatementModel>
    decreases i,
{
    if i <= 0 {
        Seq::empty()
    } else if define_sort(ms[i - 1].name) is Some {
        definitions(ms, i - 1).push(ms[i - 1])
    } else {
        definitions(ms, i - 1)
    }
}

/// `text` is the function that the definition `st` compiles to, as the
/// `above`-th function of its compile.
pub open spec fn defines_function(st: StatementModel, text: Seq<char>, above: nat) -> bool {
    match define_sort(st.name) {
        Some(m) => exists|n: Node|
            interprets(union_of(st.body), m, n) && text == function_of(
                sort_type(m),
                st.args[0],
                params_of(st.args),
                n,
                above,
            ),
        None => false,
    }
}

/// `ms[..i]` holds a camera block.
pub open spec fn camera_seen(ms: Seq<StatementModel>, i: int) -> bool
    decreases i,
{
    i > 0 && (is_camera(ms[i - 1].name) || camera_seen(ms, i - 1))
}

/// The first failure among `ms[..i]`, in order.
pub open spec fn loop_fault(ms: Seq<StatementModel>, i: int) -> Option<SceneFault>
    decreases i,
{
    if i <= 0 {
        None
    } else {
        match loop_fault(ms, i - 1) {
            Some(f) => Some(f),
            None => {
                let st = ms[i - 1];
                match define_sort(st.name) {
                    Some(m) => if define_ok(st, m) {
                        None
                    } else {
                        Some(SceneFault::Statement)
                    },
                    None => if !is_camera(st.name) {
                        None
                    } else if camera_seen(ms, i - 1) {
                        Some(SceneFault::DuplicateCamera)
                    } else if camera_ok(st) {
                        None
                    } else {
                        Some(SceneFault::Camera)
                    },
                }
            },
        }
    }
}

/// Why the statements `ms` do not compile, if they do not: the first failing
/// definition or camera block, else an opaque residual that is illegal.
pub open spec fn scene_fault(ms: Seq<StatementModel>) -> Option<SceneFault> {
    match loop_fault(ms, ms.len() as int) {
        Some(f) => Some(f),
        None => if accepted(
            union_of(residuals(ms, ms.len() as int, false)),
            TypeMarker::Opaque(OpaqueMarker),
        ) {
            None
        } else {
            Some(SceneFault::Statement)
        },
    }
}

/// The single parameter of an entrypoint: the argument variable.
pub open spec fn arg_params() -> Seq<(Seq<char>, Seq<char>)> {
    seq![("Arg"@, "arg"@)]
}

/// The generated functions: the definitions `defs`, the geometry entrypoint
/// for `op`, and the transparent entrypoint for `tp` where `ms` has
/// transparent residuals.
pub open spec fn scene_functions(ms: Seq<StatementModel>, defs: Seq<Seq<char>>, op: Node, tp: Node) -> Seq<Seq<char>> {
    let k = defs.len();
    let main = seq![function_of("vec4"@, "map_impl"@, arg_params(), op, k + 1)];
    if residuals(ms, ms.len() as int, true).len() == 0 {
        defs + main
    } else {
        defs + main + seq![
            function_of("MapTransparent"@, "map_transparent_impl"@, arg_params(), tp, k + 2),
        ]
    }
}

/// `d` is a compile of the statements `ms` with the shader text `assets`.
pub open spec fn compiled(ms: Seq<StatementModel>, assets: GeneratedScene, d: SceneDesc) -> bool {
    &&& scene_fault(ms) is None
    &&& d.vertex@ == assets.vertex@
    &&& (d.camera is Some <==> camera_seen(ms, ms.len() as int))
    &&& (d.camera matches Some(c) ==> exists|j: int|
        0 <= j < ms.len() && is_camera(ms[j].name) && camera_of(ms[j], c))
    &&& exists|defs: Seq<Seq<char>>, op: Node, tp: Node|
        #![trigger scene_functions(ms, defs, op, tp)]
        defs.len() == definitions(ms, ms.len() as int).len() && (forall|j: int|
            0 <= j < defs.len() ==> defines_function(
                #[trigger] definitions(ms, ms.len() as int)[j],
                defs[j],
                (j + 1) as nat,
            )) && interprets(
            union_of(residuals(ms, ms.len() as int, false)),
            TypeMarker::Opaque(OpaqueMarker),
            op,
        ) && interprets(
            union_of(residuals(ms, ms.len() as int, true)),
            TypeMarker::Transparent(TransparentMarker),
            tp,
        ) && d.fragment@ == assets.header@ + assets.library@ + joined(
            scene_functions(ms, defs, op, tp),
            seq!['\n'],
        ) + assets.footer@
}

/// A definition is not a camera block.
proof fn lemma_define_not_camera(name: Seq<char>)
    requires
        define_sort(name) is Some,
    ensures
        !is_camera(name),
{
    reveal_strlit("camera");
    reveal_strlit("define_geometry");
    reveal_strlit("define_opaque");
    reveal_strlit("define_transparent");
    assert("camera"@.len() == 6);
    assert("define_geometry"@.len() == 15);
    assert("define_opaque"@.len() == 13);
    assert("define_transparent"@.len() == 18);
}

/// Once a failure is found, it stays the first.
proof fn lemma_fault_stays(ms: Seq<StatementModel>, i: int, j: int)
    requires
        loop_fault(ms, i) is Some,
        0 <= i <= j,
    ensures
        loop_fault(ms, j) == loop_fault(ms, i),
    decreases j - i,
{
    if i < j {
        lemma_fault_stays(ms, i, j - 1);
    }
}

fn union_statement(body: Vec<Statement>) -> (r: Statement)
    ensures
        r@ == union_of(models(body@)),
{
    let r = Statement { name: "union".to_owned(), args: Vec::new(), body };
    assert(r@.body =~= models(body@));
    assert(r@.args =~= Seq::<Seq<char>>::empty());
    r
}

fn define_sort_of(name: &str) -> (r: Option<TypeMarker>)
    ensures
        r == define_sort(name@),
{
    if same_text(name, "define_geometry") {
        Some(TypeMarker::Geometry(GeometryMarker))
    } else if same_text(name, "define_opaque") {
        Some(TypeMarker::Opaque(OpaqueMarker))
    } else if same_text(name, "define_transparent") {
        Some(TypeMarker::Transparent(TransparentMarker))
    } else {
        None
    }
}

fn arg_param_vec() -> (r: Vec<(String, String)>)
    ensures
        r@.map_values(|p: (String, String)| (p.0@, p.1@)) == arg_params(),
{
    let mut v = Vec::new();
    v.push(("Arg".to_owned(), "arg".to_owned()));
    assert(v@.map_values(|p: (String, String)| (p.0@, p.1@)) =~= arg_params());
    v
}

/// Adds an entrypoint returning the code of `n` to `glsl`.
fn entrypoint(glsl: &mut Glsl, typ: &str, name: &str, n: &Node)
    requires
        old(glsl)@.uniq < u128::MAX,
        well_sorted(*n),
    ensures
        final(glsl)@.uniq == old(glsl)@.uniq + 1,
        final(glsl)@.functions == old(glsl)@.functions.push(
            function_of(typ@, name@, arg_params(), *n, old(glsl)@.uniq + 1),
        ),
{
    let ghost above = glsl@.uniq + 1;
    let mut func = glsl.add_function(typ, name, arg_param_vec());
    let ghost f0 = func@;
    assert(f0 == gen_model_start(above, typ@, name@, arg_params()));
    let expr = n.make_expr(&Context::new(), &mut func);
    proof {
        lemma_gen_frame(*n, "arg"@, f0);
    }
    let text = expr.to_string();
    func.ret(glsl, text.as_str());
}

impl SceneDesc {
    /// Compiles top-level statements: definitions become functions, at most
    /// one camera block becomes the camera, and the other statements are
    /// split into a transparent union (those legal as transparent shapes)
    /// and an opaque union (the rest), each behind an entrypoint.
    pub fn from_statements(statements: Vec<Statement>, assets: &GeneratedScene) -> (r: Result<SceneDesc, SceneDescError>)
        ensures
            match r {
                Ok(d) => compiled(models(statements@), *assets, d),
                Err(e) => error_fault(e) is Some && scene_fault(models(statements@)) == error_fault(e),
            },
    {
        let ghost ms = models(statements@);
        SceneDesc::compile(statements, assets, Ghost(ms))
    }

    fn compile(statements: Vec<Statement>, assets: &GeneratedScene, model: Ghost<Seq<StatementModel>>) -> (r: Result<SceneDesc, SceneDescError>)
        requires
            model@ == models(statements@),
        ensures
            match r {
                Ok(d) => compiled(model@, *assets, d),
                Err(e) => error_fault(e) is Some && scene_fault(model@) == error_fault(e),
            },
    {
        let ghost ms = model@;
        let n = statements.len();
        let mut rest = statements;
        let mut glsl = Glsl::new();
        let mut opaque_list: Vec<Statement> = Vec::new();
        let mut transparent_list: Vec<Statement> = Vec::new();
        let mut camera: Option<CameraDesc> = None;
        let mut i: usize = 0;
        while i < n
            invariant
                0 <= i <= n,
                ms == model@,
                n == ms.len(),
                models(rest@) == ms.subrange(i as int, n as int),
                glsl@.uniq == definitions(ms, i as int).len(),
                glsl@.uniq <= i,
                glsl@.functions.len() == definitions(ms, i as int).len(),
                forall|j: int|
                    0 <= j < glsl@.functions.len() ==> defines_function(
                        #[trigger] definitions(ms, i as int)[j],
                        glsl@.functions[j],
                        (j + 1) as nat,
                    ),
                loop_fault(ms, i as int) is None,
                camera is Some <==> camera_seen(ms, i as int),
                camera matches Some(c) ==> exists|j: int|
                    0 <= j < i && is_camera(ms[j].name) && camera_of(ms[j], c),
                models(transparent_list@) == residuals(ms, i as int, true),
                models(opaque_list@) == residuals(ms, i as int, false),
                forall|j: int| 0 <= j < transparent_list@.len() ==> accepted(
                    #[trigger] models(transparent_list@)[j],
                    TypeMarker::Transparent(TransparentMarker),
                ),
            decreases n - i,
        {
            let ghost before = rest@;
            assert(before.len() == models(before).len());
            let stmt = rest.remove(0);
            assert(stmt@ == ms[i as int]) by {
                assert(stmt == before[0]);
                assert(models(before)[0] == before[0]@);
                assert(models(before)[0] == ms.subrange(i as int, n as int)[0]);
            }
            assert(models(rest@) =~= ms.subrange(i + 1, n as int)) by {
                assert(rest@ =~= before.subrange(1, before.len() as int));
                assert(models(before).subrange(1, before.len() as int) =~= ms.subrange(
                    i + 1,
                    n as int,
                ));
            }
            match define_sort_of(stmt.name.as_str()) {
                Some(m) => {
                    proof { lemma_define_not_camera(ms[i as int].name); }
                    match define_object(&mut glsl, stmt, m) {
                        Ok(()) => {},
                        Err(e) => {
                            assert(loop_fault(ms, i + 1) == Some(SceneFault::Statement));
                            proof { lemma_fault_stays(ms, i + 1, n as int); }
                            return Err(SceneDescError::StatementError(e));
                        },
                    }
                },
                None => {
                    if same_text(stmt.name.as_str(), "camera") {
                        if camera.is_some() {
                            proof { lemma_fault_stays(ms, i + 1, n as int); }
                            return Err(SceneDescError::DuplicateCamera);
                        }
                        match CameraDesc::new(&stmt) {
                            Ok(c) => {
                                camera = Some(c);
                            },
                            Err(e) => {
                                assert(!camera_ok(ms[i as int]));
                                assert(loop_fault(ms, i + 1) == Some(SceneFault::Camera));
                                proof { lemma_fault_stays(ms, i + 1, n as int); }
                                return Err(SceneDescError::CameraError(e));
                            },
                        }
                    } else {
                        let ghost tl = models(transparent_list@);
                        let ghost ol = models(opaque_list@);
                        if stmt.apply(&crate::interp::TransparentVisitor).is_ok() {
                            transparent_list.push(stmt);
                            assert(models(transparent_list@) =~= tl.push(ms[i as int]));
                        } else {
                            opaque_list.push(stmt);
                            assert(models(opaque_list@) =~= ol.push(ms[i as int]));
                        }
                    }
                },
            }
            i = i + 1;
        }
        let has_transparent = transparent_list.len() > 0;
        let opaque_stmt = union_statement(opaque_list);
        let op = match opaque_stmt.apply(&OpaqueVisitor) {
            Ok(x) => x,
            Err(e) => return Err(SceneDescError::StatementError(e)),
        };
        let transparent_stmt = union_statement(transparent_list);
        let tp = match transparent_stmt.apply(&crate::interp::TransparentVisitor) {
            Ok(x) => x,
            Err(e) => return Err(SceneDescError::StatementError(e)),
        };
        let ghost defs = glsl@.functions;
        entrypoint(&mut glsl, "vec4", "map_impl", &op);
        if has_transparent {
            entrypoint(&mut glsl, "MapTransparent", "map_transparent_impl", &tp);
        }
        assert(glsl@.functions == scene_functions(ms, defs, op, tp));
        let main = glsl.to_string();
        let fragment = assets.compile_fragment(main.as_str());
        Ok(SceneDesc { vertex: assets.get_vertex(), fragment, camera })
    }

    /// Parses and compiles a scene source.
    pub fn parse(source: &[u8], assets: &GeneratedScene) -> (r: Result<SceneDesc, SceneDescError>)
        ensures
            match scene_of(source@) {
                None => r matches Err(SceneDescError::ParseError),
                Some(ms) => match r {
                    Ok(d) => compiled(ms, *assets, d),
                    Err(e) => error_fault(e) is Some && scene_fault(ms) == error_fault(e),
                },
            },
    {
        match scene(source) {
            Ok(statements) => SceneDesc::from_statements(statements, assets),
            Err(_) => Err(SceneDescError::ParseError),
        }
    }
}

} // verus!
