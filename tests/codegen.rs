use sdf_scene::{
    Context, Expr, Fold, FoldFunc, FunctionCall, FunctionTf, GeometryMarker, GeometryVisitor,
    Glsl, NamedGeometry, Node, OpaqueVisitor, Statement, Tf, Transform, TransparentVisitor,
    TypeMarker, Union,
};
use sdf_scene::parser::statement_exact;
use sdf_scene::text::{decimal_text, same_text, substitute_arg};

fn geometry() -> TypeMarker {
    TypeMarker::Geometry(GeometryMarker)
}

fn sphere(r: &str) -> Node {
    Node::NamedGeometry(NamedGeometry { name: "sphere".to_string(), args: vec![r.to_string()] })
}

fn one_function(node: &Node) -> String {
    let mut glsl = Glsl::new();
    let mut f = glsl.add_function("float", "f", vec![("Arg".to_string(), "arg".to_string())]);
    let e = node.make_expr(&Context::new(), &mut f);
    let text = e.to_string();
    f.ret(&mut glsl, &text);
    glsl.to_string()
}

#[test]
fn empty_union_is_its_identity() {
    let node = Node::Fold(Fold { func: FoldFunc::Union(Union), items: Vec::new(), marker: geometry() });
    let mut glsl = Glsl::new();
    let mut f = glsl.add_function("float", "f", Vec::new());
    assert_eq!(node.make_expr(&Context::new(), &mut f).to_string(), "1.0/0.0");
    let opaque = Node::Fold(Fold {
        func: FoldFunc::Union(Union),
        items: Vec::new(),
        marker: TypeMarker::Opaque(sdf_scene::OpaqueMarker),
    });
    assert_eq!(opaque.make_expr(&Context::new(), &mut f).to_string(), "vec4(0,0,0, 1.0/0.0)");
    let isect = Node::Fold(Fold {
        func: FoldFunc::Isect(sdf_scene::Isect),
        items: Vec::new(),
        marker: geometry(),
    });
    assert_eq!(isect.make_expr(&Context::new(), &mut f).to_string(), "0.0");
}

#[test]
fn singleton_union_is_its_item() {
    let node = Node::Fold(Fold { func: FoldFunc::Union(Union), items: vec![sphere("1")], marker: geometry() });
    let mut glsl = Glsl::new();
    let mut f = glsl.add_function("float", "f", Vec::new());
    assert_eq!(node.make_expr(&Context::new(), &mut f).to_string(), "sphere(1, arg)");
}

#[test]
fn folds_combine_from_the_left() {
    let node = Node::Fold(Fold {
        func: FoldFunc::Diff(sdf_scene::Diff),
        items: vec![sphere("1"), sphere("2"), sphere("3")],
        marker: geometry(),
    });
    let mut glsl = Glsl::new();
    let mut f = glsl.add_function("float", "f", Vec::new());
    assert_eq!(
        node.make_expr(&Context::new(), &mut f).to_string(),
        "sd_diff(sd_diff(sphere(1, arg), sphere(2, arg)), sphere(3, arg))"
    );
}

fn at(x: &str, item: Node) -> Node {
    Node::Transform(Transform {
        tf: Tf::Function(FunctionTf { func: "at".to_string(), args: vec![x.to_string()] }),
        item: Box::new(item),
        marker: geometry(),
    })
}

#[test]
fn sibling_transforms_get_distinct_names() {
    let node = Node::Fold(Fold {
        func: FoldFunc::Union(Union),
        items: vec![at("1", sphere("1")), at("2", sphere("2"))],
        marker: geometry(),
    });
    assert_eq!(
        one_function(&node),
        "float f(Arg arg) {\nArg def_1_1 = at(1, arg);\nArg def_1_2 = at(2, arg);\nreturn sd_union(sphere(1, def_1_1), sphere(2, def_1_2));\n}"
    );
}

#[test]
fn nested_transforms_thread_the_argument() {
    let node = at("1", at("arg.t", sphere("1")));
    assert_eq!(
        one_function(&node),
        "float f(Arg arg) {\nArg def_1_1 = at(1, arg);\nArg def_1_2 = at(def_1_1.t, def_1_1);\nreturn sphere(1, def_1_2);\n}"
    );
}

#[test]
fn functions_are_numbered_in_order() {
    let mut glsl = Glsl::new();
    let mut f = glsl.add_function("float", "a", Vec::new());
    assert_eq!(f.gen_definition("Arg", "x"), "def_1_1");
    assert_eq!(f.gen_definition("Arg", "y"), "def_1_2");
    f.ret(&mut glsl, "def_1_2");
    let mut g = glsl.add_function("float", "b", Vec::new());
    assert_eq!(g.gen_definition("float", "1.0"), "def_2_1");
    g.ret(&mut glsl, "def_2_1");
    assert_eq!(
        glsl.to_string(),
        "float a() {\nArg def_1_1 = x;\nArg def_1_2 = y;\nreturn def_1_2;\n}\nfloat b() {\nfloat def_2_1 = 1.0;\nreturn def_2_1;\n}"
    );
}

#[test]
fn calls_print_their_arguments() {
    let mut c = FunctionCall::new("vec3");
    c.push_arg(Expr::String("1".to_string()));
    let mut inner = FunctionCall::new("vec2");
    inner.push_arg(Expr::String("2".to_string()));
    c.push_arg(Expr::FunctionCall(inner));
    assert_eq!(c.to_string(), "vec3(1, vec2(2))");
    assert_eq!(Expr::FunctionCall(FunctionCall::new("f")).to_string(), "f()");
}

#[test]
fn templates_replace_the_whole_word_arg() {
    assert_eq!(substitute_arg("arg.p + args + arg_2 + marg + arg", "def_1_1"), "def_1_1.p + args + arg_2 + marg + def_1_1");
    assert_eq!(substitute_arg("sin(arg.t)", "x"), "sin(x.t)");
    assert_eq!(substitute_arg("", "x"), "");
    assert_eq!(decimal_text(0), "0");
    assert_eq!(decimal_text(1207), "1207");
    assert!(same_text("ab", "ab"));
    assert!(!same_text("ab", "abc"));
}

fn parse_one(s: &str) -> Statement {
    statement_exact(s.as_bytes()).unwrap()
}

#[test]
fn opaque_is_refused_as_geometry() {
    let st = parse_one("opaque(1, 0, 0) { sphere(1) }");
    assert!(st.apply(&GeometryVisitor).is_err());
    assert!(st.apply(&TransparentVisitor).is_err());
    let node = st.apply(&OpaqueVisitor).unwrap();
    let mut glsl = Glsl::new();
    let mut f = glsl.add_function("vec4", "f", Vec::new());
    assert_eq!(node.make_expr(&Context::new(), &mut f).to_string(), "vec4(1, 0, 0, sphere(1, arg))");
}

#[test]
fn transparent_shapes_wrap_their_color() {
    let st = parse_one("transparent(1, 0, 0, 0.5) { sphere(1) }");
    assert!(st.apply(&OpaqueVisitor).is_err());
    let node = st.apply(&TransparentVisitor).unwrap();
    let mut glsl = Glsl::new();
    let mut f = glsl.add_function("MapTransparent", "f", Vec::new());
    assert_eq!(
        node.make_expr(&Context::new(), &mut f).to_string(),
        "MapTransparent(vec4(1, 0, 0, 0.5), sphere(1, arg))"
    );
}

#[test]
fn statements_with_wrong_arity_or_body_are_refused() {
    assert!(parse_one("raw(a, b)").apply(&GeometryVisitor).is_err());
    assert!(parse_one("union(1) { a() }").apply(&GeometryVisitor).is_err());
    assert!(parse_one("scale { a() }").apply(&GeometryVisitor).is_err());
    assert!(parse_one("advanced_repeat(1, 2) { a() }").apply(&GeometryVisitor).is_err());
    assert!(parse_one("sphere(1) { a() }").apply(&GeometryVisitor).is_err());
    assert!(parse_one("union { opaque(1, 0, 0) { a() } }").apply(&GeometryVisitor).is_err());
    assert!(parse_one("opaque(1, 0, 0) { opaque(1, 0, 0) { a() } }").apply(&OpaqueVisitor).is_err());
}

fn generated(s: &str, marker: TypeMarker) -> String {
    let st = parse_one(s);
    let node = st.apply_sort(marker).unwrap();
    one_function(&node)
}

#[test]
fn scale_onionize_cond_and_let() {
    assert_eq!(
        generated("scale(2) { sphere(1) }", geometry()),
        "float f(Arg arg) {\nArg def_1_1 = uscale(2, arg);\nreturn ((sphere(1, def_1_1)) * (2));\n}"
    );
    assert_eq!(
        generated("scale(2) { sphere(1) }", TypeMarker::Opaque(sdf_scene::OpaqueMarker)),
        "float f(Arg arg) {\nArg def_1_1 = uscale(2, arg);\nvec4 def_1_2 = sphere(1, def_1_1);\nreturn vec4(def_1_2.xyz, def_1_2.w * (2));\n}"
    );
    assert_eq!(
        generated("onionize(0.1) { sphere(1) }", geometry()),
        "float f(Arg arg) {\nfloat def_1_1 = sphere(1, arg);\nreturn sd_onionize(0.1, def_1_1);\n}"
    );
    assert_eq!(
        generated("cond(arg.t > 1) { sphere(1) }", geometry()),
        "float f(Arg arg) {\n\nreturn ((arg.t>1) ? (sphere(1, arg)) : (1.0/0.0));\n}"
    );
    assert_eq!(
        generated("let(float, r, arg.t) { sphere(r) }", geometry()),
        "float f(Arg arg) {\nfloat r = arg.t;\nreturn sphere(r, arg);\n}"
    );
    assert_eq!(
        generated("raw(sd_box(arg.p))", geometry()),
        "float f(Arg arg) {\n\nreturn sd_box(arg.p);\n}"
    );
}

#[test]
fn advanced_repeat_visits_neighbours_on_repeated_axes() {
    assert_eq!(
        generated("advanced_repeat(2, 0, 0) { sphere(1) }", geometry()),
        "float f(Arg arg) {\nArg def_1_1 = repeat(2, 0, 0, arg);\nArg def_1_2 = at(((2) * (-1)), ((0) * (0)), ((0) * (0)), def_1_1);\nArg def_1_3 = at(((2) * (0)), ((0) * (0)), ((0) * (0)), def_1_1);\nArg def_1_4 = at(((2) * (1)), ((0) * (0)), ((0) * (0)), def_1_1);\nreturn sd_union(sd_union(sphere(1, def_1_2), sphere(1, def_1_3)), sphere(1, def_1_4));\n}"
    );
    let all = generated("advanced_repeat(1, 1, 1) { sphere(1) }", geometry());
    assert!(all.contains("def_1_28 = at"));
    assert!(!all.contains("def_1_29"));
    let none = generated("advanced_repeat(0, 0, 0) { sphere(1) }", geometry());
    assert!(none.contains("return sphere(1, def_1_2);"));
}
