use sdf_scene::parser::{
    args, block_body, block_body_exact, complex_value, ident, scene, simple_value, statement,
    statement_exact,
};
use sdf_scene::Statement;

#[test]
fn test_ident() {
    assert_eq!(ident(b"abcde").unwrap().1, "abcde");
    assert_eq!(ident(b"hello1").unwrap().1, "hello1");
    assert_eq!(ident(b"hell_o").unwrap().1, "hell_o");
    assert!(ident(b"12a").is_err());
}

#[test]
fn test_simple_value() {
    assert_eq!(simple_value(b"1.0").unwrap().1, "1.0");
    assert_eq!(simple_value(b"hello").unwrap().1, "hello");
    assert!(simple_value(b"()").is_err());
}

#[test]
fn test_complex_value() {
    assert_eq!(complex_value(b"vec3(1,2,3)").unwrap().1, "vec3(1, 2, 3)");
    assert_eq!(
        complex_value(b"vec3(1,2,vec2(1))").unwrap().1,
        "vec3(1, 2, vec2(1))"
    );
    assert_eq!(
        complex_value(b"vec3(1, 2, vec2(1))").unwrap().1,
        "vec3(1, 2, vec2(1))"
    );
    assert_eq!(
        complex_value(b"vec3(1 , 2 , vec2(1))").unwrap().1,
        "vec3(1, 2, vec2(1))"
    );
}

#[test]
fn test_args() {
    assert_eq!(
        args(b"(1,hello,vec3(5))").unwrap().1,
        &["1", "hello", "vec3(5)"]
    );
    assert_eq!(
        args(b"(1, hello, vec3(5))").unwrap().1,
        &["1", "hello", "vec3(5)"]
    );
}

#[test]
fn test_body() {
    assert_eq!(block_body(b"{}").unwrap().1.len(), 0);

    let body = block_body(b"{ hello() {  } }").unwrap().1;
    assert_eq!(body.len(), 1);
    assert_eq!(body[0].to_string(), "hello(){}");
}

#[test]
fn test_statement() {
    let stmt = statement(b"hello()").unwrap().1;
    assert_eq!(stmt.to_string(), "hello(){}");

    let stmt = statement(b"hello(1, 2, vec3(1))").unwrap().1;
    assert_eq!(stmt.to_string(), "hello(1, 2, vec3(1)){}");

    let stmt = statement_exact(b"hello(){world()}").unwrap();
    assert_eq!(stmt.to_string(), "hello(){world(){}}");

    let s = r#"
        hello() {
            world();
            at(1, 2, 3) { cube() }
        }
        "#
    .trim();
    let stmt = statement_exact(s.as_bytes()).unwrap();
    assert_eq!(
        stmt.to_string(),
        "hello(){world(){}; at(1, 2, 3){cube(){}}}"
    );

    let s = r#"
        at(1,2,3) scale(4,5,6) { cube() }
        "#
    .trim();
    let stmt = statement_exact(s.as_bytes()).unwrap();
    assert_eq!(stmt.to_string(), "at(1, 2, 3){scale(4, 5, 6){cube(){}}}");

    let stmt = statement(b"union { cube(); sphere(); }").unwrap().1;
    assert_eq!(stmt.to_string(), "union(){cube(){}; sphere(){}}");
}

#[test]
fn test_nosemi() {
    let stmt = statement_exact(b"hello() { world{abc} }").unwrap();
    assert_eq!(stmt.to_string(), "hello(){world(){abc(){}}}");

    let stmt = statement_exact(b"hello() { world{} abc{} }").unwrap();
    assert_eq!(stmt.to_string(), "hello(){world(){}; abc(){}}");

    let body = block_body_exact(b"{ world{} abc{} }").unwrap();
    assert_eq!(body.len(), 2);
    assert_eq!(body[0].to_string(), "world(){}");
    assert_eq!(body[1].to_string(), "abc(){}");
}

#[test]
fn test_semi() {
    let body = block_body_exact(b"{ hello{}; world{}; }").unwrap();
    assert_eq!(body.len(), 2);
}

fn leaf(name: &str, args: &[&str]) -> Statement {
    Statement::new(
        name.to_string(),
        args.iter().map(|a| a.to_string()).collect(),
        Vec::new(),
    )
}

#[test]
fn round_trip_of_a_hand_built_tree() {
    let inner = Statement::new(
        "at".to_string(),
        vec!["1".to_string(), "vec2(2, 3)".to_string(), "x + 1".to_string()],
        vec![leaf("sphere", &["1"]), leaf("cube", &[])],
    );
    let tree = Statement::new("union".to_string(), Vec::new(), vec![inner, leaf("torus", &["2", "0.5"])]);
    let text = tree.to_string();
    let parsed = scene(text.as_bytes()).unwrap();
    assert_eq!(parsed.len(), 1);
    let normalized = Statement::new(
        "union".to_string(),
        Vec::new(),
        vec![
            Statement::new(
                "at".to_string(),
                vec!["1".to_string(), "vec2(2, 3)".to_string(), "x+1".to_string()],
                vec![leaf("sphere", &["1"]), leaf("cube", &[])],
            ),
            leaf("torus", &["2", "0.5"]),
        ],
    );
    assert_eq!(parsed[0], normalized);
    assert_ne!(parsed[0], tree);
}

#[test]
fn a_scene_of_several_statements() {
    let parsed = scene(b"sphere(1); cube(2);\nunion { a(); b() }").unwrap();
    assert_eq!(parsed.len(), 3);
    assert_eq!(parsed[2].to_string(), "union(){a(){}; b(){}}");
    let chained = scene(b"sphere(1); cube(2)\nunion { a(); b() }").unwrap();
    assert_eq!(chained.len(), 2);
    assert_eq!(chained[1].to_string(), "cube(2){union(){a(){}; b(){}}}");
}

#[test]
fn leading_whitespace_and_stray_bytes_are_refused() {
    assert!(scene(b" sphere(1)").is_err());
    assert!(scene(b"sphere(1) }").is_err());
    assert!(scene(b"sphere(1").is_err());
    assert_eq!(scene(b"").unwrap().len(), 0);
}

#[test]
fn simple_values_are_trimmed_and_operators_kept() {
    assert_eq!(simple_value(b"a b  ").unwrap().1, "a b");
    assert_eq!(complex_value(b"1 + $x.y*2").unwrap().1, "1+$x.y*2");
    assert_eq!(ident(b"x_1(").unwrap(), (3, "x_1".to_string()));
}
