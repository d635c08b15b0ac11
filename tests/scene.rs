use sdf_scene::camera::parse_keyframe;
use sdf_scene::parameter;
use sdf_scene::parser::statement_exact;
use sdf_scene::text::split_words;
use sdf_scene::parser::scene;
use sdf_scene::{
    replace_scene, update_scene, CameraDescError, GeneratedScene, KeyframeError, MarkerError, SceneDesc,
    SceneDescError, SceneDescLoader,
};

fn assets() -> GeneratedScene {
    GeneratedScene {
        vertex: "V".to_string(),
        header: "H|".to_string(),
        library: "L|".to_string(),
        footer: "|F".to_string(),
    }
}

#[test]
fn end_to_end_opaque_sphere() {
    let d = SceneDesc::parse(b"opaque(1,0,0){sphere(1)}", &assets()).unwrap();
    assert_eq!(d.vertex, "V");
    assert_eq!(
        d.fragment,
        "H|L|vec4 map_impl(Arg arg) {\n\nreturn vec4(1, 0, 0, sphere(1, arg));\n}|F"
    );
    assert!(d.camera.is_none());
}

#[test]
fn residuals_split_into_transparent_and_opaque() {
    let d = SceneDesc::parse(b"opaque(1,0,0){sphere(1)}; box(2); opaque(0,1,0){box(1)}", &assets()).unwrap();
    assert_eq!(
        d.fragment,
        "H|L|vec4 map_impl(Arg arg) {\n\nreturn csd_union(vec4(1, 0, 0, sphere(1, arg)), vec4(0, 1, 0, box(1, arg)));\n}\nMapTransparent map_transparent_impl(Arg arg) {\n\nreturn box(2, arg);\n}|F"
    );
}

#[test]
fn definitions_come_first() {
    let src = b"define_geometry(blob, float r, vec3 c) { at(c) { sphere(r) } }; opaque(1,0,0) { blob(2, vec3(0)) }";
    let d = SceneDesc::parse(src, &assets()).unwrap();
    assert_eq!(
        d.fragment,
        "H|L|float blob(float r, vec3 c, Arg arg) {\nArg def_1_1 = at(c, arg);\nreturn sphere(r, def_1_1);\n}\nvec4 map_impl(Arg arg) {\n\nreturn vec4(1, 0, 0, blob(2, vec3(0), arg));\n}|F"
    );
}

#[test]
fn scene_errors() {
    assert!(matches!(SceneDesc::parse(b"sphere(1", &assets()), Err(SceneDescError::ParseError)));
    assert!(matches!(
        SceneDesc::parse(b"define_geometry { sphere(1) }", &assets()),
        Err(SceneDescError::StatementError(_))
    ));
    assert!(matches!(
        SceneDesc::parse(b"define_geometry(a, float) { sphere(1) }", &assets()),
        Err(SceneDescError::StatementError(_))
    ));
    assert!(matches!(
        SceneDesc::parse(b"sphere(1) { cube() }", &assets()),
        Err(SceneDescError::StatementError(_))
    ));
    assert!(matches!(
        SceneDesc::parse(b"camera {}; camera {}", &assets()),
        Err(SceneDescError::DuplicateCamera)
    ));
    assert!(matches!(
        SceneDesc::parse(b"camera { zoom(1) }", &assets()),
        Err(SceneDescError::CameraError(CameraDescError::UnknownStatement(_)))
    ));
}

fn camera_error(src: &str) -> CameraDescError {
    match SceneDesc::parse(src.as_bytes(), &assets()) {
        Err(SceneDescError::CameraError(e)) => e,
        _ => panic!("expected a camera error"),
    }
}

#[test]
fn camera_errors() {
    assert_eq!(camera_error("camera { keyframe { pos(0,0,0) } }"), CameraDescError::Keyframe(KeyframeError::NoArgs));
    assert_eq!(
        camera_error("camera { keyframe(0) { pos(0,0,0); pos(1,1,1) } }"),
        CameraDescError::Keyframe(KeyframeError::Duplicate("position".to_string()))
    );
    assert_eq!(
        camera_error("camera { keyframe(0) { quat(1,0,0,0); look_at(1,1,1) } }"),
        CameraDescError::Keyframe(KeyframeError::Duplicate("rotation".to_string()))
    );
    assert_eq!(
        camera_error("camera { keyframe(0) { euler(0,0,0,turns) } }"),
        CameraDescError::Keyframe(KeyframeError::UnknownUnit("turns".to_string()))
    );
    assert_eq!(
        camera_error("camera { keyframe(0) { fov(1) } }"),
        CameraDescError::Keyframe(KeyframeError::UnknownArgument("fov".to_string()))
    );
    assert_eq!(
        camera_error("camera { keyframe(0) { pos(1,2) } }"),
        CameraDescError::Keyframe(KeyframeError::Malformed("pos".to_string()))
    );
    assert_eq!(
        camera_error("camera { marker(a, 1, 2) }"),
        CameraDescError::Marker(MarkerError::WrongNumberOfArguments)
    );
    assert_eq!(camera_error("camera(1) { }"), CameraDescError::Arguments);
}

#[test]
fn hot_reload_keeps_the_last_good_scene() {
    let mut loader = SceneDescLoader::new("scene.txt".to_string(), 10);
    let mut current = loader.load(b"sphere(1)", &assets(), 10).unwrap();
    let before = current.fragment.clone();
    assert!(loader.load_if_updated(5, b"sphere(2)", &assets(), 11).is_none());
    let update = loader.load_if_updated(20, b"sphere(2", &assets(), 21);
    assert!(matches!(update, Some(Err(SceneDescError::ParseError))));
    assert_eq!(loader.last_update, 20);
    let reported = replace_scene(&mut current, update);
    assert!(matches!(reported, Some(SceneDescError::ParseError)));
    assert_eq!(current.fragment, before);
    let update = loader.load_if_updated(30, b"sphere(3)", &assets(), 31);
    assert!(replace_scene(&mut current, update).is_none());
    assert!(current.fragment.contains("sphere(3, arg)"));
}

#[test]
fn a_broken_edit_is_reported_and_the_scene_kept() {
    let mut loader = SceneDescLoader::new("scene.txt".to_string(), 0);
    let mut current = loader.load(b"sphere(1)", &assets(), 1).unwrap();
    let before = current.fragment.clone();
    let e = update_scene(&mut loader, &mut current, 5, b"opaque(1,0,0){", &assets(), 6);
    assert!(matches!(e, Some(SceneDescError::ParseError)));
    assert_eq!(current.fragment, before);
    assert!(update_scene(&mut loader, &mut current, 5, b"box(1)", &assets(), 7).is_none());
    assert_eq!(current.fragment, before);
    assert!(update_scene(&mut loader, &mut current, 9, b"box(1)", &assets(), 10).is_none());
    assert!(current.fragment.contains("box(1, arg)"));
}

#[test]
fn cameras_can_be_switched_off() {
    let mut loader = SceneDescLoader::new("scene.txt".to_string(), 0);
    let src = b"camera { keyframe(0) { pos(0,0,0) } }; sphere(1)";
    assert!(loader.load(src, &assets(), 1).unwrap().camera.is_some());
    loader.switch_camera(false);
    assert!(loader.load(src, &assets(), 2).unwrap().camera.is_none());
    assert!(loader.is_updated(3));
    assert!(!loader.is_updated(2));
}

#[test]
fn statements_survive_parsing_for_compilation() {
    let statements = scene(b"box(1)").unwrap();
    let d = SceneDesc::from_statements(statements, &assets()).unwrap();
    assert!(d.fragment.contains("map_transparent_impl"));
}

#[test]
fn parameters_take_their_first_two_words() {
    assert_eq!(parameter("float r"), Some(("float".to_string(), "r".to_string())));
    assert_eq!(parameter("  vec3\t c  extra"), Some(("vec3".to_string(), "c".to_string())));
    assert_eq!(parameter("float\u{a0}r"), Some(("float".to_string(), "r".to_string())));
    assert_eq!(parameter("float"), None);
    assert_eq!(parameter("   "), None);
    assert_eq!(split_words(" a  b\nc "), vec!["a", "b", "c"]);
    assert!(split_words("").is_empty());
}

#[test]
fn keyframe_errors_name_their_cause() {
    let kf = |s: &str| parse_keyframe(&statement_exact(s.as_bytes()).unwrap()).unwrap_err();
    assert_eq!(kf("keyframe() { pos(0,0,0) }"), KeyframeError::NoArgs);
    assert_eq!(kf("keyframe(1) { euler(0,0,0); quat(1,0,0,0) }"), KeyframeError::Duplicate("rotation".to_string()));
    assert_eq!(kf("keyframe(1) { look_at(1,2) }"), KeyframeError::Malformed("look_at".to_string()));
    assert_eq!(kf("keyframe(1) { pos(1,2,3) { x() } }"), KeyframeError::Malformed("pos".to_string()));
    assert_eq!(kf("keyframe(1) { euler($m, 1, 2, 3, grad) }"), KeyframeError::UnknownUnit("grad".to_string()));
    assert_eq!(
        camera_error("camera { keyframe(0) { pos(0,0,0) }; light(1) }"),
        CameraDescError::UnknownStatement("light".to_string())
    );
}
