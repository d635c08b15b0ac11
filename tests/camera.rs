use sdf_scene::parser::statement_exact;
use sdf_scene::{CameraDesc, Param, Rotation, Segment};

fn camera(src: &str) -> CameraDesc {
    let st = statement_exact(src.as_bytes()).unwrap();
    CameraDesc::new(&st).unwrap()
}

#[test]
fn keyframes_and_segments() {
    let c = camera("camera { keyframe(0) { pos(0,0,0) }; keyframe(10) { pos(10,0,0) } }");
    assert_eq!(c.timeline.len(), 2);
    assert_eq!(c.timeline[1].t, "10");
    assert!(!c.timeline[1].relative);
    assert_eq!(c.segment(0), Segment::Start);
    assert_eq!(c.segment(1), Segment::Between(0, 1));
    assert_eq!(c.segment(2), Segment::Hold(1));
    match &c.timeline[1].pos {
        Param::Override(p) => assert_eq!((p.x.as_str(), p.y.as_str(), p.z.as_str()), ("10", "0", "0")),
        Param::Reuse => panic!("position expected"),
    }
}

#[test]
fn reuse_inherits_the_rotation_before() {
    let c = camera("camera { keyframe(0) { euler(10, 20, 30, radians) }; keyframe(5, +) { pos(1,2,3) } }");
    assert!(c.timeline[1].relative);
    assert!(matches!(c.timeline[1].rot, Param::Reuse));
    let r0 = c.get_rot_at_frame(0).unwrap();
    let r1 = c.get_rot_at_frame(1).unwrap();
    assert_eq!(r0.keyframe, 0);
    assert_eq!(r1.keyframe, 0);
    match &c.timeline[0].rot {
        Param::Override(Rotation::Euler(p, y, r, radians)) => {
            assert_eq!((p.as_str(), y.as_str(), r.as_str(), *radians), ("10", "20", "30", true));
        }
        _ => panic!("euler rotation expected"),
    }
    assert!(c.get_pos_at_frame(0).is_none());
    assert_eq!(c.get_pos_at_frame(1).unwrap().keyframe, 1);
}

#[test]
fn marker_offsets_resolve_against_the_anchor() {
    let c = camera("camera { marker(origin, 5, 5, 5); keyframe(0) { pos($origin, 1, 0, 0) } }");
    assert_eq!(c.timeline[0].marker.as_deref(), Some("origin"));
    let p = c.get_pos_at_frame(0).unwrap();
    assert_eq!(p.keyframe, 0);
    let a = p.anchor.unwrap();
    assert_eq!(c.markers[a].name, "origin");
    assert_eq!(c.markers[a].pos.x, "5");
    match &c.timeline[0].pos {
        Param::Override(v) => assert_eq!((v.x.as_str(), v.y.as_str(), v.z.as_str()), ("1", "0", "0")),
        Param::Reuse => panic!("position expected"),
    }
}

#[test]
fn later_markers_replace_earlier_ones_and_unknown_markers_are_ignored() {
    let c = camera("camera { marker(m, 1, 1, 1); marker(m, 2, 2, 2); keyframe(0) { look_at($m, 0, 0, 0) }; keyframe(1) { pos($nowhere, 1, 1, 1) } }");
    let a = c.marker_index(&"m".to_string()).unwrap();
    assert_eq!(c.markers[a].pos.x, "2");
    assert_eq!(c.get_rot_at_frame(0).unwrap().anchor, Some(a));
    assert!(c.get_pos_at_frame(1).unwrap().anchor.is_none());
    assert!(c.marker_index(&"nowhere".to_string()).is_none());
}

#[test]
fn quaternions_and_defaults() {
    let c = camera("camera { keyframe(0) { quaternion(1, 0, 0, 0) } }");
    assert!(matches!(c.timeline[0].rot, Param::Override(Rotation::Absolute(..))));
    let e = camera("camera { keyframe(0) { euler(1, 2, 3) } }");
    assert!(matches!(e.timeline[0].rot, Param::Override(Rotation::Euler(_, _, _, false))));
    let empty = camera("camera { }");
    assert!(empty.get_pos_at_frame(0).is_none());
    assert_eq!(empty.segment(3), Segment::Hold(2));
}
