//! A compiler for a small declarative scene language describing
//! signed-distance-field scenes: a parser, a statement interpreter that
//! routes statements into sorted intermediate nodes, a shader code generator
//! with hygienic temporaries, a camera keyframe description, and the
//! decisions of loading and hot-reloading a scene.

pub mod text;
pub mod statement;
pub mod parser;
pub mod codegen;
pub mod typed;
pub mod interp;
pub mod camera;
pub mod scene;
pub mod loader;
pub mod round_trip;

pub use camera::{
    CameraDesc, CameraDescError, Keyframe, KeyframeError, Marker, MarkerError, Param, Resolved,
    Rotation, Segment, Vec3Text,
};
pub use codegen::{Expr, Function, FunctionCall, Glsl};
pub use interp::{GeometryVisitor, OpaqueVisitor, StatementVisitor, TransparentVisitor};
pub use loader::{replace_scene, update_scene, SceneDescLoader};
pub use parser::ParseError;
pub use scene::{parameter, GeneratedScene, SceneDesc, SceneDescError};
pub use statement::{Statement, StatementError};
pub use typed::{
    AdvancedRepeat, Cond, Context, Diff, Fold, FoldFunc, FunctionTf, GeometryMarker, Isect, Let,
    NamedGeometry, NamedOpaqueShape, NamedTransparentShape, Node, OpaqueMarker, OpaqueShape,
    Onionize, RawGeometry, RawOpaque, RawTransparent, Scale, SmoothUnion, Tf, Transform,
    TransparentMarker, TransparentShape, TypeMarker, Union,
};
