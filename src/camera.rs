//! The camera description: a keyframe timeline with marker-relative
//! offsets, compiled from a `camera { ... }` block.
//!
//! Numbers stay as the text the scene gives; they are read, added and
//! interpolated where the camera is sampled.

use vstd::prelude::*;
use crate::statement::{Statement, StatementModel};
use crate::text::{chars_vec, same_text, string_of_chars, views};
use crate::interp::copy_strings;

verus! {

/// A point or direction, one number text per axis.
#[derive(Debug)]
pub struct Vec3Text {
    pub x: String,
    pub y: String,
    pub z: String,
}

/// The texts of a `Vec3Text`.
pub open spec fn v3(v: Vec3Text) -> (Seq<char>, Seq<char>, Seq<char>) {
    (v.x@, v.y@, v.z@)
}

/// A camera orientation.
#[derive(Debug)]
pub enum Rotation {
    /// a quaternion `w, x, y, z`
    Absolute(String, String, String, String),
    /// pitch, yaw, roll; in radians where the flag is set, else in degrees
    Euler(String, String, String, bool),
    /// looking at a point
    LookAt(Vec3Text),
}

/// A keyframe field: given here, or held from the keyframes before.
#[derive(Debug)]
pub enum Param<T> {
    Override(T),
    Reuse,
}

/// A keyframe of the timeline.
#[derive(Debug)]
pub struct Keyframe {
    /// the time, or the time after the previous keyframe where `relative`
    pub t: String,
    pub relative: bool,
    /// the marker that the position and look-at point are relative to
    pub marker: Option<String>,
    pub pos: Param<Vec3Text>,
    pub rot: Param<Rotation>,
}

/// A named anchor point.
#[derive(Debug)]
pub struct Marker {
    pub name: String,
    pub pos: Vec3Text,
}

/// A camera description: the timeline in the order given, and the markers,
/// one per name.
#[derive(Debug)]
pub struct CameraDesc {
    pub timeline: Vec<Keyframe>,
    pub markers: Vec<Marker>,
}

/// Why a keyframe statement is refused.
#[derive(Debug, Clone, PartialEq, Eq)]
pub enum KeyframeError {
    NoArgs,
    Duplicate(String),
    UnknownUnit(String),
    UnknownArgument(String),
    /// a keyframe field with a body or with the wrong number of arguments
    Malformed(String),
}

/// Why a marker statement is refused.
#[derive(Debug, Clone, Copy, PartialEq, Eq)]
pub enum MarkerError {
    WrongNumberOfArguments,
}

/// Why a camera block is refused.
#[derive(Debug, Clone, PartialEq, Eq)]
pub enum CameraDescError {
    UnknownStatement(String),
    Keyframe(KeyframeError),
    Marker(MarkerError),
    /// the camera block was given arguments
    Arguments,
}

/// What a keyframe field statement declares.
pub enum FieldModel {
    Position(Seq<char>, Seq<char>, Seq<char>),
    LookAt(Seq<char>, Seq<char>, Seq<char>),
    Euler(Seq<char>, Seq<char>, Seq<char>, bool),
    Quat(Seq<char>, Seq<char>, Seq<char>, Seq<char>),
}

/// Why a keyframe is refused.
pub enum KeyframeFault {
    NoArgs,
    DuplicatePosition,
    DuplicateRotation,
    /// the unit given
    UnknownUnit(Seq<char>),
    /// the name of the field statement
    UnknownArgument(Seq<char>),
    /// the name of the field statement
    Malformed(Seq<char>),
}

/// The error `e` reports the fault `f`.
pub open spec fn reports_fault(e: KeyframeError, f: KeyframeFault) -> bool {
    match f {
        KeyframeFault::NoArgs => e is NoArgs,
        KeyframeFault::DuplicatePosition => e matches KeyframeError::Duplicate(w) && w@ == "position"@,
        KeyframeFault::DuplicateRotation => e matches KeyframeError::Duplicate(w) && w@ == "rotation"@,
        KeyframeFault::UnknownUnit(u) => e matches KeyframeError::UnknownUnit(w) && w@ == u,
        KeyframeFault::UnknownArgument(n) => e matches KeyframeError::UnknownArgument(w) && w@ == n,
        KeyframeFault::Malformed(n) => e matches KeyframeError::Malformed(w) && w@ == n,
    }
}

/// The argument names a marker: `$name`.
pub open spec fn is_marker_ref(a: Seq<char>) -> bool {
    a.len() >= 1 && a[0] == '$'
}

/// The arguments of a field statement without its marker reference.
pub open spec fn field_args(args: Seq<Seq<char>>) -> Seq<Seq<char>> {
    if args.len() >= 1 && is_marker_ref(args[0]) {
        args.drop_first()
    } else {
        args
    }
}

/// What the field statement `s` declares, or why it is refused.
pub open spec fn field_of(s: StatementModel) -> Result<FieldModel, KeyframeFault> {
    let a = field_args(s.args);
    if s.body.len() != 0 {
        Err(KeyframeFault::Malformed(s.name))
    } else if s.name == "pos"@ {
        if a.len() == 3 { Ok(FieldModel::Position(a[0], a[1], a[2])) } else { Err(KeyframeFault::Malformed(s.name)) }
    } else if s.name == "look_at"@ {
        if a.len() == 3 { Ok(FieldModel::LookAt(a[0], a[1], a[2])) } else { Err(KeyframeFault::Malformed(s.name)) }
    } else if s.name == "euler"@ {
        if a.len() < 3 {
            Err(KeyframeFault::Malformed(s.name))
        } else if a.len() == 3 || a[3] == "degrees"@ {
            Ok(FieldModel::Euler(a[0], a[1], a[2], false))
        } else if a[3] == "radians"@ {
            Ok(FieldModel::Euler(a[0], a[1], a[2], true))
        } else {
            Err(KeyframeFault::UnknownUnit(a[3]))
        }
    } else if s.name == "quat"@ || s.name == "quaternion"@ {
        if a.len() == 4 { Ok(FieldModel::Quat(a[0], a[1], a[2], a[3])) } else { Err(KeyframeFault::Malformed(s.name)) }
    } else {
        Err(KeyframeFault::UnknownArgument(s.name))
    }
}

/// The fields of a keyframe read so far: its marker, position and rotation.
pub struct FieldsModel {
    pub marker: Option<Seq<char>>,
    pub pos: Option<FieldModel>,
    pub rot: Option<FieldModel>,
}

/// The fields declared by `body[..i]`, or why they are refused.
pub open spec fn fields_upto(body: Seq<StatementModel>, i: int) -> Result<FieldsModel, KeyframeFault>
    decreases i,
{
    if i <= 0 {
        Ok(FieldsModel { marker: None, pos: None, rot: None })
    } else {
        match fields_upto(body, i - 1) {
            Err(f) => Err(f),
            Ok(acc) => {
                let s = body[i - 1];
                let marker = if s.args.len() >= 1 && is_marker_ref(s.args[0]) {
                    Some(s.args[0].drop_first())
                } else {
                    acc.marker
                };
                match field_of(s) {
                    Err(f) => Err(f),
                    Ok(FieldModel::Position(x, y, z)) => if acc.pos is Some {
                        Err(KeyframeFault::DuplicatePosition)
                    } else {
                        Ok(FieldsModel { marker, pos: Some(FieldModel::Position(x, y, z)), rot: acc.rot })
                    },
                    Ok(r) => if acc.rot is Some {
                        Err(KeyframeFault::DuplicateRotation)
                    } else {
                        Ok(FieldsModel { marker, pos: acc.pos, rot: Some(r) })
                    },
                }
            },
        }
    }
}

/// The keyframe statement `st` is refused, and why.
pub open spec fn keyframe_fault(st: StatementModel) -> Option<KeyframeFault> {
    if st.args.len() == 0 {
        Some(KeyframeFault::NoArgs)
    } else {
        match fields_upto(st.body, st.body.len() as int) {
            Err(f) => Some(f),
            Ok(_) => None,
        }
    }
}

/// The model of a rotation.
pub open spec fn rotation_model(r: Rotation) -> FieldModel {
    match r {
        Rotation::Absolute(w, x, y, z) => FieldModel::Quat(w@, x@, y@, z@),
        Rotation::Euler(p, y, r, rad) => FieldModel::Euler(p@, y@, r@, rad),
        Rotation::LookAt(v) => FieldModel::LookAt(v.x@, v.y@, v.z@),
    }
}

/// `k` is the keyframe that `st` declares.
pub open spec fn keyframe_of(st: StatementModel, k: Keyframe) -> bool {
    &&& st.args.len() >= 1
    &&& k.t@ == st.args[0]
    &&& k.relative == (st.args.len() > 1 && st.args[1] == "+"@)
    &&& fields_upto(st.body, st.body.len() as int) matches Ok(acc)
    &&& (match k.marker { Some(m) => acc.marker == Some(m@), None => acc.marker is None })
    &&& (match k.pos {
        Param::Override(p) => acc.pos == Some(FieldModel::Position(p.x@, p.y@, p.z@)),
        Param::Reuse => acc.pos is None,
    })
    &&& (match k.rot {
        Param::Override(r) => acc.rot == Some(rotation_model(r)),
        Param::Reuse => acc.rot is None,
    })
}

/// Copies a string.
fn dup(s: &String) -> (r: String)
    ensures
        r@ == s@,
{
    s.clone()
}

/// The text of `s` without its first character.
fn tail_text(s: &String) -> (r: String)
    requires
        s@.len() >= 1,
    ensures
        r@ == s@.drop_first(),
{
    let v = chars_vec(s.as_str());
    let mut out: Vec<char> = Vec::new();
    let mut i: usize = 1;
    while i < v.len()
        invariant
            1 <= i <= v@.len(),
            v@ == s@,
            out@ == s@.subrange(1, i as int),
        decreases v@.len() - i,
    {
        out.push(v[i]);
        assert(s@.subrange(1, i + 1) == s@.subrange(1, i as int).push(s@[i as int]));
        i = i + 1;
    }
    string_of_chars(&out)
}

/// The first argument names a marker.
fn marker_ref(args: &Vec<String>) -> (r: bool)
    ensures
        r == (args@.len() >= 1 && is_marker_ref(args@[0]@)),
{
    if args.len() == 0 {
        return false;
    }
    let v = chars_vec(args[0].as_str());
    v.len() >= 1 && v[0] == '$'
}

fn vec3_of(a: &Vec<String>) -> (r: Vec3Text)
    requires
        3 <= a@.len(),
    ensures
        r.x@ == a@[0]@,
        r.y@ == a@[1]@,
        r.z@ == a@[2]@,
{
    Vec3Text { x: dup(&a[0]), y: dup(&a[1]), z: dup(&a[2]) }
}

/// A declared field: position or rotation.
enum Field {
    Position(Vec3Text),
    Rotation(Rotation),
}

spec fn field_model(f: Field) -> FieldModel {
    match f {
        Field::Position(v) => FieldModel::Position(v.x@, v.y@, v.z@),
        Field::Rotation(r) => rotation_model(r),
    }
}

/// Reads the field statement `s`.
fn parse_field(s: &Statement) -> (r: Result<Field, KeyframeError>)
    ensures
        match r {
            Ok(f) => field_of(s@) == Ok::<FieldModel, KeyframeFault>(field_model(f)),
            Err(e) => field_of(s@) matches Err(f) && reports_fault(e, f),
        },
{
    let ghost a_m = field_args(s@.args);
    let mut a = copy_strings(&s.args);
    if marker_ref(&s.args) {
        a.remove(0);
    }
    assert(views(a@) =~= a_m);
    let n = a.len();
    if s.body.len() != 0 {
        return Err(KeyframeError::Malformed(dup(&s.name)));
    }
    let name = s.name.as_str();
    if same_text(name, "pos") {
        if n != 3 {
            return Err(KeyframeError::Malformed(dup(&s.name)));
        }
        Ok(Field::Position(vec3_of(&a)))
    } else if same_text(name, "look_at") {
        if n != 3 {
            return Err(KeyframeError::Malformed(dup(&s.name)));
        }
        Ok(Field::Rotation(Rotation::LookAt(vec3_of(&a))))
    } else if same_text(name, "euler") {
        if n < 3 {
            return Err(KeyframeError::Malformed(dup(&s.name)));
        }
        let radians = if n == 3 || same_text(a[3].as_str(), "degrees") {
            false
        } else if same_text(a[3].as_str(), "radians") {
            true
        } else {
            return Err(KeyframeError::UnknownUnit(dup(&a[3])));
        };
        Ok(Field::Rotation(Rotation::Euler(dup(&a[0]), dup(&a[1]), dup(&a[2]), radians)))
    } else if same_text(name, "quat") || same_text(name, "quaternion") {
        if n != 4 {
            return Err(KeyframeError::Malformed(dup(&s.name)));
        }
        Ok(Field::Rotation(Rotation::Absolute(dup(&a[0]), dup(&a[1]), dup(&a[2]), dup(&a[3]))))
    } else {
        Err(KeyframeError::UnknownArgument(dup(&s.name)))
    }
}

/// Reads a `keyframe(t[, "+"]) { fields }` statement.
pub fn parse_keyframe(stmt: &Statement) -> (r: Result<Keyframe, KeyframeError>)
    ensures
        match r {
            Ok(k) => keyframe_fault(stmt@) is None && keyframe_of(stmt@, k),
            Err(e) => keyframe_fault(stmt@) matches Some(f) && reports_fault(e, f),
        },
{
    if stmt.args.len() == 0 {
        return Err(KeyframeError::NoArgs);
    }
    let t = dup(&stmt.args[0]);
    let relative = stmt.args.len() > 1 && same_text(stmt.args[1].as_str(), "+");
    let mut marker: Option<String> = None;
    let mut pos: Option<Vec3Text> = None;
    let mut rot: Option<Rotation> = None;
    let ghost body = stmt@.body;
    let mut i: usize = 0;
    while i < stmt.body.len()
        invariant
            0 <= i <= stmt.body@.len(),
            body == stmt@.body,
            body.len() == stmt.body@.len(),
            stmt@.args.len() >= 1,
            fields_upto(body, i as int) matches Ok(acc) && (match marker {
                Some(m) => acc.marker == Some(m@),
                None => acc.marker is None,
            }) && (match pos {
                Some(p) => acc.pos == Some(FieldModel::Position(p.x@, p.y@, p.z@)),
                None => acc.pos is None,
            }) && (match rot {
                Some(r) => acc.rot == Some(rotation_model(r)),
                None => acc.rot is None,
            }),
        decreases stmt.body@.len() - i,
    {
        let s = &stmt.body[i];
        assert(body[i as int] == s@);
        let ghost acc0 = fields_upto(body, i as int);
        if marker_ref(&s.args) {
            marker = Some(tail_text(&s.args[0]));
        }
        match parse_field(s) {
            Err(e) => {
                proof {
                    let f = field_of(body[i as int])->Err_0;
                    assert(fields_upto(body, i + 1) == Err::<FieldsModel, KeyframeFault>(f));
                    lemma_fields_err_stays(body, i + 1, body.len() as int);
                }
                return Err(e);
            },
            Ok(Field::Position(p)) => {
                if pos.is_some() {
                    proof { lemma_fields_err_stays(body, i + 1, body.len() as int); }
                    return Err(KeyframeError::Duplicate("position".to_owned()));
                }
                pos = Some(p);
            },
            Ok(Field::Rotation(x)) => {
                assert(!(rotation_model(x) is Position));
                if rot.is_some() {
                    proof { lemma_fields_err_stays(body, i + 1, body.len() as int); }
                    return Err(KeyframeError::Duplicate("rotation".to_owned()));
                }
                rot = Some(x);
            },
        }
        i = i + 1;
    }
    Ok(
        Keyframe {
            t,
            relative,
            marker,
            pos: match pos {
                Some(p) => Param::Override(p),
                None => Param::Reuse,
            },
            rot: match rot {
                Some(x) => Param::Override(x),
                None => Param::Reuse,
            },
        },
    )
}

/// The marker statement `st` is well formed.
pub open spec fn marker_ok(st: StatementModel) -> bool {
    st.args.len() == 4
}

/// Reads a `marker(name, x, y, z)` statement.
pub fn parse_marker(stmt: &Statement) -> (r: Result<Marker, MarkerError>)
    ensures
        match r {
            Ok(m) => marker_ok(stmt@) && m.name@ == stmt@.args[0] && v3(m.pos) == (
                stmt@.args[1],
                stmt@.args[2],
                stmt@.args[3],
            ),
            Err(_) => !marker_ok(stmt@),
        },
{
    if stmt.args.len() != 4 {
        return Err(MarkerError::WrongNumberOfArguments);
    }
    let pos = Vec3Text { x: dup(&stmt.args[1]), y: dup(&stmt.args[2]), z: dup(&stmt.args[3]) };
    Ok(Marker { name: dup(&stmt.args[0]), pos })
}

/// The markers as a map from name to position; a later marker of a name
/// replaces an earlier one.
pub open spec fn marker_map(ms: Seq<Marker>) -> Map<Seq<char>, (Seq<char>, Seq<char>, Seq<char>)>
    decreases ms.len(),
{
    if ms.len() == 0 {
        Map::empty()
    } else {
        marker_map(ms.drop_last()).insert(ms.last().name@, v3(ms.last().pos))
    }
}

/// The body statement `s` of a camera block is legal.
pub open spec fn camera_item_ok(s: StatementModel) -> bool {
    (s.name == "keyframe"@ && keyframe_fault(s) is None) || (s.name != "keyframe"@ && s.name
        == "marker"@ && marker_ok(s))
}

/// The camera block `st` compiles.
pub open spec fn camera_ok(st: StatementModel) -> bool {
    st.args.len() == 0 && forall|i: int| 0 <= i < st.body.len() ==> camera_item_ok(#[trigger] st.body[i])
}

/// Why a camera block is refused.
pub enum CameraFault {
    Arguments,
    /// the name of the statement
    UnknownStatement(Seq<char>),
    Keyframe(KeyframeFault),
    Marker,
}

/// Why the body statement `s` of a camera block is refused, if it is.
pub open spec fn item_fault(s: StatementModel) -> Option<CameraFault> {
    if s.name == "keyframe"@ {
        match keyframe_fault(s) {
            Some(f) => Some(CameraFault::Keyframe(f)),
            None => None,
        }
    } else if s.name == "marker"@ {
        if marker_ok(s) { None } else { Some(CameraFault::Marker) }
    } else {
        Some(CameraFault::UnknownStatement(s.name))
    }
}

/// The fault of the first refused statement among `body[..i]`.
pub open spec fn first_item_fault(body: Seq<StatementModel>, i: int) -> Option<CameraFault>
    decreases i,
{
    if i <= 0 {
        None
    } else {
        match first_item_fault(body, i - 1) {
            Some(f) => Some(f),
            None => item_fault(body[i - 1]),
        }
    }
}

/// Why the camera block `st` is refused: it has arguments, or the first of
/// its statements that is refused.
pub open spec fn camera_fault(st: StatementModel) -> Option<CameraFault> {
    if st.args.len() != 0 {
        Some(CameraFault::Arguments)
    } else {
        first_item_fault(st.body, st.body.len() as int)
    }
}

/// The error `e` reports the fault `f`.
pub open spec fn reports_camera_fault(e: CameraDescError, f: CameraFault) -> bool {
    match f {
        CameraFault::Arguments => e is Arguments,
        CameraFault::UnknownStatement(n) => e matches CameraDescError::UnknownStatement(w) && w@ == n,
        CameraFault::Keyframe(k) => e matches CameraDescError::Keyframe(x) && reports_fault(x, k),
        CameraFault::Marker => e matches CameraDescError::Marker(MarkerError::WrongNumberOfArguments),
    }
}

/// Once a statement is refused, it stays the first refused.
proof fn lemma_item_fault_stays(body: Seq<StatementModel>, i: int, j: int)
    requires
        first_item_fault(body, i) is Some,
        i <= j,
    ensures
        first_item_fault(body, j) == first_item_fault(body, i),
    decreases j - i,
{
    if i < j {
        lemma_item_fault_stays(body, i, j - 1);
    }
}

/// The keyframe statements of `body[..i]`, in order.
pub open spec fn keyframe_stmts(body: Seq<StatementModel>, i: int) -> Seq<StatementModel>
    decreases i,
{
    if i <= 0 {
        Seq::empty()
    } else if body[i - 1].name == "keyframe"@ {
        keyframe_stmts(body, i - 1).push(body[i - 1])
    } else {
        keyframe_stmts(body, i - 1)
    }
}

/// The markers declared by `body[..i]`.
pub open spec fn markers_declared(body: Seq<StatementModel>, i: int) -> Map<
    Seq<char>,
    (Seq<char>, Seq<char>, Seq<char>),
>
    decreases i,
{
    if i <= 0 {
        Map::empty()
    } else if body[i - 1].name != "keyframe"@ && body[i - 1].name == "marker"@ {
        markers_declared(body, i - 1).insert(
            body[i - 1].args[0],
            (body[i - 1].args[1], body[i - 1].args[2], body[i - 1].args[3]),
        )
    } else {
        markers_declared(body, i - 1)
    }
}

/// `c` is the camera that the block `st` declares.
pub open spec fn camera_of(st: StatementModel, c: CameraDesc) -> bool {
    let ks = keyframe_stmts(st.body, st.body.len() as int);
    &&& c.timeline@.len() == ks.len()
    &&& forall|i: int| 0 <= i < ks.len() ==> keyframe_of(ks[i], #[trigger] c.timeline@[i])
    &&& marker_map(c.markers@) == markers_declared(st.body, st.body.len() as int)
}

impl CameraDesc {
    /// Compiles a `camera { ... }` block: keyframes in the order given, and
    /// markers.
    pub fn new(stmt: &Statement) -> (r: Result<CameraDesc, CameraDescError>)
        ensures
            match r {
                Ok(c) => camera_ok(stmt@) && camera_fault(stmt@) is None && camera_of(stmt@, c),
                Err(e) => !camera_ok(stmt@) && (camera_fault(stmt@) matches Some(f)
                    && reports_camera_fault(e, f)),
            },
    {
        if stmt.args.len() != 0 {
            return Err(CameraDescError::Arguments);
        }
        let ghost body = stmt@.body;
        let mut timeline: Vec<Keyframe> = Vec::new();
        let mut markers: Vec<Marker> = Vec::new();
        let mut i: usize = 0;
        while i < stmt.body.len()
            invariant
                0 <= i <= stmt.body@.len(),
                body == stmt@.body,
                body.len() == stmt.body@.len(),
                stmt@.args.len() == 0,
                forall|j: int| 0 <= j < i ==> camera_item_ok(#[trigger] body[j]),
                first_item_fault(body, i as int) is None,
                timeline@.len() == keyframe_stmts(body, i as int).len(),
                forall|j: int|
                    0 <= j < timeline@.len() ==> keyframe_of(
                        keyframe_stmts(body, i as int)[j],
                        #[trigger] timeline@[j],
                    ),
                marker_map(markers@) == markers_declared(body, i as int),
            decreases stmt.body@.len() - i,
        {
            let s = &stmt.body[i];
            assert(body[i as int] == s@);
            let name = s.name.as_str();
            if same_text(name, "keyframe") {
                match Keyframe::new(s) {
                    Ok(k) => {
                        timeline.push(k);
                    },
                    Err(e) => {
                        proof { lemma_item_fault_stays(body, i + 1, body.len() as int); }
                        return Err(CameraDescError::Keyframe(e));
                    },
                }
            } else if same_text(name, "marker") {
                match parse_marker(s) {
                    Ok(m) => {
                        let ghost before = markers@;
                        markers.push(m);
                        assert(markers@.drop_last() == before);
                    },
                    Err(e) => {
                        proof { lemma_item_fault_stays(body, i + 1, body.len() as int); }
                        return Err(CameraDescError::Marker(e));
                    },
                }
            } else {
                proof { lemma_item_fault_stays(body, i + 1, body.len() as int); }
                return Err(CameraDescError::UnknownStatement(dup(&s.name)));
            }
            i = i + 1;
        }
        Ok(CameraDesc { timeline, markers })
    }
}

/// The nearest keyframe at or before `i` that gives a position.
pub open spec fn pos_source(tl: Seq<Keyframe>, i: int) -> Option<int>
    decreases i + 1,
{
    if i < 0 || i >= tl.len() {
        None
    } else if tl[i].pos is Override {
        Some(i)
    } else {
        pos_source(tl, i - 1)
    }
}

/// The nearest keyframe at or before `i` that gives a rotation.
pub open spec fn rot_source(tl: Seq<Keyframe>, i: int) -> Option<int>
    decreases i + 1,
{
    if i < 0 || i >= tl.len() {
        None
    } else if tl[i].rot is Override {
        Some(i)
    } else {
        rot_source(tl, i - 1)
    }
}

/// The anchor of the marker a keyframe refers to, where that marker exists.
pub open spec fn anchor(c: CameraDesc, m: Option<String>) -> Option<(Seq<char>, Seq<char>, Seq<char>)> {
    match m {
        Some(n) => if marker_map(c.markers@).contains_key(n@) {
            Some(marker_map(c.markers@)[n@])
        } else {
            None
        },
        None => None,
    }
}

/// The position of keyframe `i` once resolved: the anchor (if any) and the
/// offset added to it; `None` where no keyframe so far gives a position.
pub open spec fn resolved_pos(c: CameraDesc, i: int) -> Option<
    (Option<(Seq<char>, Seq<char>, Seq<char>)>, (Seq<char>, Seq<char>, Seq<char>)),
> {
    match pos_source(c.timeline@, i) {
        Some(j) => match c.timeline@[j].pos {
            Param::Override(p) => Some((anchor(c, c.timeline@[j].marker), v3(p))),
            Param::Reuse => None,
        },
        None => None,
    }
}

/// The position of a resolved keyframe: an index into the markers for its
/// anchor, if any, and the index of the keyframe that gives it.
pub struct Resolved {
    pub anchor: Option<usize>,
    pub keyframe: usize,
}

/// Where a sample time falls on the timeline, by the index of the first
/// keyframe at or after it.
#[derive(Debug, Clone, Copy, PartialEq, Eq, Structural)]
pub enum Segment {
    /// before the first keyframe, or on it: its values, or defaults
    Start,
    /// after the last keyframe: its values held
    Hold(usize),
    /// between two keyframes: interpolated
    Between(usize, usize),
}

/// The last marker named `n` in `ms`, and what the map holds for it.
proof fn lemma_marker_map_last(ms: Seq<Marker>, n: Seq<char>, j: int)
    requires
        0 <= j < ms.len(),
        ms[j].name@ == n,
        forall|k: int| j < k < ms.len() ==> (#[trigger] ms[k]).name@ != n,
    ensures
        marker_map(ms).contains_key(n),
        marker_map(ms)[n] == v3(ms[j].pos),
    decreases ms.len(),
{
    if j < ms.len() - 1 {
        lemma_marker_map_last(ms.drop_last(), n, j);
    }
}

/// No marker named `n` in `ms`: the map has no entry for it.
proof fn lemma_marker_map_absent(ms: Seq<Marker>, n: Seq<char>)
    requires
        forall|k: int| 0 <= k < ms.len() ==> (#[trigger] ms[k]).name@ != n,
    ensures
        !marker_map(ms).contains_key(n),
    decreases ms.len(),
{
    if ms.len() > 0 {
        lemma_marker_map_absent(ms.drop_last(), n);
    }
}

impl CameraDesc {
    /// The index of the marker named `name`, the last one declared.
    pub fn marker_index(&self, name: &String) -> (r: Option<usize>)
        ensures
            match r {
                Some(j) => j < self.markers@.len() && marker_map(self.markers@).contains_key(name@)
                    && marker_map(self.markers@)[name@] == v3(self.markers@[j as int].pos),
                None => !marker_map(self.markers@).contains_key(name@),
            },
    {
        let mut i = self.markers.len();
        while i > 0
            invariant
                i <= self.markers@.len(),
                forall|k: int| i <= k < self.markers@.len() ==> (#[trigger] self.markers@[k]).name@ != name@,
            decreases i,
        {
            if same_text(self.markers[i - 1].name.as_str(), name.as_str()) {
                proof { lemma_marker_map_last(self.markers@, name@, i - 1); }
                return Some(i - 1);
            }
            i = i - 1;
        }
        proof { lemma_marker_map_absent(self.markers@, name@); }
        None
    }

    fn anchor_index(&self, m: &Option<String>) -> (r: Option<usize>)
        ensures
            match r {
                Some(j) => j < self.markers@.len() && anchor(*self, *m) == Some(
                    v3(self.markers@[j as int].pos),
                ),
                None => anchor(*self, *m) is None,
            },
    {
        match m {
            Some(n) => self.marker_index(n),
            None => None,
        }
    }

    /// The resolved position of keyframe `frame`: held from the nearest
    /// keyframe at or before it that gives one, offset from its marker.
    pub fn get_pos_at_frame(&self, frame: usize) -> (r: Option<Resolved>)
        ensures
            match r {
                Some(x) => x.keyframe < self.timeline@.len() && pos_source(
                    self.timeline@,
                    frame as int,
                ) == Some(x.keyframe as int) && (match x.anchor {
                    Some(a) => a < self.markers@.len() && anchor(
                        *self,
                        self.timeline@[x.keyframe as int].marker,
                    ) == Some(v3(self.markers@[a as int].pos)),
                    None => anchor(*self, self.timeline@[x.keyframe as int].marker) is None,
                }),
                None => pos_source(self.timeline@, frame as int) is None,
            },
    {
        if frame >= self.timeline.len() {
            return None;
        }
        let mut i = frame + 1;
        while i > 0
            invariant
                i <= frame + 1,
                frame < self.timeline@.len(),
                pos_source(self.timeline@, frame as int) == pos_source(self.timeline@, i - 1),
            decreases i,
        {
            if let Param::Override(_) = &self.timeline[i - 1].pos {
                let a = self.anchor_index(&self.timeline[i - 1].marker);
                return Some(Resolved { anchor: a, keyframe: i - 1 });
            }
            i = i - 1;
        }
        None
    }

    /// The resolved rotation of keyframe `frame`: held from the nearest
    /// keyframe at or before it that gives one; a look-at point is offset
    /// from that keyframe's marker.
    pub fn get_rot_at_frame(&self, frame: usize) -> (r: Option<Resolved>)
        ensures
            match r {
                Some(x) => x.keyframe < self.timeline@.len() && rot_source(
                    self.timeline@,
                    frame as int,
                ) == Some(x.keyframe as int) && (match x.anchor {
                    Some(a) => a < self.markers@.len() && anchor(
                        *self,
                        self.timeline@[x.keyframe as int].marker,
                    ) == Some(v3(self.markers@[a as int].pos)),
                    None => anchor(*self, self.timeline@[x.keyframe as int].marker) is None,
                }),
                None => rot_source(self.timeline@, frame as int) is None,
            },
    {
        if frame >= self.timeline.len() {
            return None;
        }
        let mut i = frame + 1;
        while i > 0
            invariant
                i <= frame + 1,
                frame < self.timeline@.len(),
                rot_source(self.timeline@, frame as int) == rot_source(self.timeline@, i - 1),
            decreases i,
        {
            if let Param::Override(_) = &self.timeline[i - 1].rot {
                let a = self.anchor_index(&self.timeline[i - 1].marker);
                return Some(Resolved { anchor: a, keyframe: i - 1 });
            }
            i = i - 1;
        }
        None
    }

    /// The segment of the timeline that the first keyframe at or after a
    /// sample time, `frame_idx`, starts.
    pub fn segment(&self, frame_idx: usize) -> (r: Segment)
        ensures
            frame_idx == 0 ==> r == Segment::Start,
            0 < frame_idx && frame_idx >= self.timeline@.len() ==> r == Segment::Hold(
                (frame_idx - 1) as usize,
            ),
            0 < frame_idx < self.timeline@.len() ==> r == Segment::Between(
                (frame_idx - 1) as usize,
                frame_idx,
            ),
    {
        if frame_idx == 0 {
            Segment::Start
        } else if frame_idx >= self.timeline.len() {
            Segment::Hold(frame_idx - 1)
        } else {
            Segment::Between(frame_idx - 1, frame_idx)
        }
    }
}

/// A keyframe that reuses its rotation has exactly the resolved rotation
/// of the keyframe before it.
pub proof fn lemma_reuse_inherits_rotation(tl: Seq<Keyframe>, i: int)
    requires
        0 < i < tl.len(),
        tl[i].rot is Reuse,
    ensures
        rot_source(tl, i) == rot_source(tl, i - 1),
{
}

/// A keyframe that reuses its position has exactly the resolved position
/// of the keyframe before it.
pub proof fn lemma_reuse_inherits_position(c: CameraDesc, i: int)
    requires
        0 < i < c.timeline@.len(),
        c.timeline@[i].pos is Reuse,
    ensures
        resolved_pos(c, i) == resolved_pos(c, i - 1),
{
}

/// A keyframe that gives a position relative to an existing marker resolves
/// to that marker's anchor plus the declared position.
pub proof fn lemma_marker_offset(c: CameraDesc, i: int, p: Vec3Text, n: String)
    requires
        0 <= i < c.timeline@.len(),
        c.timeline@[i].pos == Param::Override(p),
        c.timeline@[i].marker == Some(n),
        marker_map(c.markers@).contains_key(n@),
    ensures
        resolved_pos(c, i) == Some((Some(marker_map(c.markers@)[n@]), v3(p))),
{
}

impl Keyframe {
    /// Reads a `keyframe(t[, "+"]) { fields }` statement.
    pub fn new(stmt: &Statement) -> (r: Result<Keyframe, KeyframeError>)
        ensures
            match r {
                Ok(k) => keyframe_fault(stmt@) is None && keyframe_of(stmt@, k),
                Err(e) => keyframe_fault(stmt@) matches Some(f) && reports_fault(e, f),
            },
    {
        parse_keyframe(stmt)
    }
}

/// Once the fields are refused, they stay refused.
proof fn lemma_fields_err_stays(body: Seq<StatementModel>, i: int, j: int)
    requires
        fields_upto(body, i) is Err,
        i <= j,
    ensures
        fields_upto(body, j) == fields_upto(body, i),
    decreases j - i,
{
    if i < j {
        lemma_fields_err_stays(body, i, j - 1);
    }
}

} // verus!
