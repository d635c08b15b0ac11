//! Loading and hot-reloading a scene: the decisions, apart from reading the
//! file and the clock.

use vstd::prelude::*;
use crate::camera::CameraDesc;
use crate::parser::scene_of;
use crate::scene::{compiled, error_fault, scene_fault, GeneratedScene, SceneDesc, SceneDescError};

verus! {

/// Loads a scene file, and loads it again when it has changed.
#[derive(Debug)]
pub struct SceneDescLoader {
    /// the path of the scene source
    pub file: String,
    /// whether a loaded scene keeps its camera
    pub use_camera: bool,
    /// the time of the last load, or modification seen
    pub last_update: u128,
}

/// `d` is what a load of `source` gives, with the camera kept or dropped.
pub open spec fn loaded(source: Seq<u8>, assets: GeneratedScene, use_camera: bool, d: SceneDesc) -> bool {
    match scene_of(source) {
        None => false,
        Some(ms) => if use_camera {
            compiled(ms, assets, d)
        } else {
            d.camera is None && exists|c: Option<CameraDesc>|
                compiled(ms, assets, SceneDesc { vertex: d.vertex, fragment: d.fragment, camera: c })
        },
    }
}

/// `e` is the error a load of `source` reports.
pub open spec fn load_error(source: Seq<u8>, e: SceneDescError) -> bool {
    match scene_of(source) {
        None => e is ParseError,
        Some(ms) => error_fault(e) is Some && scene_fault(ms) == error_fault(e),
    }
}

impl SceneDescLoader {
    /// A loader of the scene at `path`, as of the time `now`; it keeps
    /// cameras.
    pub fn new(path: String, now: u128) -> (r: SceneDescLoader)
        ensures
            r.file == path,
            r.use_camera,
            r.last_update == now,
    {
        SceneDescLoader { file: path, use_camera: true, last_update: now }
    }

    /// Keeps or drops the cameras of the scenes loaded from now on.
    pub fn switch_camera(&mut self, enabled: bool)
        ensures
            final(self).use_camera == enabled,
            final(self).file == old(self).file,
            final(self).last_update == old(self).last_update,
    {
        self.use_camera = enabled;
    }

    /// Compiles the scene source `source`, read at time `now`. On success
    /// the load time becomes `now`; on failure nothing changes.
    pub fn load(&mut self, source: &[u8], assets: &GeneratedScene, now: u128) -> (r: Result<SceneDesc, SceneDescError>)
        ensures
            final(self).file == old(self).file,
            final(self).use_camera == old(self).use_camera,
            match r {
                Ok(d) => loaded(source@, *assets, old(self).use_camera, d) && final(self).last_update == now,
                Err(e) => load_error(source@, e) && final(self).last_update == old(self).last_update,
            },
    {
        let mut desc = match SceneDesc::parse(source, assets) {
            Ok(d) => d,
            Err(e) => return Err(e),
        };
        if !self.use_camera {
            let ghost c0 = desc.camera;
            let ghost d0 = desc;
            desc.camera = None;
            assert(d0 == SceneDesc { vertex: desc.vertex, fragment: desc.fragment, camera: c0 });
        }
        self.last_update = now;
        Ok(desc)
    }

    /// The file, last modified at `modified`, changed since it was last seen.
    pub fn is_updated(&self, modified: u128) -> (r: bool)
        ensures
            r == (modified > self.last_update),
    {
        modified > self.last_update
    }

    /// Where the file, last modified at `modified`, changed since it was
    /// last seen, compiles its contents `source` (read at `now`) and
    /// remembers `modified`; else gives nothing and changes nothing.
    pub fn load_if_updated(
        &mut self,
        modified: u128,
        source: &[u8],
        assets: &GeneratedScene,
        now: u128,
    ) -> (r: Option<Result<SceneDesc, SceneDescError>>)
        ensures
            final(self).file == old(self).file,
            final(self).use_camera == old(self).use_camera,
            modified <= old(self).last_update ==> r is None && final(self).last_update == old(self).last_update,
            modified > old(self).last_update ==> final(self).last_update == modified && match r {
                Some(Ok(d)) => loaded(source@, *assets, old(self).use_camera, d),
                Some(Err(e)) => load_error(source@, e),
                None => false,
            },
    {
        if modified > self.last_update {
            let r = self.load(source, assets, now);
            self.last_update = modified;
            Some(r)
        } else {
            None
        }
    }
}

/// Takes a reloaded scene where there is one: a scene that compiled
/// replaces `current`; an error leaves `current` as it was and is handed
/// back to be reported.
pub fn replace_scene(current: &mut SceneDesc, update: Option<Result<SceneDesc, SceneDescError>>) -> (r: Option<SceneDescError>)
    ensures
        match update {
            Some(Ok(d)) => *final(current) == d && r is None,
            Some(Err(e)) => *final(current) == *old(current) && r == Some(e),
            None => *final(current) == *old(current) && r is None,
        },
{
    match update {
        Some(Ok(d)) => {
            *current = d;
            None
        },
        Some(Err(e)) => Some(e),
        None => None,
    }
}

/// Takes up an edit of the scene file: where the file, last modified at
/// `modified`, changed since it was last seen, its contents `source` are
/// compiled; a scene that compiles replaces `current`, and an error is
/// handed back while `current` stays as it was.
pub fn update_scene(
    loader: &mut SceneDescLoader,
    current: &mut SceneDesc,
    modified: u128,
    source: &[u8],
    assets: &GeneratedScene,
    now: u128,
) -> (r: Option<SceneDescError>)
    ensures
        final(loader).file == old(loader).file,
        final(loader).use_camera == old(loader).use_camera,
        modified <= old(loader).last_update ==> r is None && *final(current) == *old(current)
            && final(loader).last_update == old(loader).last_update,
        modified > old(loader).last_update ==> final(loader).last_update == modified && match r {
            None => loaded(source@, *assets, old(loader).use_camera, *final(current)),
            Some(e) => load_error(source@, e) && *final(current) == *old(current),
        },
        modified > old(loader).last_update && scene_of(source@) is None ==> (r matches Some(
            SceneDescError::ParseError,
        )) && *final(current) == *old(current),
{
    let update = loader.load_if_updated(modified, source, assets, now);
    replace_scene(current, update)
}

} // verus!
