use vstd::prelude::*;

use crate::attribute::SdfPath;
use crate::mesh::{mesh_status, MeshRecord};
use crate::records::{
    apply_camera_field, apply_distant_light_field, apply_mesh_field, apply_sphere_light_field,
    camera_field_applied, distant_light_field_applied, mesh_field_applied,
    sphere_light_field_applied, CameraField, CameraRecord, DistantLightField, DistantLightRecord,
    MeshField, RenderProduct, RenderSettings, SphereLightField, SphereLightRecord,
};
use crate::resolve::{resolve_mesh, resolved_from, MeshData};
use crate::table::PathTable;

verus! {

/// The time codes that a loaded source spans.
#[derive(Clone, Copy, Debug, PartialEq, Eq, Structural)]
pub struct TimeCodeRange {
    pub start: i64,
    pub end: i64,
}

#[derive(Debug)]
pub enum MeshesDiff {
    Create(SdfPath),
    Update(SdfPath, MeshField),
    /// The mesh's geometry changed; its fields follow as `Update` events.
    DirtyData(SdfPath),
    Destroy(SdfPath),
}

#[derive(Debug)]
pub enum SphereLightsDiff {
    AddOrUpdate(SdfPath),
    Update(SdfPath, SphereLightField),
    Destroy(SdfPath),
}

#[derive(Debug)]
pub enum DistantLightsDiff {
    AddOrUpdate(SdfPath),
    Update(SdfPath, DistantLightField),
    Destroy(SdfPath),
}

#[derive(Debug)]
pub enum CamerasDiff {
    AddOrUpdate(SdfPath),
    Update(SdfPath, CameraField),
    Destroy(SdfPath),
}

#[derive(Debug)]
pub enum RenderSettingsDiff {
    AddOrUpdate(SdfPath),
    /// Settings, product path, camera path.
    SetProduct(SdfPath, SdfPath, SdfPath),
    Destroy(SdfPath),
}

/// One change reported by the scene reader.
#[derive(Debug)]
pub enum SceneDiffItem {
    Mesh(MeshesDiff),
    SphereLight(SphereLightsDiff),
    DistantLight(DistantLightsDiff),
    Camera(CamerasDiff),
    RenderSettings(RenderSettingsDiff),
}

/// The changes of one time-code evaluation, in order.
#[derive(Debug)]
pub struct SceneDiff {
    pub items: Vec<SceneDiffItem>,
}

/// `new` holds key `k`, and agrees with `old` on every other key.
pub open spec fn changed_at<R>(old: Map<Seq<char>, R>, new: Map<Seq<char>, R>, k: Seq<char>) -> bool {
    new.contains_key(k) && new.remove(k) == old.remove(k)
}

pub open spec fn is_fresh_mesh(r: MeshRecord) -> bool {
    &&& r.dirty_transform
    &&& r.dirty_geometry
    &&& !r.left_handed
    &&& r.transform is None
    &&& r.points is None
    &&& r.normals is None
    &&& r.normals_interpolation is None
    &&& r.uvs is None
    &&& r.uvs_interpolation is None
    &&& r.face_vertex_indices is None
    &&& r.face_vertex_counts is None
    &&& r.geom_subsets@.len() == 0
    &&& r.material_path is None
}

pub open spec fn fresh_sphere_light() -> SphereLightRecord {
    SphereLightRecord {
        dirty_transform: true,
        dirty_params: true,
        transform: None,
        color: None,
        intensity: None,
        cone_angle: None,
        cone_softness: None,
    }
}

pub open spec fn fresh_distant_light() -> DistantLightRecord {
    DistantLightRecord {
        dirty_transform: true,
        dirty_params: true,
        transform: None,
        color: None,
        intensity: None,
    }
}

pub open spec fn fresh_camera() -> CameraRecord {
    CameraRecord {
        dirty_transform: true,
        dirty_params: true,
        transform: None,
        focal_length: None,
        vertical_aperture: None,
    }
}

/// The mesh table after event `e`. A create adds a fresh record, or marks an
/// existing one wholly dirty; a setter for a path without a record does nothing.
pub open spec fn mesh_event_applied(
    old: Map<Seq<char>, MeshRecord>,
    e: MeshesDiff,
    new: Map<Seq<char>, MeshRecord>,
) -> bool {
    match e {
        MeshesDiff::Create(p) => changed_at(old, new, p@) && if old.contains_key(p@) {
            new[p@] == MeshRecord { dirty_transform: true, dirty_geometry: true, ..old[p@] }
        } else {
            is_fresh_mesh(new[p@])
        },
        MeshesDiff::Update(p, f) => if old.contains_key(p@) {
            changed_at(old, new, p@) && mesh_field_applied(old[p@], f, new[p@])
        } else {
            new == old
        },
        MeshesDiff::DirtyData(p) => if old.contains_key(p@) {
            new == old.insert(p@, MeshRecord { dirty_geometry: true, ..old[p@] })
        } else {
            new == old
        },
        MeshesDiff::Destroy(p) => new == old.remove(p@),
    }
}

pub open spec fn sphere_light_event_applied(
    old: Map<Seq<char>, SphereLightRecord>,
    e: SphereLightsDiff,
    new: Map<Seq<char>, SphereLightRecord>,
) -> bool {
    match e {
        SphereLightsDiff::AddOrUpdate(p) => new == old.insert(
            p@,
            if old.contains_key(p@) {
                SphereLightRecord { dirty_transform: true, dirty_params: true, ..old[p@] }
            } else {
                fresh_sphere_light()
            },
        ),
        SphereLightsDiff::Update(p, f) => if old.contains_key(p@) {
            changed_at(old, new, p@) && sphere_light_field_applied(old[p@], f, new[p@])
        } else {
            new == old
        },
        SphereLightsDiff::Destroy(p) => new == old.remove(p@),
    }
}

pub open spec fn distant_light_event_applied(
    old: Map<Seq<char>, DistantLightRecord>,
    e: DistantLightsDiff,
    new: Map<Seq<char>, DistantLightRecord>,
) -> bool {
    match e {
        DistantLightsDiff::AddOrUpdate(p) => new == old.insert(
            p@,
            if old.contains_key(p@) {
                DistantLightRecord { dirty_transform: true, dirty_params: true, ..old[p@] }
            } else {
                fresh_distant_light()
            },
        ),
        DistantLightsDiff::Update(p, f) => if old.contains_key(p@) {
            changed_at(old, new, p@) && distant_light_field_applied(old[p@], f, new[p@])
        } else {
            new == old
        },
        DistantLightsDiff::Destroy(p) => new == old.remove(p@),
    }
}

pub open spec fn camera_event_applied(
    old: Map<Seq<char>, CameraRecord>,
    e: CamerasDiff,
    new: Map<Seq<char>, CameraRecord>,
) -> bool {
    match e {
        CamerasDiff::AddOrUpdate(p) => new == old.insert(
            p@,
            if old.contains_key(p@) {
                CameraRecord { dirty_transform: true, dirty_params: true, ..old[p@] }
            } else {
                fresh_camera()
            },
        ),
        CamerasDiff::Update(p, f) => if old.contains_key(p@) {
            changed_at(old, new, p@) && camera_field_applied(old[p@], f, new[p@])
        } else {
            new == old
        },
        CamerasDiff::Destroy(p) => new == old.remove(p@),
    }
}

pub open spec fn render_settings_event_applied(
    old: Map<Seq<char>, RenderSettings>,
    e: RenderSettingsDiff,
    new: Map<Seq<char>, RenderSettings>,
) -> bool {
    match e {
        RenderSettingsDiff::AddOrUpdate(p) => if old.contains_key(p@) {
            new == old
        } else {
            changed_at(old, new, p@) && new[p@].render_products@ == Map::<
                Seq<char>,
                RenderProduct,
            >::empty()
        },
        RenderSettingsDiff::SetProduct(p, product, camera) => if old.contains_key(p@) {
            &&& changed_at(old, new, p@)
            &&& new[p@].render_products@ == old[p@].render_products@.insert(
                product@,
                RenderProduct { camera_path: camera },
            )
        } else {
            new == old
        },
        RenderSettingsDiff::Destroy(p) => new == old.remove(p@),
    }
}

/// The mirror of the scene's records, the meshes resolved from it, and the
/// render-settings selection that decides the active camera.
#[derive(Debug)]
pub struct Scene {
    pub meshes: PathTable<MeshRecord>,
    pub sphere_lights: PathTable<SphereLightRecord>,
    pub distant_lights: PathTable<DistantLightRecord>,
    pub cameras: PathTable<CameraRecord>,
    pub render_settings: PathTable<RenderSettings>,
    pub resolved_meshes: PathTable<MeshData>,
    pub active_settings: Option<SdfPath>,
    pub active_product: Option<SdfPath>,
    pub active_camera: Option<SdfPath>,
    pub time_code_range: Option<TimeCodeRange>,
}

pub open spec fn path_view(p: Option<SdfPath>) -> Option<Seq<char>> {
    match p {
        Some(q) => Some(q@),
        None => None,
    }
}

/// `s` holds no record, no resolved mesh and no selection, and spans `range`.
pub open spec fn empty_scene(s: Scene, range: Option<TimeCodeRange>) -> bool {
    &&& s.meshes@ == Map::<Seq<char>, MeshRecord>::empty()
    &&& s.sphere_lights@ == Map::<Seq<char>, SphereLightRecord>::empty()
    &&& s.distant_lights@ == Map::<Seq<char>, DistantLightRecord>::empty()
    &&& s.cameras@ == Map::<Seq<char>, CameraRecord>::empty()
    &&& s.render_settings@ == Map::<Seq<char>, RenderSettings>::empty()
    &&& s.resolved_meshes@ == Map::<Seq<char>, MeshData>::empty()
    &&& s.active_settings is None
    &&& s.active_product is None
    &&& s.active_camera is None
    &&& s.time_code_range == range
}

/// Nothing but the mesh tables differ between `a` and `b`.
pub open spec fn same_but_meshes(a: Scene, b: Scene) -> bool {
    &&& a.sphere_lights@ == b.sphere_lights@
    &&& a.distant_lights@ == b.distant_lights@
    &&& a.cameras@ == b.cameras@
    &&& a.render_settings@ == b.render_settings@
    &&& a.active_settings == b.active_settings
    &&& a.active_product == b.active_product
    &&& a.active_camera == b.active_camera
    &&& a.time_code_range == b.time_code_range
}

/// Nothing but the light, camera and render-settings tables differ.
pub open spec fn same_meshes_and_selection(a: Scene, b: Scene) -> bool {
    &&& a.meshes@ == b.meshes@
    &&& a.resolved_meshes@ == b.resolved_meshes@
    &&& a.active_settings == b.active_settings
    &&& a.active_product == b.active_product
    &&& a.active_camera == b.active_camera
    &&& a.time_code_range == b.time_code_range
}

/// The scene after applying one change. Only the table that the change
/// addresses changes, and destroying a mesh also drops its resolved form.
pub open spec fn scene_applied(old: Scene, item: SceneDiffItem, new: Scene) -> bool {
    match item {
        SceneDiffItem::Mesh(e) => {
            &&& same_but_meshes(old, new)
            &&& mesh_event_applied(old.meshes@, e, new.meshes@)
            &&& new.resolved_meshes@ == match e {
                MeshesDiff::Destroy(p) => old.resolved_meshes@.remove(p@),
                _ => old.resolved_meshes@,
            }
        },
        SceneDiffItem::SphereLight(e) => {
            &&& same_meshes_and_selection(old, new)
            &&& sphere_light_event_applied(old.sphere_lights@, e, new.sphere_lights@)
            &&& new.distant_lights@ == old.distant_lights@
            &&& new.cameras@ == old.cameras@
            &&& new.render_settings@ == old.render_settings@
        },
        SceneDiffItem::DistantLight(e) => {
            &&& same_meshes_and_selection(old, new)
            &&& distant_light_event_applied(old.distant_lights@, e, new.distant_lights@)
            &&& new.sphere_lights@ == old.sphere_lights@
            &&& new.cameras@ == old.cameras@
            &&& new.render_settings@ == old.render_settings@
        },
        SceneDiffItem::Camera(e) => {
            &&& same_meshes_and_selection(old, new)
            &&& camera_event_applied(old.cameras@, e, new.cameras@)
            &&& new.sphere_lights@ == old.sphere_lights@
            &&& new.distant_lights@ == old.distant_lights@
            &&& new.render_settings@ == old.render_settings@
        },
        SceneDiffItem::RenderSettings(e) => {
            &&& same_meshes_and_selection(old, new)
            &&& render_settings_event_applied(old.render_settings@, e, new.render_settings@)
            &&& new.sphere_lights@ == old.sphere_lights@
            &&& new.distant_lights@ == old.distant_lights@
            &&& new.cameras@ == old.cameras@
        },
    }
}

impl Scene {
    pub open spec fn wf(&self) -> bool {
        &&& self.meshes.wf()
        &&& self.sphere_lights.wf()
        &&& self.distant_lights.wf()
        &&& self.cameras.wf()
        &&& self.render_settings.wf()
        &&& self.resolved_meshes.wf()
        &&& forall|k: Seq<char>| #[trigger]
            self.render_settings@.contains_key(k) ==> self.render_settings@[k].render_products.wf()
    }

    /// An empty scene spanning `range`, with nothing selected.
    pub fn new(range: Option<TimeCodeRange>) -> (r: Scene)
        ensures
            r.wf(),
            empty_scene(r, range),
    {
        Scene {
            meshes: PathTable::new(),
            sphere_lights: PathTable::new(),
            distant_lights: PathTable::new(),
            cameras: PathTable::new(),
            render_settings: PathTable::new(),
            resolved_meshes: PathTable::new(),
            active_settings: None,
            active_product: None,
            active_camera: None,
            time_code_range: range,
        }
    }

    fn apply_sphere_light_event(&mut self, e: SphereLightsDiff)
        requires
            old(self).wf(),
        ensures
            final(self).wf(),
            scene_applied(*old(self), SceneDiffItem::SphereLight(e), *final(self)),
    {
        let ghost before = self.sphere_lights@;
        match e {
            SphereLightsDiff::AddOrUpdate(p) => {
                match self.sphere_lights.remove(&p) {
                    Some(mut r) => {
                        r.dirty_transform = true;
                        r.dirty_params = true;
                        self.sphere_lights.insert(p, r);
                    },
                    None => {
                        let r = SphereLightRecord {
                            dirty_transform: true,
                            dirty_params: true,
                            transform: None,
                            color: None,
                            intensity: None,
                            cone_angle: None,
                            cone_softness: None,
                        };
                        self.sphere_lights.insert(p, r);
                    },
                }
                assert(self.sphere_lights@ =~= before.insert(
                    p@,
                    if before.contains_key(p@) {
                        SphereLightRecord { dirty_transform: true, dirty_params: true, ..before[p@] }
                    } else {
                        fresh_sphere_light()
                    },
                ));
            },
            SphereLightsDiff::Update(p, f) => {
                match self.sphere_lights.remove(&p) {
                    Some(mut r) => {
                        apply_sphere_light_field(&mut r, f);
                        self.sphere_lights.insert(p, r);
                        assert(self.sphere_lights@.remove(p@) =~= before.remove(p@));
                    },
                    None => {
                        assert(self.sphere_lights@ =~= before);
                    },
                }
            },
            SphereLightsDiff::Destroy(p) => {
                let _ = self.sphere_lights.remove(&p);
            },
        }
    }

    fn apply_distant_light_event(&mut self, e: DistantLightsDiff)
        requires
            old(self).wf(),
        ensures
            final(self).wf(),
            scene_applied(*old(self), SceneDiffItem::DistantLight(e), *final(self)),
    {
        let ghost before = self.distant_lights@;
        match e {
            DistantLightsDiff::AddOrUpdate(p) => {
                match self.distant_lights.remove(&p) {
                    Some(mut r) => {
                        r.dirty_transform = true;
                        r.dirty_params = true;
                        self.distant_lights.insert(p, r);
                    },
                    None => {
                        let r = DistantLightRecord {
                            dirty_transform: true,
                            dirty_params: true,
                            transform: None,
                            color: None,
                            intensity: None,
                        };
                        self.distant_lights.insert(p, r);
                    },
                }
                assert(self.distant_lights@ =~= before.insert(
                    p@,
                    if before.contains_key(p@) {
                        DistantLightRecord { dirty_transform: true, dirty_params: true, ..before[p@] }
                    } else {
                        fresh_distant_light()
                    },
                ));
            },
            DistantLightsDiff::Update(p, f) => {
                match self.distant_lights.remove(&p) {
                    Some(mut r) => {
                        apply_distant_light_field(&mut r, f);
                        self.distant_lights.insert(p, r);
                        assert(self.distant_lights@.remove(p@) =~= before.remove(p@));
                    },
                    None => {
                        assert(self.distant_lights@ =~= before);
                    },
                }
            },
            DistantLightsDiff::Destroy(p) => {
                let _ = self.distant_lights.remove(&p);
            },
        }
    }

    fn apply_camera_event(&mut self, e: CamerasDiff)
        requires
            old(self).wf(),
        ensures
            final(self).wf(),
            scene_applied(*old(self), SceneDiffItem::Camera(e), *final(self)),
    {
        let ghost before = self.cameras@;
        match e {
            CamerasDiff::AddOrUpdate(p) => {
                match self.cameras.remove(&p) {
                    Some(mut r) => {
                        r.dirty_transform = true;
                        r.dirty_params = true;
                        self.cameras.insert(p, r);
                    },
                    None => {
                        let r = CameraRecord {
                            dirty_transform: true,
                            dirty_params: true,
                            transform: None,
                            focal_length: None,
                            vertical_aperture: None,
                        };
                        self.cameras.insert(p, r);
                    },
                }
                assert(self.cameras@ =~= before.insert(
                    p@,
                    if before.contains_key(p@) {
                        CameraRecord { dirty_transform: true, dirty_params: true, ..before[p@] }
                    } else {
                        fresh_camera()
                    },
                ));
            },
            CamerasDiff::Update(p, f) => {
                match self.cameras.remove(&p) {
                    Some(mut r) => {
                        apply_camera_field(&mut r, f);
                        self.cameras.insert(p, r);
                        assert(self.cameras@.remove(p@) =~= before.remove(p@));
                    },
                    None => {
                        assert(self.cameras@ =~= before);
                    },
                }
            },
            CamerasDiff::Destroy(p) => {
                let _ = self.cameras.remove(&p);
            },
        }
    }

    fn apply_render_settings_event(&mut self, e: RenderSettingsDiff)
        requires
            old(self).wf(),
        ensures
            final(self).wf(),
            scene_applied(*old(self), SceneDiffItem::RenderSettings(e), *final(self)),
    {
        let ghost before = self.render_settings@;
        match e {
            RenderSettingsDiff::AddOrUpdate(p) => {
                match self.render_settings.remove(&p) {
                    Some(r) => {
                        self.render_settings.insert(p, r);
                        assert(self.render_settings@ =~= before);
                    },
                    None => {
                        let r = RenderSettings { render_products: PathTable::new() };
                        self.render_settings.insert(p, r);
                        assert(self.render_settings@.remove(p@) =~= before.remove(p@));
                    },
                }
            },
            RenderSettingsDiff::SetProduct(p, product, camera) => {
                match self.render_settings.remove(&p) {
                    Some(mut r) => {
                        r.render_products.insert(product, RenderProduct { camera_path: camera });
                        self.render_settings.insert(p, r);
                        assert(self.render_settings@.remove(p@) =~= before.remove(p@));
                    },
                    None => {
                        assert(self.render_settings@ =~= before);
                    },
                }
            },
            RenderSettingsDiff::Destroy(p) => {
                let _ = self.render_settings.remove(&p);
            },
        }
    }

    /// Applies one change of the scene reader to the mirror.
    pub fn apply(&mut self, item: SceneDiffItem)
        requires
            old(self).wf(),
        ensures
            final(self).wf(),
            scene_applied(*old(self), item, *final(self)),
    {
        match item {
            SceneDiffItem::Mesh(e) => self.apply_mesh_event(e),
            SceneDiffItem::SphereLight(e) => self.apply_sphere_light_event(e),
            SceneDiffItem::DistantLight(e) => self.apply_distant_light_event(e),
            SceneDiffItem::Camera(e) => self.apply_camera_event(e),
            SceneDiffItem::RenderSettings(e) => self.apply_render_settings_event(e),
        }
    }

    fn apply_mesh_event(&mut self, e: MeshesDiff)
        requires
            old(self).wf(),
        ensures
            final(self).wf(),
            scene_applied(*old(self), SceneDiffItem::Mesh(e), *final(self)),
    {
        let ghost before = self.meshes@;
        match e {
            MeshesDiff::Create(p) => {
                match self.meshes.remove(&p) {
                    Some(mut r) => {
                        r.dirty_transform = true;
                        r.dirty_geometry = true;
                        self.meshes.insert(p, r);
                    },
                    None => {
                        let r = MeshRecord {
                            dirty_transform: true,
                            transform: None,
                            dirty_geometry: true,
                            left_handed: false,
                            points: None,
                            normals: None,
                            normals_interpolation: None,
                            uvs: None,
                            uvs_interpolation: None,
                            face_vertex_indices: None,
                            face_vertex_counts: None,
                            geom_subsets: Vec::new(),
                            material_path: None,
                        };
                        self.meshes.insert(p, r);
                    },
                }
                assert(self.meshes@.remove(p@) =~= before.remove(p@));
            },
            MeshesDiff::Update(p, f) => {
                match self.meshes.remove(&p) {
                    Some(mut r) => {
                        apply_mesh_field(&mut r, f);
                        self.meshes.insert(p, r);
                        assert(self.meshes@.remove(p@) =~= before.remove(p@));
                    },
                    None => {
                        assert(self.meshes@ =~= before);
                    },
                }
            },
            MeshesDiff::DirtyData(p) => {
                match self.meshes.remove(&p) {
                    Some(mut r) => {
                        r.dirty_geometry = true;
                        self.meshes.insert(p, r);
                        assert(self.meshes@ =~= before.insert(
                            p@,
                            MeshRecord { dirty_geometry: true, ..before[p@] },
                        ));
                    },
                    None => {
                        assert(self.meshes@ =~= before);
                    },
                }
            },
            MeshesDiff::Destroy(p) => {
                let _ = self.meshes.remove(&p);
                let _ = self.resolved_meshes.remove(&p);
            },
        }
    }
}

/// Mesh `k` after a resolution pass: a dirty mesh that can be resolved gets a
/// new resolved form and is clean; any other keeps its record and its previous
/// resolved form, if it had one.
pub open spec fn mesh_refreshed(
    old_rec: MeshRecord,
    new_rec: MeshRecord,
    old_res: Map<Seq<char>, MeshData>,
    new_res: Map<Seq<char>, MeshData>,
    k: Seq<char>,
) -> bool {
    if old_rec.dirty_geometry && mesh_status(old_rec) is Ok {
        &&& new_rec == MeshRecord { dirty_geometry: false, ..old_rec }
        &&& new_res.contains_key(k)
        &&& resolved_from(new_res[k], old_rec)
        &&& new_res[k].wf()
    } else {
        &&& new_rec == old_rec
        &&& new_res.contains_key(k) == old_res.contains_key(k)
        &&& old_res.contains_key(k) ==> new_res[k] == old_res[k]
    }
}

/// The meshes after a resolution pass of `old`.
pub open spec fn meshes_resolved(old: Scene, new: Scene) -> bool {
    &&& same_but_meshes(old, new)
    &&& new.meshes@.dom() == old.meshes@.dom()
    &&& forall|k: Seq<char>| #[trigger]
        old.meshes@.contains_key(k) ==> mesh_refreshed(
            old.meshes@[k],
            new.meshes@[k],
            old.resolved_meshes@,
            new.resolved_meshes@,
            k,
        )
    &&& forall|k: Seq<char>|
        !old.meshes@.contains_key(k) ==> (#[trigger] new.resolved_meshes@.contains_key(k)
            == old.resolved_meshes@.contains_key(k) && (old.resolved_meshes@.contains_key(k)
            ==> new.resolved_meshes@[k] == old.resolved_meshes@[k]))
}

impl Scene {
    /// Resolves every mesh whose geometry is dirty; a mesh that is not ready
    /// keeps its previous resolved form and stays dirty.
    pub fn resolve_meshes(&mut self)
        requires
            old(self).wf(),
        ensures
            final(self).wf(),
            meshes_resolved(*old(self), *final(self)),
    {
        let keys = self.meshes.keys();
        let ghost old_meshes = self.meshes@;
        let ghost old_res = self.resolved_meshes@;
        let mut i: usize = 0;
        while i < keys.len()
            invariant
                self.wf(),
                same_but_meshes(*old(self), *self),
                old_meshes == old(self).meshes@,
                old_res == old(self).resolved_meshes@,
                i <= keys@.len(),
                forall|j: int| 0 <= j < keys@.len() ==> old_meshes.contains_key(#[trigger] keys@[j]@),
                forall|k: Seq<char>| old_meshes.contains_key(k) ==> exists|j: int| 0 <= j < keys@.len() && #[trigger] keys@[j]@ == k,
                forall|a: int, b: int| 0 <= a < b < keys@.len() ==> keys@[a]@ != keys@[b]@,
                self.meshes@.dom() == old_meshes.dom(),
                forall|j: int| 0 <= j < i ==> #[trigger] mesh_refreshed(
                    old_meshes[keys@[j]@],
                    self.meshes@[keys@[j]@],
                    old_res,
                    self.resolved_meshes@,
                    keys@[j]@,
                ),
                forall|j: int| i <= j < keys@.len() ==> #[trigger] self.meshes@[keys@[j]@] == old_meshes[keys@[j]@]
                    && self.resolved_meshes@.contains_key(keys@[j]@) == old_res.contains_key(keys@[j]@)
                    && (old_res.contains_key(keys@[j]@) ==> self.resolved_meshes@[keys@[j]@] == old_res[keys@[j]@]),
                forall|k: Seq<char>|
                    !old_meshes.contains_key(k) ==> (#[trigger] self.resolved_meshes@.contains_key(k)
                        == old_res.contains_key(k) && (old_res.contains_key(k)
                        ==> self.resolved_meshes@[k] == old_res[k])),
            decreases keys@.len() - i,
        {
            let k = &keys[i];
            let ghost kv = k@;
            let ghost meshes_before = self.meshes@;
            let ghost res_before = self.resolved_meshes@;
            assert(self.meshes@[kv] == old_meshes[kv]);
            match self.meshes.remove(k) {
                Some(mut rec) => {
                    if rec.dirty_geometry {
                        match resolve_mesh(&rec) {
                            Ok(resolved) => {
                                self.resolved_meshes.insert(k.duplicate(), resolved);
                                rec.dirty_geometry = false;
                            },
                            Err(_) => {},
                        }
                    }
                    self.meshes.insert(k.duplicate(), rec);
                },
                None => {},
            }
            proof {
                assert(self.meshes@.remove(kv) =~= meshes_before.remove(kv));
                assert(self.resolved_meshes@.remove(kv) =~= res_before.remove(kv));
                assert(mesh_refreshed(old_meshes[kv], self.meshes@[kv], old_res, self.resolved_meshes@, kv));
                assert(self.meshes@.dom() =~= old_meshes.dom());
                assert forall|j: int| 0 <= j < i + 1 implies #[trigger] mesh_refreshed(
                    old_meshes[keys@[j]@],
                    self.meshes@[keys@[j]@],
                    old_res,
                    self.resolved_meshes@,
                    keys@[j]@,
                ) by {
                    if j < i {
                        let kj = keys@[j]@;
                        assert(kj != kv);
                        assert(mesh_refreshed(old_meshes[kj], meshes_before[kj], old_res, res_before, kj));
                        assert(self.meshes@[kj] == self.meshes@.remove(kv)[kj]);
                        assert(self.resolved_meshes@.contains_key(kj) == self.resolved_meshes@.remove(kv).contains_key(kj));
                        assert(res_before.contains_key(kj) == res_before.remove(kv).contains_key(kj));
                        if res_before.contains_key(kj) {
                            assert(self.resolved_meshes@[kj] == self.resolved_meshes@.remove(kv)[kj]);
                        }
                        if self.resolved_meshes@.contains_key(kj) {
                            assert(self.resolved_meshes@[kj] == self.resolved_meshes@.remove(kv)[kj]);
                        }
                    }
                }
                assert forall|j: int| i + 1 <= j < keys@.len() implies #[trigger] self.meshes@[keys@[j]@] == old_meshes[keys@[j]@]
                    && self.resolved_meshes@.contains_key(keys@[j]@) == old_res.contains_key(keys@[j]@)
                    && (old_res.contains_key(keys@[j]@) ==> self.resolved_meshes@[keys@[j]@] == old_res[keys@[j]@]) by {
                    let kj = keys@[j]@;
                    assert(kj != kv);
                    assert(meshes_before[kj] == old_meshes[kj]);
                    assert(self.meshes@[kj] == self.meshes@.remove(kv)[kj]);
                    assert(self.resolved_meshes@.contains_key(kj) == self.resolved_meshes@.remove(kv).contains_key(kj));
                    if res_before.contains_key(kj) {
                        assert(self.resolved_meshes@[kj] == self.resolved_meshes@.remove(kv)[kj]);
                    }
                }
                assert forall|q: Seq<char>|
                    !old_meshes.contains_key(q) implies (#[trigger] self.resolved_meshes@.contains_key(q)
                        == old_res.contains_key(q) && (old_res.contains_key(q)
                        ==> self.resolved_meshes@[q] == old_res[q])) by {
                    assert(q != kv);
                    assert(self.resolved_meshes@.contains_key(q) == self.resolved_meshes@.remove(kv).contains_key(q));
                    if res_before.contains_key(q) {
                        assert(self.resolved_meshes@[q] == self.resolved_meshes@.remove(kv)[q]);
                    }
                }
            }
            i = i + 1;
        }
        proof {
            assert forall|k: Seq<char>| #[trigger] old_meshes.contains_key(k) implies mesh_refreshed(
                old_meshes[k],
                self.meshes@[k],
                old_res,
                self.resolved_meshes@,
                k,
            ) by {
                let j = choose|j: int| 0 <= j < keys@.len() && #[trigger] keys@[j]@ == k;
            }
        }
    }
}

/// `item` sets fields of a record that `s` does not hold.
pub open spec fn updates_missing_record(s: Scene, item: SceneDiffItem) -> bool {
    match item {
        SceneDiffItem::Mesh(MeshesDiff::Update(p, _)) => !s.meshes@.contains_key(p@),
        SceneDiffItem::Mesh(MeshesDiff::DirtyData(p)) => !s.meshes@.contains_key(p@),
        SceneDiffItem::SphereLight(SphereLightsDiff::Update(p, _)) => !s.sphere_lights@.contains_key(
            p@,
        ),
        SceneDiffItem::DistantLight(DistantLightsDiff::Update(p, _)) => !s.distant_lights@.contains_key(
            p@,
        ),
        SceneDiffItem::Camera(CamerasDiff::Update(p, _)) => !s.cameras@.contains_key(p@),
        SceneDiffItem::RenderSettings(RenderSettingsDiff::SetProduct(p, _, _)) => !s.render_settings@.contains_key(
            p@,
        ),
        _ => false,
    }
}

/// An update addressed to a path that has no record is dropped: the mirror,
/// the resolved meshes and the selection stay as they were.
pub proof fn lemma_update_before_create_is_dropped(s0: Scene, item: SceneDiffItem, s1: Scene)
    requires
        scene_applied(s0, item, s1),
        updates_missing_record(s0, item),
    ensures
        s1.meshes@ == s0.meshes@,
        s1.resolved_meshes@ == s0.resolved_meshes@,
        s1.sphere_lights@ == s0.sphere_lights@,
        s1.distant_lights@ == s0.distant_lights@,
        s1.cameras@ == s0.cameras@,
        s1.render_settings@ == s0.render_settings@,
        s1.active_settings == s0.active_settings,
        s1.active_product == s0.active_product,
        s1.active_camera == s0.active_camera,
        s1.time_code_range == s0.time_code_range,
{
}

/// Creating a mesh and destroying it again, with no resolution in between,
/// leaves no record and no resolved mesh for its path, and changes nothing else.
pub proof fn lemma_create_then_destroy(s0: Scene, p: SdfPath, q: SdfPath, s1: Scene, s2: Scene)
    requires
        q@ == p@,
        scene_applied(s0, SceneDiffItem::Mesh(MeshesDiff::Create(p)), s1),
        scene_applied(s1, SceneDiffItem::Mesh(MeshesDiff::Destroy(q)), s2),
    ensures
        !s2.meshes@.contains_key(p@),
        !s2.resolved_meshes@.contains_key(p@),
        s2.meshes@ == s0.meshes@.remove(p@),
        s2.resolved_meshes@ == s0.resolved_meshes@.remove(p@),
        same_but_meshes(s0, s2),
{
    assert(s2.meshes@ =~= s0.meshes@.remove(p@));
}

} // verus!
