use vstd::prelude::*;

use crate::attribute::{Interpolation, SdfPath};
use crate::mesh::{SubMeshData, MeshRecord};
use crate::table::PathTable;

verus! {

/// Last known raw attributes of a sphere light. Both cone parameters present
/// make it a spot light; otherwise it is a point light.
#[derive(Debug)]
pub struct SphereLightRecord {
    pub dirty_transform: bool,
    pub dirty_params: bool,
    pub transform: Option<[u32; 16]>,
    pub color: Option<[u32; 3]>,
    pub intensity: Option<u32>,
    pub cone_angle: Option<u32>,
    pub cone_softness: Option<u32>,
}

/// Last known raw attributes of a distant light.
#[derive(Debug)]
pub struct DistantLightRecord {
    pub dirty_transform: bool,
    pub dirty_params: bool,
    pub transform: Option<[u32; 16]>,
    pub color: Option<[u32; 3]>,
    pub intensity: Option<u32>,
}

/// Last known raw attributes of a camera.
#[derive(Debug)]
pub struct CameraRecord {
    pub dirty_transform: bool,
    pub dirty_params: bool,
    pub transform: Option<[u32; 16]>,
    pub focal_length: Option<u32>,
    pub vertical_aperture: Option<u32>,
}

/// One output of a render-settings record: the camera it renders from.
#[derive(Debug)]
pub struct RenderProduct {
    pub camera_path: SdfPath,
}

/// A render-settings record: its products, by product path.
#[derive(Debug)]
pub struct RenderSettings {
    pub render_products: PathTable<RenderProduct>,
}

pub open spec fn is_spot_light(r: SphereLightRecord) -> bool {
    r.cone_angle is Some && r.cone_softness is Some
}

impl SphereLightRecord {
    pub fn is_spot(&self) -> (r: bool)
        ensures
            r == is_spot_light(*self),
    {
        self.cone_angle.is_some() && self.cone_softness.is_some()
    }
}

/// A field that an update event sets on a mesh.
#[derive(Debug)]
pub enum MeshField {
    Transform([u32; 16]),
    LeftHanded(bool),
    Points(Vec<u32>),
    Normals(Vec<u32>),
    NormalsInterpolation(Interpolation),
    Uvs(Vec<u32>),
    UvsInterpolation(Interpolation),
    FaceVertexIndices(Vec<u32>),
    FaceVertexCounts(Vec<u32>),
    GeomSubset { name: String, kind: String, face_indices: Vec<u32> },
    GeomSubsetMaterial { name: String, material_path: String },
    Material(String),
}

#[derive(Debug)]
pub enum SphereLightField {
    Transform([u32; 16]),
    Color([u32; 3]),
    Intensity(u32),
    ConeAngle(u32),
    ConeSoftness(u32),
}

#[derive(Debug)]
pub enum DistantLightField {
    Transform([u32; 16]),
    Color([u32; 3]),
    Intensity(u32),
}

#[derive(Debug)]
pub enum CameraField {
    Transform([u32; 16]),
    FocalLength(u32),
    VerticalAperture(u32),
}

/// The first subset from `j` on named `name`, or `subs.len()`.
pub open spec fn find_subset_from(subs: Seq<SubMeshData>, j: int, name: Seq<char>) -> int
    decreases subs.len() - j,
{
    if j >= subs.len() {
        subs.len() as int
    } else if subs[j].name@ == name {
        j
    } else {
        find_subset_from(subs, j + 1, name)
    }
}

pub open spec fn find_subset(subs: Seq<SubMeshData>, name: Seq<char>) -> int {
    find_subset_from(subs, 0, name)
}

/// `new` is `old` with the subset `name` (the first of that name, or a new one
/// appended with no material) given `kind` and `faces`.
pub open spec fn subset_shape_set(
    old: Seq<SubMeshData>,
    new: Seq<SubMeshData>,
    name: Seq<char>,
    kind: Seq<char>,
    faces: Seq<u32>,
) -> bool {
    let i = find_subset(old, name);
    &&& new.len() == if i < old.len() {
        old.len() as int
    } else {
        (old.len() + 1) as int
    }
    &&& forall|j: int| 0 <= j < old.len() && j != i ==> new[j] == old[j]
    &&& new[i].name@ == name
    &&& new[i].kind@ == kind
    &&& new[i].face_indices@ == faces
    &&& new[i].material_path == if i < old.len() {
        old[i].material_path
    } else {
        None
    }
}

/// `new` is `old` with the subset `name` (the first of that name, or a new one
/// appended with no kind and no faces) bound to `material`.
pub open spec fn subset_material_set(
    old: Seq<SubMeshData>,
    new: Seq<SubMeshData>,
    name: Seq<char>,
    material: String,
) -> bool {
    let i = find_subset(old, name);
    &&& new.len() == if i < old.len() {
        old.len() as int
    } else {
        (old.len() + 1) as int
    }
    &&& forall|j: int| 0 <= j < old.len() && j != i ==> new[j] == old[j]
    &&& new[i].name@ == name
    &&& new[i].material_path == Some(material)
    &&& if i < old.len() {
        new[i].kind == old[i].kind && new[i].face_indices == old[i].face_indices
    } else {
        new[i].kind@.len() == 0 && new[i].face_indices@.len() == 0
    }
}

/// `new` is mesh `old` after an update of field `f`: exactly that field is
/// overwritten, and the transform or the geometry is marked dirty.
pub open spec fn mesh_field_applied(old: MeshRecord, f: MeshField, new: MeshRecord) -> bool {
    match f {
        MeshField::Transform(t) => new == MeshRecord {
            transform: Some(t),
            dirty_transform: true,
            ..old
        },
        MeshField::LeftHanded(b) => new == MeshRecord { left_handed: b, dirty_geometry: true, ..old },
        MeshField::Points(v) => new == MeshRecord { points: Some(v), dirty_geometry: true, ..old },
        MeshField::Normals(v) => new == MeshRecord { normals: Some(v), dirty_geometry: true, ..old },
        MeshField::NormalsInterpolation(i) => new == MeshRecord {
            normals_interpolation: Some(i),
            dirty_geometry: true,
            ..old
        },
        MeshField::Uvs(v) => new == MeshRecord { uvs: Some(v), dirty_geometry: true, ..old },
        MeshField::UvsInterpolation(i) => new == MeshRecord {
            uvs_interpolation: Some(i),
            dirty_geometry: true,
            ..old
        },
        MeshField::FaceVertexIndices(v) => new == MeshRecord {
            face_vertex_indices: Some(v),
            dirty_geometry: true,
            ..old
        },
        MeshField::FaceVertexCounts(v) => new == MeshRecord {
            face_vertex_counts: Some(v),
            dirty_geometry: true,
            ..old
        },
        MeshField::GeomSubset { name, kind, face_indices } => {
            &&& subset_shape_set(
                old.geom_subsets@,
                new.geom_subsets@,
                name@,
                kind@,
                face_indices@,
            )
            &&& new == MeshRecord { geom_subsets: new.geom_subsets, dirty_geometry: true, ..old }
        },
        MeshField::GeomSubsetMaterial { name, material_path } => {
            &&& subset_material_set(old.geom_subsets@, new.geom_subsets@, name@, material_path)
            &&& new == MeshRecord { geom_subsets: new.geom_subsets, dirty_geometry: true, ..old }
        },
        MeshField::Material(m) => new == MeshRecord {
            material_path: Some(m),
            dirty_geometry: true,
            ..old
        },
    }
}

pub open spec fn sphere_light_field_applied(
    old: SphereLightRecord,
    f: SphereLightField,
    new: SphereLightRecord,
) -> bool {
    match f {
        SphereLightField::Transform(t) => new == SphereLightRecord {
            transform: Some(t),
            dirty_transform: true,
            ..old
        },
        SphereLightField::Color(c) => new == SphereLightRecord {
            color: Some(c),
            dirty_params: true,
            ..old
        },
        SphereLightField::Intensity(x) => new == SphereLightRecord {
            intensity: Some(x),
            dirty_params: true,
            ..old
        },
        SphereLightField::ConeAngle(x) => new == SphereLightRecord {
            cone_angle: Some(x),
            dirty_params: true,
            ..old
        },
        SphereLightField::ConeSoftness(x) => new == SphereLightRecord {
            cone_softness: Some(x),
            dirty_params: true,
            ..old
        },
    }
}

pub open spec fn distant_light_field_applied(
    old: DistantLightRecord,
    f: DistantLightField,
    new: DistantLightRecord,
) -> bool {
    match f {
        DistantLightField::Transform(t) => new == DistantLightRecord {
            transform: Some(t),
            dirty_transform: true,
            ..old
        },
        DistantLightField::Color(c) => new == DistantLightRecord {
            color: Some(c),
            dirty_params: true,
            ..old
        },
        DistantLightField::Intensity(x) => new == DistantLightRecord {
            intensity: Some(x),
            dirty_params: true,
            ..old
        },
    }
}

pub open spec fn camera_field_applied(old: CameraRecord, f: CameraField, new: CameraRecord) -> bool {
    match f {
        CameraField::Transform(t) => new == CameraRecord {
            transform: Some(t),
            dirty_transform: true,
            ..old
        },
        CameraField::FocalLength(x) => new == CameraRecord {
            focal_length: Some(x),
            dirty_params: true,
            ..old
        },
        CameraField::VerticalAperture(x) => new == CameraRecord {
            vertical_aperture: Some(x),
            dirty_params: true,
            ..old
        },
    }
}

fn find_subset_index(subs: &Vec<SubMeshData>, name: &String) -> (r: usize)
    ensures
        r == find_subset(subs@, name@),
        r <= subs@.len(),
        r < subs@.len() ==> subs@[r as int].name@ == name@,
{
    let mut j: usize = 0;
    while j < subs.len()
        invariant
            j <= subs@.len(),
            find_subset_from(subs@, 0, name@) == find_subset_from(subs@, j as int, name@),
        decreases subs@.len() - j,
    {
        if subs[j].name == *name {
            return j;
        }
        j = j + 1;
    }
    j
}

pub fn apply_mesh_field(r: &mut MeshRecord, f: MeshField)
    ensures
        mesh_field_applied(*old(r), f, *final(r)),
{
    match f {
        MeshField::Transform(t) => {
            r.transform = Some(t);
            r.dirty_transform = true;
        },
        MeshField::LeftHanded(b) => {
            r.left_handed = b;
            r.dirty_geometry = true;
        },
        MeshField::Points(v) => {
            r.points = Some(v);
            r.dirty_geometry = true;
        },
        MeshField::Normals(v) => {
            r.normals = Some(v);
            r.dirty_geometry = true;
        },
        MeshField::NormalsInterpolation(i) => {
            r.normals_interpolation = Some(i);
            r.dirty_geometry = true;
        },
        MeshField::Uvs(v) => {
            r.uvs = Some(v);
            r.dirty_geometry = true;
        },
        MeshField::UvsInterpolation(i) => {
            r.uvs_interpolation = Some(i);
            r.dirty_geometry = true;
        },
        MeshField::FaceVertexIndices(v) => {
            r.face_vertex_indices = Some(v);
            r.dirty_geometry = true;
        },
        MeshField::FaceVertexCounts(v) => {
            r.face_vertex_counts = Some(v);
            r.dirty_geometry = true;
        },
        MeshField::GeomSubset { name, kind, face_indices } => {
            let i = find_subset_index(&r.geom_subsets, &name);
            let ghost before = r.geom_subsets@;
            if i < r.geom_subsets.len() {
                let mut s = r.geom_subsets.remove(i);
                s.kind = kind;
                s.face_indices = face_indices;
                let ghost changed = s;
                r.geom_subsets.insert(i, s);
                assert(r.geom_subsets@ =~= before.update(i as int, changed));
            } else {
                r.geom_subsets.push(SubMeshData { name, kind, face_indices, material_path: None });
            }
            r.dirty_geometry = true;
        },
        MeshField::GeomSubsetMaterial { name, material_path } => {
            let i = find_subset_index(&r.geom_subsets, &name);
            let ghost before = r.geom_subsets@;
            if i < r.geom_subsets.len() {
                let mut s = r.geom_subsets.remove(i);
                s.material_path = Some(material_path);
                let ghost changed = s;
                r.geom_subsets.insert(i, s);
                assert(r.geom_subsets@ =~= before.update(i as int, changed));
            } else {
                r.geom_subsets.push(
                    SubMeshData {
                        name,
                        kind: String::new(),
                        face_indices: Vec::new(),
                        material_path: Some(material_path),
                    },
                );
            }
            r.dirty_geometry = true;
        },
        MeshField::Material(m) => {
            r.material_path = Some(m);
            r.dirty_geometry = true;
        },
    }
}

pub fn apply_sphere_light_field(r: &mut SphereLightRecord, f: SphereLightField)
    ensures
        sphere_light_field_applied(*old(r), f, *final(r)),
{
    match f {
        SphereLightField::Transform(t) => {
            r.transform = Some(t);
            r.dirty_transform = true;
        },
        SphereLightField::Color(c) => {
            r.color = Some(c);
            r.dirty_params = true;
        },
        SphereLightField::Intensity(x) => {
            r.intensity = Some(x);
            r.dirty_params = true;
        },
        SphereLightField::ConeAngle(x) => {
            r.cone_angle = Some(x);
            r.dirty_params = true;
        },
        SphereLightField::ConeSoftness(x) => {
            r.cone_softness = Some(x);
            r.dirty_params = true;
        },
    }
}

pub fn apply_distant_light_field(r: &mut DistantLightRecord, f: DistantLightField)
    ensures
        distant_light_field_applied(*old(r), f, *final(r)),
{
    match f {
        DistantLightField::Transform(t) => {
            r.transform = Some(t);
            r.dirty_transform = true;
        },
        DistantLightField::Color(c) => {
            r.color = Some(c);
            r.dirty_params = true;
        },
        DistantLightField::Intensity(x) => {
            r.intensity = Some(x);
            r.dirty_params = true;
        },
    }
}

pub fn apply_camera_field(r: &mut CameraRecord, f: CameraField)
    ensures
        camera_field_applied(*old(r), f, *final(r)),
{
    match f {
        CameraField::Transform(t) => {
            r.transform = Some(t);
            r.dirty_transform = true;
        },
        CameraField::FocalLength(x) => {
            r.focal_length = Some(x);
            r.dirty_params = true;
        },
        CameraField::VerticalAperture(x) => {
            r.vertical_aperture = Some(x);
            r.dirty_params = true;
        },
    }
}

} // verus!
