use usd_scene::attribute::SdfPath;
use usd_scene::records::{CameraField, MeshField, SphereLightField};
use usd_scene::scene::{
    CamerasDiff, MeshesDiff, RenderSettingsDiff, Scene, SceneDiff, SceneDiffItem, SphereLightsDiff,
    TimeCodeRange,
};
use usd_scene::worker::{Command, Worker, WorkerAction};

fn path(s: &str) -> SdfPath {
    SdfPath::new(s.to_string())
}

fn mesh(e: MeshesDiff) -> SceneDiffItem {
    SceneDiffItem::Mesh(e)
}

fn triangle_events(p: &str) -> Vec<SceneDiffItem> {
    vec![
        mesh(MeshesDiff::Create(path(p))),
        mesh(MeshesDiff::Update(path(p), MeshField::Points(vec![0; 9]))),
        mesh(MeshesDiff::Update(path(p), MeshField::FaceVertexIndices(vec![0, 1, 2]))),
        mesh(MeshesDiff::Update(path(p), MeshField::FaceVertexCounts(vec![3]))),
    ]
}

fn settings_scene() -> Scene {
    let mut s = Scene::new(None);
    s.apply(SceneDiffItem::Camera(CamerasDiff::AddOrUpdate(path("/cam"))));
    s.apply(SceneDiffItem::RenderSettings(RenderSettingsDiff::AddOrUpdate(path("/rs"))));
    s.apply(SceneDiffItem::RenderSettings(RenderSettingsDiff::SetProduct(
        path("/rs"),
        path("/rs/p"),
        path("/cam"),
    )));
    s.apply(SceneDiffItem::RenderSettings(RenderSettingsDiff::SetProduct(
        path("/rs"),
        path("/rs/q"),
        path("/gone"),
    )));
    s
}

#[test]
fn update_before_create_is_dropped() {
    let mut s = Scene::new(None);
    s.apply(mesh(MeshesDiff::Update(path("/m"), MeshField::Points(vec![1, 2, 3]))));
    s.apply(mesh(MeshesDiff::DirtyData(path("/m"))));
    s.apply(SceneDiffItem::SphereLight(SphereLightsDiff::Update(
        path("/l"),
        SphereLightField::Intensity(5),
    )));
    s.apply(SceneDiffItem::Camera(CamerasDiff::Update(path("/c"), CameraField::FocalLength(1))));
    s.apply(SceneDiffItem::RenderSettings(RenderSettingsDiff::SetProduct(
        path("/rs"),
        path("/p"),
        path("/c"),
    )));
    assert_eq!(s.meshes.len(), 0);
    assert_eq!(s.sphere_lights.len(), 0);
    assert_eq!(s.cameras.len(), 0);
    assert_eq!(s.render_settings.len(), 0);
    s.resolve_meshes();
    assert_eq!(s.resolved_meshes.len(), 0);
}

#[test]
fn updates_set_only_their_field() {
    let mut s = Scene::new(None);
    for item in triangle_events("/m") {
        s.apply(item);
    }
    s.apply(mesh(MeshesDiff::Update(path("/m"), MeshField::LeftHanded(true))));
    let rec = s.meshes.get(&path("/m")).unwrap();
    assert!(rec.left_handed);
    assert_eq!(rec.points, Some(vec![0; 9]));
    assert_eq!(rec.face_vertex_counts, Some(vec![3]));
    assert!(rec.normals.is_none());
}

#[test]
fn transform_update_does_not_dirty_geometry() {
    let mut s = Scene::new(None);
    for item in triangle_events("/m") {
        s.apply(item);
    }
    s.resolve_meshes();
    assert!(!s.meshes.get(&path("/m")).unwrap().dirty_geometry);
    s.apply(mesh(MeshesDiff::Update(path("/m"), MeshField::Transform([7; 16]))));
    let rec = s.meshes.get(&path("/m")).unwrap();
    assert!(rec.dirty_transform);
    assert!(!rec.dirty_geometry);
    assert_eq!(rec.transform, Some([7; 16]));
}

#[test]
fn resolution_pass_resolves_dirty_meshes() {
    let mut s = Scene::new(None);
    for item in triangle_events("/m") {
        s.apply(item);
    }
    s.resolve_meshes();
    let r = s.resolved_meshes.get(&path("/m")).unwrap();
    assert_eq!(r.vertex_points, vec![0, 1, 2]);
}

#[test]
fn unready_mesh_keeps_previous_result() {
    let mut s = Scene::new(None);
    for item in triangle_events("/m") {
        s.apply(item);
    }
    s.resolve_meshes();
    s.apply(mesh(MeshesDiff::Update(path("/m"), MeshField::FaceVertexCounts(vec![4]))));
    s.resolve_meshes();
    assert!(s.meshes.get(&path("/m")).unwrap().dirty_geometry);
    assert_eq!(s.resolved_meshes.get(&path("/m")).unwrap().vertex_points, vec![0, 1, 2]);
    s.apply(mesh(MeshesDiff::Update(path("/m"), MeshField::FaceVertexCounts(vec![3]))));
    s.apply(mesh(MeshesDiff::Update(path("/m"), MeshField::LeftHanded(true))));
    s.resolve_meshes();
    assert_eq!(s.resolved_meshes.get(&path("/m")).unwrap().vertex_points, vec![2, 1, 0]);
}

#[test]
fn create_then_destroy_leaves_nothing() {
    let mut s = Scene::new(None);
    s.apply(mesh(MeshesDiff::Create(path("/m"))));
    s.apply(mesh(MeshesDiff::Destroy(path("/m"))));
    s.resolve_meshes();
    assert_eq!(s.meshes.len(), 0);
    assert!(!s.resolved_meshes.contains(&path("/m")));
}

#[test]
fn destroy_drops_resolved_mesh() {
    let mut s = Scene::new(None);
    for item in triangle_events("/m") {
        s.apply(item);
    }
    s.resolve_meshes();
    assert!(s.resolved_meshes.contains(&path("/m")));
    s.apply(mesh(MeshesDiff::Destroy(path("/m"))));
    assert!(!s.resolved_meshes.contains(&path("/m")));
}

#[test]
fn geom_subset_updates_by_name() {
    let mut s = Scene::new(None);
    s.apply(mesh(MeshesDiff::Create(path("/m"))));
    s.apply(mesh(MeshesDiff::Update(
        path("/m"),
        MeshField::GeomSubsetMaterial { name: "a".to_string(), material_path: "/mat".to_string() },
    )));
    s.apply(mesh(MeshesDiff::Update(
        path("/m"),
        MeshField::GeomSubset {
            name: "a".to_string(),
            kind: "typeFaceSet".to_string(),
            face_indices: vec![1, 2],
        },
    )));
    let rec = s.meshes.get(&path("/m")).unwrap();
    assert_eq!(rec.geom_subsets.len(), 1);
    assert_eq!(rec.geom_subsets[0].kind, "typeFaceSet");
    assert_eq!(rec.geom_subsets[0].face_indices, vec![1, 2]);
    assert_eq!(rec.geom_subsets[0].material_path.as_deref(), Some("/mat"));
}

#[test]
fn spot_light_needs_both_cone_parameters() {
    let mut s = Scene::new(None);
    s.apply(SceneDiffItem::SphereLight(SphereLightsDiff::AddOrUpdate(path("/l"))));
    s.apply(SceneDiffItem::SphereLight(SphereLightsDiff::Update(
        path("/l"),
        SphereLightField::ConeAngle(1),
    )));
    assert!(!s.sphere_lights.get(&path("/l")).unwrap().is_spot());
    s.apply(SceneDiffItem::SphereLight(SphereLightsDiff::Update(
        path("/l"),
        SphereLightField::ConeSoftness(2),
    )));
    assert!(s.sphere_lights.get(&path("/l")).unwrap().is_spot());
}

#[test]
fn unknown_settings_selection_reverts_to_none() {
    let mut s = settings_scene();
    assert!(s.select_render_settings(Some(path("/rs"))));
    assert!(s.select_render_product(Some(path("/rs/p"))));
    assert!(s.active_camera_record().is_some());
    assert!(!s.select_render_settings(Some(path("/missing"))));
    assert!(s.active_render_settings_path().is_none());
    assert!(s.active_render_product_path().is_none());
    assert!(s.active_camera_record().is_none());
    assert!(!s.select_render_settings(None));
    assert!(s.active_render_settings_path().is_none());
}

#[test]
fn product_selection_picks_its_camera() {
    let mut s = settings_scene();
    assert!(!s.select_render_product(Some(path("/rs/p"))));
    assert!(s.active_render_product_path().is_none());
    s.select_render_settings(Some(path("/rs")));
    assert!(s.select_render_product(Some(path("/rs/p"))));
    assert_eq!(s.active_camera.as_ref().unwrap().0, "/cam");
    assert!(s.select_render_product(Some(path("/rs/q"))));
    assert_eq!(s.active_render_product_path().unwrap().0, "/rs/q");
    assert!(s.active_camera.is_none());
    assert!(!s.select_render_product(Some(path("/rs/x"))));
    assert!(s.active_render_product_path().is_none());
    assert!(s.active_camera.is_none());
}

#[test]
fn destroyed_settings_clear_camera_on_resolution() {
    let mut s = settings_scene();
    s.select_render_settings(Some(path("/rs")));
    s.select_render_product(Some(path("/rs/p")));
    s.apply(SceneDiffItem::RenderSettings(RenderSettingsDiff::Destroy(path("/rs"))));
    assert!(s.active_camera.is_some());
    s.resolve_selection();
    assert!(s.active_camera.is_none());
    assert!(s.active_settings.is_none());
    assert!(s.active_product.is_none());
}

#[test]
fn destroyed_camera_clears_camera_on_resolution() {
    let mut s = settings_scene();
    s.select_render_settings(Some(path("/rs")));
    s.select_render_product(Some(path("/rs/p")));
    s.apply(SceneDiffItem::Camera(CamerasDiff::Destroy(path("/cam"))));
    s.resolve_selection();
    assert!(s.active_camera.is_none());
    assert_eq!(s.active_product.as_ref().unwrap().0, "/rs/p");
}

#[test]
fn worker_loads_and_advances() {
    let mut w = Worker::new();
    assert!(matches!(w.handle(Command::SetTimeCursor(3)), WorkerAction::Publish));
    match w.handle(Command::LoadSource("scene.usd".to_string())) {
        WorkerAction::OpenSource(id) => assert_eq!(id, "scene.usd"),
        other => panic!("unexpected {:?}", other),
    }
    w.source_opened(Some(TimeCodeRange { start: 1, end: 24 }));
    assert!(matches!(w.handle(Command::SetTimeCursor(3)), WorkerAction::Extract(3)));
    w.advance(SceneDiff { items: triangle_events("/m") });
    assert!(w.scene.resolved_meshes.contains(&path("/m")));
    assert_eq!(w.scene.time_code_range, Some(TimeCodeRange { start: 1, end: 24 }));
    assert!(matches!(w.handle(Command::Stop), WorkerAction::Exit));
}

#[test]
fn failed_load_clears_everything() {
    let mut w = Worker::new();
    w.source_opened(Some(TimeCodeRange { start: 0, end: 10 }));
    w.advance(SceneDiff { items: triangle_events("/m") });
    w.source_opened(None);
    assert!(!w.source_open);
    assert_eq!(w.scene.meshes.len(), 0);
    assert_eq!(w.scene.resolved_meshes.len(), 0);
    assert!(w.scene.time_code_range.is_none());
}

#[test]
fn worker_selects_settings() {
    let mut w = Worker::new();
    w.source_opened(Some(TimeCodeRange { start: 0, end: 1 }));
    w.scene = settings_scene();
    assert!(matches!(
        w.handle(Command::SelectRenderSettings(Some(path("/rs")))),
        WorkerAction::Publish
    ));
    assert_eq!(w.scene.active_settings.as_ref().unwrap().0, "/rs");
    w.handle(Command::SelectRenderProduct(Some(path("/rs/p"))));
    assert_eq!(w.scene.active_camera.as_ref().unwrap().0, "/cam");
}
