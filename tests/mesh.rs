use usd_scene::attribute::Interpolation;
use usd_scene::mesh::{SubMeshData, MeshError, MeshRecord};
use usd_scene::resolve::resolve_mesh;
use usd_scene::submesh::SubMesh;
use usd_scene::topology::triangulate;

fn words(values: &[f32]) -> Vec<u32> {
    values.iter().map(|v| v.to_bits()).collect()
}

fn record(points: Vec<u32>, fvi: Vec<u32>, counts: Vec<u32>) -> MeshRecord {
    MeshRecord {
        dirty_transform: true,
        transform: None,
        dirty_geometry: true,
        left_handed: false,
        points: Some(points),
        normals: None,
        normals_interpolation: None,
        uvs: None,
        uvs_interpolation: None,
        face_vertex_indices: Some(fvi),
        face_vertex_counts: Some(counts),
        geom_subsets: Vec::new(),
        material_path: None,
    }
}

fn quad_points() -> Vec<u32> {
    words(&[0.0, 0.0, 0.0, 1.0, 0.0, 0.0, 1.0, 1.0, 0.0, 0.0, 1.0, 0.0])
}

fn subset(name: &str, kind: &str, faces: Vec<u32>, material: Option<&str>) -> SubMeshData {
    SubMeshData {
        name: name.to_string(),
        kind: kind.to_string(),
        face_indices: faces,
        material_path: material.map(|m| m.to_string()),
    }
}

fn part_faces(parts: &[SubMesh]) -> Vec<Vec<u32>> {
    parts.iter().map(|p| p.faces.clone()).collect()
}

#[test]
fn quad_fan_corners() {
    assert_eq!(triangulate(&vec![4], false), vec![0, 1, 2, 0, 2, 3]);
}

#[test]
fn quad_fan_corners_left_handed() {
    assert_eq!(triangulate(&vec![4], true), vec![2, 1, 0, 3, 2, 0]);
}

#[test]
fn polygon_gives_n_minus_two_triangles() {
    assert_eq!(triangulate(&vec![3], false).len(), 3);
    assert_eq!(triangulate(&vec![7], false).len(), 15);
}

#[test]
fn mesh_corner_count_is_sum_of_triangles() {
    let corners = triangulate(&vec![3, 4, 5], false);
    assert_eq!(corners.len(), 18);
    assert_eq!(&corners[0..3], &[0, 1, 2]);
    assert_eq!(&corners[3..9], &[3, 4, 5, 3, 5, 6]);
    assert_eq!(&corners[9..12], &[7, 8, 9]);
}

#[test]
fn degenerate_faces_give_no_triangles() {
    assert_eq!(triangulate(&vec![0, 1, 2, 3], false), vec![3, 4, 5]);
    assert!(triangulate(&vec![], false).is_empty());
}

#[test]
fn left_handed_reverses_every_triangle() {
    let right = triangulate(&vec![5, 3, 4], false);
    let left = triangulate(&vec![5, 3, 4], true);
    assert_eq!(right.len(), left.len());
    for t in 0..right.len() / 3 {
        assert_eq!(left[3 * t], right[3 * t + 2]);
        assert_eq!(left[3 * t + 1], right[3 * t + 1]);
        assert_eq!(left[3 * t + 2], right[3 * t]);
    }
}

#[test]
fn quad_resolves_to_two_triangles() {
    let m = record(quad_points(), vec![0, 1, 2, 3], vec![4]);
    let r = resolve_mesh(&m).unwrap();
    assert_eq!(r.vertex_points, vec![0, 1, 2, 0, 2, 3]);
    assert_eq!(r.positions.len(), 18);
    assert_eq!(&r.positions[3..6], &words(&[1.0, 0.0, 0.0])[..]);
    assert_eq!(&r.positions[15..18], &words(&[0.0, 1.0, 0.0])[..]);
    assert!(r.normals.is_empty());
    let plan = r.normal_plan.as_ref().unwrap();
    assert_eq!(plan.point_count, 4);
    assert_eq!(plan.triangles, vec![0, 1, 2, 0, 2, 3]);
    assert!(!plan.negate);
    assert_eq!(r.uvs, vec![0; 12]);
    assert_eq!(r.sub_meshes.len(), 1);
    assert_eq!(r.sub_meshes[0].indices, vec![0, 1, 2, 3, 4, 5]);
    assert_eq!(r.sub_meshes[0].faces, vec![0]);
}

#[test]
fn left_handed_quad_reverses_winding_and_negates_normals() {
    let mut m = record(quad_points(), vec![0, 1, 2, 3], vec![4]);
    m.left_handed = true;
    let r = resolve_mesh(&m).unwrap();
    assert_eq!(r.vertex_points, vec![2, 1, 0, 3, 2, 0]);
    let plan = r.normal_plan.as_ref().unwrap();
    assert_eq!(plan.triangles, vec![0, 1, 2, 0, 2, 3]);
    assert!(plan.negate);
}

#[test]
fn vertex_normals_follow_points() {
    let mut m = record(quad_points(), vec![3, 2, 1], vec![3]);
    m.normals = Some(words(&[0.0, 0.0, 1.0, 0.0, 0.0, 2.0, 0.0, 0.0, 3.0, 0.0, 0.0, 4.0]));
    m.normals_interpolation = Some(Interpolation::Vertex);
    let r = resolve_mesh(&m).unwrap();
    assert!(r.normal_plan.is_none());
    assert_eq!(r.normals, words(&[0.0, 0.0, 4.0, 0.0, 0.0, 3.0, 0.0, 0.0, 2.0]));
}

#[test]
fn face_varying_normals_follow_corners() {
    let mut m = record(quad_points(), vec![3, 2, 1], vec![3]);
    m.left_handed = true;
    m.normals = Some(words(&[0.0, 0.0, 1.0, 0.0, 0.0, 2.0, 0.0, 0.0, 3.0]));
    m.normals_interpolation = Some(Interpolation::FaceVarying);
    let r = resolve_mesh(&m).unwrap();
    assert_eq!(r.normals, words(&[0.0, 0.0, 3.0, 0.0, 0.0, 2.0, 0.0, 0.0, 1.0]));
}

#[test]
fn unsupported_normal_interpolation_is_computed() {
    let mut m = record(quad_points(), vec![0, 1, 2], vec![3]);
    m.normals = Some(words(&[0.0, 0.0, 1.0]));
    m.normals_interpolation = Some(Interpolation::Uniform);
    let r = resolve_mesh(&m).unwrap();
    assert!(r.normals.is_empty());
    assert!(r.normal_plan.is_some());
}

#[test]
fn short_normal_data_is_computed() {
    let mut m = record(quad_points(), vec![0, 1, 3], vec![3]);
    m.normals = Some(words(&[0.0, 0.0, 1.0, 0.0, 0.0, 1.0]));
    m.normals_interpolation = Some(Interpolation::Vertex);
    let r = resolve_mesh(&m).unwrap();
    assert!(r.normal_plan.is_some());
}

#[test]
fn uvs_by_vertex_and_by_corner() {
    let mut m = record(quad_points(), vec![0, 1, 2], vec![3]);
    m.uvs = Some(words(&[0.0, 0.5, 1.0, 0.5, 1.0, 1.0]));
    m.uvs_interpolation = Some(Interpolation::Vertex);
    let r = resolve_mesh(&m).unwrap();
    assert_eq!(r.uvs, words(&[0.0, 0.5, 1.0, 0.5, 1.0, 1.0]));

    m.left_handed = true;
    m.uvs_interpolation = Some(Interpolation::FaceVarying);
    let r = resolve_mesh(&m).unwrap();
    assert_eq!(r.uvs, words(&[1.0, 1.0, 1.0, 0.5, 0.0, 0.5]));
}

#[test]
fn missing_fields_are_not_ready() {
    let mut m = record(quad_points(), vec![0, 1, 2], vec![3]);
    m.points = None;
    assert_eq!(resolve_mesh(&m).unwrap_err(), MeshError::MissingPoints);
    let mut m = record(quad_points(), vec![0, 1, 2], vec![3]);
    m.face_vertex_indices = None;
    assert_eq!(resolve_mesh(&m).unwrap_err(), MeshError::MissingFaceVertexIndices);
    let mut m = record(quad_points(), vec![0, 1, 2], vec![3]);
    m.face_vertex_counts = None;
    assert_eq!(resolve_mesh(&m).unwrap_err(), MeshError::MissingFaceVertexCounts);
}

#[test]
fn inconsistent_fields_are_not_ready() {
    let m = record(quad_points(), vec![0, 1, 2], vec![4]);
    assert_eq!(resolve_mesh(&m).unwrap_err(), MeshError::CountMismatch);
    let m = record(quad_points(), vec![0, 1, 4], vec![3]);
    assert_eq!(resolve_mesh(&m).unwrap_err(), MeshError::PointOutOfRange);
}

#[test]
fn geom_subsets_partition_faces() {
    let points = words(&[0.0; 18]);
    let fvi = vec![0, 1, 2, 1, 2, 3, 2, 3, 4, 3, 4, 5];
    let mut m = record(points, fvi, vec![3, 3, 3, 3]);
    m.material_path = Some("/mat/base".to_string());
    m.geom_subsets = vec![
        subset("a", "typeFaceSet", vec![0, 2], Some("/mat/a")),
        subset("b", "typeFaceSet", vec![2, 3, 9], None),
        subset("c", "typePointSet", vec![1], Some("/mat/c")),
    ];
    let r = resolve_mesh(&m).unwrap();
    assert_eq!(part_faces(&r.sub_meshes), vec![vec![0, 2], vec![3], vec![1]]);
    assert_eq!(r.sub_meshes[0].indices, vec![0, 1, 2, 6, 7, 8]);
    assert_eq!(r.sub_meshes[1].indices, vec![9, 10, 11]);
    assert_eq!(r.sub_meshes[2].indices, vec![3, 4, 5]);
    assert_eq!(r.sub_meshes[0].material_path.as_deref(), Some("/mat/a"));
    assert_eq!(r.sub_meshes[1].material_path.as_deref(), Some("/mat/base"));
    assert_eq!(r.sub_meshes[2].material_path.as_deref(), Some("/mat/base"));
    let mut seen = vec![0; 4];
    for part in &r.sub_meshes {
        for f in &part.faces {
            seen[*f as usize] += 1;
        }
    }
    assert_eq!(seen, vec![1, 1, 1, 1]);
}

#[test]
fn empty_default_part_is_kept() {
    let mut m = record(quad_points(), vec![0, 1, 2], vec![3]);
    m.geom_subsets = vec![subset("all", "typeFaceSet", vec![0], None)];
    let r = resolve_mesh(&m).unwrap();
    assert_eq!(r.sub_meshes.len(), 2);
    assert_eq!(r.sub_meshes[0].faces, vec![0]);
    assert!(r.sub_meshes[1].faces.is_empty());
    assert!(r.sub_meshes[1].indices.is_empty());
}

#[test]
fn fill_normals_spreads_point_normals() {
    let m = record(quad_points(), vec![0, 1, 2, 3], vec![4]);
    let mut r = resolve_mesh(&m).unwrap();
    let per_point: Vec<u32> = (0..12).collect();
    r.fill_normals(&per_point);
    assert!(r.normal_plan.is_none());
    assert_eq!(
        r.normals,
        vec![0, 1, 2, 3, 4, 5, 6, 7, 8, 0, 1, 2, 6, 7, 8, 9, 10, 11]
    );
}
