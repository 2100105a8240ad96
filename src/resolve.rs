use vstd::prelude::*;

use crate::attribute::Interpolation;
use crate::mesh::{
    attribute_words, check_corner_total, check_covers, compose, composed, count_triangles,
    covers_ints, gather2, gather3, gathered, lemma_fan_upto_bounds, mesh_status, usable_mode,
    MeshError, MeshRecord,
};
use crate::submesh::{parts_match, split_parts, SubMesh};
use crate::topology::{
    as_ints, lemma_left_handed_reverses_winding, lemma_triangulation_len, tri_total,
    triangulate, triangulation,
};

verus! {

/// What is needed to reconstruct vertex normals that the mesh does not provide:
/// each fan triangle's face normal `normalize(cross(p1 - p0, p2 - p0))`, negated
/// when `negate`, is summed into its three points, and each sum is normalized.
#[derive(Debug)]
pub struct NormalPlan {
    pub point_count: usize,
    /// Point indices of every fan triangle `(0, i-1, i)`, three per triangle.
    pub triangles: Vec<usize>,
    pub negate: bool,
}

/// A triangulated mesh ready for upload: three vertices per triangle, each with
/// three position words, three normal words and two texture-coordinate words.
#[derive(Debug)]
pub struct MeshData {
    pub positions: Vec<u32>,
    /// Empty while `normal_plan` says that normals are still to be computed.
    pub normals: Vec<u32>,
    pub uvs: Vec<u32>,
    /// The point that each vertex was taken from.
    pub vertex_points: Vec<usize>,
    pub normal_plan: Option<NormalPlan>,
    pub sub_meshes: Vec<SubMesh>,
}

impl MeshData {
    pub open spec fn wf(&self) -> bool {
        self.normal_plan is Some ==> covers_ints(
            3 * self.normal_plan->0.point_count,
            3,
            as_ints(self.vertex_points@),
        )
    }

    /// Fills in the normals of a mesh that needed them computed, from one
    /// normal (three words) per point.
    pub fn fill_normals(&mut self, point_normals: &Vec<u32>)
        requires
            old(self).wf(),
            old(self).normal_plan is Some,
            point_normals@.len() == 3 * old(self).normal_plan->0.point_count,
        ensures
            final(self).normals@ == gathered(point_normals@, 3, as_ints(old(self).vertex_points@)),
            final(self).normal_plan is None,
            final(self).positions == old(self).positions,
            final(self).uvs == old(self).uvs,
            final(self).vertex_points == old(self).vertex_points,
            final(self).sub_meshes == old(self).sub_meshes,
    {
        let normals = gather3(point_normals, &self.vertex_points);
        self.normals = normals;
        self.normal_plan = None;
    }
}

/// Normals as resolved: copied when provided in a supported way, otherwise
/// left to the plan.
pub open spec fn normals_match(r: MeshData, m: MeshRecord, corners: Seq<int>) -> bool {
    let fvi = m.face_vertex_indices->0@;
    match usable_mode(m.normals, m.normals_interpolation, 3, fvi) {
        Some(mode) => {
            &&& r.normal_plan is None
            &&& r.normals@ == attribute_words(m.normals->0@, mode, 3, corners, fvi)
        },
        None => {
            &&& r.normals@.len() == 0
            &&& r.normal_plan is Some
            &&& r.normal_plan->0.point_count == m.points->0@.len() / 3
            &&& as_ints(r.normal_plan->0.triangles@) == composed(
                fvi,
                triangulation(m.face_vertex_counts->0@, false),
            )
            &&& r.normal_plan->0.negate == m.left_handed
        },
    }
}

/// Texture coordinates as resolved: copied when provided in a supported way,
/// otherwise zero.
pub open spec fn uvs_match(r: MeshData, m: MeshRecord, corners: Seq<int>) -> bool {
    let fvi = m.face_vertex_indices->0@;
    match usable_mode(m.uvs, m.uvs_interpolation, 2, fvi) {
        Some(mode) => r.uvs@ == attribute_words(m.uvs->0@, mode, 2, corners, fvi),
        None => r.uvs@ == Seq::new((2 * corners.len()) as nat, |j: int| 0u32),
    }
}

/// `r` is the resolution of the mesh `m`.
pub open spec fn resolved_from(r: MeshData, m: MeshRecord) -> bool {
    let counts = m.face_vertex_counts->0@;
    let fvi = m.face_vertex_indices->0@;
    let corners = triangulation(counts, m.left_handed);
    &&& as_ints(r.vertex_points@) == composed(fvi, corners)
    &&& r.positions@ == gathered(m.points->0@, 3, composed(fvi, corners))
    &&& normals_match(r, m, corners)
    &&& uvs_match(r, m, corners)
    &&& parts_match(r.sub_meshes@, m.geom_subsets@, counts, m.material_path)
}

/// The supported interpolation of optional attribute data, if any.
pub fn usable(data: &Option<Vec<u32>>, mode: Option<Interpolation>, stride: usize, fvi: &Vec<u32>) -> (r:
    Option<Interpolation>)
    requires
        stride == 2 || stride == 3,
    ensures
        r == usable_mode(*data, mode, stride as int, fvi@),
{
    match (data, mode) {
        (Some(d), Some(Interpolation::Vertex)) => {
            if check_covers(d.len(), stride, fvi) {
                Some(Interpolation::Vertex)
            } else {
                None
            }
        },
        (Some(d), Some(Interpolation::FaceVarying)) => {
            let ok = fvi.len() <= d.len() / stride;
            assert(ok == (stride * fvi@.len() <= d@.len())) by (nonlinear_arith)
                requires
                    ok == (fvi@.len() as int <= (d@.len() as int) / (stride as int)),
                    stride == 2 || stride == 3,
            ;
            if ok {
                Some(Interpolation::FaceVarying)
            } else {
                None
            }
        },
        _ => None,
    }
}

/// Two zero words for each of `n` vertices.
fn zero_pairs(n: usize) -> (r: Vec<u32>)
    ensures
        r@ == Seq::new((2 * n) as nat, |j: int| 0u32),
{
    let mut out: Vec<u32> = Vec::new();
    let mut k: usize = 0;
    while k < n
        invariant
            k <= n,
            out@ == Seq::new((2 * k) as nat, |j: int| 0u32),
        decreases n - k,
    {
        out.push(0);
        out.push(0);
        assert(out@ =~= Seq::new((2 * (k + 1)) as nat, |j: int| 0u32));
        k = k + 1;
    }
    out
}

/// Triangulates a mesh and lays out its vertex attributes and material parts.
/// A mesh lacking a required field, or whose fields disagree, is not ready and
/// yields the first reason of `mesh_status`.
pub fn resolve_mesh(m: &MeshRecord) -> (r: Result<MeshData, MeshError>)
    ensures
        r is Ok <==> mesh_status(*m) is Ok,
        r is Err ==> mesh_status(*m) == Err::<(), MeshError>(r->Err_0),
        r is Ok ==> resolved_from(r->Ok_0, *m) && r->Ok_0.wf(),
{
    let points = match &m.points {
        Some(p) => p,
        None => return Err(MeshError::MissingPoints),
    };
    let fvi = match &m.face_vertex_indices {
        Some(v) => v,
        None => return Err(MeshError::MissingFaceVertexIndices),
    };
    let counts = match &m.face_vertex_counts {
        Some(c) => c,
        None => return Err(MeshError::MissingFaceVertexCounts),
    };
    if !check_corner_total(counts, fvi.len()) {
        return Err(MeshError::CountMismatch);
    }
    let nf = counts.len();
    if nf > 0 && nf - 1 > u32::MAX as usize {
        return Err(MeshError::TooLarge);
    }
    let t = count_triangles(counts);
    if t > (u32::MAX / 3) as usize {
        return Err(MeshError::TooLarge);
    }
    if !check_covers(points.len(), 3, fvi) {
        return Err(MeshError::PointOutOfRange);
    }
    let left_handed = m.left_handed;
    let corners = triangulate(counts, left_handed);
    proof {
        lemma_fan_upto_bounds(counts@, counts@.len() as int, left_handed);
        assert forall|j: int| 0 <= j < corners@.len() implies corners@[j] < fvi@.len() by {
            assert(as_ints(corners@)[j] == corners@[j] as int);
        }
    }
    let vertex_points = compose(fvi, &corners);
    proof {
        assert forall|j: int| 0 <= j < as_ints(vertex_points@).len() implies 0 <= #[trigger] as_ints(
            vertex_points@,
        )[j] && 3 * as_ints(vertex_points@)[j] + 3 <= points@.len() by {
            assert(composed(fvi@, as_ints(corners@))[j] == fvi@[as_ints(corners@)[j]] as int);
        }
    }
    let positions = gather3(points, &vertex_points);
    let normal_mode = usable(&m.normals, m.normals_interpolation, 3, fvi);
    let (normals, normal_plan) = match (&m.normals, normal_mode) {
        (Some(d), Some(Interpolation::FaceVarying)) => {
            proof {
                assert forall|j: int| 0 <= j < as_ints(corners@).len() implies 0 <= #[trigger] as_ints(
                    corners@,
                )[j] && 3 * as_ints(corners@)[j] + 3 <= d@.len() by {}
            }
            (gather3(d, &corners), None)
        },
        (Some(d), Some(Interpolation::Vertex)) => {
            proof {
                assert forall|j: int| 0 <= j < as_ints(vertex_points@).len() implies 0
                    <= #[trigger] as_ints(vertex_points@)[j] && 3 * as_ints(vertex_points@)[j] + 3
                    <= d@.len() by {
                    assert(composed(fvi@, as_ints(corners@))[j] == fvi@[as_ints(corners@)[j]] as int);
                }
            }
            (gather3(d, &vertex_points), None)
        },
        _ => {
            let fan = triangulate(counts, false);
            proof {
                lemma_fan_upto_bounds(counts@, counts@.len() as int, false);
                assert forall|j: int| 0 <= j < fan@.len() implies fan@[j] < fvi@.len() by {
                    assert(as_ints(fan@)[j] == fan@[j] as int);
                }
            }
            let triangles = compose(fvi, &fan);
            (
                Vec::new(),
                Some(NormalPlan { point_count: points.len() / 3, triangles, negate: left_handed }),
            )
        },
    };
    let uv_mode = usable(&m.uvs, m.uvs_interpolation, 2, fvi);
    let uvs = match (&m.uvs, uv_mode) {
        (Some(d), Some(Interpolation::FaceVarying)) => {
            proof {
                assert forall|j: int| 0 <= j < as_ints(corners@).len() implies 0 <= #[trigger] as_ints(
                    corners@,
                )[j] && 2 * as_ints(corners@)[j] + 2 <= d@.len() by {}
            }
            gather2(d, &corners)
        },
        (Some(d), Some(Interpolation::Vertex)) => {
            proof {
                assert forall|j: int| 0 <= j < as_ints(vertex_points@).len() implies 0
                    <= #[trigger] as_ints(vertex_points@)[j] && 2 * as_ints(vertex_points@)[j] + 2
                    <= d@.len() by {
                    assert(composed(fvi@, as_ints(corners@))[j] == fvi@[as_ints(corners@)[j]] as int);
                }
            }
            gather2(d, &vertex_points)
        },
        _ => zero_pairs(corners.len()),
    };
    let sub_meshes = split_parts(&m.geom_subsets, counts, &m.material_path);
    let r = MeshData { positions, normals, uvs, vertex_points, normal_plan, sub_meshes };
    proof {
        if r.normal_plan is Some {
            assert forall|j: int| 0 <= j < as_ints(r.vertex_points@).len() implies 0
                <= #[trigger] as_ints(r.vertex_points@)[j] && 3 * as_ints(r.vertex_points@)[j] + 3
                <= 3 * (points@.len() / 3) by {
                let p = as_ints(r.vertex_points@)[j];
                assert(3 * p + 3 <= points@.len());
                assert(3 * p + 3 <= 3 * (points@.len() / 3)) by (nonlinear_arith)
                    requires
                        3 * p + 3 <= points@.len(),
                        0 <= p,
                ;
            }
        }
    }
    Ok(r)
}

/// Resolving the same mesh as left-handed instead of right-handed lists every
/// triangle's vertices in reverse order, and where normals are computed, the
/// plan is the same but for the sign of the face normals.
pub proof fn lemma_handedness_reverses_resolution(m: MeshRecord, right: MeshData, left: MeshData)
    requires
        mesh_status(m) is Ok,
        !m.left_handed,
        resolved_from(right, m),
        resolved_from(left, MeshRecord { left_handed: true, ..m }),
    ensures
        right.vertex_points@.len() == left.vertex_points@.len(),
        forall|t: int, c: int|
            0 <= t && 0 <= c < 3 && 3 * t + c < left.vertex_points@.len() ==> #[trigger] left.vertex_points@[3 * t + c]
                == right.vertex_points@[3 * t + (2 - c)],
        right.normal_plan is Some <==> left.normal_plan is Some,
        right.normal_plan is Some ==> left.normal_plan->0.triangles@ == right.normal_plan->0.triangles@
            && left.normal_plan->0.point_count == right.normal_plan->0.point_count
            && !right.normal_plan->0.negate && left.normal_plan->0.negate,
{
    let counts = m.face_vertex_counts->0@;
    let fvi = m.face_vertex_indices->0@;
    lemma_left_handed_reverses_winding(counts);
    let tl = triangulation(counts, true);
    let tr = triangulation(counts, false);
    lemma_triangulation_len(counts, true);
    lemma_triangulation_len(counts, false);
    assert(left.vertex_points@.len() == 3 * tri_total(counts));
    assert(right.vertex_points@.len() == 3 * tri_total(counts));
    assert(as_ints(left.vertex_points@).len() == left.vertex_points@.len());
    assert(as_ints(right.vertex_points@).len() == right.vertex_points@.len());
    assert forall|t: int, c: int|
        0 <= t && 0 <= c < 3 && 3 * t + c < left.vertex_points@.len() implies #[trigger] left.vertex_points@[3 * t + c]
            == right.vertex_points@[3 * t + (2 - c)] by {
        assert(as_ints(left.vertex_points@)[3 * t + c] == left.vertex_points@[3 * t + c] as int);
        assert(as_ints(right.vertex_points@)[3 * t + (2 - c)] == right.vertex_points@[3 * t + (2 - c)] as int);
        assert(tl[3 * t + c] == tr[3 * t + (2 - c)]);
    }
    if right.normal_plan is Some {
        assert(as_ints(left.normal_plan->0.triangles@) == as_ints(right.normal_plan->0.triangles@));
        assert(left.normal_plan->0.triangles@ =~= right.normal_plan->0.triangles@) by {
            assert forall|j: int| 0 <= j < left.normal_plan->0.triangles@.len() implies left.normal_plan->0.triangles@[j]
                == right.normal_plan->0.triangles@[j] by {
                assert(as_ints(left.normal_plan->0.triangles@)[j] == left.normal_plan->0.triangles@[j] as int);
                assert(as_ints(right.normal_plan->0.triangles@)[j] == right.normal_plan->0.triangles@[j] as int);
            }
        }
    }
}

} // verus!
