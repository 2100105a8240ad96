//! Mesh records and the checks and copies that resolving one needs.
//!
//! Numeric attribute data is carried as the raw bit patterns of IEEE-754
//! single-precision values: the resolver copies them and never does arithmetic.
//! Three words make a point or a normal, two words a texture coordinate.

use vstd::prelude::*;

use crate::attribute::Interpolation;
use crate::topology::{
    as_ints, corner_start, corner_total, face_fan, fan_upto, lemma_corner_start_mono,
    lemma_tri_start_le_corner_start, tri_start, tri_total,
};

verus! {

/// A named group of faces of a mesh, used to bind part of it to a material.
#[derive(Debug)]
pub struct SubMeshData {
    pub name: String,
    pub kind: String,
    pub face_indices: Vec<u32>,
    pub material_path: Option<String>,
}

/// Last known raw attributes of one mesh, with its dirty flags.
#[derive(Debug)]
pub struct MeshRecord {
    pub dirty_transform: bool,
    pub transform: Option<[u32; 16]>,
    pub dirty_geometry: bool,
    pub left_handed: bool,
    pub points: Option<Vec<u32>>,
    pub normals: Option<Vec<u32>>,
    pub normals_interpolation: Option<Interpolation>,
    pub uvs: Option<Vec<u32>>,
    pub uvs_interpolation: Option<Interpolation>,
    pub face_vertex_indices: Option<Vec<u32>>,
    pub face_vertex_counts: Option<Vec<u32>>,
    pub geom_subsets: Vec<SubMeshData>,
    pub material_path: Option<String>,
}

/// Why a mesh cannot be resolved yet; the mesh keeps its previous result.
#[derive(Clone, Copy, Debug, PartialEq, Eq, Structural)]
pub enum MeshError {
    MissingPoints,
    MissingFaceVertexIndices,
    MissingFaceVertexCounts,
    /// The face sizes do not add up to the number of face-vertex indices.
    CountMismatch,
    /// More faces or triangle corners than 32-bit indices can address.
    TooLarge,
    /// A face-vertex index names a point that does not exist.
    PointOutOfRange,
}

/// Every index `k` of `idx` has `stride` words of its own in data of length `len`.
pub open spec fn covers(len: int, stride: int, idx: Seq<u32>) -> bool {
    forall|k: int| 0 <= k < idx.len() ==> stride * (idx[k] as int) + stride <= len
}

pub open spec fn covers_ints(len: int, stride: int, idx: Seq<int>) -> bool {
    forall|k: int| 0 <= k < idx.len() ==> 0 <= idx[k] && stride * idx[k] + stride <= len
}

/// `stride` words of `data` for each index of `idx`, in order.
pub open spec fn gathered(data: Seq<u32>, stride: int, idx: Seq<int>) -> Seq<u32> {
    Seq::new((stride * idx.len()) as nat, |j: int| data[stride * idx[j / stride] + j % stride])
}

/// `idx` looked up in `table`.
pub open spec fn composed(table: Seq<u32>, idx: Seq<int>) -> Seq<int> {
    Seq::new(idx.len(), |j: int| table[idx[j]] as int)
}

pub open spec fn fits_u32_indices(counts: Seq<u32>) -> bool {
    counts.len() <= u32::MAX as int + 1 && 3 * tri_total(counts) <= u32::MAX as int
}

/// Whether a mesh can be resolved, and if not the first reason why.
pub open spec fn mesh_status(m: MeshRecord) -> Result<(), MeshError> {
    if m.points is None {
        Err(MeshError::MissingPoints)
    } else if m.face_vertex_indices is None {
        Err(MeshError::MissingFaceVertexIndices)
    } else if m.face_vertex_counts is None {
        Err(MeshError::MissingFaceVertexCounts)
    } else if corner_total(m.face_vertex_counts->0@) != m.face_vertex_indices->0@.len() {
        Err(MeshError::CountMismatch)
    } else if !fits_u32_indices(m.face_vertex_counts->0@) {
        Err(MeshError::TooLarge)
    } else if !covers(m.points->0@.len() as int, 3, m.face_vertex_indices->0@) {
        Err(MeshError::PointOutOfRange)
    } else {
        Ok(())
    }
}

/// The interpolation under which optional attribute data (`stride` words per
/// value) is used on a mesh whose corners name the points `fvi`: only `Vertex`
/// and `FaceVarying` are supported, and only when the data covers every use.
pub open spec fn usable_mode(
    data: Option<Vec<u32>>,
    mode: Option<Interpolation>,
    stride: int,
    fvi: Seq<u32>,
) -> Option<Interpolation> {
    match (data, mode) {
        (Some(d), Some(Interpolation::Vertex)) => if covers(d@.len() as int, stride, fvi) {
            Some(Interpolation::Vertex)
        } else {
            None
        },
        (Some(d), Some(Interpolation::FaceVarying)) => if stride * fvi.len() <= d@.len() {
            Some(Interpolation::FaceVarying)
        } else {
            None
        },
        _ => None,
    }
}

/// Words of a per-vertex attribute: by corner for `FaceVarying`, by point for
/// `Vertex`.
pub open spec fn attribute_words(
    data: Seq<u32>,
    mode: Interpolation,
    stride: int,
    corners: Seq<int>,
    fvi: Seq<u32>,
) -> Seq<u32> {
    if mode == Interpolation::FaceVarying {
        gathered(data, stride, corners)
    } else {
        gathered(data, stride, composed(fvi, corners))
    }
}

pub proof fn lemma_face_fan_bounds(off: int, n: int, left_handed: bool)
    ensures
        forall|j: int|
            0 <= j < face_fan(off, n, left_handed).len() ==> off <= #[trigger] face_fan(
                off,
                n,
                left_handed,
            )[j] < off + n,
{
}

/// Every corner of the triangles before face `f` lies before that face.
pub proof fn lemma_fan_upto_bounds(counts: Seq<u32>, f: int, left_handed: bool)
    requires
        0 <= f <= counts.len(),
    ensures
        forall|j: int|
            0 <= j < fan_upto(counts, f, left_handed).len() ==> 0 <= #[trigger] fan_upto(
                counts,
                f,
                left_handed,
            )[j] < corner_start(counts, f),
    decreases f,
{
    if f > 0 {
        lemma_fan_upto_bounds(counts, f - 1, left_handed);
        let a = fan_upto(counts, f - 1, left_handed);
        let off = corner_start(counts, f - 1);
        let b = face_fan(off, counts[f - 1] as int, left_handed);
        lemma_face_fan_bounds(off, counts[f - 1] as int, left_handed);
        lemma_corner_start_mono(counts, 0, f - 1);
        assert forall|j: int| 0 <= j < (a + b).len() implies 0 <= #[trigger] (a + b)[j]
            < corner_start(counts, f) by {
            if j >= a.len() {
                assert((a + b)[j] == b[j - a.len()]);
                assert(b[j - a.len()] >= off);
            } else {
                assert((a + b)[j] == a[j]);
                assert(a[j] < off);
            }
        }
    }
}

/// Three words of `data` for each index of `idx`.
pub fn gather3(data: &Vec<u32>, idx: &Vec<usize>) -> (r: Vec<u32>)
    requires
        covers_ints(data@.len() as int, 3, as_ints(idx@)),
    ensures
        r@ == gathered(data@, 3, as_ints(idx@)),
{
    let ghost want = gathered(data@, 3, as_ints(idx@));
    let mut out: Vec<u32> = Vec::new();
    let dl = data.len();
    let mut k: usize = 0;
    while k < idx.len()
        invariant
            k <= idx.len(),
            dl == data@.len(),
            covers_ints(data@.len() as int, 3, as_ints(idx@)),
            want == gathered(data@, 3, as_ints(idx@)),
            out@ == want.take(3 * k),
        decreases idx.len() - k,
    {
        let p = idx[k];
        assert(as_ints(idx@)[k as int] == p as int);
        assert(3 * (p as int) + 3 <= data@.len());
        proof {
            assert(want[3 * k + 0] == data@[3 * p + 0]);
            assert(want[3 * k + 1] == data@[3 * p + 1]);
            assert(want[3 * k + 2] == data@[3 * p + 2]);
        }
        out.push(data[3 * p]);
        out.push(data[3 * p + 1]);
        out.push(data[3 * p + 2]);
        assert(out@ =~= want.take(3 * (k + 1)));
        k = k + 1;
    }
    assert(out@ =~= want);
    out
}

/// Two words of `data` for each index of `idx`.
pub fn gather2(data: &Vec<u32>, idx: &Vec<usize>) -> (r: Vec<u32>)
    requires
        covers_ints(data@.len() as int, 2, as_ints(idx@)),
    ensures
        r@ == gathered(data@, 2, as_ints(idx@)),
{
    let ghost want = gathered(data@, 2, as_ints(idx@));
    let mut out: Vec<u32> = Vec::new();
    let dl = data.len();
    let mut k: usize = 0;
    while k < idx.len()
        invariant
            k <= idx.len(),
            dl == data@.len(),
            covers_ints(data@.len() as int, 2, as_ints(idx@)),
            want == gathered(data@, 2, as_ints(idx@)),
            out@ == want.take(2 * k),
        decreases idx.len() - k,
    {
        let p = idx[k];
        assert(as_ints(idx@)[k as int] == p as int);
        assert(2 * (p as int) + 2 <= data@.len());
        proof {
            assert(want[2 * k + 0] == data@[2 * p + 0]);
            assert(want[2 * k + 1] == data@[2 * p + 1]);
        }
        out.push(data[2 * p]);
        out.push(data[2 * p + 1]);
        assert(out@ =~= want.take(2 * (k + 1)));
        k = k + 1;
    }
    assert(out@ =~= want);
    out
}

/// `idx` looked up in `table`.
pub fn compose(table: &Vec<u32>, idx: &Vec<usize>) -> (r: Vec<usize>)
    requires
        forall|j: int| 0 <= j < idx@.len() ==> idx@[j] < table@.len(),
    ensures
        as_ints(r@) == composed(table@, as_ints(idx@)),
{
    let mut out: Vec<usize> = Vec::new();
    let mut k: usize = 0;
    while k < idx.len()
        invariant
            k <= idx.len(),
            forall|j: int| 0 <= j < idx@.len() ==> idx@[j] < table@.len(),
            as_ints(out@) == composed(table@, as_ints(idx@)).take(k as int),
        decreases idx.len() - k,
    {
        let ghost prev = out@;
        out.push(table[idx[k]] as usize);
        assert(as_ints(out@) =~= as_ints(prev).push(table@[idx@[k as int] as int] as int));
        assert(as_ints(out@) =~= composed(table@, as_ints(idx@)).take(k + 1));
        k = k + 1;
    }
    assert(as_ints(out@) =~= composed(table@, as_ints(idx@)));
    out
}

/// Whether every index of `idx` has `stride` (2 or 3) words in data of length `len`.
pub fn check_covers(len: usize, stride: usize, idx: &Vec<u32>) -> (r: bool)
    requires
        stride == 2 || stride == 3,
    ensures
        r == covers(len as int, stride as int, idx@),
{
    let mut k: usize = 0;
    while k < idx.len()
        invariant
            k <= idx.len(),
            stride == 2 || stride == 3,
            forall|j: int| 0 <= j < k ==> stride * (idx@[j] as int) + stride <= len,
        decreases idx.len() - k,
    {
        let p = idx[k] as usize;
        if p >= len / stride {
            assert(stride * (p as int) + stride > len) by (nonlinear_arith)
                requires
                    p >= len / stride,
                    stride == 2 || stride == 3,
            ;
            return false;
        }
        assert(stride * (p as int) + stride <= len) by (nonlinear_arith)
            requires
                p < len / stride,
                stride == 2 || stride == 3,
        ;
        k = k + 1;
    }
    true
}

/// Whether the face sizes add up to exactly `n` corners.
pub fn check_corner_total(counts: &Vec<u32>, n: usize) -> (r: bool)
    ensures
        r == (corner_total(counts@) == n),
{
    let mut sum: usize = 0;
    let mut f: usize = 0;
    while f < counts.len()
        invariant
            f <= counts.len(),
            sum == corner_start(counts@, f as int),
            sum <= n,
        decreases counts.len() - f,
    {
        let c = counts[f] as usize;
        if c > n - sum {
            proof {
                lemma_corner_start_mono(counts@, f + 1, counts.len() as int);
            }
            return false;
        }
        sum = sum + c;
        f = f + 1;
    }
    sum == n
}

/// The number of triangles of a topology whose corners fit in `usize`.
pub fn count_triangles(counts: &Vec<u32>) -> (r: usize)
    requires
        corner_total(counts@) <= usize::MAX,
    ensures
        r == tri_total(counts@),
{
    let mut t: usize = 0;
    let mut f: usize = 0;
    while f < counts.len()
        invariant
            f <= counts.len(),
            t == tri_start(counts@, f as int),
            corner_total(counts@) <= usize::MAX,
        decreases counts.len() - f,
    {
        proof {
            lemma_tri_start_le_corner_start(counts@, f + 1);
            lemma_corner_start_mono(counts@, f + 1, counts.len() as int);
        }
        let c = counts[f];
        if c >= 3 {
            t = t + (c as usize - 2);
        }
        f = f + 1;
    }
    t
}

} // verus!
