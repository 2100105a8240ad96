use vstd::prelude::*;

use crate::mesh::SubMeshData;
use crate::topology::{face_tris, lemma_tri_start_mono, tri_start, tri_total};

verus! {

/// Triangle corner positions of one material-bound part of a resolved mesh.
#[derive(Debug)]
pub struct SubMesh {
    /// Positions in the resolved vertex buffer, three per triangle.
    pub indices: Vec<u32>,
    /// The faces whose triangles the part holds, in increasing order.
    pub faces: Vec<u32>,
    pub material_path: Option<String>,
}

/// The one subset kind that splits a mesh.
pub open spec fn is_face_set(kind: Seq<char>) -> bool {
    kind == "typeFaceSet"@
}

pub open spec fn claims(s: SubMeshData, f: int) -> bool {
    is_face_set(s.kind@) && s.face_indices@.contains(f as u32)
}

/// The first subset from `j` on that claims face `f`, or `subs.len()` if none does.
pub open spec fn owner_from(subs: Seq<SubMeshData>, j: int, f: int) -> int
    decreases subs.len() - j,
{
    if j >= subs.len() {
        subs.len() as int
    } else if claims(subs[j], f) {
        j
    } else {
        owner_from(subs, j + 1, f)
    }
}

/// The part that face `f` goes to: the first face-set subset that lists it, or
/// `subs.len()` (the trailing default part) when no face-set subset does.
pub open spec fn owner_slot(subs: Seq<SubMeshData>, f: int) -> int {
    owner_from(subs, 0, f)
}

/// Faces before `n` that go to part `target`, in increasing order.
pub open spec fn owned_faces(subs: Seq<SubMeshData>, target: int, n: int) -> Seq<u32>
    decreases n,
{
    if n <= 0 {
        Seq::empty()
    } else if owner_slot(subs, n - 1) == target {
        owned_faces(subs, target, n - 1).push((n - 1) as u32)
    } else {
        owned_faces(subs, target, n - 1)
    }
}

/// Vertex positions of the triangles of face `f`: the resolved vertex buffer
/// holds three vertices per triangle, faces in order.
pub open spec fn face_vertices(counts: Seq<u32>, f: int) -> Seq<int> {
    Seq::new(
        (3 * face_tris(counts[f] as int)) as nat,
        |k: int| 3 * tri_start(counts, f) + k,
    )
}

/// Vertex positions of the triangles of the faces before `n` that go to `target`.
pub open spec fn owned_vertices(subs: Seq<SubMeshData>, counts: Seq<u32>, target: int, n: int) -> Seq<
    int,
>
    decreases n,
{
    if n <= 0 {
        Seq::empty()
    } else if owner_slot(subs, n - 1) == target {
        owned_vertices(subs, counts, target, n - 1) + face_vertices(counts, n - 1)
    } else {
        owned_vertices(subs, counts, target, n - 1)
    }
}

/// Number of face-set subsets before `j`: the position of subset `j`'s part.
pub open spec fn face_set_count(subs: Seq<SubMeshData>, j: int) -> int
    decreases j,
{
    if j <= 0 {
        0
    } else if is_face_set(subs[j - 1].kind@) {
        face_set_count(subs, j - 1) + 1
    } else {
        face_set_count(subs, j - 1)
    }
}

pub open spec fn u32_ints(s: Seq<u32>) -> Seq<int> {
    s.map_values(|x: u32| x as int)
}

/// The material of a subset's part: its own binding, else the mesh's.
pub open spec fn subset_material(s: SubMeshData, mesh_material: Option<String>) -> Option<String> {
    if s.material_path is Some {
        s.material_path
    } else {
        mesh_material
    }
}

/// `m` is the part `target` of a mesh of topology `counts` split by `subs`.
pub open spec fn part_matches(
    m: SubMesh,
    subs: Seq<SubMeshData>,
    counts: Seq<u32>,
    target: int,
    material: Option<String>,
) -> bool {
    &&& m.faces@ == owned_faces(subs, target, counts.len() as int)
    &&& u32_ints(m.indices@) == owned_vertices(subs, counts, target, counts.len() as int)
    &&& m.material_path == material
}

/// The parts of a mesh: one per face-set subset, in subset order, then the
/// default part of the faces that no face-set subset claims.
pub open spec fn parts_match(
    r: Seq<SubMesh>,
    subs: Seq<SubMeshData>,
    counts: Seq<u32>,
    mesh_material: Option<String>,
) -> bool {
    &&& r.len() == face_set_count(subs, subs.len() as int) + 1
    &&& forall|j: int|
        0 <= j < subs.len() && is_face_set(#[trigger] subs[j].kind@) ==> part_matches(
            r[face_set_count(subs, j)],
            subs,
            counts,
            j,
            subset_material(subs[j], mesh_material),
        )
    &&& part_matches(r[r.len() - 1], subs, counts, subs.len() as int, mesh_material)
}

pub proof fn lemma_face_set_count_mono(subs: Seq<SubMeshData>, i: int, j: int)
    requires
        0 <= i <= j <= subs.len(),
    ensures
        0 <= face_set_count(subs, i) <= face_set_count(subs, j),
        i < j && is_face_set(subs[i].kind@) ==> face_set_count(subs, i) < face_set_count(subs, j),
    decreases j,
{
    if j > 0 {
        if i < j {
            lemma_face_set_count_mono(subs, i, j - 1);
        } else {
            lemma_face_set_count_mono(subs, j - 1, j - 1);
        }
    }
}

/// The faces going to a part are exactly those whose owner it is, each once.
pub proof fn lemma_owned_faces(subs: Seq<SubMeshData>, target: int, n: int)
    requires
        0 <= n <= u32::MAX as int + 1,
    ensures
        forall|i: int, j: int|
            0 <= i < j < owned_faces(subs, target, n).len() ==> owned_faces(subs, target, n)[i]
                < owned_faces(subs, target, n)[j],
        forall|i: int|
            0 <= i < owned_faces(subs, target, n).len() ==> (#[trigger] owned_faces(
                subs,
                target,
                n,
            )[i] as int) < n && owner_slot(subs, owned_faces(subs, target, n)[i] as int) == target,
        forall|f: int|
            0 <= f < n && owner_slot(subs, f) == target ==> owned_faces(
                subs,
                target,
                n,
            ).contains(f as u32),
    decreases n,
{
    if n > 0 {
        lemma_owned_faces(subs, target, n - 1);
        let prev = owned_faces(subs, target, n - 1);
        let cur = owned_faces(subs, target, n);
        if owner_slot(subs, n - 1) == target {
            assert(cur == prev.push((n - 1) as u32));
            assert forall|f: int| 0 <= f < n && owner_slot(subs, f) == target implies cur.contains(
                f as u32,
            ) by {
                if f == n - 1 {
                    assert(cur[prev.len() as int] == f as u32);
                } else {
                    let i = choose|i: int| 0 <= i < prev.len() && prev[i] == f as u32;
                    assert(cur[i] == f as u32);
                }
            }
        }
    }
}

/// A face's owner is a face-set subset, or the default part.
pub proof fn lemma_owner_from_range(subs: Seq<SubMeshData>, j: int, f: int)
    requires
        0 <= j <= subs.len(),
    ensures
        j <= owner_from(subs, j, f) <= subs.len(),
        owner_from(subs, j, f) < subs.len() ==> is_face_set(subs[owner_from(subs, j, f)].kind@),
    decreases subs.len() - j,
{
    if j < subs.len() && !claims(subs[j], f) {
        lemma_owner_from_range(subs, j + 1, f);
    }
}

/// Every part but the last belongs to a face-set subset.
pub proof fn lemma_face_set_count_onto(subs: Seq<SubMeshData>, n: int, e: int)
    requires
        0 <= n <= subs.len(),
        0 <= e < face_set_count(subs, n),
    ensures
        exists|j: int| 0 <= j < n && is_face_set(subs[j].kind@) && face_set_count(subs, j) == e,
    decreases n,
{
    lemma_face_set_count_mono(subs, n - 1, n - 1);
    if e < face_set_count(subs, n - 1) {
        lemma_face_set_count_onto(subs, n - 1, e);
        let j = choose|j: int| 0 <= j < n - 1 && is_face_set(subs[j].kind@) && face_set_count(subs, j) == e;
        assert(0 <= j < n && is_face_set(subs[j].kind@) && face_set_count(subs, j) == e);
    } else {
        assert(0 <= n - 1 < n && is_face_set(subs[n - 1].kind@) && face_set_count(subs, n - 1) == e);
    }
}

/// The part that index `e` of a split stands for: a subset, or `subs.len()`.
pub open spec fn part_target(r: Seq<SubMesh>, subs: Seq<SubMeshData>, e: int) -> int {
    if e == r.len() - 1 {
        subs.len() as int
    } else {
        choose|j: int| 0 <= j < subs.len() && is_face_set(subs[j].kind@) && face_set_count(subs, j) == e
    }
}

proof fn lemma_part_target(r: Seq<SubMesh>, subs: Seq<SubMeshData>, counts: Seq<u32>, mesh_material: Option<String>, e: int)
    requires
        parts_match(r, subs, counts, mesh_material),
        0 <= e < r.len(),
    ensures
        0 <= part_target(r, subs, e) <= subs.len(),
        r[e].faces@ == owned_faces(subs, part_target(r, subs, e), counts.len() as int),
        part_target(r, subs, e) == subs.len() <==> e == r.len() - 1,
        e < r.len() - 1 ==> face_set_count(subs, part_target(r, subs, e)) == e,
{
    if e < r.len() - 1 {
        lemma_face_set_count_onto(subs, subs.len() as int, e);
    }
}

/// Some part lists face `f`.
pub open spec fn listed_by_some(r: Seq<SubMesh>, f: int) -> bool {
    exists|e: int| 0 <= e < r.len() && (#[trigger] r[e].faces@).contains(f as u32)
}

/// The parts of a split partition the faces: every face of the mesh is listed by
/// exactly one part, no part lists a face twice, and none lists a face that the
/// mesh does not have.
pub proof fn lemma_parts_partition_faces(
    r: Seq<SubMesh>,
    subs: Seq<SubMeshData>,
    counts: Seq<u32>,
    mesh_material: Option<String>,
)
    requires
        parts_match(r, subs, counts, mesh_material),
        counts.len() <= u32::MAX as int + 1,
    ensures
        forall|e: int, i: int|
            0 <= e < r.len() && 0 <= i < r[e].faces@.len() ==> (#[trigger] r[e].faces@[i] as int)
                < counts.len(),
        forall|e: int| 0 <= e < r.len() ==> (#[trigger] r[e].faces@).no_duplicates(),
        forall|f: int| 0 <= f < counts.len() ==> #[trigger] listed_by_some(r, f),
        forall|f: int, e1: int, e2: int|
            0 <= f < counts.len() && 0 <= e1 < r.len() && 0 <= e2 < r.len() && #[trigger] r[e1].faces@.contains(f as u32)
                && #[trigger] r[e2].faces@.contains(f as u32) ==> e1 == e2,
{
    let n = counts.len() as int;
    assert forall|e: int, i: int| 0 <= e < r.len() && 0 <= i < r[e].faces@.len() implies (
    #[trigger] r[e].faces@[i] as int) < counts.len() by {
        lemma_part_target(r, subs, counts, mesh_material, e);
        lemma_owned_faces(subs, part_target(r, subs, e), n);
    }
    assert forall|e: int| 0 <= e < r.len() implies (#[trigger] r[e].faces@).no_duplicates() by {
        lemma_part_target(r, subs, counts, mesh_material, e);
        lemma_owned_faces(subs, part_target(r, subs, e), n);
    }
    lemma_face_set_count_mono(subs, 0, subs.len() as int);
    assert forall|f: int| 0 <= f < counts.len() implies #[trigger] listed_by_some(r, f) by {
        let t = owner_slot(subs, f);
        lemma_owner_from_range(subs, 0, f);
        lemma_owned_faces(subs, t, n);
        if t < subs.len() {
            lemma_face_set_count_mono(subs, t, subs.len() as int);
            assert(r[face_set_count(subs, t)].faces@.contains(f as u32));
        } else {
            assert(r[r.len() - 1].faces@.contains(f as u32));
        }
    }
    assert forall|f: int, e1: int, e2: int|
        0 <= f < counts.len() && 0 <= e1 < r.len() && 0 <= e2 < r.len() && #[trigger] r[e1].faces@.contains(f as u32)
        && #[trigger] r[e2].faces@.contains(f as u32) implies e1 == e2 by {
        lemma_part_target(r, subs, counts, mesh_material, e1);
        lemma_part_target(r, subs, counts, mesh_material, e2);
        let t1 = part_target(r, subs, e1);
        let t2 = part_target(r, subs, e2);
        lemma_owned_faces(subs, t1, n);
        lemma_owned_faces(subs, t2, n);
        let i1 = choose|i: int| 0 <= i < r[e1].faces@.len() && r[e1].faces@[i] == f as u32;
        let i2 = choose|i: int| 0 <= i < r[e2].faces@.len() && r[e2].faces@[i] == f as u32;
        assert(owned_faces(subs, t1, n)[i1] == f as u32);
        assert(owned_faces(subs, t2, n)[i2] == f as u32);
        assert(t1 == t2);
        if e1 != r.len() - 1 && e2 != r.len() - 1 {
            assert(face_set_count(subs, t1) == e1);
            assert(face_set_count(subs, t2) == e2);
        }
    }
}

pub fn is_face_set_kind(kind: &String) -> (r: bool)
    ensures
        r == is_face_set(kind@),
{
    let face_set = String::from_str("typeFaceSet");
    *kind == face_set
}

pub fn list_contains(v: &Vec<u32>, x: u32) -> (r: bool)
    ensures
        r == v@.contains(x),
{
    let mut k: usize = 0;
    while k < v.len()
        invariant
            k <= v.len(),
            forall|i: int| 0 <= i < k ==> v@[i] != x,
        decreases v.len() - k,
    {
        if v[k] == x {
            return true;
        }
        k = k + 1;
    }
    false
}

fn subset_claims(s: &SubMeshData, f: u32) -> (r: bool)
    ensures
        r == claims(*s, f as int),
{
    is_face_set_kind(&s.kind) && list_contains(&s.face_indices, f)
}

/// The part that face `f` goes to.
pub fn find_owner(subs: &Vec<SubMeshData>, f: u32) -> (r: usize)
    ensures
        r == owner_slot(subs@, f as int),
{
    let mut j: usize = 0;
    while j < subs.len()
        invariant
            j <= subs.len(),
            owner_from(subs@, 0, f as int) == owner_from(subs@, j as int, f as int),
        decreases subs.len() - j,
    {
        if subset_claims(&subs[j], f) {
            return j;
        }
        j = j + 1;
    }
    j
}

/// The part of every face of a mesh with `n` faces.
pub fn face_owners(subs: &Vec<SubMeshData>, n: usize) -> (r: Vec<usize>)
    requires
        n <= u32::MAX as int + 1,
    ensures
        r@.len() == n,
        forall|f: int| 0 <= f < n ==> #[trigger] r@[f] == owner_slot(subs@, f),
{
    let mut out: Vec<usize> = Vec::new();
    let mut f: usize = 0;
    while f < n
        invariant
            f <= n <= u32::MAX as int + 1,
            out@.len() == f,
            forall|g: int| 0 <= g < f ==> #[trigger] out@[g] == owner_slot(subs@, g),
        decreases n - f,
    {
        let o = find_owner(subs, f as u32);
        out.push(o);
        f = f + 1;
    }
    out
}

fn clone_path(p: &Option<String>) -> (r: Option<String>)
    ensures
        r == *p,
{
    match p {
        Some(s) => Some(s.clone()),
        None => None,
    }
}

/// The part `target` of a mesh whose faces go to the parts `owners`.
fn build_part(
    subs: &Vec<SubMeshData>,
    counts: &Vec<u32>,
    owners: &Vec<usize>,
    target: usize,
    material: Option<String>,
) -> (r: SubMesh)
    requires
        owners@.len() == counts@.len(),
        counts@.len() <= u32::MAX as int + 1,
        3 * tri_total(counts@) <= u32::MAX as int,
        forall|f: int| 0 <= f < counts@.len() ==> #[trigger] owners@[f] == owner_slot(subs@, f),
    ensures
        part_matches(r, subs@, counts@, target as int, material),
{
    let mut indices: Vec<u32> = Vec::new();
    let mut faces: Vec<u32> = Vec::new();
    let mut t: u32 = 0;
    let mut f: usize = 0;
    while f < counts.len()
        invariant
            f <= counts@.len(),
            owners@.len() == counts@.len(),
            counts@.len() <= u32::MAX as int + 1,
            3 * tri_total(counts@) <= u32::MAX as int,
            forall|g: int| 0 <= g < counts@.len() ==> #[trigger] owners@[g] == owner_slot(subs@, g),
            t == tri_start(counts@, f as int),
            faces@ == owned_faces(subs@, target as int, f as int),
            u32_ints(indices@) == owned_vertices(subs@, counts@, target as int, f as int),
        decreases counts@.len() - f,
    {
        proof {
            lemma_tri_start_mono(counts@, f + 1, counts@.len() as int);
            lemma_tri_start_mono(counts@, 0, f as int);
        }
        let c = counts[f];
        let n: u32 = if c >= 3 {
            c - 2
        } else {
            0
        };
        if owners[f] == target {
            faces.push(f as u32);
            let ghost base = u32_ints(indices@);
            let ghost fv = face_vertices(counts@, f as int);
            let mut k: u32 = 0;
            while k < 3 * n
                invariant
                    k <= 3 * n,
                    3 * t + 3 * n <= u32::MAX,
                    fv == face_vertices(counts@, f as int),
                    fv.len() == 3 * n,
                    fv == Seq::new((3 * n) as nat, |i: int| 3 * t + i),
                    u32_ints(indices@) == base + fv.take(k as int),
                decreases 3 * n - k,
            {
                let ghost prev = indices@;
                indices.push(3 * t + k);
                assert(u32_ints(indices@) =~= u32_ints(prev).push((3 * t + k) as int));
                assert(u32_ints(indices@) =~= base + fv.take(k + 1));
                k = k + 1;
            }
            assert(fv.take(k as int) =~= fv);
        }
        t = t + n;
        f = f + 1;
    }
    SubMesh { indices, faces, material_path: material }
}

/// Splits a mesh of topology `counts` into one part per face-set subset, in
/// subset order, and a trailing default part of the faces no such subset claims.
pub fn split_parts(subs: &Vec<SubMeshData>, counts: &Vec<u32>, mesh_material: &Option<String>) -> (r:
    Vec<SubMesh>)
    requires
        counts@.len() <= u32::MAX as int + 1,
        3 * tri_total(counts@) <= u32::MAX as int,
    ensures
        parts_match(r@, subs@, counts@, *mesh_material),
{
    let owners = face_owners(subs, counts.len());
    let mut out: Vec<SubMesh> = Vec::new();
    let mut j: usize = 0;
    while j < subs.len()
        invariant
            j <= subs@.len(),
            owners@.len() == counts@.len(),
            counts@.len() <= u32::MAX as int + 1,
            3 * tri_total(counts@) <= u32::MAX as int,
            forall|f: int| 0 <= f < counts@.len() ==> #[trigger] owners@[f] == owner_slot(subs@, f),
            out@.len() == face_set_count(subs@, j as int),
            forall|i: int|
                0 <= i < j && is_face_set(#[trigger] subs@[i].kind@) ==> part_matches(
                    out@[face_set_count(subs@, i)],
                    subs@,
                    counts@,
                    i,
                    subset_material(subs@[i], *mesh_material),
                ),
        decreases subs@.len() - j,
    {
        if is_face_set_kind(&subs[j].kind) {
            let material = match &subs[j].material_path {
                Some(m) => Some(m.clone()),
                None => clone_path(mesh_material),
            };
            let part = build_part(subs, counts, &owners, j, material);
            let ghost prev = out@;
            out.push(part);
            proof {
                assert forall|i: int|
                    0 <= i < j + 1 && is_face_set(#[trigger] subs@[i].kind@) implies part_matches(
                    out@[face_set_count(subs@, i)],
                    subs@,
                    counts@,
                    i,
                    subset_material(subs@[i], *mesh_material),
                ) by {
                    lemma_face_set_count_mono(subs@, i, j as int);
                    if i < j {
                        assert(out@[face_set_count(subs@, i)] == prev[face_set_count(subs@, i)]);
                    }
                }
            }
        }
        proof {
            lemma_face_set_count_mono(subs@, 0, j as int);
        }
        j = j + 1;
    }
    let default_part = build_part(subs, counts, &owners, subs.len(), clone_path(mesh_material));
    let ghost prev = out@;
    out.push(default_part);
    proof {
        assert forall|i: int|
            0 <= i < subs@.len() && is_face_set(#[trigger] subs@[i].kind@) implies part_matches(
            out@[face_set_count(subs@, i)],
            subs@,
            counts@,
            i,
            subset_material(subs@[i], *mesh_material),
        ) by {
            lemma_face_set_count_mono(subs@, i, subs@.len() as int);
            assert(out@[face_set_count(subs@, i)] == prev[face_set_count(subs@, i)]);
        }
    }
    out
}

} // verus!
