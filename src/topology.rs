use vstd::prelude::*;

verus! {

/// Number of fan triangles of a face with `n` corners.
pub open spec fn face_tris(n: int) -> int {
    if n >= 3 {
        n - 2
    } else {
        0
    }
}

/// Offset of the first corner of face `f`: the corners of all faces before it.
pub open spec fn corner_start(counts: Seq<u32>, f: int) -> int
    decreases f,
{
    if f <= 0 {
        0
    } else {
        corner_start(counts, f - 1) + counts[f - 1]
    }
}

/// Number of fan triangles of all faces before face `f`.
pub open spec fn tri_start(counts: Seq<u32>, f: int) -> int
    decreases f,
{
    if f <= 0 {
        0
    } else {
        tri_start(counts, f - 1) + face_tris(counts[f - 1] as int)
    }
}

pub open spec fn corner_total(counts: Seq<u32>) -> int {
    corner_start(counts, counts.len() as int)
}

pub open spec fn tri_total(counts: Seq<u32>) -> int {
    tri_start(counts, counts.len() as int)
}

/// Corner `c` (0, 1 or 2) of the fan triangle `(0, i-1, i)` of the face whose
/// corners start at `off`; a left-handed face lists the three in reverse.
pub open spec fn fan_corner(off: int, i: int, c: int, left_handed: bool) -> int {
    if left_handed {
        if c == 0 {
            off + i
        } else if c == 1 {
            off + i - 1
        } else {
            off
        }
    } else {
        if c == 0 {
            off
        } else if c == 1 {
            off + i - 1
        } else {
            off + i
        }
    }
}

/// Corners of the fan triangulation of one face of `n` corners starting at
/// `off`: triangles `i = 2 .. n`, three corners each.
pub open spec fn face_fan(off: int, n: int, left_handed: bool) -> Seq<int> {
    Seq::new((3 * face_tris(n)) as nat, |j: int| fan_corner(off, j / 3 + 2, j % 3, left_handed))
}

/// Corners of the triangles of all faces before face `f`, in face order.
pub open spec fn fan_upto(counts: Seq<u32>, f: int, left_handed: bool) -> Seq<int>
    decreases f,
{
    if f <= 0 {
        Seq::empty()
    } else {
        fan_upto(counts, f - 1, left_handed) + face_fan(
            corner_start(counts, f - 1),
            counts[f - 1] as int,
            left_handed,
        )
    }
}

/// The triangulated corner list of a whole mesh topology.
pub open spec fn triangulation(counts: Seq<u32>, left_handed: bool) -> Seq<int> {
    fan_upto(counts, counts.len() as int, left_handed)
}

pub open spec fn as_ints(s: Seq<usize>) -> Seq<int> {
    s.map_values(|x: usize| x as int)
}

/// Each triple of `s` with its first and last element swapped.
pub open spec fn flip_triples(s: Seq<int>) -> Seq<int> {
    Seq::new(s.len(), |j: int| s[j - j % 3 + (2 - j % 3)])
}

pub proof fn lemma_corner_start_mono(counts: Seq<u32>, f: int, g: int)
    requires
        0 <= f <= g <= counts.len(),
    ensures
        corner_start(counts, f) <= corner_start(counts, g),
    decreases g - f,
{
    if f < g {
        lemma_corner_start_mono(counts, f, g - 1);
    }
}

pub proof fn lemma_tri_start_mono(counts: Seq<u32>, f: int, g: int)
    requires
        0 <= f <= g <= counts.len(),
    ensures
        tri_start(counts, f) <= tri_start(counts, g),
    decreases g - f,
{
    if f < g {
        lemma_tri_start_mono(counts, f, g - 1);
    }
}

/// No face has more triangles than corners, so neither do all of them.
pub proof fn lemma_tri_start_le_corner_start(counts: Seq<u32>, f: int)
    requires
        0 <= f <= counts.len(),
    ensures
        0 <= tri_start(counts, f) <= corner_start(counts, f),
    decreases f,
{
    if f > 0 {
        lemma_tri_start_le_corner_start(counts, f - 1);
    }
}

pub proof fn lemma_fan_upto_len(counts: Seq<u32>, f: int, left_handed: bool)
    requires
        0 <= f <= counts.len(),
    ensures
        fan_upto(counts, f, left_handed).len() == 3 * tri_start(counts, f),
    decreases f,
{
    if f > 0 {
        lemma_fan_upto_len(counts, f - 1, left_handed);
    }
}

/// A convex face of `n >= 3` corners is cut into exactly `n - 2` triangles.
pub proof fn lemma_fan_triangle_count(off: int, n: int, left_handed: bool)
    requires
        n >= 3,
    ensures
        face_fan(off, n, left_handed).len() == 3 * (n - 2),
{
}

/// A whole topology gives three corners for each of its `count - 2` triangles
/// per face.
pub proof fn lemma_triangulation_len(counts: Seq<u32>, left_handed: bool)
    ensures
        triangulation(counts, left_handed).len() == 3 * tri_total(counts),
{
    lemma_fan_upto_len(counts, counts.len() as int, left_handed);
}

proof fn lemma_flip_concat(a: Seq<int>, b: Seq<int>)
    requires
        a.len() % 3 == 0,
        b.len() % 3 == 0,
    ensures
        flip_triples(a + b) == flip_triples(a) + flip_triples(b),
{
    assert forall|j: int| 0 <= j < (a + b).len() implies #[trigger] flip_triples(a + b)[j] == (
    flip_triples(a) + flip_triples(b))[j] by {
        if j >= a.len() {
            let k = j - a.len();
            assert(k % 3 == j % 3);
        }
    }
    assert(flip_triples(a + b) =~= flip_triples(a) + flip_triples(b));
}

proof fn lemma_face_fan_flip(off: int, n: int)
    ensures
        face_fan(off, n, true) == flip_triples(face_fan(off, n, false)),
{
    let r = face_fan(off, n, true);
    let s = face_fan(off, n, false);
    assert forall|j: int| 0 <= j < r.len() implies #[trigger] r[j] == flip_triples(s)[j] by {
        let k = j - j % 3 + (2 - j % 3);
        assert(k / 3 == j / 3);
        assert(k % 3 == 2 - j % 3);
    }
    assert(r =~= flip_triples(s));
}

proof fn lemma_fan_upto_flip(counts: Seq<u32>, f: int)
    requires
        0 <= f <= counts.len(),
    ensures
        fan_upto(counts, f, true) == flip_triples(fan_upto(counts, f, false)),
    decreases f,
{
    if f > 0 {
        lemma_fan_upto_flip(counts, f - 1);
        lemma_fan_upto_len(counts, f - 1, false);
        let off = corner_start(counts, f - 1);
        let n = counts[f - 1] as int;
        lemma_face_fan_flip(off, n);
        lemma_flip_concat(fan_upto(counts, f - 1, false), face_fan(off, n, false));
    }
}

/// Left-handed triangulation lists every triangle of the right-handed one with
/// its corners in reverse order: corner `c` of triangle `t` becomes corner `2 - c`.
pub proof fn lemma_left_handed_reverses_winding(counts: Seq<u32>)
    ensures
        triangulation(counts, true).len() == triangulation(counts, false).len(),
        forall|t: int, c: int|
            0 <= t && 0 <= c < 3 && 3 * t + c < triangulation(counts, true).len() ==> #[trigger]
            triangulation(counts, true)[3 * t + c] == triangulation(counts, false)[3 * t + (2 - c)],
{
    let n = counts.len() as int;
    lemma_fan_upto_flip(counts, n);
    let s = fan_upto(counts, n, false);
    assert forall|t: int, c: int|
        0 <= t && 0 <= c < 3 && 3 * t + c < triangulation(counts, true).len() implies #[trigger]
    triangulation(counts, true)[3 * t + c] == triangulation(counts, false)[3 * t + (2 - c)] by {
        let j = 3 * t + c;
        assert(j % 3 == c);
        assert(j - j % 3 + (2 - j % 3) == 3 * t + (2 - c));
    }
}

/// The fan triangulation of a topology: for every face of `n` corners, the
/// corner offsets of triangles `(0, i-1, i)` for `i` in `2..n`, in face order,
/// each triangle reversed when `left_handed`.
pub fn triangulate(counts: &Vec<u32>, left_handed: bool) -> (r: Vec<usize>)
    requires
        corner_total(counts@) <= usize::MAX,
    ensures
        as_ints(r@) == triangulation(counts@, left_handed),
        r@.len() == 3 * tri_total(counts@),
{
    let mut out: Vec<usize> = Vec::new();
    let mut off: usize = 0;
    let mut f: usize = 0;
    while f < counts.len()
        invariant
            f <= counts.len(),
            off == corner_start(counts@, f as int),
            corner_total(counts@) <= usize::MAX,
            as_ints(out@) == fan_upto(counts@, f as int, left_handed),
        decreases counts.len() - f,
    {
        proof {
            lemma_corner_start_mono(counts@, f + 1, counts.len() as int);
        }
        let n = counts[f] as usize;
        let ghost base = as_ints(out@);
        let ghost fan = face_fan(off as int, n as int, left_handed);
        let mut i: usize = 2;
        while i < n
            invariant
                2 <= i,
                i <= n || i == 2,
                off + n <= usize::MAX,
                fan == face_fan(off as int, n as int, left_handed),
                as_ints(out@) == base + fan.take(3 * (i - 2)),
            decreases n - i,
        {
            let (a, b, c) = if left_handed {
                (off + i, off + i - 1, off)
            } else {
                (off, off + i - 1, off + i)
            };
            proof {
                let k = 3 * (i - 2);
                assert(fan[k] == fan_corner(off as int, i as int, 0, left_handed));
                assert(fan[k + 1] == fan_corner(off as int, i as int, 1, left_handed));
                assert(fan[k + 2] == fan_corner(off as int, i as int, 2, left_handed));
                assert(fan.take(k + 3) =~= fan.take(k).push(a as int).push(b as int).push(c as int));
            }
            let ghost prev = out@;
            out.push(a);
            out.push(b);
            out.push(c);
            proof {
                assert(as_ints(out@) =~= as_ints(prev).push(a as int).push(b as int).push(c as int));
                assert(as_ints(out@) =~= base + fan.take(3 * (i + 1 - 2)));
            }
            i = i + 1;
        }
        proof {
            assert(fan.take(3 * (i - 2)) =~= fan);
        }
        off = off + n;
        f = f + 1;
    }
    proof {
        lemma_triangulation_len(counts@, left_handed);
        assert(as_ints(out@).len() == out@.len());
    }
    out
}

} // verus!
