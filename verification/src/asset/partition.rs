//! Meshlet partitions of an index stream: the greedy partitioner used when no clustering library
//! result is available, and the check that a partition keeps every source triangle and its
//! winding.

use vstd::prelude::*;
use vstd::relations::{sorted_by, total_ordering};
use vstd::seq_lib::lemma_sorted_unique;

use super::{invalid_asset, MeshletAssetError};

verus! {

broadcast use vstd::seq_lib::group_to_multiset_ensures;

/// Lexicographic order on vertex triples.
pub open spec fn lex_le(x: (u32, u32, u32), y: (u32, u32, u32)) -> bool {
    ||| x.0 < y.0
    ||| x.0 == y.0 && x.1 < y.1
    ||| x.0 == y.0 && x.1 == y.1 && x.2 <= y.2
}

pub open spec fn lex_order() -> spec_fn((u32, u32, u32), (u32, u32, u32)) -> bool {
    |x: (u32, u32, u32), y: (u32, u32, u32)| lex_le(x, y)
}

/// The least of the three rotations of a triangle: the same oriented triangle, whichever corner
/// it was written from.
pub open spec fn canonical(t: (u32, u32, u32)) -> (u32, u32, u32) {
    let r1 = (t.1, t.2, t.0);
    let r2 = (t.2, t.0, t.1);
    if lex_le(t, r1) && lex_le(t, r2) {
        t
    } else if lex_le(r1, r2) {
        r1
    } else {
        r2
    }
}

/// Triangle `i` of an index stream.
pub open spec fn triangle_at(s: Seq<u32>, i: int) -> (u32, u32, u32) {
    (s[3 * i], s[3 * i + 1], s[3 * i + 2])
}

/// The canonical form of every complete triangle of an index stream.
pub open spec fn canonical_triangles(s: Seq<u32>) -> Seq<(u32, u32, u32)> {
    Seq::new(s.len() / 3, |i: int| canonical(triangle_at(s, i)))
}

/// Every index of a complete triangle is at least `base`.
pub open spec fn above_base(s: Seq<u32>, base: u32) -> bool {
    forall|j: int| 0 <= j < 3 * (s.len() / 3) ==> #[trigger] s[j] >= base
}

/// The indices less `base` (those below it read as zero).
pub open spec fn rebased(s: Seq<u32>, base: u32) -> Seq<u32> {
    Seq::new(s.len(), |j: int| if s[j] >= base { (s[j] - base) as u32 } else { 0u32 })
}

/// `slice::sort_unstable` on vertex triples. Its documentation promises that the slice ends up
/// sorted in ascending order, here the lexicographic order of tuples, holding the same elements.
#[verifier::external_body]
fn sort_triangles(v: &mut Vec<(u32, u32, u32)>)
    ensures
        final(v)@.to_multiset() == old(v)@.to_multiset(),
        sorted_by(final(v)@, lex_order()),
{
    v.sort_unstable();
}

proof fn lemma_lex_total()
    ensures
        total_ordering(lex_order()),
{
}

/// The least rotation of a triangle.
pub fn canonical_oriented_triangle(triangle: [u32; 3]) -> (r: [u32; 3])
    ensures
        (r[0], r[1], r[2]) == canonical((triangle[0], triangle[1], triangle[2])),
{
    let r0 = (triangle[0], triangle[1], triangle[2]);
    let r1 = (triangle[1], triangle[2], triangle[0]);
    let r2 = (triangle[2], triangle[0], triangle[1]);
    let le01 = r0.0 < r1.0 || (r0.0 == r1.0 && (r0.1 < r1.1 || (r0.1 == r1.1 && r0.2 <= r1.2)));
    let le02 = r0.0 < r2.0 || (r0.0 == r2.0 && (r0.1 < r2.1 || (r0.1 == r2.1 && r0.2 <= r2.2)));
    let le12 = r1.0 < r2.0 || (r1.0 == r2.0 && (r1.1 < r2.1 || (r1.1 == r2.1 && r1.2 <= r2.2)));
    if le01 && le02 {
        [r0.0, r0.1, r0.2]
    } else if le12 {
        [r1.0, r1.1, r1.2]
    } else {
        [r2.0, r2.1, r2.2]
    }
}

/// The canonical triangles of a stream, less `base`; `None` when a triangle index is below it.
fn collect_triangles(s: &[u32], base: u32) -> (r: Option<Vec<(u32, u32, u32)>>)
    ensures
        above_base(s@, base) ==> r is Some && r->0@ == canonical_triangles(rebased(s@, base)),
        !above_base(s@, base) ==> r is None,
{
    let len = s.len();
    let n = len / 3;
    let ghost rb = rebased(s@, base);
    let mut out: Vec<(u32, u32, u32)> = Vec::new();
    let mut i: usize = 0;
    while i < n
        invariant
            len == s@.len(),
            n == s@.len() / 3,
            i <= n,
            rb == rebased(s@, base),
            out@ == canonical_triangles(rb).take(i as int),
            forall|j: int| 0 <= j < 3 * i ==> #[trigger] s@[j] >= base,
        decreases n - i,
    {
        let a = s[3 * i];
        let b = s[3 * i + 1];
        let c = s[3 * i + 2];
        if a < base || b < base || c < base {
            return None;
        }
        let t = canonical_oriented_triangle([a - base, b - base, c - base]);
        proof {
            assert(triangle_at(rb, i as int) == ((a - base) as u32, (b - base) as u32, (c - base) as u32));
        }
        out.push((t[0], t[1], t[2]));
        assert(out@ =~= canonical_triangles(rb).take(i + 1));
        i = i + 1;
    }
    assert(out@ =~= canonical_triangles(rb));
    Some(out)
}

/// Checks that a partition's fallback indices, less the LOD's first vertex, hold exactly the
/// source triangles with their winding, in any order and starting from any corner.
pub fn verify_partition_topology(source: &[u32], global_fallback: &[u32], first_vertex: u32) -> (r:
    Result<(), MeshletAssetError>)
    ensures
        r is Ok <==> source@.len() == global_fallback@.len() && above_base(
            global_fallback@,
            first_vertex,
        ) && canonical_triangles(source@).to_multiset() == canonical_triangles(
            rebased(global_fallback@, first_vertex),
        ).to_multiset(),
        r is Err ==> r->Err_0 is InvalidAsset,
{
    if source.len() != global_fallback.len() {
        return Err(invalid_asset("meshlet partition changed the index count"));
    }
    let mut expected = match collect_triangles(source, 0) {
        Some(v) => v,
        None => {
            return Err(invalid_asset("meshlet partition produced a vertex below its LOD base"));
        },
    };
    proof {
        assert(rebased(source@, 0) =~= source@);
    }
    let mut actual = match collect_triangles(global_fallback, first_vertex) {
        Some(v) => v,
        None => {
            return Err(invalid_asset("meshlet partition produced a vertex below its LOD base"));
        },
    };
    let ghost e0 = expected@;
    let ghost a0 = actual@;
    sort_triangles(&mut expected);
    sort_triangles(&mut actual);
    proof {
        lemma_lex_total();
        assert(e0 == canonical_triangles(source@));
        assert(expected@.len() == expected@.to_multiset().len());
        assert(actual@.len() == actual@.to_multiset().len());
        assert(e0.len() == e0.to_multiset().len());
        assert(a0.len() == a0.to_multiset().len());
    }
    if expected.len() != actual.len() {
        return Err(invalid_asset("meshlet partition changed triangle coverage or winding"));
    }
    let mut i: usize = 0;
    while i < expected.len()
        invariant
            expected@.len() == actual@.len(),
            i <= expected@.len(),
            sorted_by(expected@, lex_order()),
            sorted_by(actual@, lex_order()),
            total_ordering(lex_order()),
            expected@.to_multiset() == e0.to_multiset(),
            actual@.to_multiset() == a0.to_multiset(),
            e0 == canonical_triangles(source@),
            a0 == canonical_triangles(rebased(global_fallback@, first_vertex)),
            source@.len() == global_fallback@.len(),
            above_base(global_fallback@, first_vertex),
            forall|j: int| 0 <= j < i ==> expected@[j] == actual@[j],
        decreases expected@.len() - i,
    {
        let x = expected[i];
        let y = actual[i];
        if x.0 != y.0 || x.1 != y.1 || x.2 != y.2 {
            proof {
                if e0.to_multiset() == a0.to_multiset() {
                    lemma_sorted_unique(expected@, actual@, lex_order());
                }
            }
            return Err(invalid_asset("meshlet partition changed triangle coverage or winding"));
        }
        i = i + 1;
    }
    assert(expected@ =~= actual@);
    Ok(())
}

/// One meshlet of a partition: its distinct vertices in first-use order, and for each corner the
/// position of its vertex among them.
pub struct MeshletPartition {
    pub vertex_refs: Vec<u32>,
    pub micro_indices: Vec<u8>,
}

/// The vertex of each corner.
pub open spec fn corners(refs: Seq<u32>, micro: Seq<u8>) -> Seq<u32> {
    Seq::new(micro.len(), |j: int| refs[micro[j] as int])
}

pub open spec fn part_corners(p: MeshletPartition) -> Seq<u32> {
    corners(p.vertex_refs@, p.micro_indices@)
}

/// The corners of a list of parts, one part after the other.
pub open spec fn all_corners(parts: Seq<MeshletPartition>) -> Seq<u32>
    decreases parts.len(),
{
    if parts.len() == 0 {
        Seq::empty()
    } else {
        all_corners(parts.drop_last()) + part_corners(parts.last())
    }
}

/// Label `l` is used by a corner before corner `j`.
pub open spec fn used_before(micro: Seq<u8>, l: int, j: int) -> bool {
    exists|i: int| 0 <= i < j && #[trigger] micro[i] == l
}

/// Labels name distinct vertices, every vertex is used, and a label first appears only after
/// every smaller one.
pub open spec fn first_use_labels(refs: Seq<u32>, micro: Seq<u8>) -> bool {
    &&& forall|a: int, b: int| 0 <= a < b < refs.len() ==> refs[a] != refs[b]
    &&& forall|j: int| 0 <= j < micro.len() ==> (#[trigger] micro[j] as int) < refs.len()
    &&& forall|l: int| 0 <= l < refs.len() ==> #[trigger] used_before(micro, l, micro.len() as int)
    &&& forall|j: int, l: int|
        0 <= j < micro.len() && 0 <= l < micro[j] ==> #[trigger] used_before(micro, l, j)
}

/// How many corners of `t` name a vertex outside `refs`.
pub open spec fn new_count(refs: Seq<u32>, t: (u32, u32, u32)) -> int {
    (if refs.contains(t.0) { 0int } else { 1int }) + (if refs.contains(t.1) { 0int } else { 1int })
        + (if refs.contains(t.2) { 0int } else { 1int })
}

/// A meshlet cannot take triangle `t`: it is at its triangle limit, or `t` would bring more
/// vertices than it may hold.
pub open spec fn cannot_take(refs: Seq<u32>, micro: Seq<u8>, t: (u32, u32, u32), max_vertices: int, max_triangles: int) -> bool {
    micro.len() / 3 >= max_triangles || refs.len() + new_count(refs, t) > max_vertices
}

/// A well-formed meshlet within the limits.
pub open spec fn part_ok(p: MeshletPartition, max_vertices: int, max_triangles: int) -> bool {
    &&& first_use_labels(p.vertex_refs@, p.micro_indices@)
    &&& p.micro_indices@.len() % 3 == 0
    &&& 0 < p.micro_indices@.len() / 3 <= max_triangles
    &&& p.vertex_refs@.len() <= max_vertices
}

/// The greedy partition of an index stream: the meshlets hold the complete triangles in order,
/// each is well formed and within the limits, and each but the last was closed only because it
/// could not take the next triangle.
pub open spec fn greedy_partition(indices: Seq<u32>, parts: Seq<MeshletPartition>, max_vertices: int, max_triangles: int) -> bool {
    &&& all_corners(parts) == indices.take(3 * (indices.len() / 3) as int)
    &&& forall|k: int| 0 <= k < parts.len() ==> part_ok(#[trigger] parts[k], max_vertices, max_triangles)
    &&& forall|k: int|
        0 <= k < parts.len() - 1 ==> cannot_take(
            (#[trigger] parts[k]).vertex_refs@,
            parts[k].micro_indices@,
            triangle_at(part_corners(parts[k + 1]), 0),
            max_vertices,
            max_triangles,
        )
}

/// A greedy partition keeps every source triangle and its winding: its corners, placed at any
/// base vertex that keeps them in `u32`, pass the topology check against the source.
pub proof fn lemma_greedy_partition_keeps_topology(
    indices: Seq<u32>,
    parts: Seq<MeshletPartition>,
    max_vertices: int,
    max_triangles: int,
    first_vertex: u32,
)
    requires
        greedy_partition(indices, parts, max_vertices, max_triangles),
        indices.len() % 3 == 0,
        forall|j: int| 0 <= j < indices.len() ==> #[trigger] indices[j] + first_vertex <= u32::MAX,
    ensures
        ({
            let global = Seq::new(
                indices.len(),
                |j: int| (all_corners(parts)[j] + first_vertex) as u32,
            );
            &&& global.len() == indices.len()
            &&& above_base(global, first_vertex)
            &&& canonical_triangles(indices).to_multiset() == canonical_triangles(
                rebased(global, first_vertex),
            ).to_multiset()
        }),
{
    let global = Seq::new(indices.len(), |j: int| (all_corners(parts)[j] + first_vertex) as u32);
    assert(indices.take(3 * (indices.len() / 3) as int) =~= indices);
    assert(rebased(global, first_vertex) =~= indices);
}

/// Position of `v` among `refs`, if present.
fn find_ref(refs: &Vec<u32>, v: u32) -> (r: Option<usize>)
    ensures
        r matches Some(i) ==> i < refs@.len() && refs@[i as int] == v,
        r is None ==> !refs@.contains(v),
{
    let mut i: usize = 0;
    while i < refs.len()
        invariant
            i <= refs@.len(),
            forall|j: int| 0 <= j < i ==> refs@[j] != v,
        decreases refs@.len() - i,
    {
        if refs[i] == v {
            return Some(i);
        }
        i = i + 1;
    }
    None
}

/// Adds a corner naming vertex `v`, adding `v` to the meshlet's vertices when it is new.
fn add_corner(refs: &mut Vec<u32>, micro: &mut Vec<u8>, v: u32)
    requires
        first_use_labels(old(refs)@, old(micro)@),
        old(refs)@.contains(v) || old(refs)@.len() < 256,
    ensures
        final(refs)@ == if old(refs)@.contains(v) {
            old(refs)@
        } else {
            old(refs)@.push(v)
        },
        final(micro)@.len() == old(micro)@.len() + 1,
        corners(final(refs)@, final(micro)@) == corners(old(refs)@, old(micro)@).push(v),
        first_use_labels(final(refs)@, final(micro)@),
{
    let ghost r0 = refs@;
    let ghost m0 = micro@;
    assert(r0.len() <= 256) by {
        if r0.len() > 256 {
            assert(used_before(m0, 256, m0.len() as int));
        }
    }
    let label: u8 = match find_ref(refs, v) {
        Some(i) => {
            assert(r0.contains(v));
            i as u8
        },
        None => {
            let l = refs.len() as u8;
            refs.push(v);
            l
        },
    };
    micro.push(label);
    let ghost r1 = refs@;
    let ghost m1 = micro@;
    assert(forall|j: int| 0 <= j < m0.len() ==> m1[j] == m0[j]);
    assert(forall|l: int| 0 <= l < r0.len() ==> r1[l] == r0[l]);
    assert(r1[label as int] == v);
    assert(corners(r1, m1) =~= corners(r0, m0).push(v));
    assert forall|l: int| 0 <= l < r1.len() implies #[trigger] used_before(m1, l, m1.len() as int) by {
        if l < r0.len() {
            assert(used_before(m0, l, m0.len() as int));
            let i = choose|i: int| 0 <= i < m0.len() && #[trigger] m0[i] == l;
            assert(m1[i] == l);
        } else {
            assert(m1[m0.len() as int] == l);
        }
    }
    assert forall|j: int, l: int| 0 <= j < m1.len() && 0 <= l < m1[j] implies #[trigger] used_before(
        m1,
        l,
        j,
    ) by {
        if j < m0.len() {
            assert(m1[j] == m0[j]);
            assert(used_before(m0, l, j));
            let i = choose|i: int| 0 <= i < j && #[trigger] m0[i] == l;
            assert(m1[i] == l);
        } else {
            assert(l < r0.len());
            assert(used_before(m0, l, m0.len() as int));
            let i = choose|i: int| 0 <= i < m0.len() && #[trigger] m0[i] == l;
            assert(m1[i] == l);
        }
    }
}

/// How many of the three vertices are not yet among `refs`.
fn count_new(refs: &Vec<u32>, a: u32, b: u32, c: u32) -> (r: usize)
    ensures
        r == new_count(refs@, (a, b, c)),
{
    let mut n: usize = 0;
    if find_ref(refs, a).is_none() {
        n = n + 1;
    }
    if find_ref(refs, b).is_none() {
        n = n + 1;
    }
    if find_ref(refs, c).is_none() {
        n = n + 1;
    }
    n
}

/// Adds the three corners of triangle `(a, b, c)`.
fn add_triangle(refs: &mut Vec<u32>, micro: &mut Vec<u8>, a: u32, b: u32, c: u32)
    requires
        first_use_labels(old(refs)@, old(micro)@),
        old(refs)@.len() + new_count(old(refs)@, (a, b, c)) <= 256,
    ensures
        final(refs)@.len() <= old(refs)@.len() + new_count(old(refs)@, (a, b, c)),
        final(micro)@.len() == old(micro)@.len() + 3,
        corners(final(refs)@, final(micro)@) == corners(old(refs)@, old(micro)@).push(a).push(
            b,
        ).push(c),
        first_use_labels(final(refs)@, final(micro)@),
{
    let ghost r0 = refs@;
    add_corner(refs, micro, a);
    let ghost r1 = refs@;
    assert(forall|x: u32| r0.contains(x) ==> r1.contains(x)) by {
        assert forall|x: u32| r0.contains(x) implies r1.contains(x) by {
            let i = choose|i: int| 0 <= i < r0.len() && r0[i] == x;
            assert(r1[i] == x);
        }
    }
    assert(r1.contains(a)) by {
        if !r0.contains(a) {
            assert(r1[r0.len() as int] == a);
        }
    }
    add_corner(refs, micro, b);
    let ghost r2 = refs@;
    assert(forall|x: u32| r1.contains(x) ==> r2.contains(x)) by {
        assert forall|x: u32| r1.contains(x) implies r2.contains(x) by {
            let i = choose|i: int| 0 <= i < r1.len() && r1[i] == x;
            assert(r2[i] == x);
        }
    }
    add_corner(refs, micro, c);
}

/// The corners of the parts so far followed by one more part.
proof fn lemma_all_corners_push(parts: Seq<MeshletPartition>, p: MeshletPartition)
    ensures
        all_corners(parts.push(p)) == all_corners(parts) + part_corners(p),
{
    assert(parts.push(p).drop_last() =~= parts);
}

/// Splits complete triangles greedily into meshlets of at most `max_vertices` distinct vertices
/// and `max_triangles` triangles, in source order.
///
/// A meshlet is closed when the next triangle would exceed a limit; each meshlet lists its
/// vertices in first-use order and names each corner by its position in that list.
pub fn partition_meshlets_fallback(indices: &[u32], max_vertices: u32, max_triangles: u32) -> (r:
    Vec<MeshletPartition>)
    requires
        3 <= max_vertices <= 256,
        1 <= max_triangles,
    ensures
        greedy_partition(indices@, r@, max_vertices as int, max_triangles as int),
{
    let ghost mv = max_vertices as int;
    let ghost mt = max_triangles as int;
    let len = indices.len();
    let n = len / 3;
    let mut parts: Vec<MeshletPartition> = Vec::new();
    let mut refs: Vec<u32> = Vec::new();
    let mut micro: Vec<u8> = Vec::new();
    let mut t: usize = 0;
    while t < n
        invariant
            len == indices@.len(),
            n == len / 3,
            t <= n,
            3 <= mv <= 256,
            1 <= mt,
            mv == max_vertices,
            mt == max_triangles,
            all_corners(parts@) + corners(refs@, micro@) == indices@.take(3 * t),
            forall|k: int| 0 <= k < parts@.len() ==> part_ok(#[trigger] parts@[k], mv, mt),
            forall|k: int|
                0 <= k < parts@.len() - 1 ==> cannot_take(
                    (#[trigger] parts@[k]).vertex_refs@,
                    parts@[k].micro_indices@,
                    triangle_at(part_corners(parts@[k + 1]), 0),
                    mv,
                    mt,
                ),
            parts@.len() > 0 && micro@.len() > 0 ==> cannot_take(
                parts@.last().vertex_refs@,
                parts@.last().micro_indices@,
                triangle_at(corners(refs@, micro@), 0),
                mv,
                mt,
            ),
            first_use_labels(refs@, micro@),
            micro@.len() % 3 == 0,
            micro@.len() / 3 <= mt,
            refs@.len() <= mv,
            micro@.len() == 0 ==> refs@.len() == 0,
            parts@.len() > 0 ==> micro@.len() > 0,
        decreases n - t,
    {
        let a = indices[3 * t];
        let b = indices[3 * t + 1];
        let c = indices[3 * t + 2];
        let ghost tri = (a, b, c);
        let fresh = count_new(&refs, a, b, c);
        let full = micro.len() / 3 >= max_triangles as usize || refs.len() + fresh
            > max_vertices as usize;
        if full && micro.len() > 0 {
            let ghost old_parts = parts@;
            let part = MeshletPartition { vertex_refs: refs, micro_indices: micro };
            proof {
                lemma_all_corners_push(old_parts, part);
                assert(cannot_take(part.vertex_refs@, part.micro_indices@, tri, mv, mt));
            }
            parts.push(part);
            refs = Vec::new();
            micro = Vec::new();
            proof {
                assert(parts@.last() == part);
                assert(forall|k: int| 0 <= k < old_parts.len() ==> parts@[k] == old_parts[k]);
                assert(corners(refs@, micro@) =~= Seq::<u32>::empty());
                assert(all_corners(parts@) + corners(refs@, micro@) =~= all_corners(parts@));
            }
        }
        let ghost m0 = micro@;
        let ghost before = corners(refs@, micro@);
        proof {
            assert(refs@.len() + new_count(refs@, tri) <= mv);
        }
        add_triangle(&mut refs, &mut micro, a, b, c);
        proof {
            assert(corners(refs@, micro@) == before.push(a).push(b).push(c));
            assert(indices@.take(3 * (t + 1)) =~= indices@.take(3 * t).push(a).push(b).push(c));
            assert(all_corners(parts@) + corners(refs@, micro@) =~= (all_corners(parts@)
                + before).push(a).push(b).push(c));
            if m0.len() > 0 {
                assert(triangle_at(corners(refs@, micro@), 0) == triangle_at(before, 0));
            } else {
                assert(triangle_at(corners(refs@, micro@), 0) == tri);
            }
        }
        t = t + 1;
    }
    if micro.len() > 0 {
        let ghost old_parts = parts@;
        let part = MeshletPartition { vertex_refs: refs, micro_indices: micro };
        proof {
            lemma_all_corners_push(old_parts, part);
        }
        parts.push(part);
        proof {
            assert(forall|k: int| 0 <= k < old_parts.len() ==> parts@[k] == old_parts[k]);
        }
    } else {
        assert(corners(refs@, micro@) =~= Seq::<u32>::empty());
        assert(all_corners(parts@) + corners(refs@, micro@) =~= all_corners(parts@));
    }
    parts
}

/// The first corner whose index names no vertex of a stream of `vertex_count` vertices.
pub fn first_index_out_of_range(indices: &[u32], vertex_count: usize) -> (r: Option<usize>)
    ensures
        r matches Some(c) ==> c < indices@.len() && indices@[c as int] >= vertex_count && forall|j: int|
            0 <= j < c ==> #[trigger] indices@[j] < vertex_count,
        r is None ==> forall|j: int| 0 <= j < indices@.len() ==> #[trigger] indices@[j] < vertex_count,
{
    let mut c: usize = 0;
    while c < indices.len()
        invariant
            c <= indices@.len(),
            forall|j: int| 0 <= j < c ==> #[trigger] indices@[j] < vertex_count,
        decreases indices@.len() - c,
    {
        if indices[c] as usize >= vertex_count {
            return Some(c);
        }
        c = c + 1;
    }
    None
}

/// An index count that must fit in `u32`.
pub fn as_u32(value: usize, label: &'static str) -> (r: Result<u32, MeshletAssetError>)
    ensures
        value <= u32::MAX ==> r == Ok::<u32, MeshletAssetError>(value as u32),
        value > u32::MAX ==> r == Err::<u32, MeshletAssetError>(MeshletAssetError::SizeOverflow(label)),
{
    if value > u32::MAX as usize {
        return Err(MeshletAssetError::SizeOverflow(label));
    }
    Ok(value as u32)
}

/// An optional per-vertex stream is either absent or one record per position.
pub fn validate_optional_len(mesh_index: usize, label: &str, actual: usize, expected: usize) -> (r:
    Result<(), MeshletAssetError>)
    ensures
        (actual == 0 || actual == expected) <==> r is Ok,
        r is Err ==> (r->Err_0 matches MeshletAssetError::InvalidInput { mesh_index: m, .. }
            && m == mesh_index),
{
    if actual != 0 && actual != expected {
        let mut message = String::from_str("optional ");
        message.append(label);
        message.append(" stream length does not match the position stream");
        return Err(MeshletAssetError::InvalidInput { mesh_index, message });
    }
    Ok(())
}

} // verus!
