//! Word images of the fixed-stride records of the `.zenmesh` sections, and their encoders and
//! decoders.

use vstd::prelude::*;
use vstd::arithmetic::div_mod::lemma_fundamental_div_mod_converse;

use super::layout::{
    lemma_words_bytes_append, lemma_words_bytes_at,
    lemma_words_bytes_len, push_u32, read_u32_at, u32_at, words_bytes,
};
use super::{
    BoundsSphere, LodTableEntry, MeshTableEntry, MeshletBuildConfig, MeshletTableEntry,
    NormalCone, PackedVertexAttributes,
};

verus! {

broadcast use vstd::array::group_array_axioms;

/// Words of the build-config record; the last word is reserved and zero.
pub open spec fn config_words(c: MeshletBuildConfig) -> Seq<u32> {
    seq![
        c.max_meshlet_vertices,
        c.max_meshlet_triangles,
        c.task_workgroup_meshlets,
        c.max_lods,
        c.lod_target_ratio,
        c.min_lod_triangles,
        c.meshlet_cone_weight,
        0u32,
    ]
}

pub open spec fn sphere_words(s: BoundsSphere) -> Seq<u32> {
    seq![s.center@[0], s.center@[1], s.center@[2], s.radius]
}

pub open spec fn cone_words(c: NormalCone) -> Seq<u32> {
    seq![c.axis@[0], c.axis@[1], c.axis@[2], c.cutoff]
}

/// Words of a mesh record: six fields, two reserved zero words, the sphere.
pub open spec fn mesh_words(e: MeshTableEntry) -> Seq<u32> {
    seq![
        e.first_lod,
        e.lod_count,
        e.first_vertex,
        e.vertex_count,
        e.material_slot,
        e.pso_class,
        0u32,
        0u32,
    ] + sphere_words(e.bounds)
}

/// Words of a LOD record: seven fields, one reserved zero word, the sphere.
pub open spec fn lod_words(l: LodTableEntry) -> Seq<u32> {
    seq![
        l.first_meshlet,
        l.meshlet_count,
        l.first_index,
        l.index_count,
        l.first_vertex,
        l.vertex_count,
        l.geometric_error,
        0u32,
    ] + sphere_words(l.bounds)
}

/// Words of a meshlet record: six fields, two reserved zero words, the sphere, the cone.
pub open spec fn meshlet_words(x: MeshletTableEntry) -> Seq<u32> {
    seq![
        x.vertex_offset,
        x.vertex_count,
        x.triangle_offset,
        x.triangle_count,
        x.fallback_first_index,
        x.fallback_index_count,
        0u32,
        0u32,
    ] + sphere_words(x.bounds) + cone_words(x.normal_cone)
}

pub open spec fn position_words(p: [u32; 3]) -> Seq<u32> {
    seq![p@[0], p@[1], p@[2]]
}

pub open spec fn attribute_words(a: PackedVertexAttributes) -> Seq<u32> {
    seq![a.normal_oct, a.uv@[0], a.uv@[1], a.color_rgba8]
}

/// The concatenated words of `n` records of `k` words each.
pub open spec fn table_words(n: int, k: int, rec: spec_fn(int) -> Seq<u32>) -> Seq<u32> {
    Seq::new((n * k) as nat, |w: int| rec(w / k)[w % k])
}

pub open spec fn mesh_table_words(ms: Seq<MeshTableEntry>) -> Seq<u32> {
    table_words(ms.len() as int, 12, |i: int| mesh_words(ms[i]))
}

pub open spec fn lod_table_words(ls: Seq<LodTableEntry>) -> Seq<u32> {
    table_words(ls.len() as int, 12, |i: int| lod_words(ls[i]))
}

pub open spec fn meshlet_table_words(xs: Seq<MeshletTableEntry>) -> Seq<u32> {
    table_words(xs.len() as int, 16, |i: int| meshlet_words(xs[i]))
}

pub open spec fn position_table_words(ps: Seq<[u32; 3]>) -> Seq<u32> {
    table_words(ps.len() as int, 3, |i: int| position_words(ps[i]))
}

pub open spec fn attribute_table_words(attrs: Seq<PackedVertexAttributes>) -> Seq<u32> {
    table_words(attrs.len() as int, 4, |i: int| attribute_words(attrs[i]))
}

/// Record `i`, word `j` of a table.
pub proof fn lemma_table_words_at(n: int, k: int, rec: spec_fn(int) -> Seq<u32>, i: int, j: int)
    requires
        0 <= i < n,
        0 <= j < k,
    ensures
        table_words(n, k, rec).len() == n * k,
        i * k + j < n * k,
        table_words(n, k, rec)[i * k + j] == rec(i)[j],
{
    assert(0 <= i * k + j < n * k) by (nonlinear_arith)
        requires
            0 <= i < n,
            0 <= j < k,
    ;
    assert(n * k >= 0) by (nonlinear_arith)
        requires
            0 <= i < n,
            0 <= j < k,
    ;
    lemma_fundamental_div_mod_converse(i * k + j, k, i, j);
}

/// A table of `n + 1` records is the table of `n` records followed by the last record.
pub proof fn lemma_table_words_step(n: int, k: int, rec: spec_fn(int) -> Seq<u32>)
    requires
        0 <= n,
        0 < k,
        rec(n).len() == k,
    ensures
        table_words(n + 1, k, rec) == table_words(n, k, rec) + rec(n),
{
    assert((n + 1) * k == n * k + k) by (nonlinear_arith);
    assert(n * k >= 0) by (nonlinear_arith)
        requires
            0 <= n,
            0 < k,
    ;
    let a = table_words(n + 1, k, rec);
    let b = table_words(n, k, rec) + rec(n);
    assert forall|w: int| 0 <= w < a.len() implies a[w] == b[w] by {
        if w < n * k {
            assert(b[w] == table_words(n, k, rec)[w]);
        } else {
            let j = w - n * k;
            lemma_fundamental_div_mod_converse(w, k, n, j);
        }
    }
    assert(a =~= b);
}

/// The table of no records is empty.
pub proof fn lemma_table_words_empty(k: int, rec: spec_fn(int) -> Seq<u32>)
    ensures
        table_words(0, k, rec) == Seq::<u32>::empty(),
{
    assert(table_words(0, k, rec) =~= Seq::<u32>::empty());
}

/// Appends the byte image of a word sequence.
pub fn push_words(output: &mut Vec<u8>, words: &[u32])
    ensures
        final(output)@ == old(output)@ + words_bytes(words@),
{
    let ghost before = output@;
    let mut i: usize = 0;
    while i < words.len()
        invariant
            i <= words@.len(),
            output@ == before + words_bytes(words@.subrange(0, i as int)),
        decreases words@.len() - i,
    {
        push_u32(output, words[i]);
        proof {
            let next = words@.subrange(0, i + 1);
            assert(next.drop_last() =~= words@.subrange(0, i as int));
            assert(next.last() == words@[i as int]);
        }
        i = i + 1;
    }
    assert(words@.subrange(0, words@.len() as int) =~= words@);
}

/// The word image of a record table, given each record's words.
pub fn push_table_step(
    output: &mut Vec<u8>,
    words: &[u32],
    Ghost(n): Ghost<int>,
    Ghost(k): Ghost<int>,
    Ghost(rec): Ghost<spec_fn(int) -> Seq<u32>>,
)
    requires
        0 <= n,
        0 < k,
        rec(n) == words@,
        words@.len() == k,
        old(output)@ == words_bytes(table_words(n, k, rec)),
    ensures
        final(output)@ == words_bytes(table_words(n + 1, k, rec)),
{
    push_words(output, words);
    proof {
        lemma_table_words_step(n, k, rec);
        lemma_words_bytes_append(table_words(n, k, rec), rec(n));
    }
}

/// Byte image of the build-config record.
pub fn encode_config(c: MeshletBuildConfig) -> (r: Vec<u8>)
    ensures
        r@ == words_bytes(config_words(c)),
{
    let words = [
        c.max_meshlet_vertices,
        c.max_meshlet_triangles,
        c.task_workgroup_meshlets,
        c.max_lods,
        c.lod_target_ratio,
        c.min_lod_triangles,
        c.meshlet_cone_weight,
        0u32,
    ];
    let mut output: Vec<u8> = Vec::new();
    push_words(&mut output, words.as_slice());
    assert(words@ =~= config_words(c));
    assert(Seq::<u8>::empty() + words_bytes(config_words(c)) =~= words_bytes(config_words(c)));
    output
}

pub fn encode_meshes(ms: &[MeshTableEntry]) -> (r: Vec<u8>)
    ensures
        r@ == words_bytes(mesh_table_words(ms@)),
{
    let ghost rec = |i: int| mesh_words(ms@[i]);
    let mut output: Vec<u8> = Vec::new();
    proof {
        lemma_table_words_empty(12, rec);
    }
    let mut i: usize = 0;
    while i < ms.len()
        invariant
            i <= ms@.len(),
            rec == (|i: int| mesh_words(ms@[i])),
            output@ == words_bytes(table_words(i as int, 12, rec)),
        decreases ms@.len() - i,
    {
        let e = ms[i];
        let words = [
            e.first_lod,
            e.lod_count,
            e.first_vertex,
            e.vertex_count,
            e.material_slot,
            e.pso_class,
            0u32,
            0u32,
            e.bounds.center[0],
            e.bounds.center[1],
            e.bounds.center[2],
            e.bounds.radius,
        ];
        assert(words@ =~= mesh_words(e));
        push_table_step(&mut output, words.as_slice(), Ghost(i as int), Ghost(12), Ghost(rec));
        i = i + 1;
    }
    output
}

pub fn encode_lods(ls: &[LodTableEntry]) -> (r: Vec<u8>)
    ensures
        r@ == words_bytes(lod_table_words(ls@)),
{
    let ghost rec = |i: int| lod_words(ls@[i]);
    let mut output: Vec<u8> = Vec::new();
    proof {
        lemma_table_words_empty(12, rec);
    }
    let mut i: usize = 0;
    while i < ls.len()
        invariant
            i <= ls@.len(),
            rec == (|i: int| lod_words(ls@[i])),
            output@ == words_bytes(table_words(i as int, 12, rec)),
        decreases ls@.len() - i,
    {
        let l = ls[i];
        let words = [
            l.first_meshlet,
            l.meshlet_count,
            l.first_index,
            l.index_count,
            l.first_vertex,
            l.vertex_count,
            l.geometric_error,
            0u32,
            l.bounds.center[0],
            l.bounds.center[1],
            l.bounds.center[2],
            l.bounds.radius,
        ];
        assert(words@ =~= lod_words(l));
        push_table_step(&mut output, words.as_slice(), Ghost(i as int), Ghost(12), Ghost(rec));
        i = i + 1;
    }
    output
}

pub fn encode_meshlets(xs: &[MeshletTableEntry]) -> (r: Vec<u8>)
    ensures
        r@ == words_bytes(meshlet_table_words(xs@)),
{
    let ghost rec = |i: int| meshlet_words(xs@[i]);
    let mut output: Vec<u8> = Vec::new();
    proof {
        lemma_table_words_empty(16, rec);
    }
    let mut i: usize = 0;
    while i < xs.len()
        invariant
            i <= xs@.len(),
            rec == (|i: int| meshlet_words(xs@[i])),
            output@ == words_bytes(table_words(i as int, 16, rec)),
        decreases xs@.len() - i,
    {
        let x = xs[i];
        let words = [
            x.vertex_offset,
            x.vertex_count,
            x.triangle_offset,
            x.triangle_count,
            x.fallback_first_index,
            x.fallback_index_count,
            0u32,
            0u32,
            x.bounds.center[0],
            x.bounds.center[1],
            x.bounds.center[2],
            x.bounds.radius,
            x.normal_cone.axis[0],
            x.normal_cone.axis[1],
            x.normal_cone.axis[2],
            x.normal_cone.cutoff,
        ];
        assert(words@ =~= meshlet_words(x));
        push_table_step(&mut output, words.as_slice(), Ghost(i as int), Ghost(16), Ghost(rec));
        i = i + 1;
    }
    output
}

pub fn encode_positions(ps: &[[u32; 3]]) -> (r: Vec<u8>)
    ensures
        r@ == words_bytes(position_table_words(ps@)),
{
    let ghost rec = |i: int| position_words(ps@[i]);
    let mut output: Vec<u8> = Vec::new();
    proof {
        lemma_table_words_empty(3, rec);
    }
    let mut i: usize = 0;
    while i < ps.len()
        invariant
            i <= ps@.len(),
            rec == (|i: int| position_words(ps@[i])),
            output@ == words_bytes(table_words(i as int, 3, rec)),
        decreases ps@.len() - i,
    {
        let p = ps[i];
        let words = [p[0], p[1], p[2]];
        assert(words@ =~= position_words(p));
        push_table_step(&mut output, words.as_slice(), Ghost(i as int), Ghost(3), Ghost(rec));
        i = i + 1;
    }
    output
}

pub fn encode_attributes(attrs: &[PackedVertexAttributes]) -> (r: Vec<u8>)
    ensures
        r@ == words_bytes(attribute_table_words(attrs@)),
{
    let ghost rec = |i: int| attribute_words(attrs@[i]);
    let mut output: Vec<u8> = Vec::new();
    proof {
        lemma_table_words_empty(4, rec);
    }
    let mut i: usize = 0;
    while i < attrs.len()
        invariant
            i <= attrs@.len(),
            rec == (|i: int| attribute_words(attrs@[i])),
            output@ == words_bytes(table_words(i as int, 4, rec)),
        decreases attrs@.len() - i,
    {
        let a = attrs[i];
        let words = [a.normal_oct, a.uv[0], a.uv[1], a.color_rgba8];
        assert(words@ =~= attribute_words(a));
        push_table_step(&mut output, words.as_slice(), Ghost(i as int), Ghost(4), Ghost(rec));
        i = i + 1;
    }
    output
}

pub fn encode_u32s(values: &[u32]) -> (r: Vec<u8>)
    ensures
        r@ == words_bytes(values@),
{
    let mut output: Vec<u8> = Vec::new();
    push_words(&mut output, values);
    assert(Seq::<u8>::empty() + words_bytes(values@) =~= words_bytes(values@));
    output
}

/// Three words as an array.
pub open spec fn arr3(a: u32, b: u32, c: u32) -> [u32; 3] {
    [a, b, c]
}

/// The sphere stored at byte `p`.
pub open spec fn sphere_from(s: Seq<u8>, p: int) -> BoundsSphere {
    BoundsSphere {
        center: arr3(u32_at(s, p), u32_at(s, p + 4), u32_at(s, p + 8)),
        radius: u32_at(s, p + 12),
    }
}

/// The cone stored at byte `p`.
pub open spec fn cone_from(s: Seq<u8>, p: int) -> NormalCone {
    NormalCone {
        axis: arr3(u32_at(s, p), u32_at(s, p + 4), u32_at(s, p + 8)),
        cutoff: u32_at(s, p + 12),
    }
}

/// The build configuration stored at the start of a section.
pub open spec fn config_from(s: Seq<u8>) -> MeshletBuildConfig {
    MeshletBuildConfig {
        max_meshlet_vertices: u32_at(s, 0),
        max_meshlet_triangles: u32_at(s, 4),
        task_workgroup_meshlets: u32_at(s, 8),
        max_lods: u32_at(s, 12),
        lod_target_ratio: u32_at(s, 16),
        min_lod_triangles: u32_at(s, 20),
        meshlet_cone_weight: u32_at(s, 24),
    }
}

/// The mesh record stored at byte `p`.
pub open spec fn mesh_from(s: Seq<u8>, p: int) -> MeshTableEntry {
    MeshTableEntry {
        first_lod: u32_at(s, p),
        lod_count: u32_at(s, p + 4),
        first_vertex: u32_at(s, p + 8),
        vertex_count: u32_at(s, p + 12),
        material_slot: u32_at(s, p + 16),
        pso_class: u32_at(s, p + 20),
        bounds: sphere_from(s, p + 32),
    }
}

/// The LOD record stored at byte `p`.
pub open spec fn lod_from(s: Seq<u8>, p: int) -> LodTableEntry {
    LodTableEntry {
        first_meshlet: u32_at(s, p),
        meshlet_count: u32_at(s, p + 4),
        first_index: u32_at(s, p + 8),
        index_count: u32_at(s, p + 12),
        first_vertex: u32_at(s, p + 16),
        vertex_count: u32_at(s, p + 20),
        geometric_error: u32_at(s, p + 24),
        bounds: sphere_from(s, p + 32),
    }
}

/// The meshlet record stored at byte `p`.
pub open spec fn meshlet_from(s: Seq<u8>, p: int) -> MeshletTableEntry {
    MeshletTableEntry {
        vertex_offset: u32_at(s, p),
        vertex_count: u32_at(s, p + 4),
        triangle_offset: u32_at(s, p + 8),
        triangle_count: u32_at(s, p + 12),
        fallback_first_index: u32_at(s, p + 16),
        fallback_index_count: u32_at(s, p + 20),
        bounds: sphere_from(s, p + 32),
        normal_cone: cone_from(s, p + 48),
    }
}

/// The position stored at byte `p`.
pub open spec fn position_from(s: Seq<u8>, p: int) -> [u32; 3] {
    arr3(u32_at(s, p), u32_at(s, p + 4), u32_at(s, p + 8))
}

/// The attribute record stored at byte `p`.
pub open spec fn attribute_from(s: Seq<u8>, p: int) -> PackedVertexAttributes {
    PackedVertexAttributes {
        normal_oct: u32_at(s, p),
        uv: [u32_at(s, p + 4), u32_at(s, p + 8)],
        color_rgba8: u32_at(s, p + 12),
    }
}

/// Reserved words of every mesh record are zero.
pub open spec fn mesh_reserved_zero(s: Seq<u8>, count: int) -> bool {
    forall|i: int| 0 <= i < count ==> #[trigger] mesh_record_reserved_zero(s, i)
}

pub open spec fn mesh_record_reserved_zero(s: Seq<u8>, i: int) -> bool {
    u32_at(s, 48 * i + 24) == 0 && u32_at(s, 48 * i + 28) == 0
}

/// The reserved word of every LOD record is zero.
pub open spec fn lod_reserved_zero(s: Seq<u8>, count: int) -> bool {
    forall|i: int| 0 <= i < count ==> #[trigger] lod_record_reserved_zero(s, i)
}

pub open spec fn lod_record_reserved_zero(s: Seq<u8>, i: int) -> bool {
    u32_at(s, 48 * i + 28) == 0
}

/// Reserved words of every meshlet record are zero.
pub open spec fn meshlet_reserved_zero(s: Seq<u8>, count: int) -> bool {
    forall|i: int| 0 <= i < count ==> #[trigger] meshlet_record_reserved_zero(s, i)
}

pub open spec fn meshlet_record_reserved_zero(s: Seq<u8>, i: int) -> bool {
    u32_at(s, 64 * i + 24) == 0 && u32_at(s, 64 * i + 28) == 0
}

fn read_sphere(s: &[u8], p: usize) -> (r: BoundsSphere)
    requires
        p + 16 <= s@.len(),
    ensures
        r == sphere_from(s@, p as int),
{
    let _len = s.len();
    let r = BoundsSphere {
        center: [read_u32_at(s, p), read_u32_at(s, p + 4), read_u32_at(s, p + 8)],
        radius: read_u32_at(s, p + 12),
    };
    assert(r.center =~= arr3(u32_at(s@, p as int), u32_at(s@, p + 4), u32_at(s@, p + 8)));
    r
}

fn read_cone(s: &[u8], p: usize) -> (r: NormalCone)
    requires
        p + 16 <= s@.len(),
    ensures
        r == cone_from(s@, p as int),
{
    let _len = s.len();
    let r = NormalCone {
        axis: [read_u32_at(s, p), read_u32_at(s, p + 4), read_u32_at(s, p + 8)],
        cutoff: read_u32_at(s, p + 12),
    };
    assert(r.axis =~= arr3(u32_at(s@, p as int), u32_at(s@, p + 4), u32_at(s@, p + 8)));
    r
}

/// Reads the configuration record; its reserved word must be zero.
pub fn decode_config(s: &[u8]) -> (r: Option<MeshletBuildConfig>)
    requires
        s@.len() == 32,
    ensures
        u32_at(s@, 28) == 0 ==> r == Some(config_from(s@)),
        u32_at(s@, 28) != 0 ==> r is None,
{
    if read_u32_at(s, 28) != 0 {
        return None;
    }
    Some(
        MeshletBuildConfig {
            max_meshlet_vertices: read_u32_at(s, 0),
            max_meshlet_triangles: read_u32_at(s, 4),
            task_workgroup_meshlets: read_u32_at(s, 8),
            max_lods: read_u32_at(s, 12),
            lod_target_ratio: read_u32_at(s, 16),
            min_lod_triangles: read_u32_at(s, 20),
            meshlet_cone_weight: read_u32_at(s, 24),
        },
    )
}

/// Reads `count` mesh records; `None` when a reserved word is not zero.
pub fn decode_meshes(s: &[u8], count: usize) -> (r: Option<Vec<MeshTableEntry>>)
    requires
        s@.len() == 48 * count,
    ensures
        mesh_reserved_zero(s@, count as int) ==> r is Some && r->0@ == Seq::new(
            count as nat,
            |i: int| mesh_from(s@, 48 * i),
        ),
        !mesh_reserved_zero(s@, count as int) ==> r is None,
{
    let mut out: Vec<MeshTableEntry> = Vec::new();
    let len = s.len();
    let mut i: usize = 0;
    while i < count
        invariant
            s@.len() == 48 * count,
            s@.len() == len,
            i <= count,
            out@ == Seq::new(i as nat, |j: int| mesh_from(s@, 48 * j)),
            forall|j: int| 0 <= j < i ==> #[trigger] mesh_record_reserved_zero(s@, j),
        decreases count - i,
    {
        let p = 48 * i;
        if read_u32_at(s, p + 24) != 0 || read_u32_at(s, p + 28) != 0 {
            assert(!mesh_record_reserved_zero(s@, i as int));
            return None;
        }
        let e = MeshTableEntry {
            first_lod: read_u32_at(s, p),
            lod_count: read_u32_at(s, p + 4),
            first_vertex: read_u32_at(s, p + 8),
            vertex_count: read_u32_at(s, p + 12),
            material_slot: read_u32_at(s, p + 16),
            pso_class: read_u32_at(s, p + 20),
            bounds: read_sphere(s, p + 32),
        };
        out.push(e);
        assert(out@ =~= Seq::new((i + 1) as nat, |j: int| mesh_from(s@, 48 * j)));
        i = i + 1;
    }
    Some(out)
}

/// Reads `count` LOD records; `None` when a reserved word is not zero.
pub fn decode_lods(s: &[u8], count: usize) -> (r: Option<Vec<LodTableEntry>>)
    requires
        s@.len() == 48 * count,
    ensures
        lod_reserved_zero(s@, count as int) ==> r is Some && r->0@ == Seq::new(
            count as nat,
            |i: int| lod_from(s@, 48 * i),
        ),
        !lod_reserved_zero(s@, count as int) ==> r is None,
{
    let mut out: Vec<LodTableEntry> = Vec::new();
    let len = s.len();
    let mut i: usize = 0;
    while i < count
        invariant
            s@.len() == 48 * count,
            s@.len() == len,
            i <= count,
            out@ == Seq::new(i as nat, |j: int| lod_from(s@, 48 * j)),
            forall|j: int| 0 <= j < i ==> #[trigger] lod_record_reserved_zero(s@, j),
        decreases count - i,
    {
        let p = 48 * i;
        if read_u32_at(s, p + 28) != 0 {
            assert(!lod_record_reserved_zero(s@, i as int));
            return None;
        }
        let l = LodTableEntry {
            first_meshlet: read_u32_at(s, p),
            meshlet_count: read_u32_at(s, p + 4),
            first_index: read_u32_at(s, p + 8),
            index_count: read_u32_at(s, p + 12),
            first_vertex: read_u32_at(s, p + 16),
            vertex_count: read_u32_at(s, p + 20),
            geometric_error: read_u32_at(s, p + 24),
            bounds: read_sphere(s, p + 32),
        };
        out.push(l);
        assert(out@ =~= Seq::new((i + 1) as nat, |j: int| lod_from(s@, 48 * j)));
        i = i + 1;
    }
    Some(out)
}

/// Reads `count` meshlet records; `None` when a reserved word is not zero.
pub fn decode_meshlets(s: &[u8], count: usize) -> (r: Option<Vec<MeshletTableEntry>>)
    requires
        s@.len() == 64 * count,
    ensures
        meshlet_reserved_zero(s@, count as int) ==> r is Some && r->0@ == Seq::new(
            count as nat,
            |i: int| meshlet_from(s@, 64 * i),
        ),
        !meshlet_reserved_zero(s@, count as int) ==> r is None,
{
    let mut out: Vec<MeshletTableEntry> = Vec::new();
    let len = s.len();
    let mut i: usize = 0;
    while i < count
        invariant
            s@.len() == 64 * count,
            s@.len() == len,
            i <= count,
            out@ == Seq::new(i as nat, |j: int| meshlet_from(s@, 64 * j)),
            forall|j: int| 0 <= j < i ==> #[trigger] meshlet_record_reserved_zero(s@, j),
        decreases count - i,
    {
        let p = 64 * i;
        if read_u32_at(s, p + 24) != 0 || read_u32_at(s, p + 28) != 0 {
            assert(!meshlet_record_reserved_zero(s@, i as int));
            return None;
        }
        let x = MeshletTableEntry {
            vertex_offset: read_u32_at(s, p),
            vertex_count: read_u32_at(s, p + 4),
            triangle_offset: read_u32_at(s, p + 8),
            triangle_count: read_u32_at(s, p + 12),
            fallback_first_index: read_u32_at(s, p + 16),
            fallback_index_count: read_u32_at(s, p + 20),
            bounds: read_sphere(s, p + 32),
            normal_cone: read_cone(s, p + 48),
        };
        out.push(x);
        assert(out@ =~= Seq::new((i + 1) as nat, |j: int| meshlet_from(s@, 64 * j)));
        i = i + 1;
    }
    Some(out)
}

/// Reads `count` positions.
pub fn decode_positions(s: &[u8], count: usize) -> (r: Vec<[u32; 3]>)
    requires
        s@.len() == 12 * count,
    ensures
        r@ == Seq::new(count as nat, |i: int| position_from(s@, 12 * i)),
{
    let mut out: Vec<[u32; 3]> = Vec::new();
    let len = s.len();
    let mut i: usize = 0;
    while i < count
        invariant
            s@.len() == 12 * count,
            s@.len() == len,
            i <= count,
            out@ == Seq::new(i as nat, |j: int| position_from(s@, 12 * j)),
        decreases count - i,
    {
        let p = 12 * i;
        let v = [read_u32_at(s, p), read_u32_at(s, p + 4), read_u32_at(s, p + 8)];
        assert(v =~= position_from(s@, p as int));
        out.push(v);
        assert(out@ =~= Seq::new((i + 1) as nat, |j: int| position_from(s@, 12 * j)));
        i = i + 1;
    }
    out
}

/// Reads `count` attribute records.
pub fn decode_attributes(s: &[u8], count: usize) -> (r: Vec<PackedVertexAttributes>)
    requires
        s@.len() == 16 * count,
    ensures
        r@ == Seq::new(count as nat, |i: int| attribute_from(s@, 16 * i)),
{
    let mut out: Vec<PackedVertexAttributes> = Vec::new();
    let len = s.len();
    let mut i: usize = 0;
    while i < count
        invariant
            s@.len() == 16 * count,
            s@.len() == len,
            i <= count,
            out@ == Seq::new(i as nat, |j: int| attribute_from(s@, 16 * j)),
        decreases count - i,
    {
        let p = 16 * i;
        let a = PackedVertexAttributes {
            normal_oct: read_u32_at(s, p),
            uv: [read_u32_at(s, p + 4), read_u32_at(s, p + 8)],
            color_rgba8: read_u32_at(s, p + 12),
        };
        assert(a.uv =~= attribute_from(s@, p as int).uv);
        out.push(a);
        assert(out@ =~= Seq::new((i + 1) as nat, |j: int| attribute_from(s@, 16 * j)));
        i = i + 1;
    }
    out
}

/// Word `j` of record `i` of a table is stored at byte `4 (i k + j)` of its image.
pub proof fn lemma_table_image_at(n: int, k: int, rec: spec_fn(int) -> Seq<u32>, i: int, j: int)
    requires
        0 <= i < n,
        0 <= j < k,
    ensures
        u32_at(words_bytes(table_words(n, k, rec)), 4 * (i * k + j)) == rec(i)[j],
        words_bytes(table_words(n, k, rec)).len() == 4 * (n * k),
{
    lemma_table_words_at(n, k, rec, i, j);
    lemma_words_bytes_at(table_words(n, k, rec), i * k + j);
}

/// The configuration record reads back as the configuration, with a zero reserved word.
pub proof fn lemma_config_round_trip(c: MeshletBuildConfig)
    ensures
        words_bytes(config_words(c)).len() == 32,
        config_from(words_bytes(config_words(c))) == c,
        u32_at(words_bytes(config_words(c)), 28) == 0,
{
    let w = config_words(c);
    lemma_words_bytes_at(w, 0);
    lemma_words_bytes_at(w, 1);
    lemma_words_bytes_at(w, 2);
    lemma_words_bytes_at(w, 3);
    lemma_words_bytes_at(w, 4);
    lemma_words_bytes_at(w, 5);
    lemma_words_bytes_at(w, 6);
    lemma_words_bytes_at(w, 7);
}

/// Mesh records read back as the meshes, with zero reserved words.
pub proof fn lemma_mesh_round_trip(ms: Seq<MeshTableEntry>)
    ensures
        words_bytes(mesh_table_words(ms)).len() == 48 * ms.len(),
        forall|i: int|
            0 <= i < ms.len() ==> #[trigger] mesh_from(words_bytes(mesh_table_words(ms)), 48 * i)
                == ms[i],
        forall|i: int|
            0 <= i < ms.len() ==> #[trigger] mesh_record_reserved_zero(
                words_bytes(mesh_table_words(ms)),
                i,
            ),
{
    let n = ms.len() as int;
    let rec = |i: int| mesh_words(ms[i]);
    let s = words_bytes(mesh_table_words(ms));
    lemma_words_bytes_len(mesh_table_words(ms));
    assert forall|i: int| 0 <= i < n implies #[trigger] mesh_from(s, 48 * i) == ms[i]
        && mesh_record_reserved_zero(s, i) by {
        lemma_table_image_at(n, 12, rec, i, 0);
        lemma_table_image_at(n, 12, rec, i, 1);
        lemma_table_image_at(n, 12, rec, i, 2);
        lemma_table_image_at(n, 12, rec, i, 3);
        lemma_table_image_at(n, 12, rec, i, 4);
        lemma_table_image_at(n, 12, rec, i, 5);
        lemma_table_image_at(n, 12, rec, i, 6);
        lemma_table_image_at(n, 12, rec, i, 7);
        lemma_table_image_at(n, 12, rec, i, 8);
        lemma_table_image_at(n, 12, rec, i, 9);
        lemma_table_image_at(n, 12, rec, i, 10);
        lemma_table_image_at(n, 12, rec, i, 11);
        assert(sphere_from(s, 48 * i + 32).center =~= ms[i].bounds.center);
    }
    assert forall|i: int| 0 <= i < n implies #[trigger] mesh_record_reserved_zero(s, i) by {
        assert(mesh_from(s, 48 * i) == ms[i]);
    }
}

/// LOD records read back as the LODs, with a zero reserved word.
pub proof fn lemma_lod_round_trip(ls: Seq<LodTableEntry>)
    ensures
        words_bytes(lod_table_words(ls)).len() == 48 * ls.len(),
        forall|i: int|
            0 <= i < ls.len() ==> #[trigger] lod_from(words_bytes(lod_table_words(ls)), 48 * i)
                == ls[i],
        forall|i: int|
            0 <= i < ls.len() ==> #[trigger] lod_record_reserved_zero(
                words_bytes(lod_table_words(ls)),
                i,
            ),
{
    let n = ls.len() as int;
    let rec = |i: int| lod_words(ls[i]);
    let s = words_bytes(lod_table_words(ls));
    lemma_words_bytes_len(lod_table_words(ls));
    assert forall|i: int| 0 <= i < n implies #[trigger] lod_from(s, 48 * i) == ls[i]
        && lod_record_reserved_zero(s, i) by {
        lemma_table_image_at(n, 12, rec, i, 0);
        lemma_table_image_at(n, 12, rec, i, 1);
        lemma_table_image_at(n, 12, rec, i, 2);
        lemma_table_image_at(n, 12, rec, i, 3);
        lemma_table_image_at(n, 12, rec, i, 4);
        lemma_table_image_at(n, 12, rec, i, 5);
        lemma_table_image_at(n, 12, rec, i, 6);
        lemma_table_image_at(n, 12, rec, i, 7);
        lemma_table_image_at(n, 12, rec, i, 8);
        lemma_table_image_at(n, 12, rec, i, 9);
        lemma_table_image_at(n, 12, rec, i, 10);
        lemma_table_image_at(n, 12, rec, i, 11);
        assert(sphere_from(s, 48 * i + 32).center =~= ls[i].bounds.center);
    }
    assert forall|i: int| 0 <= i < n implies #[trigger] lod_record_reserved_zero(s, i) by {
        assert(lod_from(s, 48 * i) == ls[i]);
    }
}

/// Meshlet records read back as the meshlets, with zero reserved words.
pub proof fn lemma_meshlet_round_trip(xs: Seq<MeshletTableEntry>)
    ensures
        words_bytes(meshlet_table_words(xs)).len() == 64 * xs.len(),
        forall|i: int|
            0 <= i < xs.len() ==> #[trigger] meshlet_from(
                words_bytes(meshlet_table_words(xs)),
                64 * i,
            ) == xs[i],
        forall|i: int|
            0 <= i < xs.len() ==> #[trigger] meshlet_record_reserved_zero(
                words_bytes(meshlet_table_words(xs)),
                i,
            ),
{
    let n = xs.len() as int;
    let rec = |i: int| meshlet_words(xs[i]);
    let s = words_bytes(meshlet_table_words(xs));
    lemma_words_bytes_len(meshlet_table_words(xs));
    assert forall|i: int| 0 <= i < n implies #[trigger] meshlet_from(s, 64 * i) == xs[i]
        && meshlet_record_reserved_zero(s, i) by {
        lemma_table_image_at(n, 16, rec, i, 0);
        lemma_table_image_at(n, 16, rec, i, 1);
        lemma_table_image_at(n, 16, rec, i, 2);
        lemma_table_image_at(n, 16, rec, i, 3);
        lemma_table_image_at(n, 16, rec, i, 4);
        lemma_table_image_at(n, 16, rec, i, 5);
        lemma_table_image_at(n, 16, rec, i, 6);
        lemma_table_image_at(n, 16, rec, i, 7);
        lemma_table_image_at(n, 16, rec, i, 8);
        lemma_table_image_at(n, 16, rec, i, 9);
        lemma_table_image_at(n, 16, rec, i, 10);
        lemma_table_image_at(n, 16, rec, i, 11);
        lemma_table_image_at(n, 16, rec, i, 12);
        lemma_table_image_at(n, 16, rec, i, 13);
        lemma_table_image_at(n, 16, rec, i, 14);
        lemma_table_image_at(n, 16, rec, i, 15);
        assert(sphere_from(s, 64 * i + 32).center =~= xs[i].bounds.center);
        assert(cone_from(s, 64 * i + 48).axis =~= xs[i].normal_cone.axis);
    }
    assert forall|i: int| 0 <= i < n implies #[trigger] meshlet_record_reserved_zero(s, i) by {
        assert(meshlet_from(s, 64 * i) == xs[i]);
    }
}

/// Position records read back as the positions.
pub proof fn lemma_position_round_trip(ps: Seq<[u32; 3]>)
    ensures
        words_bytes(position_table_words(ps)).len() == 12 * ps.len(),
        forall|i: int|
            0 <= i < ps.len() ==> #[trigger] position_from(
                words_bytes(position_table_words(ps)),
                12 * i,
            ) == ps[i],
{
    let n = ps.len() as int;
    let rec = |i: int| position_words(ps[i]);
    let s = words_bytes(position_table_words(ps));
    lemma_words_bytes_len(position_table_words(ps));
    assert forall|i: int| 0 <= i < n implies #[trigger] position_from(s, 12 * i) == ps[i] by {
        lemma_table_image_at(n, 3, rec, i, 0);
        lemma_table_image_at(n, 3, rec, i, 1);
        lemma_table_image_at(n, 3, rec, i, 2);
        assert(position_from(s, 12 * i) =~= ps[i]);
    }
}

/// Attribute records read back as the attributes.
pub proof fn lemma_attribute_round_trip(attrs: Seq<PackedVertexAttributes>)
    ensures
        words_bytes(attribute_table_words(attrs)).len() == 16 * attrs.len(),
        forall|i: int|
            0 <= i < attrs.len() ==> #[trigger] attribute_from(
                words_bytes(attribute_table_words(attrs)),
                16 * i,
            ) == attrs[i],
{
    let n = attrs.len() as int;
    let rec = |i: int| attribute_words(attrs[i]);
    let s = words_bytes(attribute_table_words(attrs));
    lemma_words_bytes_len(attribute_table_words(attrs));
    assert forall|i: int| 0 <= i < n implies #[trigger] attribute_from(s, 16 * i) == attrs[i] by {
        lemma_table_image_at(n, 4, rec, i, 0);
        lemma_table_image_at(n, 4, rec, i, 1);
        lemma_table_image_at(n, 4, rec, i, 2);
        lemma_table_image_at(n, 4, rec, i, 3);
        assert(attribute_from(s, 16 * i).uv =~= attrs[i].uv);
    }
}

/// Reads `count` words.
pub fn decode_u32s(s: &[u8], count: usize) -> (r: Vec<u32>)
    requires
        s@.len() == 4 * count,
    ensures
        r@ == Seq::new(count as nat, |i: int| u32_at(s@, 4 * i)),
{
    let mut out: Vec<u32> = Vec::new();
    let len = s.len();
    let mut i: usize = 0;
    while i < count
        invariant
            s@.len() == 4 * count,
            s@.len() == len,
            i <= count,
            out@ == Seq::new(i as nat, |j: int| u32_at(s@, 4 * j)),
        decreases count - i,
    {
        out.push(read_u32_at(s, 4 * i));
        assert(out@ =~= Seq::new((i + 1) as nat, |j: int| u32_at(s@, 4 * j)));
        i = i + 1;
    }
    out
}

} // verus!
