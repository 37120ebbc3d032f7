//! Workgroup dispatch shapes and the prefix scan that the culling front end runs on the GPU:
//! two-dimensional launches within device limits, the per-backend indirect limits, and the
//! block-wise saturating scan together with the sequential scan it must agree with.

use vstd::prelude::*;
use vstd::arithmetic::div_mod::lemma_fundamental_div_mod;

use crate::asset::{spec_pso_number, MeshletPsoClass};
use crate::config::MeshletBackend;
use crate::gpu_types::{PREFIX_SCAN_WORKGROUP_SIZE, RASTER_UNIFORM_STRIDE};

verus! {

/// `a / b` rounded up.
pub open spec fn div_ceil(a: int, b: int) -> int {
    (a + b - 1) / b
}

pub open spec fn min(a: int, b: int) -> int {
    if a <= b {
        a
    } else {
        b
    }
}

fn div_ceil_u32(a: u32, b: u32) -> (r: u32)
    requires
        b > 0,
    ensures
        r == div_ceil(a as int, b as int),
{
    let q = a / b;
    proof {
        lemma_fundamental_div_mod(a as int, b as int);
    }
    if a % b == 0 {
        proof {
            assert(div_ceil(a as int, b as int) == q) by (nonlinear_arith)
                requires
                    a == b * q + a % b,
                    a % b == 0,
                    b > 0,
            ;
        }
        q
    } else {
        proof {
            assert(div_ceil(a as int, b as int) == q + 1) by (nonlinear_arith)
                requires
                    a == b * q + a % b,
                    0 < a % b < b,
                    b > 0,
            ;
            assert(q < u32::MAX) by (nonlinear_arith)
                requires
                    a == b * q + a % b,
                    0 < a % b,
                    b > 0,
            ;
        }
        q + 1
    }
}

/// The `x` by `y` launch of `group_count` workgroups: `x` as wide as the dimension limit allows,
/// `y` the rows needed, also capped by the limit; no workgroups is one empty row.
pub open spec fn dispatch_2d_spec(group_count: u32, max_dimension: u32) -> (u32, u32) {
    if group_count == 0 {
        (0, 1)
    } else {
        let x = min(group_count as int, max_dimension as int);
        (x as u32, min(div_ceil(group_count as int, x), max_dimension as int) as u32)
    }
}

/// Flattens `group_count` workgroups into an `x` by `y` launch: `x` is as wide as the dimension
/// limit allows, `y` the rows needed, also capped by the limit.
pub fn dispatch_2d(group_count: u32, max_dimension: u32) -> (r: (u32, u32))
    requires
        max_dimension > 0,
    ensures
        r == dispatch_2d_spec(group_count, max_dimension),
        group_count == 0 ==> r == (0u32, 1u32),
        group_count > 0 ==> r.0 == min(group_count as int, max_dimension as int) && r.1 == min(
            div_ceil(group_count as int, r.0 as int),
            max_dimension as int,
        ),
{
    if group_count == 0 {
        return (0, 1);
    }
    let x = if group_count < max_dimension {
        group_count
    } else {
        max_dimension
    };
    let rows = div_ceil_u32(group_count, x);
    let y = if rows < max_dimension {
        rows
    } else {
        max_dimension
    };
    (x, y)
}

/// Threads per workgroup of the per-instance passes (classification and candidate scatter).
pub const CLASSIFY_WORKGROUP_SIZE: u32 = 64;

/// The launch of a per-instance pass: one thread per instance.
pub fn instance_dispatch(instance_count: u32, max_dimension: u32) -> (r: (u32, u32))
    requires
        max_dimension > 0,
    ensures
        r == dispatch_2d_spec(
            div_ceil(instance_count as int, CLASSIFY_WORKGROUP_SIZE as int) as u32,
            max_dimension,
        ),
{
    let groups = div_ceil_u32(instance_count, CLASSIFY_WORKGROUP_SIZE);
    dispatch_2d(groups, max_dimension)
}

/// The launch of the block-local and offset-adding prefix-scan passes, one workgroup per block of
/// instances; none when there are no instances (the block-sum pass always runs as one group).
pub fn prefix_scan_dispatch(instance_count: u32, max_dimension: u32) -> (r: Option<(u32, u32)>)
    requires
        max_dimension > 0,
    ensures
        ({
            let blocks = div_ceil(instance_count as int, PREFIX_SCAN_WORKGROUP_SIZE as int);
            &&& blocks == 0 ==> r is None
            &&& blocks > 0 ==> r == Some(dispatch_2d_spec(blocks as u32, max_dimension))
        }),
{
    let blocks = div_ceil_u32(instance_count, PREFIX_SCAN_WORKGROUP_SIZE);
    if blocks == 0 {
        None
    } else {
        Some(dispatch_2d(blocks, max_dimension))
    }
}

/// The indirect workgroup totals that the selected backend consumes, as (mesh, task); a stage the
/// backend never runs gets zero.
pub fn indirect_workgroup_total_limits(backend: MeshletBackend, mesh_limit: u32, task_limit: u32) -> (r: (
    u32,
    u32,
))
    requires
        backend != MeshletBackend::Auto,
    ensures
        backend == MeshletBackend::IndexedIndirect ==> r == (0u32, 0u32),
        backend == MeshletBackend::MeshOnly ==> r == (mesh_limit, 0u32),
        backend == MeshletBackend::TaskMesh ==> r == (0u32, task_limit),
{
    match backend {
        MeshletBackend::IndexedIndirect => (0, 0),
        MeshletBackend::MeshOnly => (mesh_limit, 0),
        MeshletBackend::TaskMesh => (0, task_limit),
        MeshletBackend::Auto => (0, 0),
    }
}

/// The narrowest legal row width that spans the total limit within the Y dimension, and the
/// largest whole number of such rows' workgroups that fits the total: (width, capacity).
pub fn rectangular_dispatch_limit(total_limit: u32, max_dimension: u32) -> (r: (u32, u32))
    ensures
        total_limit == 0 ==> r == (1u32, 0u32),
        total_limit > 0 ==> r.0 == rectangular_dispatch_spec(total_limit, max_dimension).0 && r.1
            == rectangular_dispatch_spec(total_limit, max_dimension).1,
{
    if total_limit == 0 {
        return (1, 0);
    }
    let d = if max_dimension == 0 {
        1
    } else {
        max_dimension
    };
    let spans = div_ceil_u32(total_limit, d);
    assert(spans >= 1) by (nonlinear_arith)
        requires
            spans == div_ceil(total_limit as int, d as int),
            total_limit >= 1,
            d >= 1,
    ;
    let width = if spans < d {
        spans
    } else {
        d
    };
    let whole = total_limit / width;
    let rows = if whole < d {
        whole
    } else {
        d
    };
    assert(width * rows <= total_limit) by (nonlinear_arith)
        requires
            rows <= whole,
            whole == total_limit / width,
            width >= 1,
    ;
    (width, width * rows)
}

/// A mesh or task launch of `count` workgroups clamped to a stage's total limit: the launch
/// shape and whether workgroups were dropped.
///
/// A zero count or a zero limit launches nothing. Otherwise the count is cut to the capacity of
/// the rectangular limit, laid out in rows of the limit's width (one short row when it fits in
/// one).
pub fn bounded_dispatch(count: u32, max_dimension: u32, total_limit: u32) -> (r: ((u32, u32), bool))
    ensures
        r == bounded_dispatch_spec(count, max_dimension, total_limit),
{
    if count == 0 || total_limit == 0 {
        return ((0, 1), false);
    }
    let (width, capacity) = rectangular_dispatch_limit(total_limit, max_dimension);
    let safe = if count < capacity {
        count
    } else {
        capacity
    };
    if safe <= width {
        return ((safe, 1), safe < count);
    }
    let rows = div_ceil_u32(safe, width);
    ((width, rows), safe < count)
}

/// The launch shape and loss flag of a clamped launch.
pub open spec fn bounded_dispatch_spec(count: u32, max_dimension: u32, total_limit: u32) -> ((u32, u32), bool) {
    if count == 0 || total_limit == 0 {
        ((0u32, 1u32), false)
    } else {
        let (width, capacity) = rectangular_dispatch_spec(total_limit, max_dimension);
        let safe = min(count as int, capacity);
        if safe <= width {
            ((safe as u32, 1u32), safe < count)
        } else {
            ((width as u32, div_ceil(safe, width) as u32), safe < count)
        }
    }
}

/// The (width, capacity) that [`rectangular_dispatch_limit`] computes for a non-zero limit.
pub open spec fn rectangular_dispatch_spec(total_limit: u32, max_dimension: u32) -> (int, int) {
    let d = if max_dimension == 0 {
        1
    } else {
        max_dimension as int
    };
    let width = min(div_ceil(total_limit as int, d), d);
    (width, width * min(total_limit as int / width, d))
}

/// No launch exceeds the device's dimension limit or the stage's total limit, and a launch that
/// reports no loss covers every requested workgroup.
pub proof fn lemma_bounded_dispatch_fits(count: u32, max_dimension: u32, total_limit: u32)
    requires
        max_dimension >= 1,
    ensures
        ({
            let ((x, y), lost) = bounded_dispatch_spec(count, max_dimension, total_limit);
            &&& x <= max_dimension
            &&& y <= max_dimension
            &&& x * y <= total_limit
            &&& !lost && total_limit != 0 ==> x * y >= count
        }),
{
    if count > 0 && total_limit > 0 {
        let d = max_dimension as int;
        let t = total_limit as int;
        let width = min(div_ceil(t, d), d);
        assert(width >= 1) by (nonlinear_arith)
            requires
                width == min(div_ceil(t, d), d),
                t >= 1,
                d >= 1,
        ;
        let rows = min(t / width, d);
        let capacity = width * rows;
        assert(0 <= rows && capacity <= t) by (nonlinear_arith)
            requires
                rows == min(t / width, d),
                capacity == width * rows,
                width >= 1,
                t >= 1,
                d >= 1,
        ;
        let safe = min(count as int, capacity);
        if safe > width {
            let q = div_ceil(safe, width);
            assert(q <= rows && width * q >= safe) by (nonlinear_arith)
                requires
                    q == div_ceil(safe, width),
                    safe <= width * rows,
                    safe > width,
                    width >= 1,
            ;
            assert(width * q <= capacity) by (nonlinear_arith)
                requires
                    q <= rows,
                    capacity == width * rows,
                    width >= 1,
            ;
        }
    }
}

/// The slot a scattered candidate lands in: `offset + local` when it is below the capacity. The
/// check subtracts rather than adds, so it cannot wrap around at the largest `u32`.
pub fn scatter_destination(offset: u32, local: u32, capacity: u32) -> (r: Option<u32>)
    ensures
        offset + local < capacity ==> r == Some((offset + local) as u32),
        offset + local >= capacity ==> r is None,
{
    if offset < capacity && local < capacity - offset {
        Some(offset + local)
    } else {
        None
    }
}

/// Whether the scatter pass writes task packets for a backend: no backend consumes them.
pub fn task_packets_enabled(backend: MeshletBackend) -> (r: bool)
    ensures
        !r,
{
    false
}

/// The dynamic offset of a PSO bin's raster uniforms.
pub fn raster_dynamic_offset(bin: MeshletPsoClass) -> (r: u32)
    ensures
        r == spec_pso_number(bin) * RASTER_UNIFORM_STRIDE,
{
    match bin {
        MeshletPsoClass::OpaqueBackface => 0,
        MeshletPsoClass::OpaqueTwoSided => 256,
    }
}

/// The sum of the first `i` counts.
pub open spec fn prefix_sum(counts: Seq<u32>, i: int) -> int
    decreases i,
{
    if i <= 0 {
        0
    } else {
        prefix_sum(counts, i - 1) + counts[i - 1]
    }
}

/// A running total as the scan stores it: saturated at `u32::MAX`, then at the capacity.
pub open spec fn clamp_total(v: int, capacity: u32) -> u32 {
    min(min(v, u32::MAX as int), capacity as int) as u32
}

/// The exclusive prefix scan of the counts: each offset, the total, both clamped, and whether the
/// exact total exceeds `u32::MAX` or the capacity.
pub open spec fn scan_spec(counts: Seq<u32>, capacity: u32) -> (Seq<u32>, u32, bool) {
    (
        Seq::new(counts.len(), |i: int| clamp_total(prefix_sum(counts, i), capacity)),
        clamp_total(prefix_sum(counts, counts.len() as int), capacity),
        prefix_sum(counts, counts.len() as int) > u32::MAX || prefix_sum(
            counts,
            counts.len() as int,
        ) > capacity,
    )
}

/// Prefix sums never decrease.
pub proof fn lemma_prefix_sum_monotone(counts: Seq<u32>, i: int, j: int)
    requires
        0 <= i <= j <= counts.len(),
    ensures
        0 <= prefix_sum(counts, i) <= prefix_sum(counts, j),
        prefix_sum(counts, j) <= prefix_sum(counts, i) + (j - i) * (u32::MAX as int),
    decreases j - i,
{
    if i < j {
        lemma_prefix_sum_monotone(counts, i, j - 1);
        assert((j - 1 - i) * (u32::MAX as int) + u32::MAX as int == (j - i) * (u32::MAX as int))
            by (nonlinear_arith);
    } else {
        lemma_prefix_sum_nonneg(counts, i);
    }
}

proof fn lemma_prefix_sum_nonneg(counts: Seq<u32>, i: int)
    ensures
        prefix_sum(counts, i) >= 0,
    decreases i,
{
    if i > 0 {
        lemma_prefix_sum_nonneg(counts, i - 1);
    }
}

/// The sequential scan over exact totals.
pub fn reference_prefix_scan(counts: &[u32], capacity: u32) -> (r: (Vec<u32>, u32, bool))
    ensures
        (r.0@, r.1, r.2) == scan_spec(counts@, capacity),
{
    let len = counts.len();
    let mut running: u128 = 0;
    let mut offsets: Vec<u32> = Vec::new();
    let mut i: usize = 0;
    while i < len
        invariant
            len == counts@.len(),
            i <= len,
            running == prefix_sum(counts@, i as int),
            offsets@ == Seq::new(i as nat, |k: int| clamp_total(prefix_sum(counts@, k), capacity)),
        decreases len - i,
    {
        proof {
            lemma_prefix_sum_monotone(counts@, 0, i as int);
            assert(i * (u32::MAX as int) <= 0x1_0000_0000_0000_0000 * 0x1_0000_0000) by (
            nonlinear_arith)
                requires
                    i <= usize::MAX,
                    usize::MAX <= 0xffff_ffff_ffff_ffff,
            ;
        }
        let offset = if running < capacity as u128 {
            running as u32
        } else {
            capacity
        };
        offsets.push(offset);
        running = running + counts[i] as u128;
        assert(offsets@ =~= Seq::new((i + 1) as nat, |k: int| clamp_total(prefix_sum(counts@, k), capacity)));
        i = i + 1;
    }
    let total = if running < capacity as u128 {
        running as u32
    } else {
        capacity
    };
    let overflow = running > u32::MAX as u128 || running > capacity as u128;
    assert(offsets@ =~= scan_spec(counts@, capacity).0);
    (offsets, total, overflow)
}

/// Where block `b` of the scan starts.
pub open spec fn block_start(len: int, b: int) -> int {
    min(256 * b, len)
}

/// The sum of the counts from the start of index `j`'s block up to `j`.
pub open spec fn local_sum(counts: Seq<u32>, j: int) -> int {
    prefix_sum(counts, j) - prefix_sum(counts, 256 * (j / 256))
}

/// `left + right`, saturated at `u32::MAX`; the flag records a saturation.
fn saturating_add_flag(left: u32, right: u32, overflow: &mut bool) -> (r: u32)
    ensures
        r == min(left + right, u32::MAX as int),
        *final(overflow) == (*old(overflow) || left + right > u32::MAX),
{
    match left.checked_add(right) {
        Some(sum) => sum,
        None => {
            *overflow = true;
            u32::MAX
        },
    }
}

proof fn lemma_block_of(b: int, k: int)
    requires
        0 <= b,
        0 <= k < 256,
    ensures
        (256 * b + k) / 256 == b,
{
    vstd::arithmetic::div_mod::lemma_fundamental_div_mod_converse(256 * b + k, 256, b, k);
}

/// The scan as the culling front end runs it: an exclusive scan inside each block of 256 counts,
/// an exclusive scan of the block totals, then each block's base added to its offsets, with every
/// sum saturated at `u32::MAX` and every offset clamped to the capacity.
///
/// It agrees with the sequential scan over exact totals on every input.
pub fn hierarchical_prefix_scan(counts: &[u32], capacity: u32) -> (r: (Vec<u32>, u32, bool))
    ensures
        (r.0@, r.1, r.2) == scan_spec(counts@, capacity),
{
    let ghost c = counts@;
    let len = counts.len();
    let mut overflow = false;
    let mut offsets: Vec<u32> = Vec::new();
    let mut block_sums: Vec<u32> = Vec::new();
    let mut start: usize = 0;
    while start < len
        invariant
            c == counts@,
            len == c.len(),
            start == block_start(len as int, block_sums@.len() as int),
            offsets@.len() == start,
            forall|j: int|
                0 <= j < start ==> #[trigger] offsets@[j] == clamp_total(local_sum(c, j), capacity),
            forall|b: int|
                0 <= b < block_sums@.len() ==> #[trigger] block_sums@[b] == min(
                    prefix_sum(c, block_start(len as int, b + 1)) - prefix_sum(
                        c,
                        block_start(len as int, b),
                    ),
                    u32::MAX as int,
                ),
            overflow == exists|b: int|
                0 <= b < block_sums@.len() && prefix_sum(c, block_start(len as int, b + 1))
                    - prefix_sum(c, #[trigger] block_start(len as int, b)) > u32::MAX,
        decreases len - start,
    {
        let ghost nb = block_sums@.len() as int;
        let ghost over_before = overflow;
        let end = if len - start > 256 {
            start + 256
        } else {
            len
        };
        assert(start == 256 * nb);
        assert(end == block_start(len as int, nb + 1));
        let mut running: u32 = 0;
        let mut i: usize = start;
        while i < end
            invariant
                c == counts@,
                len == c.len(),
                start == 256 * nb,
                start <= i <= end <= len,
                end <= start + 256,
                offsets@.len() == i,
                block_sums@.len() == nb,
                forall|j: int|
                    0 <= j < i ==> #[trigger] offsets@[j] == clamp_total(local_sum(c, j), capacity),
                forall|b: int|
                    0 <= b < nb ==> #[trigger] block_sums@[b] == min(
                        prefix_sum(c, block_start(len as int, b + 1)) - prefix_sum(
                            c,
                            block_start(len as int, b),
                        ),
                        u32::MAX as int,
                    ),
                running == min(prefix_sum(c, i as int) - prefix_sum(c, start as int), u32::MAX as int),
                overflow == (over_before || prefix_sum(c, i as int) - prefix_sum(c, start as int)
                    > u32::MAX),
            decreases end - i,
        {
            proof {
                lemma_block_of(nb, i - start);
                lemma_prefix_sum_monotone(c, start as int, i as int);
            }
            let offset = if running < capacity {
                running
            } else {
                capacity
            };
            offsets.push(offset);
            running = saturating_add_flag(running, counts[i], &mut overflow);
            i = i + 1;
        }
        block_sums.push(running);
        start = end;
    }
    let ghost nb = block_sums@.len() as int;
    let ghost total = prefix_sum(c, len as int);
    assert(256 * nb >= len);
    let mut block_running: u32 = 0;
    let mut b: usize = 0;
    while b < block_sums.len()
        invariant
            c == counts@,
            len == c.len(),
            block_sums@.len() == nb,
            256 * nb >= len,
            b <= nb,
            offsets@.len() == len,
            forall|j: int|
                0 <= j < len ==> #[trigger] offsets@[j] == clamp_total(local_sum(c, j), capacity),
            forall|k: int|
                b <= k < nb ==> #[trigger] block_sums@[k] == min(
                    prefix_sum(c, block_start(len as int, k + 1)) - prefix_sum(
                        c,
                        block_start(len as int, k),
                    ),
                    u32::MAX as int,
                ),
            forall|k: int|
                0 <= k < b ==> #[trigger] block_sums@[k] == min(
                    prefix_sum(c, block_start(len as int, k)),
                    u32::MAX as int,
                ),
            block_running == min(prefix_sum(c, block_start(len as int, b as int)), u32::MAX as int),
            overflow == ((exists|k: int|
                0 <= k < nb && prefix_sum(c, block_start(len as int, k + 1)) - prefix_sum(
                    c,
                    #[trigger] block_start(len as int, k),
                ) > u32::MAX) || prefix_sum(c, block_start(len as int, b as int)) > u32::MAX),
        decreases nb - b,
    {
        proof {
            lemma_prefix_sum_monotone(c, block_start(len as int, b as int), block_start(len as int, b + 1));
            lemma_prefix_sum_monotone(c, 0, block_start(len as int, b as int));
        }
        let sum = block_sums[b];
        block_sums.set(b, block_running);
        block_running = saturating_add_flag(block_running, sum, &mut overflow);
        b = b + 1;
    }
    proof {
        assert(block_start(len as int, nb) == len);
        assert forall|k: int|
            0 <= k < nb && prefix_sum(c, block_start(len as int, k + 1)) - prefix_sum(
                c,
                #[trigger] block_start(len as int, k),
            ) > u32::MAX implies total > u32::MAX by {
            lemma_prefix_sum_monotone(c, block_start(len as int, k + 1), len as int);
            lemma_prefix_sum_monotone(c, 0, block_start(len as int, k));
        }
    }
    assert(overflow == (total > u32::MAX));
    let mut i: usize = 0;
    while i < len
        invariant
            c == counts@,
            len == c.len(),
            block_sums@.len() == nb,
            256 * nb >= len,
            offsets@.len() == len,
            i <= len,
            forall|j: int|
                0 <= j < i ==> #[trigger] offsets@[j] == clamp_total(prefix_sum(c, j), capacity),
            forall|j: int|
                i <= j < len ==> #[trigger] offsets@[j] == clamp_total(local_sum(c, j), capacity),
            forall|k: int|
                0 <= k < nb ==> #[trigger] block_sums@[k] == min(
                    prefix_sum(c, block_start(len as int, k)),
                    u32::MAX as int,
                ),
            total == prefix_sum(c, len as int),
            overflow == (total > u32::MAX),
        decreases len - i,
    {
        let blk = i / 256;
        proof {
            lemma_block_of(blk as int, (i % 256) as int);
            assert(block_start(len as int, blk as int) == 256 * blk);
            lemma_prefix_sum_monotone(c, 256 * blk, i as int);
            lemma_prefix_sum_monotone(c, i as int, len as int);
            lemma_prefix_sum_monotone(c, 0, 256 * blk);
        }
        let base = block_sums[blk];
        let local = offsets[i];
        let sum = saturating_add_flag(base, local, &mut overflow);
        let clamped = if sum < capacity {
            sum
        } else {
            capacity
        };
        offsets.set(i, clamped);
        i = i + 1;
    }
    if block_running > capacity {
        overflow = true;
    }
    let total_out = if block_running < capacity {
        block_running
    } else {
        capacity
    };
    assert(offsets@ =~= scan_spec(c, capacity).0);
    (offsets, total_out, overflow)
}

} // verus!
