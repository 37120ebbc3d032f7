//! The fixed-capacity bindless texture and sampler tables: generation-checked slot recycling,
//! texture admission checks, and the bind-group epochs that publish table changes only at frame
//! boundaries and release a retired epoch only once the GPU has finished with it.
//!
//! The GPU objects themselves (textures, views, samplers, bind groups) live beside these tables,
//! indexed by slot and by epoch id; this module decides which slot and which epoch each one is.

use vstd::prelude::*;

verus! {

/// Texture slots held by the white, black and flat-normal fallbacks.
pub const RESERVED_FALLBACK_TEXTURES: u32 = 3;

/// Stable CPU-side reference to one bindless texture slot. Shaders only store the slot; the
/// generation protects CPU users from stale handles when a slot is recycled.
#[derive(Clone, Copy, Debug, PartialEq, Eq, Structural, Hash)]
pub struct TextureHandle {
    pub slot: u32,
    pub generation: u32,
}

/// Stable CPU-side reference to one bindless sampler slot.
#[derive(Clone, Copy, Debug, PartialEq, Eq, Structural, Hash)]
pub struct SamplerHandle {
    pub slot: u32,
    pub generation: u32,
}

#[derive(Clone, Copy, Debug, PartialEq, Eq, Structural)]
pub struct FallbackTextureHandles {
    pub white: TextureHandle,
    pub black: TextureHandle,
    pub flat_normal: TextureHandle,
}

#[derive(Clone, Copy, Debug, PartialEq, Eq, Structural)]
pub struct FallbackSamplerHandles {
    pub linear: SamplerHandle,
}

/// The shape of a texture offered to the table: its extent, whether it is stored as sRGB RGBA8,
/// and how many pixel bytes it carries.
#[derive(Clone, Copy, Debug, PartialEq, Eq, Structural)]
pub struct TextureShape {
    pub width: u32,
    pub height: u32,
    pub rgba8_unorm_srgb: bool,
    pub byte_len: usize,
}

#[derive(Clone, Debug, PartialEq, Eq)]
pub enum BindlessTextureError {
    CapacityTooSmall { capacity: u32 },
    Full { capacity: u32 },
    InvalidHandle { handle: TextureHandle },
    ZeroExtent { width: u32, height: u32 },
    DimensionsExceeded { width: u32, height: u32, maximum: u32 },
    /// The texture is not stored as sRGB RGBA8.
    UnsupportedFormat,
    SizeOverflow { width: u32, height: u32 },
    PixelSizeMismatch { actual: usize, expected: usize },
    InitialSamplerCapacityExceeded { actual: usize, capacity: u32 },
    Resource { message: String },
}

#[derive(Clone, Debug, PartialEq, Eq)]
pub enum BindlessSamplerError {
    Full { capacity: u32 },
    InvalidHandle { handle: SamplerHandle },
    Resource { message: String },
}

/// The verdict on a texture shape: its RGBA8 byte size, or the first rule it breaks.
pub open spec fn texture_check(shape: TextureShape, max_dimension: u32) -> Result<
    usize,
    BindlessTextureError,
> {
    let expected = shape.width * shape.height * 4;
    if shape.width == 0 || shape.height == 0 {
        Err(BindlessTextureError::ZeroExtent { width: shape.width, height: shape.height })
    } else if shape.width > max_dimension || shape.height > max_dimension {
        Err(
            BindlessTextureError::DimensionsExceeded {
                width: shape.width,
                height: shape.height,
                maximum: max_dimension,
            },
        )
    } else if !shape.rgba8_unorm_srgb {
        Err(BindlessTextureError::UnsupportedFormat)
    } else if expected > usize::MAX {
        Err(BindlessTextureError::SizeOverflow { width: shape.width, height: shape.height })
    } else if shape.byte_len != expected {
        Err(
            BindlessTextureError::PixelSizeMismatch {
                actual: shape.byte_len,
                expected: expected as usize,
            },
        )
    } else {
        Ok(expected as usize)
    }
}

/// A texture is accepted only when it is non-empty, fits the device limit along both sides, is
/// RGBA8 sRGB and supplies exactly four bytes per pixel; the accepted size is that byte count. A
/// non-empty texture wider or taller than the limit is refused with its size and the limit.
pub proof fn lemma_texture_fits_the_device(shape: TextureShape, max_dimension: u32)
    ensures
        texture_check(shape, max_dimension) is Ok ==> {
            &&& 0 < shape.width <= max_dimension
            &&& 0 < shape.height <= max_dimension
            &&& shape.rgba8_unorm_srgb
            &&& shape.byte_len == shape.width * shape.height * 4
            &&& texture_check(shape, max_dimension)->Ok_0 == shape.byte_len
        },
        shape.width > 0 && shape.height > 0 && (shape.width > max_dimension || shape.height
            > max_dimension) ==> texture_check(shape, max_dimension) == Err::<
            usize,
            BindlessTextureError,
        >(
            BindlessTextureError::DimensionsExceeded {
                width: shape.width,
                height: shape.height,
                maximum: max_dimension,
            },
        ),
{
}

/// Checks that a texture can enter the table: a non-empty extent within the device limit, sRGB
/// RGBA8 storage, and exactly four bytes per pixel. Returns the byte size.
pub fn validate_texture(shape: TextureShape, max_dimension: u32) -> (r: Result<
    usize,
    BindlessTextureError,
>)
    ensures
        r == texture_check(shape, max_dimension),
{
    if shape.width == 0 || shape.height == 0 {
        return Err(BindlessTextureError::ZeroExtent { width: shape.width, height: shape.height });
    }
    if shape.width > max_dimension || shape.height > max_dimension {
        return Err(
            BindlessTextureError::DimensionsExceeded {
                width: shape.width,
                height: shape.height,
                maximum: max_dimension,
            },
        );
    }
    if !shape.rgba8_unorm_srgb {
        return Err(BindlessTextureError::UnsupportedFormat);
    }
    let w = shape.width as usize;
    let h = shape.height as usize;
    let expected = match w.checked_mul(h) {
        Some(pixels) => pixels.checked_mul(4),
        None => None,
    };
    let expected = match expected {
        Some(e) => e,
        None => {
            proof {
                if w * h <= usize::MAX {
                    assert(w * h * 4 > usize::MAX);
                } else {
                    assert(w * h * 4 >= w * h) by (nonlinear_arith)
                        requires
                            w * h >= 0,
                    ;
                }
            }
            return Err(BindlessTextureError::SizeOverflow { width: shape.width, height: shape.height });
        },
    };
    if shape.byte_len != expected {
        return Err(BindlessTextureError::PixelSizeMismatch { actual: shape.byte_len, expected });
    }
    Ok(expected)
}

/// One slot of a bindless table: its current generation, whether a resource is resident, and
/// whether it is a permanently resident fallback.
#[derive(Clone, Copy, Debug, PartialEq, Eq, Structural)]
pub struct TableSlot {
    pub generation: u32,
    pub resident: bool,
    pub reserved: bool,
}

/// The generation a slot takes when its resource is removed: one more, skipping zero on wrap.
pub open spec fn next_generation(g: u32) -> u32 {
    if g == u32::MAX {
        1
    } else {
        (g + 1) as u32
    }
}

/// A well-formed table: generations are never zero, fallbacks stay resident at generation one,
/// and the free list names each vacant slot exactly once.
pub open spec fn table_wf(slots: Seq<TableSlot>, free: Seq<u32>) -> bool {
    &&& slots.len() <= u32::MAX
    &&& forall|i: int| 0 <= i < slots.len() ==> (#[trigger] slots[i]).generation >= 1
    &&& forall|i: int|
        0 <= i < slots.len() && (#[trigger] slots[i]).reserved ==> slots[i].resident
            && slots[i].generation == 1
    &&& forall|k: int|
        0 <= k < free.len() ==> (#[trigger] free[k]) < slots.len() && !slots[free[k] as int].resident
    &&& forall|a: int, b: int| 0 <= a < b < free.len() ==> free[a] != free[b]
    &&& forall|i: int|
        0 <= i < slots.len() && !(#[trigger] slots[i]).resident ==> free.contains(i as u32)
}

/// The handle `(slot, generation)` names a removable resource: a resident, non-fallback slot
/// of that generation.
pub open spec fn release_ok(slots: Seq<TableSlot>, slot: u32, generation: u32) -> bool {
    &&& slot < slots.len()
    &&& !slots[slot as int].reserved
    &&& slots[slot as int].resident
    &&& slots[slot as int].generation == generation
}

/// The slots after removing the resource of `slot`.
pub open spec fn released(slots: Seq<TableSlot>, slot: u32) -> Seq<TableSlot> {
    slots.update(
        slot as int,
        TableSlot {
            generation: next_generation(slots[slot as int].generation),
            resident: false,
            reserved: false,
        },
    )
}

/// The slots after a resource enters the most recently freed slot.
pub open spec fn occupied(slots: Seq<TableSlot>, free: Seq<u32>) -> Seq<TableSlot> {
    slots.update(free.last() as int, TableSlot { resident: true, ..slots[free.last() as int] })
}

/// Why the `i`-th texture given at construction is refused, if it is: no free slot is left for it
/// once the fallbacks and the textures before it are placed, or it fails its checks.
pub open spec fn initial_texture_error(
    initial: Seq<TextureShape>,
    max_textures: u32,
    max_dimension: u32,
    i: int,
) -> Option<BindlessTextureError> {
    if RESERVED_FALLBACK_TEXTURES + i >= max_textures {
        Some(BindlessTextureError::Full { capacity: max_textures })
    } else if texture_check(initial[i], max_dimension) is Err {
        Some(texture_check(initial[i], max_dimension)->Err_0)
    } else {
        None
    }
}

/// Slot bookkeeping of one bindless table. Freed slots are reused most recent first.
pub struct SlotTable {
    slots: Vec<TableSlot>,
    free: Vec<u32>,
}

impl SlotTable {
    pub closed spec fn spec_slots(&self) -> Seq<TableSlot> {
        self.slots@
    }

    pub closed spec fn spec_free(&self) -> Seq<u32> {
        self.free@
    }

    pub open spec fn wf(&self) -> bool {
        table_wf(self.spec_slots(), self.spec_free())
    }

    /// A table of `capacity` slots at generation one: the first `reserved` hold fallbacks, the
    /// next `preloaded` hold resources placed at construction, and the rest are free, lowest
    /// first in line.
    pub fn new(capacity: u32, reserved: u32, preloaded: u32) -> (r: Self)
        requires
            reserved + preloaded <= capacity,
        ensures
            r.wf(),
            r.spec_slots().len() == capacity,
            forall|i: int|
                0 <= i < capacity ==> #[trigger] r.spec_slots()[i] == (TableSlot {
                    generation: 1,
                    resident: i < reserved + preloaded,
                    reserved: i < reserved,
                }),
            r.spec_free() == Seq::new(
                (capacity - reserved - preloaded) as nat,
                |k: int| (capacity - 1 - k) as u32,
            ),
    {
        let start = reserved + preloaded;
        let mut slots: Vec<TableSlot> = Vec::new();
        let mut i: u32 = 0;
        while i < capacity
            invariant
                i <= capacity,
                start == reserved + preloaded,
                slots@.len() == i,
                forall|j: int|
                    0 <= j < i ==> #[trigger] slots@[j] == (TableSlot {
                        generation: 1,
                        resident: j < start,
                        reserved: j < reserved,
                    }),
            decreases capacity - i,
        {
            slots.push(TableSlot { generation: 1, resident: i < start, reserved: i < reserved });
            i = i + 1;
        }
        let mut free: Vec<u32> = Vec::new();
        let mut s: u32 = capacity;
        while s > start
            invariant
                start <= s <= capacity,
                free@ == Seq::new((capacity - s) as nat, |k: int| (capacity - 1 - k) as u32),
            decreases s,
        {
            s = s - 1;
            free.push(s);
            assert(free@ =~= Seq::new((capacity - s) as nat, |k: int| (capacity - 1 - k) as u32));
        }
        let r = SlotTable { slots, free };
        assert forall|j: int|
            0 <= j < r.slots@.len() && !(#[trigger] r.slots@[j]).resident implies r.free@.contains(
            j as u32,
        ) by {
            assert(r.free@[capacity - 1 - j] == j as u32);
        }
        r
    }

    /// The slot the next resource will take, if any is free.
    pub fn next_free(&self) -> (r: Option<u32>)
        ensures
            self.spec_free().len() == 0 ==> r is None,
            self.spec_free().len() > 0 ==> r == Some(self.spec_free().last()),
    {
        if self.free.len() == 0 {
            None
        } else {
            Some(self.free[self.free.len() - 1])
        }
    }

    /// Places a resource in the most recently freed slot and returns that slot and its
    /// generation.
    pub fn occupy(&mut self) -> (r: (u32, u32))
        requires
            old(self).wf(),
            old(self).spec_free().len() > 0,
        ensures
            final(self).wf(),
            r.0 == old(self).spec_free().last(),
            r.1 == old(self).spec_slots()[r.0 as int].generation,
            final(self).spec_slots() == occupied(old(self).spec_slots(), old(self).spec_free()),
            final(self).spec_free() == old(self).spec_free().drop_last(),
    {
        let slot = self.free.pop().unwrap();
        let old_slot = self.slots[slot as usize];
        self.slots.set(slot as usize, TableSlot { resident: true, ..old_slot });
        proof {
            let s0 = old(self).spec_slots();
            let f0 = old(self).spec_free();
            let s1 = self.slots@;
            let f1 = self.free@;
            assert(f1 =~= f0.drop_last());
            assert forall|i: int| 0 <= i < s1.len() && !(#[trigger] s1[i]).resident implies f1.contains(
                i as u32,
            ) by {
                assert(i != slot);
                assert(f0.contains(i as u32));
                let k = choose|k: int| 0 <= k < f0.len() && f0[k] == i as u32;
                assert(k != f0.len() - 1);
                assert(f1[k] == i as u32);
            }
            assert forall|k: int| 0 <= k < f1.len() implies (#[trigger] f1[k]) < s1.len()
                && !s1[f1[k] as int].resident by {
                assert(f1[k] == f0[k]);
                assert(f0[k] != f0[f0.len() - 1]);
            }
        }
        (slot, old_slot.generation)
    }

    /// Removes the resource named by `(slot, generation)`; a stale, vacant, fallback, or
    /// out-of-range handle is refused and changes nothing.
    pub fn release(&mut self, slot: u32, generation: u32) -> (r: bool)
        requires
            old(self).wf(),
        ensures
            final(self).wf(),
            r == release_ok(old(self).spec_slots(), slot, generation),
            r ==> final(self).spec_slots() == released(old(self).spec_slots(), slot)
                && final(self).spec_free() == old(self).spec_free().push(slot),
            !r ==> *final(self) == *old(self),
    {
        if slot as usize >= self.slots.len() {
            return false;
        }
        let s = self.slots[slot as usize];
        if s.reserved || s.generation != generation || !s.resident {
            return false;
        }
        let next = if s.generation == u32::MAX {
            1
        } else {
            s.generation + 1
        };
        self.slots.set(slot as usize, TableSlot { generation: next, resident: false, reserved: false });
        proof {
            let f0 = old(self).spec_free();
            assert(!f0.contains(slot)) by {
                if f0.contains(slot) {
                    let k = choose|k: int| 0 <= k < f0.len() && f0[k] == slot;
                    assert(!old(self).spec_slots()[f0[k] as int].resident);
                }
            }
        }
        self.free.push(slot);
        proof {
            let s1 = self.slots@;
            let f1 = self.free@;
            let f0 = old(self).spec_free();
            assert forall|i: int| 0 <= i < s1.len() && !(#[trigger] s1[i]).resident implies f1.contains(
                i as u32,
            ) by {
                if i == slot {
                    assert(f1[f0.len() as int] == slot);
                } else {
                    assert(f0.contains(i as u32));
                    let k = choose|k: int| 0 <= k < f0.len() && f0[k] == i as u32;
                    assert(f1[k] == i as u32);
                }
            }
            assert forall|a: int, b: int| 0 <= a < b < f1.len() implies f1[a] != f1[b] by {
                if b == f0.len() {
                    assert(f1[a] == f0[a]);
                    assert(f0.contains(f0[a]));
                }
            }
            assert forall|k: int| 0 <= k < f1.len() implies (#[trigger] f1[k]) < s1.len()
                && !s1[f1[k] as int].resident by {
                if k < f0.len() {
                    assert(f1[k] == f0[k]);
                }
            }
        }
        true
    }
}

/// A recycled slot refuses the handle of its previous resource.
///
/// Removing a resource frees its slot; the next resource to enter the table takes that same
/// slot under a new generation, so the old handle no longer removes anything, while the new
/// handle does.
pub proof fn lemma_recycled_slot_rejects_stale_handle(
    slots: Seq<TableSlot>,
    free: Seq<u32>,
    slot: u32,
    generation: u32,
)
    requires
        table_wf(slots, free),
        release_ok(slots, slot, generation),
    ensures
        ({
            let s1 = released(slots, slot);
            let f1 = free.push(slot);
            let s2 = occupied(s1, f1);
            &&& !release_ok(s1, slot, generation)
            &&& f1.last() == slot
            &&& s2[slot as int].generation != generation
            &&& !release_ok(s2, slot, generation)
            &&& release_ok(s2, slot, s2[slot as int].generation)
        }),
{
}

/// An epoch of the bindless bind group: its id and the last submission that used it (zero when
/// none did).
#[derive(Clone, Copy, Debug, PartialEq, Eq, Structural)]
pub struct EpochRecord {
    pub id: u64,
    pub last_submission: u64,
}

/// A retired epoch must be kept while a submission that used it has not completed.
pub open spec fn still_in_use(e: EpochRecord, completed: u64) -> bool {
    e.last_submission != 0 && e.last_submission > completed
}

/// The retired epochs that are still in use, in order.
pub open spec fn kept(epochs: Seq<EpochRecord>, completed: u64) -> Seq<EpochRecord>
    decreases epochs.len(),
{
    if epochs.len() == 0 {
        Seq::empty()
    } else if still_in_use(epochs.last(), completed) {
        kept(epochs.drop_last(), completed).push(epochs.last())
    } else {
        kept(epochs.drop_last(), completed)
    }
}

/// The successor of a nonzero counter: one more, skipping zero on wrap.
pub open spec fn next_counter(n: u64) -> u64 {
    if n == u64::MAX {
        1
    } else {
        (n + 1) as u64
    }
}

fn next_counter_exec(n: u64) -> (r: u64)
    ensures
        r == next_counter(n),
{
    if n == u64::MAX {
        1
    } else {
        n + 1
    }
}

/// Keeps the retired epochs that are still in use.
fn collect_retired(epochs: &Vec<EpochRecord>, completed: u64) -> (r: Vec<EpochRecord>)
    ensures
        r@ == kept(epochs@, completed),
{
    let mut out: Vec<EpochRecord> = Vec::new();
    let mut i: usize = 0;
    while i < epochs.len()
        invariant
            i <= epochs@.len(),
            out@ == kept(epochs@.take(i as int), completed),
        decreases epochs@.len() - i,
    {
        let e = epochs[i];
        proof {
            assert(epochs@.take(i + 1).drop_last() =~= epochs@.take(i as int));
            assert(epochs@.take(i + 1).last() == e);
        }
        if e.last_submission != 0 && e.last_submission > completed {
            out.push(e);
        }
        i = i + 1;
    }
    assert(epochs@.take(epochs@.len() as int) =~= epochs@);
    out
}

/// Fixed-capacity bindless texture/sampler table with frame-boundary bind-group epochs.
///
/// Slot changes never alter the epoch that recorded work refers to: a new epoch is published by
/// [`Self::begin_frame`], and a retired epoch is released only once the submission that last used
/// it has completed.
pub struct BindlessTextureArena {
    max_textures: u32,
    textures: SlotTable,
    max_samplers: u32,
    samplers: SlotTable,
    current: EpochRecord,
    retired: Vec<EpochRecord>,
    dirty: bool,
    next_epoch: u64,
    next_submission: u64,
}

impl BindlessTextureArena {
    pub closed spec fn spec_max_textures(&self) -> u32 {
        self.max_textures
    }

    pub closed spec fn spec_max_samplers(&self) -> u32 {
        self.max_samplers
    }

    pub closed spec fn spec_textures(&self) -> SlotTable {
        self.textures
    }

    pub closed spec fn spec_samplers(&self) -> SlotTable {
        self.samplers
    }

    pub closed spec fn spec_current(&self) -> EpochRecord {
        self.current
    }

    pub closed spec fn spec_retired(&self) -> Seq<EpochRecord> {
        self.retired@
    }

    pub closed spec fn spec_dirty(&self) -> bool {
        self.dirty
    }

    pub closed spec fn spec_next_epoch(&self) -> u64 {
        self.next_epoch
    }

    pub closed spec fn spec_next_submission(&self) -> u64 {
        self.next_submission
    }

    /// Both tables are well formed, fallbacks hold the first slots, and the epoch and submission
    /// counters are nonzero with the next epoch id distinct from the current one.
    pub open spec fn wf(&self) -> bool {
        &&& self.spec_textures().wf()
        &&& self.spec_samplers().wf()
        &&& self.spec_textures().spec_slots().len() == self.spec_max_textures()
        &&& self.spec_samplers().spec_slots().len() == self.spec_max_samplers()
        &&& self.spec_max_textures() >= RESERVED_FALLBACK_TEXTURES
        &&& self.spec_max_samplers() >= 1
        &&& forall|i: int|
            0 <= i < RESERVED_FALLBACK_TEXTURES ==> (#[trigger] self.spec_textures().spec_slots()[i]).reserved
        &&& self.spec_samplers().spec_slots()[0].reserved
        &&& self.spec_next_epoch() >= 1
        &&& self.spec_next_epoch() != self.spec_current().id
        &&& self.spec_next_submission() >= 1
    }

    /// The tables before any user texture: `max_textures` texture slots (the first three hold the
    /// fallbacks) and `max(max_samplers, 1)` sampler slots (the first holds the fallback sampler,
    /// the next `initial_samplers` the samplers supplied at construction). Every slot starts at
    /// generation one, and free slots are handed out lowest first.
    fn with_fallbacks(max_textures: u32, max_samplers: u32, initial_samplers: usize) -> (r: Result<
        Self,
        BindlessTextureError,
    >)
        ensures
            max_textures < RESERVED_FALLBACK_TEXTURES ==> r == Err::<Self, BindlessTextureError>(
                BindlessTextureError::CapacityTooSmall { capacity: max_textures },
            ),
            ({
                let samplers = if max_samplers >= 1 {
                    max_samplers
                } else {
                    1
                };
                &&& max_textures >= RESERVED_FALLBACK_TEXTURES && initial_samplers > samplers - 1
                    ==> r == Err::<Self, BindlessTextureError>(
                    BindlessTextureError::InitialSamplerCapacityExceeded {
                        actual: initial_samplers,
                        capacity: (samplers - 1) as u32,
                    },
                )
                &&& max_textures >= RESERVED_FALLBACK_TEXTURES && initial_samplers <= samplers - 1
                    ==> (r matches Ok(a) && a.wf() && a.spec_max_textures() == max_textures
                    && a.spec_max_samplers() == samplers && a.spec_textures().spec_free().len()
                    == max_textures - RESERVED_FALLBACK_TEXTURES
                    && a.spec_samplers().spec_free().len() == samplers - 1 - initial_samplers
                    && (forall|i: int|
                    0 <= i < max_textures ==> #[trigger] a.spec_textures().spec_slots()[i] == (
                    TableSlot {
                        generation: 1,
                        resident: i < RESERVED_FALLBACK_TEXTURES,
                        reserved: i < RESERVED_FALLBACK_TEXTURES,
                    }))
                    && a.spec_textures().spec_free() == Seq::new(
                    (max_textures - RESERVED_FALLBACK_TEXTURES) as nat,
                    |k: int| (max_textures - 1 - k) as u32,
                ) && (forall|i: int|
                    0 <= i < samplers ==> #[trigger] a.spec_samplers().spec_slots()[i] == (
                    TableSlot { generation: 1, resident: i < 1 + initial_samplers, reserved: i < 1 }))
                    && a.spec_samplers().spec_free() == Seq::new(
                    (samplers - 1 - initial_samplers) as nat,
                    |k: int| (samplers - 1 - k) as u32,
                ) && a.spec_current() == (EpochRecord { id: 0, last_submission: 0 })
                    && a.spec_retired().len() == 0 && !a.spec_dirty() && a.spec_next_epoch() == 1
                    && a.spec_next_submission() == 1)
            }),
    {
        if max_textures < RESERVED_FALLBACK_TEXTURES {
            return Err(BindlessTextureError::CapacityTooSmall { capacity: max_textures });
        }
        let max_samplers = if max_samplers >= 1 {
            max_samplers
        } else {
            1
        };
        if initial_samplers > (max_samplers - 1) as usize {
            return Err(
                BindlessTextureError::InitialSamplerCapacityExceeded {
                    actual: initial_samplers,
                    capacity: max_samplers - 1,
                },
            );
        }
        let textures = SlotTable::new(max_textures, RESERVED_FALLBACK_TEXTURES, 0);
        let samplers = SlotTable::new(max_samplers, 1, initial_samplers as u32);
        Ok(
            BindlessTextureArena {
                max_textures,
                textures,
                max_samplers,
                samplers,
                current: EpochRecord { id: 0, last_submission: 0 },
                retired: Vec::new(),
                dirty: false,
                next_epoch: 1,
                next_submission: 1,
            },
        )
    }

    /// An arena with `max_textures` texture slots and `max(max_samplers, 1)` sampler slots: the
    /// fallbacks first, then the `initial_samplers` samplers, then the `initial` textures in order,
    /// each checked and placed like [`Self::plan_insert`] and [`Self::commit_insert`] place a
    /// texture; the first epoch is then published. Refused, in this order, when the texture table
    /// cannot hold the fallbacks, when the sampler table cannot hold the initial samplers, or with
    /// the first initial texture that finds no free slot or fails its checks.
    pub fn new(
        max_textures: u32,
        max_samplers: u32,
        initial_samplers: usize,
        initial: &[TextureShape],
        max_dimension: u32,
    ) -> (r: Result<Self, BindlessTextureError>)
        ensures
            max_textures < RESERVED_FALLBACK_TEXTURES ==> r == Err::<Self, BindlessTextureError>(
                BindlessTextureError::CapacityTooSmall { capacity: max_textures },
            ),
            ({
                let samplers = if max_samplers >= 1 {
                    max_samplers
                } else {
                    1
                };
                &&& max_textures >= RESERVED_FALLBACK_TEXTURES && initial_samplers > samplers - 1
                    ==> r == Err::<Self, BindlessTextureError>(
                    BindlessTextureError::InitialSamplerCapacityExceeded {
                        actual: initial_samplers,
                        capacity: (samplers - 1) as u32,
                    },
                )
                &&& max_textures >= RESERVED_FALLBACK_TEXTURES && initial_samplers <= samplers - 1
                    ==> (forall|i: int|
                    0 <= i < initial@.len() && (forall|j: int|
                        0 <= j < i ==> #[trigger] initial_texture_error(
                            initial@,
                            max_textures,
                            max_dimension,
                            j,
                        ) is None) && initial_texture_error(
                        initial@,
                        max_textures,
                        max_dimension,
                        i,
                    ) is Some ==> r == Err::<Self, BindlessTextureError>(
                        initial_texture_error(initial@, max_textures, max_dimension, i)->0,
                    ))
                &&& max_textures >= RESERVED_FALLBACK_TEXTURES && initial_samplers <= samplers - 1
                    && (forall|i: int|
                    0 <= i < initial@.len() ==> #[trigger] initial_texture_error(
                        initial@,
                        max_textures,
                        max_dimension,
                        i,
                    ) is None) ==> (r matches Ok(a) && a.wf() && a.spec_max_textures()
                    == max_textures && a.spec_max_samplers() == samplers && (forall|i: int|
                    0 <= i < max_textures ==> #[trigger] a.spec_textures().spec_slots()[i] == (
                    TableSlot {
                        generation: 1,
                        resident: i < RESERVED_FALLBACK_TEXTURES + initial@.len(),
                        reserved: i < RESERVED_FALLBACK_TEXTURES,
                    })) && a.spec_textures().spec_free() == Seq::new(
                    (max_textures - RESERVED_FALLBACK_TEXTURES - initial@.len()) as nat,
                    |k: int| (max_textures - 1 - k) as u32,
                ) && (forall|i: int|
                    0 <= i < samplers ==> #[trigger] a.spec_samplers().spec_slots()[i] == (
                    TableSlot { generation: 1, resident: i < 1 + initial_samplers, reserved: i < 1 }))
                    && a.spec_samplers().spec_free() == Seq::new(
                    (samplers - 1 - initial_samplers) as nat,
                    |k: int| (samplers - 1 - k) as u32,
                ) && a.spec_current() == (EpochRecord { id: 1, last_submission: 0 })
                    && a.spec_retired().len() == 0 && !a.spec_dirty() && a.spec_next_epoch() == 2
                    && a.spec_next_submission() == 1)
            }),
    {
        let mut arena = Self::with_fallbacks(max_textures, max_samplers, initial_samplers)?;
        let ghost samplers = arena.spec_samplers();
        let ghost max_s = arena.spec_max_samplers();
        let mut k: usize = 0;
        while k < initial.len()
            invariant
                arena.wf(),
                k <= initial@.len(),
                max_textures >= RESERVED_FALLBACK_TEXTURES,
                arena.spec_max_textures() == max_textures,
                arena.spec_max_samplers() == max_s,
                max_s == (if max_samplers >= 1 {
                    max_samplers
                } else {
                    1
                }),
                initial_samplers <= max_s - 1,
                arena.spec_samplers() == samplers,
                RESERVED_FALLBACK_TEXTURES + k <= max_textures,
                forall|i: int|
                    0 <= i < max_textures ==> #[trigger] arena.spec_textures().spec_slots()[i] == (
                    TableSlot {
                        generation: 1,
                        resident: i < RESERVED_FALLBACK_TEXTURES + k,
                        reserved: i < RESERVED_FALLBACK_TEXTURES,
                    }),
                arena.spec_textures().spec_free() == Seq::new(
                    (max_textures - RESERVED_FALLBACK_TEXTURES - k) as nat,
                    |q: int| (max_textures - 1 - q) as u32,
                ),
                arena.spec_current() == (EpochRecord { id: 0, last_submission: 0 }),
                arena.spec_retired().len() == 0,
                arena.spec_next_epoch() == 1,
                arena.spec_next_submission() == 1,
                forall|j: int|
                    0 <= j < k ==> #[trigger] initial_texture_error(
                        initial@,
                        max_textures,
                        max_dimension,
                        j,
                    ) is None,
            decreases initial@.len() - k,
        {
            let ghost before = arena.spec_textures();
            match arena.plan_insert(initial[k], max_dimension) {
                Ok(_) => {},
                Err(e) => {
                    assert(initial_texture_error(initial@, max_textures, max_dimension, k as int)
                        == Some(e));
                    assert forall|i: int|
                        0 <= i < initial@.len() && (forall|j: int|
                            0 <= j < i ==> #[trigger] initial_texture_error(
                                initial@,
                                max_textures,
                                max_dimension,
                                j,
                            ) is None) && initial_texture_error(
                            initial@,
                            max_textures,
                            max_dimension,
                            i,
                        ) is Some implies i == k by {
                        if i > k {
                            assert(initial_texture_error(
                                initial@,
                                max_textures,
                                max_dimension,
                                k as int,
                            ) is None);
                        }
                    }
                    return Err(e);
                },
            }
            assert(initial_texture_error(initial@, max_textures, max_dimension, k as int) is None);
            let _ = arena.commit_insert();
            proof {
                let f = before.spec_free();
                assert(f.last() == RESERVED_FALLBACK_TEXTURES + k);
                assert forall|i: int| 0 <= i < max_textures implies #[trigger] arena.spec_textures().spec_slots()[i] == (
                TableSlot {
                    generation: 1,
                    resident: i < RESERVED_FALLBACK_TEXTURES + k + 1,
                    reserved: i < RESERVED_FALLBACK_TEXTURES,
                }) by {
                    assert(before.spec_slots()[i] == (TableSlot {
                        generation: 1,
                        resident: i < RESERVED_FALLBACK_TEXTURES + k,
                        reserved: i < RESERVED_FALLBACK_TEXTURES,
                    }));
                }
                assert(arena.spec_textures().spec_free() =~= Seq::new(
                    (max_textures - RESERVED_FALLBACK_TEXTURES - (k + 1)) as nat,
                    |q: int| (max_textures - 1 - q) as u32,
                ));
            }
            k = k + 1;
        }
        let ghost retiring = arena.spec_retired().push(arena.spec_current());
        let _ = arena.rebuild_epoch(0);
        proof {
            assert(retiring.len() == 1);
            assert(retiring.last() == EpochRecord { id: 0, last_submission: 0 });
            assert(!still_in_use(retiring.last(), 0));
            assert(retiring.drop_last().len() == 0);
            assert(kept(retiring.drop_last(), 0) =~= Seq::<EpochRecord>::empty());
            assert(kept(retiring, 0) =~= Seq::<EpochRecord>::empty());
        }
        Ok(arena)
    }

    /// The white, black and flat-normal fallback textures in slots 0, 1 and 2.
    pub fn fallbacks(&self) -> (r: FallbackTextureHandles)
        ensures
            r == (FallbackTextureHandles {
                white: TextureHandle { slot: 0, generation: 1 },
                black: TextureHandle { slot: 1, generation: 1 },
                flat_normal: TextureHandle { slot: 2, generation: 1 },
            }),
    {
        FallbackTextureHandles {
            white: TextureHandle { slot: 0, generation: 1 },
            black: TextureHandle { slot: 1, generation: 1 },
            flat_normal: TextureHandle { slot: 2, generation: 1 },
        }
    }

    /// The linear fallback sampler in slot 0.
    pub fn fallback_samplers(&self) -> (r: FallbackSamplerHandles)
        ensures
            r == (FallbackSamplerHandles { linear: SamplerHandle { slot: 0, generation: 1 } }),
    {
        FallbackSamplerHandles { linear: SamplerHandle { slot: 0, generation: 1 } }
    }

    pub fn current_epoch_id(&self) -> (r: u64)
        ensures
            r == self.spec_current().id,
    {
        self.current.id
    }

    /// The ids of the retired epochs still kept for in-flight submissions.
    pub fn retired_epoch_ids(&self) -> (r: Vec<u64>)
        ensures
            r@.len() == self.spec_retired().len(),
            forall|k: int| 0 <= k < r@.len() ==> r@[k] == (#[trigger] self.spec_retired()[k]).id,
    {
        let mut out: Vec<u64> = Vec::new();
        let mut i: usize = 0;
        while i < self.retired.len()
            invariant
                i <= self.retired@.len(),
                out@.len() == i,
                forall|k: int| 0 <= k < i ==> out@[k] == (#[trigger] self.retired@[k]).id,
            decreases self.retired@.len() - i,
        {
            out.push(self.retired[i].id);
            i = i + 1;
        }
        out
    }

    /// Everything but the two slot tables and the change flag is the same.
    pub open spec fn same_epochs(&self, other: &Self) -> bool {
        &&& self.spec_max_textures() == other.spec_max_textures()
        &&& self.spec_max_samplers() == other.spec_max_samplers()
        &&& self.spec_current() == other.spec_current()
        &&& self.spec_retired() == other.spec_retired()
        &&& self.spec_next_epoch() == other.spec_next_epoch()
        &&& self.spec_next_submission() == other.spec_next_submission()
    }

    /// The slot a new texture would take, once `shape` passes [`validate_texture`]. Nothing
    /// changes: the slot is only taken by [`Self::commit_insert`] after the upload succeeds.
    pub fn plan_insert(&self, shape: TextureShape, max_dimension: u32) -> (r: Result<
        u32,
        BindlessTextureError,
    >)
        requires
            self.wf(),
        ensures
            self.spec_textures().spec_free().len() == 0 ==> r == Err::<u32, BindlessTextureError>(
                BindlessTextureError::Full { capacity: self.spec_max_textures() },
            ),
            self.spec_textures().spec_free().len() > 0 && texture_check(shape, max_dimension) is Err
                ==> r == Err::<u32, BindlessTextureError>(
                texture_check(shape, max_dimension)->Err_0,
            ),
            self.spec_textures().spec_free().len() > 0 && texture_check(shape, max_dimension) is Ok
                ==> r == Ok::<u32, BindlessTextureError>(self.spec_textures().spec_free().last()),
    {
        let slot = match self.textures.next_free() {
            Some(s) => s,
            None => return Err(BindlessTextureError::Full { capacity: self.max_textures }),
        };
        validate_texture(shape, max_dimension)?;
        Ok(slot)
    }

    /// Records that an uploaded texture now occupies the planned slot, and returns its handle.
    /// The change is published at the next frame boundary.
    pub fn commit_insert(&mut self) -> (r: TextureHandle)
        requires
            old(self).wf(),
            old(self).spec_textures().spec_free().len() > 0,
        ensures
            final(self).wf(),
            final(self).same_epochs(old(self)),
            final(self).spec_dirty(),
            final(self).spec_samplers() == old(self).spec_samplers(),
            r.slot == old(self).spec_textures().spec_free().last(),
            r.generation == old(self).spec_textures().spec_slots()[r.slot as int].generation,
            final(self).spec_textures().spec_slots() == occupied(
                old(self).spec_textures().spec_slots(),
                old(self).spec_textures().spec_free(),
            ),
            final(self).spec_textures().spec_free() == old(self).spec_textures().spec_free().drop_last(),
    {
        let (slot, generation) = self.textures.occupy();
        self.dirty = true;
        proof {
            assert forall|i: int| 0 <= i < RESERVED_FALLBACK_TEXTURES implies (
            #[trigger] self.textures.spec_slots()[i]).reserved by {
                assert(old(self).spec_textures().spec_slots()[i].reserved);
            }
        }
        TextureHandle { slot, generation }
    }

    /// Removes the texture named by `handle`. A stale, vacant, fallback or out-of-range handle is
    /// refused and changes nothing.
    pub fn remove(&mut self, handle: TextureHandle) -> (r: Result<(), BindlessTextureError>)
        requires
            old(self).wf(),
        ensures
            final(self).wf(),
            final(self).same_epochs(old(self)),
            final(self).spec_samplers() == old(self).spec_samplers(),
            release_ok(old(self).spec_textures().spec_slots(), handle.slot, handle.generation) ==> r
                is Ok && final(self).spec_dirty() && final(self).spec_textures().spec_slots()
                == released(old(self).spec_textures().spec_slots(), handle.slot)
                && final(self).spec_textures().spec_free() == old(self).spec_textures().spec_free().push(
                handle.slot,
            ),
            !release_ok(old(self).spec_textures().spec_slots(), handle.slot, handle.generation) ==> r
                == Err::<(), BindlessTextureError>(BindlessTextureError::InvalidHandle { handle })
                && *final(self) == *old(self),
    {
        if !self.textures.release(handle.slot, handle.generation) {
            return Err(BindlessTextureError::InvalidHandle { handle });
        }
        self.dirty = true;
        proof {
            assert forall|i: int| 0 <= i < RESERVED_FALLBACK_TEXTURES implies (
            #[trigger] self.textures.spec_slots()[i]).reserved by {
                assert(old(self).spec_textures().spec_slots()[i].reserved);
            }
        }
        Ok(())
    }

    /// The slot a new sampler would take. Nothing changes until [`Self::commit_insert_sampler`].
    pub fn plan_insert_sampler(&self) -> (r: Result<u32, BindlessSamplerError>)
        requires
            self.wf(),
        ensures
            self.spec_samplers().spec_free().len() == 0 ==> r == Err::<u32, BindlessSamplerError>(
                BindlessSamplerError::Full { capacity: self.spec_max_samplers() },
            ),
            self.spec_samplers().spec_free().len() > 0 ==> r == Ok::<u32, BindlessSamplerError>(
                self.spec_samplers().spec_free().last(),
            ),
    {
        match self.samplers.next_free() {
            Some(s) => Ok(s),
            None => Err(BindlessSamplerError::Full { capacity: self.max_samplers }),
        }
    }

    /// Records that a created sampler now occupies the planned slot, and returns its handle.
    pub fn commit_insert_sampler(&mut self) -> (r: SamplerHandle)
        requires
            old(self).wf(),
            old(self).spec_samplers().spec_free().len() > 0,
        ensures
            final(self).wf(),
            final(self).same_epochs(old(self)),
            final(self).spec_dirty(),
            final(self).spec_textures() == old(self).spec_textures(),
            r.slot == old(self).spec_samplers().spec_free().last(),
            r.generation == old(self).spec_samplers().spec_slots()[r.slot as int].generation,
            final(self).spec_samplers().spec_slots() == occupied(
                old(self).spec_samplers().spec_slots(),
                old(self).spec_samplers().spec_free(),
            ),
            final(self).spec_samplers().spec_free() == old(self).spec_samplers().spec_free().drop_last(),
    {
        let (slot, generation) = self.samplers.occupy();
        self.dirty = true;
        proof {
            assert(old(self).spec_samplers().spec_slots()[0].reserved);
        }
        SamplerHandle { slot, generation }
    }

    /// Removes the sampler named by `handle`; an invalid handle changes nothing.
    pub fn remove_sampler(&mut self, handle: SamplerHandle) -> (r: Result<(), BindlessSamplerError>)
        requires
            old(self).wf(),
        ensures
            final(self).wf(),
            final(self).same_epochs(old(self)),
            final(self).spec_textures() == old(self).spec_textures(),
            release_ok(old(self).spec_samplers().spec_slots(), handle.slot, handle.generation) ==> r
                is Ok && final(self).spec_dirty() && final(self).spec_samplers().spec_slots()
                == released(old(self).spec_samplers().spec_slots(), handle.slot)
                && final(self).spec_samplers().spec_free() == old(self).spec_samplers().spec_free().push(
                handle.slot,
            ),
            !release_ok(old(self).spec_samplers().spec_slots(), handle.slot, handle.generation) ==> r
                == Err::<(), BindlessSamplerError>(BindlessSamplerError::InvalidHandle { handle })
                && *final(self) == *old(self),
    {
        if !self.samplers.release(handle.slot, handle.generation) {
            return Err(BindlessSamplerError::InvalidHandle { handle });
        }
        self.dirty = true;
        Ok(())
    }

    /// Publishes a new epoch: the current one retires, and retired epochs whose last submission
    /// has completed (or that were never submitted) are released. Returns the new epoch's id.
    pub fn rebuild_epoch(&mut self, completed: u64) -> (r: u64)
        requires
            old(self).wf(),
        ensures
            final(self).wf(),
            r == old(self).spec_next_epoch(),
            r != old(self).spec_current().id,
            final(self).spec_current() == (EpochRecord { id: r, last_submission: 0 }),
            final(self).spec_retired() == kept(
                old(self).spec_retired().push(old(self).spec_current()),
                completed,
            ),
            !final(self).spec_dirty(),
            final(self).spec_next_epoch() == next_counter(old(self).spec_next_epoch()),
            final(self).spec_next_submission() == old(self).spec_next_submission(),
            final(self).spec_textures() == old(self).spec_textures(),
            final(self).spec_samplers() == old(self).spec_samplers(),
            final(self).spec_max_textures() == old(self).spec_max_textures(),
            final(self).spec_max_samplers() == old(self).spec_max_samplers(),
    {
        let id = self.next_epoch;
        self.next_epoch = next_counter_exec(self.next_epoch);
        let previous = self.current;
        self.current = EpochRecord { id, last_submission: 0 };
        self.retired.push(previous);
        self.dirty = false;
        self.retired = collect_retired(&self.retired, completed);
        id
    }

    /// Starts a frame: releases the retired epochs the GPU is done with and, when slots changed
    /// since the last publication, publishes a new epoch. Returns the epoch the frame captures.
    pub fn begin_frame(&mut self, completed: u64) -> (r: u64)
        requires
            old(self).wf(),
        ensures
            final(self).wf(),
            r == final(self).spec_current().id,
            final(self).spec_textures() == old(self).spec_textures(),
            final(self).spec_samplers() == old(self).spec_samplers(),
            final(self).spec_max_textures() == old(self).spec_max_textures(),
            final(self).spec_max_samplers() == old(self).spec_max_samplers(),
            final(self).spec_next_submission() == old(self).spec_next_submission(),
            !final(self).spec_dirty(),
            !old(self).spec_dirty() ==> final(self).spec_current() == old(self).spec_current()
                && final(self).spec_retired() == kept(old(self).spec_retired(), completed)
                && final(self).spec_next_epoch() == old(self).spec_next_epoch(),
            old(self).spec_dirty() ==> r == old(self).spec_next_epoch() && r != old(
                self,
            ).spec_current().id && final(self).spec_current() == (EpochRecord {
                id: r,
                last_submission: 0,
            }) && final(self).spec_retired() == kept(
                kept(old(self).spec_retired(), completed).push(old(self).spec_current()),
                completed,
            ) && final(self).spec_next_epoch() == next_counter(old(self).spec_next_epoch()),
    {
        self.retired = collect_retired(&self.retired, completed);
        if self.dirty {
            self.rebuild_epoch(completed);
        }
        self.current.id
    }

    /// Marks the current epoch as used by the submission just made, and returns that
    /// submission's number. The caller reports the number as completed once the GPU is done.
    pub fn after_submit(&mut self, epoch_id: u64) -> (r: u64)
        requires
            old(self).wf(),
            epoch_id == old(self).spec_current().id,
        ensures
            final(self).wf(),
            r == old(self).spec_next_submission(),
            final(self).spec_next_submission() == next_counter(old(self).spec_next_submission()),
            final(self).spec_current().id == old(self).spec_current().id,
            final(self).spec_current().last_submission == if r > old(
                self,
            ).spec_current().last_submission {
                r
            } else {
                old(self).spec_current().last_submission
            },
            final(self).spec_retired() == old(self).spec_retired(),
            final(self).spec_dirty() == old(self).spec_dirty(),
            final(self).spec_next_epoch() == old(self).spec_next_epoch(),
            final(self).spec_textures() == old(self).spec_textures(),
            final(self).spec_samplers() == old(self).spec_samplers(),
            final(self).spec_max_textures() == old(self).spec_max_textures(),
            final(self).spec_max_samplers() == old(self).spec_max_samplers(),
    {
        let submission = self.next_submission;
        self.next_submission = next_counter_exec(self.next_submission);
        if submission > self.current.last_submission {
            self.current.last_submission = submission;
        }
        submission
    }
}

/// A submitted epoch outlives its submission: an epoch retired while a submission that used it is
/// still in flight is kept, and one whose submissions have all completed is released.
pub proof fn lemma_kept_is_exactly_in_use(epochs: Seq<EpochRecord>, completed: u64, e: EpochRecord)
    ensures
        kept(epochs, completed).contains(e) <==> epochs.contains(e) && still_in_use(e, completed),
    decreases epochs.len(),
{
    if epochs.len() > 0 {
        let init = epochs.drop_last();
        lemma_kept_is_exactly_in_use(init, completed, e);
        assert(epochs =~= init.push(epochs.last()));
        if epochs.contains(e) && e != epochs.last() {
            let k = choose|k: int| 0 <= k < epochs.len() && epochs[k] == e;
            assert(init[k] == e);
        }
        if init.contains(e) {
            let k = choose|k: int| 0 <= k < init.len() && init[k] == e;
            assert(epochs[k] == e);
        }
        if still_in_use(epochs.last(), completed) {
            let p = kept(init, completed);
            if p.push(epochs.last()).contains(e) && e != epochs.last() {
                let k = choose|k: int| 0 <= k < p.push(epochs.last()).len() && p.push(epochs.last())[k] == e;
                assert(p[k] == e);
            }
            if p.contains(e) {
                let k = choose|k: int| 0 <= k < p.len() && p[k] == e;
                assert(p.push(epochs.last())[k] == e);
            }
            assert(p.push(epochs.last())[p.len() as int] == epochs.last());
        }
        assert(epochs[epochs.len() - 1] == epochs.last());
    }
}

} // verus!
