//! Physical memory frame allocator.
//!
//! Physical memory is handed out in 4096-byte frames. A bitmap keeps one bit
//! per frame (set = allocated, clear = free) together with a maintained count
//! of the free frames; allocation is first-fit over the bitmap words.

use vstd::prelude::*;

verus! {

/// Size of a physical frame in bytes.
pub const FRAME_SIZE: usize = 4096;

/// Kind of a firmware memory-map region.
#[derive(Clone, Copy, PartialEq, Eq, Structural, Debug)]
pub enum RegionKind {
    Usable,
    Reserved,
    AcpiReclaimable,
    AcpiNvs,
    BadMemory,
    BootloaderReclaimable,
    ExecutableAndModules,
    Framebuffer,
    Unknown,
}

/// One entry of the firmware memory map: a physical range and its kind.
#[derive(Clone, Copy, PartialEq, Eq, Structural, Debug)]
pub struct MemoryRegion {
    pub base: u64,
    pub length: u64,
    pub kind: RegionKind,
}

impl MemoryRegion {
    /// Regions of these kinds may be handed out as frames.
    pub open spec fn spec_is_allocatable(self) -> bool {
        self.kind == RegionKind::Usable || self.kind == RegionKind::BootloaderReclaimable
    }

    /// Exec mirror of [`MemoryRegion::spec_is_allocatable`].
    pub fn is_allocatable(&self) -> (r: bool)
        ensures
            r == self.spec_is_allocatable(),
    {
        self.kind == RegionKind::Usable || self.kind == RegionKind::BootloaderReclaimable
    }
}

/// A physical memory frame: a 4096-byte-aligned physical address.
#[derive(Clone, Copy, PartialEq, Eq, Structural, Debug)]
pub struct PhysFrame {
    pub addr: u64,
}

impl PhysFrame {
    /// The frame that contains the given physical address.
    pub fn containing_address(addr: u64) -> (r: Self)
        ensures
            r.addr == (addr / 4096) * 4096,
    {
        proof {
            assert(addr & !0xFFFu64 == (addr / 4096) * 4096) by (bit_vector);
        }
        Self { addr: addr & !0xFFF }
    }

    /// The frame with the given frame number.
    pub fn from_number(number: u64) -> (r: Self)
        requires
            number * 4096 <= u64::MAX,
        ensures
            r.addr == number * 4096,
    {
        Self { addr: number * 4096 }
    }

    /// The frame number, its address divided by the frame size.
    pub open spec fn spec_number(self) -> int {
        self.addr as int / 4096
    }

    /// Exec mirror of [`PhysFrame::spec_number`].
    pub fn number(&self) -> (n: u64)
        ensures
            n == self.spec_number(),
    {
        self.addr / 4096
    }
}

/// Whether bit `b` of word `w` is set.
pub open spec fn word_bit(w: u64, b: u64) -> bool
    recommends
        b < 64,
{
    w & (1u64 << b) != 0u64
}

/// Whether frame `f` is marked allocated in the bitmap words.
pub open spec fn frame_marked(words: Seq<u64>, f: int) -> bool
    recommends
        0 <= f < words.len() * 64,
{
    word_bit(words[f / 64], (f % 64) as u64)
}

/// Number of frames below `n` whose bit is clear (free frames).
pub open spec fn count_clear(words: Seq<u64>, n: int) -> nat
    decreases n,
{
    if n <= 0 {
        0
    } else {
        count_clear(words, n - 1) + if frame_marked(words, n - 1) {
            0nat
        } else {
            1nat
        }
    }
}

/// The clear-bit count below `n` never exceeds `n`.
proof fn lemma_count_clear_le(words: Seq<u64>, n: int)
    requires
        0 <= n,
    ensures
        count_clear(words, n) <= n,
    decreases n,
{
    if n > 0 {
        lemma_count_clear_le(words, n - 1);
    }
}

/// Two bitmaps that agree on every frame below `n` have the same count.
proof fn lemma_count_clear_agree(w1: Seq<u64>, w2: Seq<u64>, n: int)
    requires
        forall|f: int| 0 <= f < n ==> frame_marked(w2, f) == frame_marked(w1, f),
    ensures
        count_clear(w2, n) == count_clear(w1, n),
    decreases n,
{
    if n > 0 {
        lemma_count_clear_agree(w1, w2, n - 1);
    }
}

/// Flipping exactly one frame's bit moves the count by exactly one.
proof fn lemma_count_clear_flip(w1: Seq<u64>, w2: Seq<u64>, j: int, n: int)
    requires
        0 <= j < n,
        forall|f: int| 0 <= f < n && f != j ==> frame_marked(w2, f) == frame_marked(w1, f),
    ensures
        !frame_marked(w1, j) && frame_marked(w2, j) ==> count_clear(w2, n) + 1
            == count_clear(w1, n),
        frame_marked(w1, j) && !frame_marked(w2, j) ==> count_clear(w2, n) == count_clear(
            w1,
            n,
        ) + 1,
        frame_marked(w1, j) == frame_marked(w2, j) ==> count_clear(w2, n) == count_clear(w1, n),
    decreases n,
{
    if j == n - 1 {
        lemma_count_clear_agree(w1, w2, n - 1);
    } else {
        lemma_count_clear_flip(w1, w2, j, n - 1);
    }
}

/// A free frame below `n` makes the count positive.
proof fn lemma_count_clear_pos(words: Seq<u64>, j: int, n: int)
    requires
        0 <= j < n,
        !frame_marked(words, j),
    ensures
        count_clear(words, n) >= 1,
    decreases n,
{
    if j < n - 1 {
        lemma_count_clear_pos(words, j, n - 1);
    }
}

/// When every frame below `n` is marked, the count is zero.
proof fn lemma_count_clear_zero(words: Seq<u64>, n: int)
    requires
        0 <= n,
        forall|f: int| 0 <= f < n ==> frame_marked(words, f),
    ensures
        count_clear(words, n) == 0,
    decreases n,
{
    if n > 0 {
        lemma_count_clear_zero(words, n - 1);
    }
}

/// Bitmap-based physical frame allocator.
///
/// Frame `f` covers physical addresses `[f * 4096, (f + 1) * 4096)`. Bit `f`
/// of the bitmap is set while the frame is allocated; `free_frames` always
/// equals the number of clear bits among the `total_frames` tracked frames.
pub struct BitmapAllocator {
    bitmap: Vec<u64>,
    total_frames: usize,
    free_frames: usize,
}

impl BitmapAllocator {
    /// Number of frames the allocator tracks.
    pub closed spec fn total(&self) -> int {
        self.total_frames as int
    }

    /// Whether frame `f` is currently free.
    pub closed spec fn is_free(&self, f: int) -> bool {
        0 <= f < self.total_frames && !frame_marked(self.bitmap@, f)
    }

    /// The maintained free-frame count.
    pub closed spec fn free_count(&self) -> nat {
        self.free_frames as nat
    }

    /// Number of free frames among frames `[0, n)`, stated over [`BitmapAllocator::is_free`].
    pub open spec fn count_free_below(&self, n: int) -> nat
        decreases n,
    {
        if n <= 0 {
            0
        } else {
            self.count_free_below(n - 1) + if self.is_free(n - 1) {
                1nat
            } else {
                0nat
            }
        }
    }

    /// Internal well-formedness: the count matches the bitmap, frames past
    /// `total_frames` are permanently marked, and every frame address fits in `u64`.
    pub closed spec fn wf(&self) -> bool {
        &&& self.bitmap@.len() == (self.total_frames + 63) / 64
        &&& self.free_frames == count_clear(self.bitmap@, self.total_frames as int)
        &&& forall|f: int|
            self.total_frames <= f < self.bitmap@.len() * 64 ==> frame_marked(self.bitmap@, f)
        &&& self.total_frames * 4096 <= u64::MAX
    }

    /// Every tracked frame's address, page included, fits in a `u64`.
    pub proof fn lemma_frame_addresses_fit(&self)
        requires
            self.wf(),
        ensures
            self.total() * 4096 <= u64::MAX,
    {
    }

    /// When the free count is zero, no frame is free.
    pub proof fn lemma_count_zero_no_free(&self)
        requires
            self.wf(),
            self.free_count() == 0,
        ensures
            forall|g: int| !self.is_free(g),
    {
        assert forall|g: int| !self.is_free(g) by {
            if self.is_free(g) {
                lemma_count_clear_pos(self.bitmap@, g, self.total_frames as int);
            }
        }
    }

    /// The two counting styles agree below any bound inside the tracked range.
    proof fn lemma_counts_agree(&self, n: int)
        requires
            n <= self.total_frames,
        ensures
            self.count_free_below(n) == count_clear(self.bitmap@, n),
        decreases n,
    {
        if n > 0 {
            self.lemma_counts_agree(n - 1);
        }
    }

    /// The free count is exactly the number of free frames.
    pub proof fn lemma_free_count_is_count(&self)
        requires
            self.wf(),
        ensures
            self.free_count() == self.count_free_below(self.total()),
    {
        self.lemma_counts_agree(self.total());
    }

    /// Mark frame `f` allocated and keep the free count in step.
    fn set_bit(&mut self, f: usize)
        requires
            old(self).wf(),
            f < old(self).total(),
        ensures
            final(self).wf(),
            final(self).total() == old(self).total(),
            !final(self).is_free(f as int),
            forall|g: int| g != f ==> final(self).is_free(g) == old(self).is_free(g),
            old(self).is_free(f as int) ==> final(self).free_count() == old(self).free_count() - 1,
            !old(self).is_free(f as int) ==> final(self).free_count() == old(self).free_count(),
    {
        let k = f / 64;
        let b = (f % 64) as u64;
        let w = self.bitmap[k];
        let was_free = w & (1u64 << b) == 0u64;
        let neww = w | (1u64 << b);
        self.bitmap.set(k, neww);
        proof {
            assert(b < 64 ==> (w | (1u64 << b)) & (1u64 << b) != 0u64) by (bit_vector);
            assert(forall|c: u64|
                c < 64 && c != b && b < 64 ==> ((w | (1u64 << b)) & (1u64 << c)) == #[trigger] (w
                    & (1u64 << c))) by (bit_vector);
            assert forall|g: int|
                0 <= g < self.bitmap@.len() * 64 && g != f implies frame_marked(self.bitmap@, g)
                == frame_marked(old(self).bitmap@, g) by {
                if g / 64 == k {
                    assert(g % 64 != b as int) by {
                        vstd::arithmetic::div_mod::lemma_fundamental_div_mod(g, 64);
                        vstd::arithmetic::div_mod::lemma_fundamental_div_mod(f as int, 64);
                    };
                }
            }
            assert(frame_marked(self.bitmap@, f as int));
            lemma_count_clear_flip(
                old(self).bitmap@,
                self.bitmap@,
                f as int,
                self.total_frames as int,
            );
            lemma_count_clear_le(old(self).bitmap@, self.total_frames as int);
        }
        if was_free {
            self.free_frames = self.free_frames - 1;
        }
    }

    /// Mark frame `f` free and keep the free count in step.
    fn clear_bit(&mut self, f: usize)
        requires
            old(self).wf(),
            f < old(self).total(),
        ensures
            final(self).wf(),
            final(self).total() == old(self).total(),
            final(self).is_free(f as int),
            forall|g: int| g != f ==> final(self).is_free(g) == old(self).is_free(g),
            !old(self).is_free(f as int) ==> final(self).free_count() == old(self).free_count() + 1,
            old(self).is_free(f as int) ==> final(self).free_count() == old(self).free_count(),
    {
        let k = f / 64;
        let b = (f % 64) as u64;
        let w = self.bitmap[k];
        let was_marked = w & (1u64 << b) != 0u64;
        let neww = w & !(1u64 << b);
        self.bitmap.set(k, neww);
        proof {
            assert(b < 64 ==> (w & !(1u64 << b)) & (1u64 << b) == 0u64) by (bit_vector);
            assert(forall|c: u64|
                c < 64 && c != b && b < 64 ==> ((w & !(1u64 << b)) & (1u64 << c)) == #[trigger] (w
                    & (1u64 << c))) by (bit_vector);
            assert forall|g: int|
                0 <= g < self.bitmap@.len() * 64 && g != f implies frame_marked(self.bitmap@, g)
                == frame_marked(old(self).bitmap@, g) by {
                if g / 64 == k {
                    assert(g % 64 != b as int) by {
                        vstd::arithmetic::div_mod::lemma_fundamental_div_mod(g, 64);
                        vstd::arithmetic::div_mod::lemma_fundamental_div_mod(f as int, 64);
                    };
                }
            }
            assert(!frame_marked(self.bitmap@, f as int));
            lemma_count_clear_flip(
                old(self).bitmap@,
                self.bitmap@,
                f as int,
                self.total_frames as int,
            );
            lemma_count_clear_le(self.bitmap@, self.total_frames as int);
        }
        if was_marked {
            self.free_frames = self.free_frames + 1;
        }
    }

    /// Allocate the lowest free frame (first-fit).
    ///
    /// Returns `None` exactly when no frame is free; otherwise the returned
    /// frame was free, is now allocated, no other frame changes, and the
    /// free count drops by one.
    pub fn alloc_frame(&mut self) -> (r: Option<PhysFrame>)
        requires
            old(self).wf(),
        ensures
            final(self).wf(),
            final(self).total() == old(self).total(),
            r is None <==> old(self).free_count() == 0,
            r is None ==> *final(self) == *old(self),
            r matches Some(frame) ==> {
                &&& frame.addr == frame.spec_number() * 4096
                &&& 0 <= frame.spec_number() < old(self).total()
                &&& old(self).is_free(frame.spec_number())
                &&& forall|g: int| 0 <= g < frame.spec_number() ==> !old(self).is_free(g)
                &&& !final(self).is_free(frame.spec_number())
                &&& forall|g: int|
                    g != frame.spec_number() ==> final(self).is_free(g) == old(self).is_free(g)
                &&& final(self).free_count() == old(self).free_count() - 1
            },
    {
        broadcast use vstd::std_specs::bits::axiom_u64_trailing_ones;
        broadcast use vstd::std_specs::bits::axiom_u64_trailing_zeros;

        if self.free_frames == 0 {
            return None;
        }
        let mut k: usize = 0;
        while k < self.bitmap.len()
            invariant
                *self == *old(self),
                self.wf(),
                self.free_frames > 0,
                k <= self.bitmap@.len(),
                forall|g: int| 0 <= g < k * 64 ==> !self.is_free(g),
            decreases self.bitmap@.len() - k,
        {
            let w = self.bitmap[k];
            if w != u64::MAX {
                let b = w.trailing_ones() as u64;
                assert(b < 64 && (w >> b) & 1u64 == 0u64);
                proof {
                    assert((w >> b) & 1u64 == 0u64 && b < 64 ==> w & (1u64 << b) == 0u64)
                        by (bit_vector);
                    assert(forall|j: u64|
                        j < 64 && #[trigger] ((w >> j) & 1u64) == 1u64 ==> w & (1u64 << j)
                            != 0u64) by (bit_vector);
                }
                let f = k * 64 + b as usize;
                assert(!frame_marked(self.bitmap@, f as int)) by {
                    vstd::arithmetic::div_mod::lemma_fundamental_div_mod_converse(
                        f as int,
                        64,
                        k as int,
                        b as int,
                    );
                };
                // A clear bit can only sit below `total_frames`.
                proof {
                    vstd::arithmetic::div_mod::lemma_fundamental_div_mod(
                        self.total_frames as int + 63,
                        64,
                    );
                }
                assert(f < self.total_frames);
                assert forall|g: int| 0 <= g < f implies !self.is_free(g) by {
                    if k * 64 <= g {
                        vstd::arithmetic::div_mod::lemma_fundamental_div_mod_converse(
                            g,
                            64,
                            k as int,
                            g - k * 64,
                        );
                        assert((w >> ((g - k * 64) as u64)) & 1u64 == 1u64);
                    }
                }
                self.set_bit(f);
                let addr = (f as u64) * 4096;
                return Some(PhysFrame { addr });
            }
            proof {
                assert(forall|j: u64| j < 64 ==> u64::MAX & (1u64 << j) != 0u64) by (bit_vector);
                assert forall|g: int| 0 <= g < (k + 1) * 64 implies !self.is_free(g) by {
                    if k * 64 <= g {
                        vstd::arithmetic::div_mod::lemma_fundamental_div_mod_converse(
                            g,
                            64,
                            k as int,
                            g - k * 64,
                        );
                    }
                }
            }
            k = k + 1;
        }
        proof {
            vstd::arithmetic::div_mod::lemma_fundamental_div_mod(self.total_frames as int + 63, 64);
            assert forall|g: int| 0 <= g < self.total_frames implies frame_marked(
                self.bitmap@,
                g,
            ) by {
                assert(!self.is_free(g));
            }
            lemma_count_clear_zero(self.bitmap@, self.total_frames as int);
            assert(false);
        }
        None
    }

    /// Return a frame to the allocator.
    ///
    /// Clears the frame's bit; freeing an already-free frame changes nothing
    /// (double-free is idempotent). Frames outside the tracked range are
    /// ignored.
    pub fn dealloc_frame(&mut self, frame: PhysFrame)
        requires
            old(self).wf(),
        ensures
            final(self).wf(),
            final(self).total() == old(self).total(),
            0 <= frame.spec_number() < old(self).total() ==> {
                &&& final(self).is_free(frame.spec_number())
                &&& forall|g: int|
                    g != frame.spec_number() ==> final(self).is_free(g) == old(self).is_free(g)
                &&& !old(self).is_free(frame.spec_number()) ==> final(self).free_count() == old(
                    self,
                ).free_count() + 1
                &&& old(self).is_free(frame.spec_number()) ==> final(self).free_count() == old(
                    self,
                ).free_count()
            },
            !(frame.spec_number() < old(self).total()) ==> *final(self) == *old(self),
    {
        let n = frame.number();
        if n < self.total_frames as u64 {
            self.clear_bit(n as usize);
        }
    }

    /// Mark every frame fully inside `[base, base + length)` free.
    ///
    /// As in the firmware-map walk, the first frame is the one containing
    /// `base` and the last is the one below `base + length`; frames outside
    /// the tracked range are ignored.
    pub fn mark_region_free(&mut self, base: u64, length: u64)
        requires
            old(self).wf(),
            base + length <= u64::MAX,
        ensures
            final(self).wf(),
            final(self).total() == old(self).total(),
            forall|g: int|
                final(self).is_free(g) == (old(self).is_free(g) || (base / 4096 <= g < (base
                    + length) as int / 4096 && 0 <= g < old(self).total())),
    {
        let start: u64 = base / 4096;
        let end_raw: u64 = (base + length) / 4096;
        let end: u64 = if end_raw < self.total_frames as u64 {
            end_raw
        } else {
            self.total_frames as u64
        };
        let mut f: u64 = start;
        while f < end
            invariant
                self.wf(),
                self.total() == old(self).total(),
                start <= f,
                start <= end ==> f <= end,
                start > end ==> f == start,
                end <= self.total() <= usize::MAX,
                end <= end_raw,
                end_raw < self.total() ==> end == end_raw,
                self.total() <= end_raw ==> end == self.total(),
                forall|g: int|
                    self.is_free(g) == (old(self).is_free(g) || (start <= g < f && 0 <= g < old(
                        self,
                    ).total())),
            decreases end - f,
        {
            self.clear_bit(f as usize);
            f = f + 1;
        }
        proof {
            let endp = (base + length) as int / 4096;
            assert forall|g: int|
                final(self).is_free(g) == (old(self).is_free(g) || (base / 4096 <= g < endp && 0
                    <= g < old(self).total())) by {
                if 0 <= g < self.total() {
                    if start <= g < endp {
                        assert(g < end);
                        assert(start <= g < f);
                    }
                } else {
                    assert(!self.is_free(g));
                    assert(!old(self).is_free(g));
                }
            }
        }
    }

    /// Mark every frame touching `[base, base + length)` allocated.
    ///
    /// The last frame is rounded up so that a partial page at the end is
    /// also withheld; frames outside the tracked range are ignored.
    pub fn mark_region_allocated(&mut self, base: u64, length: u64)
        requires
            old(self).wf(),
            base + length + 4095 <= u64::MAX,
        ensures
            final(self).wf(),
            final(self).total() == old(self).total(),
            forall|g: int|
                final(self).is_free(g) == (old(self).is_free(g) && !(base / 4096 <= g < (base
                    + length + 4095) as int / 4096)),
    {
        let start: u64 = base / 4096;
        let end_raw: u64 = (base + length + 4095) / 4096;
        let end: u64 = if end_raw < self.total_frames as u64 {
            end_raw
        } else {
            self.total_frames as u64
        };
        let mut f: u64 = start;
        while f < end
            invariant
                self.wf(),
                self.total() == old(self).total(),
                start <= f,
                start <= end ==> f <= end,
                start > end ==> f == start,
                end <= self.total() <= usize::MAX,
                end <= end_raw,
                end_raw < self.total() ==> end == end_raw,
                self.total() <= end_raw ==> end == self.total(),
                forall|g: int|
                    self.is_free(g) == (old(self).is_free(g) && !(start <= g < f)),
            decreases end - f,
        {
            self.set_bit(f as usize);
            f = f + 1;
        }
        proof {
            let endp = (base + length + 4095) as int / 4096;
            assert forall|g: int|
                final(self).is_free(g) == (old(self).is_free(g) && !(base / 4096 <= g < endp)) by {
                if 0 <= g < self.total() {
                    if start <= g < endp {
                        assert(g < end);
                        assert(start <= g < f);
                    }
                } else {
                    assert(!self.is_free(g));
                    assert(!old(self).is_free(g));
                }
            }
        }
    }

    /// Number of frames the allocator tracks.
    pub fn total_frames(&self) -> (r: usize)
        ensures
            r == self.total(),
    {
        self.total_frames
    }

    /// Number of frames currently free.
    pub fn free_frames(&self) -> (r: usize)
        ensures
            r == self.free_count(),
    {
        self.free_frames
    }

    /// Number of bytes currently free.
    pub fn free_memory(&self) -> (r: u64)
        requires
            self.wf(),
        ensures
            r == self.free_count() * 4096,
    {
        proof {
            lemma_count_clear_le(self.bitmap@, self.total_frames as int);
            vstd::arithmetic::mul::lemma_mul_inequality(
                self.free_frames as int,
                self.total_frames as int,
                4096,
            );
        }
        (self.free_frames as u64) * 4096
    }
}

/// Whether a region contributes to the highest tracked address: it must be
/// allocatable and end below 4 GiB (higher ranges hold device mappings).
pub open spec fn region_counted(r: MemoryRegion) -> bool {
    r.spec_is_allocatable() && r.base + r.length < 0x1_0000_0000
}

/// Highest end address over the counted regions of the map.
pub open spec fn spec_max_addr(regions: Seq<MemoryRegion>) -> int
    decreases regions.len(),
{
    if regions.len() == 0 {
        0
    } else {
        let rest = spec_max_addr(regions.drop_last());
        let last = if region_counted(regions.last()) {
            regions.last().base + regions.last().length
        } else {
            0
        };
        if last > rest {
            last
        } else {
            rest
        }
    }
}

/// Number of frames an allocator built over this map tracks.
pub open spec fn spec_total_frames(regions: Seq<MemoryRegion>) -> int {
    spec_max_addr(regions) / 4096
}

/// Whether frame `f` lies fully inside an allocatable region of the map.
pub open spec fn frame_in_allocatable(regions: Seq<MemoryRegion>, f: int) -> bool {
    exists|i: int|
        0 <= i < regions.len() && regions[i].spec_is_allocatable() && regions[i].base / 4096 <= f
            < (regions[i].base + regions[i].length) as int / 4096
}

/// Build the frame allocator from the firmware memory map.
///
/// Every frame below the highest counted address starts out allocated; the
/// frames inside allocatable regions are then marked free. The low frames
/// (and every address outside an allocatable region) are never handed out.
pub fn init(regions: &Vec<MemoryRegion>) -> (a: BitmapAllocator)
    requires
        forall|i: int|
            0 <= i < regions@.len() ==> regions@[i].base + regions@[i].length <= u64::MAX,
    ensures
        a.wf(),
        a.total() == spec_total_frames(regions@),
        forall|f: int|
            a.is_free(f) == (0 <= f < a.total() && frame_in_allocatable(regions@, f)),
{
    let mut max_addr: u64 = 0;
    let mut i: usize = 0;
    while i < regions.len()
        invariant
            i <= regions@.len(),
            max_addr == spec_max_addr(regions@.take(i as int)),
            max_addr < 0x1_0000_0000,
            forall|j: int|
                0 <= j < regions@.len() ==> regions@[j].base + regions@[j].length <= u64::MAX,
        decreases regions@.len() - i,
    {
        let r = regions[i];
        if r.is_allocatable() && r.base + r.length < 0x1_0000_0000 {
            if r.base + r.length > max_addr {
                max_addr = r.base + r.length;
            }
        }
        proof {
            assert(regions@.take(i + 1).drop_last() =~= regions@.take(i as int));
        }
        i = i + 1;
    }
    proof {
        assert(regions@.take(regions@.len() as int) =~= regions@);
    }

    let total: usize = (max_addr / 4096) as usize;
    let words: usize = (total + 63) / 64;
    let mut bitmap: Vec<u64> = Vec::new();
    let mut k: usize = 0;
    while k < words
        invariant
            bitmap@.len() == k,
            k <= words,
            forall|j: int| 0 <= j < k ==> bitmap@[j] == u64::MAX,
        decreases words - k,
    {
        bitmap.push(u64::MAX);
        k = k + 1;
    }

    let mut a = BitmapAllocator { bitmap, total_frames: total, free_frames: 0 };
    proof {
        assert(forall|b: u64| b < 64 ==> u64::MAX & (1u64 << b) != 0u64) by (bit_vector);
        assert forall|f: int| 0 <= f < a.bitmap@.len() * 64 implies frame_marked(
            a.bitmap@,
            f,
        ) by {
            vstd::arithmetic::div_mod::lemma_fundamental_div_mod(f, 64);
        }
        lemma_count_clear_zero(a.bitmap@, a.total_frames as int);
        vstd::arithmetic::div_mod::lemma_fundamental_div_mod(max_addr as int, 4096);
        assert(a.wf());
        assert(forall|f: int| !a.is_free(f));
    }

    let mut i: usize = 0;
    while i < regions.len()
        invariant
            i <= regions@.len(),
            a.wf(),
            a.total() == spec_total_frames(regions@),
            forall|j: int|
                0 <= j < regions@.len() ==> regions@[j].base + regions@[j].length <= u64::MAX,
            forall|f: int|
                a.is_free(f) == (0 <= f < a.total() && frame_in_allocatable(
                    regions@.take(i as int),
                    f,
                )),
        decreases regions@.len() - i,
    {
        let r = regions[i];
        if r.is_allocatable() {
            a.mark_region_free(r.base, r.length);
        }
        proof {
            let pre = regions@.take(i as int);
            let post = regions@.take(i + 1);
            assert(post.drop_last() =~= pre);
            assert(post.last() == regions@[i as int]);
            assert forall|f: int|
                a.is_free(f) == (0 <= f < a.total() && frame_in_allocatable(post, f)) by {
                if frame_in_allocatable(pre, f) {
                    let w = choose|w: int|
                        0 <= w < pre.len() && pre[w].spec_is_allocatable() && pre[w].base / 4096
                            <= f < (pre[w].base + pre[w].length) as int / 4096;
                    assert(post[w] == pre[w]);
                    assert(frame_in_allocatable(post, f));
                }
                if frame_in_allocatable(post, f) && !frame_in_allocatable(pre, f) {
                    let w = choose|w: int|
                        0 <= w < post.len() && post[w].spec_is_allocatable() && post[w].base
                            / 4096 <= f < (post[w].base + post[w].length) as int / 4096;
                    assert(w == i);
                }
            }
        }
        i = i + 1;
    }
    proof {
        assert(regions@.take(regions@.len() as int) =~= regions@);
    }
    a
}

/// Where the allocator's bitmap itself would live in physical memory: the
/// base of the first usable region that can hold one bit per tracked frame.
pub fn bitmap_placement(regions: &Vec<MemoryRegion>) -> (r: Option<u64>)
    requires
        forall|i: int|
            0 <= i < regions@.len() ==> regions@[i].base + regions@[i].length <= u64::MAX,
        spec_total_frames(regions@) <= usize::MAX,
    ensures
        r matches Some(base) ==> exists|i: int|
            {
                &&& 0 <= i < regions@.len()
                &&& regions@[i].kind == RegionKind::Usable
                &&& regions@[i].base == base
                &&& regions@[i].length >= ((spec_total_frames(regions@) + 63) / 64) * 8
                &&& forall|j: int|
                    0 <= j < i ==> !(regions@[j].kind == RegionKind::Usable && regions@[j].length
                        >= ((spec_total_frames(regions@) + 63) / 64) * 8)
            },
        r is None ==> forall|i: int|
            0 <= i < regions@.len() ==> !(regions@[i].kind == RegionKind::Usable
                && regions@[i].length >= ((spec_total_frames(regions@) + 63) / 64) * 8),
{
    let mut max_addr: u64 = 0;
    let mut i: usize = 0;
    while i < regions.len()
        invariant
            i <= regions@.len(),
            max_addr == spec_max_addr(regions@.take(i as int)),
            max_addr < 0x1_0000_0000,
            forall|j: int|
                0 <= j < regions@.len() ==> regions@[j].base + regions@[j].length <= u64::MAX,
        decreases regions@.len() - i,
    {
        let r = regions[i];
        if r.is_allocatable() && r.base + r.length < 0x1_0000_0000 {
            if r.base + r.length > max_addr {
                max_addr = r.base + r.length;
            }
        }
        proof {
            assert(regions@.take(i + 1).drop_last() =~= regions@.take(i as int));
        }
        i = i + 1;
    }
    proof {
        assert(regions@.take(regions@.len() as int) =~= regions@);
        vstd::arithmetic::div_mod::lemma_fundamental_div_mod(max_addr as int, 4096);
    }
    let total: u64 = max_addr / 4096;
    let bitmap_bytes: u64 = ((total + 63) / 64) * 8;
    let mut i: usize = 0;
    while i < regions.len()
        invariant
            i <= regions@.len(),
            bitmap_bytes == ((spec_total_frames(regions@) + 63) / 64) * 8,
            forall|j: int|
                0 <= j < i ==> !(regions@[j].kind == RegionKind::Usable && regions@[j].length
                    >= bitmap_bytes),
        decreases regions@.len() - i,
    {
        let r = regions[i];
        if matches!(r.kind, RegionKind::Usable) && r.length >= bitmap_bytes {
            return Some(r.base);
        }
        i = i + 1;
    }
    None
}

/// Sum of all region lengths in the map.
pub open spec fn spec_total_memory(regions: Seq<MemoryRegion>) -> int
    decreases regions.len(),
{
    if regions.len() == 0 {
        0
    } else {
        spec_total_memory(regions.drop_last()) + regions.last().length
    }
}

/// Sum of the allocatable region lengths in the map.
pub open spec fn spec_usable_memory(regions: Seq<MemoryRegion>) -> int
    decreases regions.len(),
{
    if regions.len() == 0 {
        0
    } else {
        spec_usable_memory(regions.drop_last()) + if regions.last().spec_is_allocatable() {
            regions.last().length as int
        } else {
            0
        }
    }
}

/// The boot report's figures: total bytes in the map and bytes usable for
/// allocation.
pub fn memory_summary(regions: &Vec<MemoryRegion>) -> (r: (u64, u64))
    requires
        spec_total_memory(regions@) <= u64::MAX,
    ensures
        r.0 == spec_total_memory(regions@),
        r.1 == spec_usable_memory(regions@),
{
    let mut total: u64 = 0;
    let mut usable: u64 = 0;
    let mut i: usize = 0;
    while i < regions.len()
        invariant
            i <= regions@.len(),
            total == spec_total_memory(regions@.take(i as int)),
            usable == spec_usable_memory(regions@.take(i as int)),
            spec_total_memory(regions@) <= u64::MAX,
        decreases regions@.len() - i,
    {
        proof {
            lemma_memory_sums_monotonic(regions@, i + 1);
            assert(regions@.take(i + 1).drop_last() =~= regions@.take(i as int));
        }
        let r = regions[i];
        total = total + r.length;
        if r.is_allocatable() {
            usable = usable + r.length;
        }
        i = i + 1;
    }
    proof {
        assert(regions@.take(regions@.len() as int) =~= regions@);
    }
    (total, usable)
}

/// The running sums over a prefix stay within the sums over the whole map.
proof fn lemma_memory_sums_monotonic(regions: Seq<MemoryRegion>, n: int)
    requires
        0 <= n <= regions.len(),
    ensures
        0 <= spec_usable_memory(regions.take(n)) <= spec_total_memory(regions.take(n))
            <= spec_total_memory(regions),
    decreases regions.len() - n,
{
    if n == regions.len() {
        assert(regions.take(n) =~= regions);
        lemma_memory_sums_nonneg(regions);
    } else {
        lemma_memory_sums_monotonic(regions, n + 1);
        lemma_memory_sums_nonneg(regions.take(n));
        assert(regions.take(n + 1).drop_last() =~= regions.take(n));
    }
}

/// Both memory sums are sums of lengths, never negative, usable at most total.
proof fn lemma_memory_sums_nonneg(regions: Seq<MemoryRegion>)
    ensures
        0 <= spec_usable_memory(regions) <= spec_total_memory(regions),
    decreases regions.len(),
{
    if regions.len() > 0 {
        lemma_memory_sums_nonneg(regions.drop_last());
    }
}

/// The name the boot report prints for a region kind.
pub fn region_kind_name(kind: RegionKind) -> (r: String)
    ensures
        kind == RegionKind::Usable ==> r@ == "USABLE"@,
        kind == RegionKind::Reserved ==> r@ == "RESERVED"@,
        kind == RegionKind::AcpiReclaimable ==> r@ == "ACPI_RECLAIMABLE"@,
        kind == RegionKind::AcpiNvs ==> r@ == "ACPI_NVS"@,
        kind == RegionKind::BadMemory ==> r@ == "BAD_MEMORY"@,
        kind == RegionKind::BootloaderReclaimable ==> r@ == "BOOTLOADER_RECLAIMABLE"@,
        kind == RegionKind::ExecutableAndModules ==> r@ == "EXECUTABLE_AND_MODULES"@,
        kind == RegionKind::Framebuffer ==> r@ == "FRAMEBUFFER"@,
        kind == RegionKind::Unknown ==> r@ == "UNKNOWN"@,
{
    match kind {
        RegionKind::Usable => String::from_str("USABLE"),
        RegionKind::Reserved => String::from_str("RESERVED"),
        RegionKind::AcpiReclaimable => String::from_str("ACPI_RECLAIMABLE"),
        RegionKind::AcpiNvs => String::from_str("ACPI_NVS"),
        RegionKind::BadMemory => String::from_str("BAD_MEMORY"),
        RegionKind::BootloaderReclaimable => String::from_str("BOOTLOADER_RECLAIMABLE"),
        RegionKind::ExecutableAndModules => String::from_str("EXECUTABLE_AND_MODULES"),
        RegionKind::Framebuffer => String::from_str("FRAMEBUFFER"),
        RegionKind::Unknown => String::from_str("UNKNOWN"),
    }
}

/// One observable operation on the allocator, with its outcome.
pub enum AllocOp {
    Alloc(Option<PhysFrame>),
    Dealloc(PhysFrame),
}

/// How a single operation relates the allocator state before to the state
/// after; exactly what [`BitmapAllocator::alloc_frame`] and
/// [`BitmapAllocator::dealloc_frame`] ensure.
pub open spec fn allocator_step(pre: BitmapAllocator, post: BitmapAllocator, op: AllocOp) -> bool {
    &&& pre.wf()
    &&& post.wf()
    &&& post.total() == pre.total()
    &&& match op {
        AllocOp::Alloc(r) => match r {
            Some(f) => {
                &&& pre.free_count() != 0
                &&& f.addr == f.spec_number() * 4096
                &&& pre.is_free(f.spec_number())
                &&& forall|g: int| 0 <= g < f.spec_number() ==> !pre.is_free(g)
                &&& !post.is_free(f.spec_number())
                &&& forall|g: int| g != f.spec_number() ==> post.is_free(g) == pre.is_free(g)
                &&& post.free_count() == pre.free_count() - 1
            },
            None => pre.free_count() == 0 && post == pre,
        },
        AllocOp::Dealloc(f) => {
            if 0 <= f.spec_number() < pre.total() {
                &&& post.is_free(f.spec_number())
                &&& forall|g: int| g != f.spec_number() ==> post.is_free(g) == pre.is_free(g)
                &&& post.free_count() == pre.free_count() + if pre.is_free(f.spec_number()) {
                    0int
                } else {
                    1int
                }
            } else {
                post == pre
            }
        },
    }
}

/// The free-count change a single operation causes, read off the state
/// before it: `-1` for a successful allocation, `+1` for a deallocation that
/// actually frees a frame, `0` otherwise.
pub open spec fn op_delta(pre: BitmapAllocator, op: AllocOp) -> int {
    match op {
        AllocOp::Alloc(r) => if r is Some {
            -1
        } else {
            0
        },
        AllocOp::Dealloc(f) => if 0 <= f.spec_number() < pre.total() && !pre.is_free(
            f.spec_number(),
        ) {
            1
        } else {
            0
        },
    }
}

/// Whether `states` and `ops` form a valid history: `states` has one more
/// entry than `ops` and each operation steps its state to the next.
pub open spec fn valid_history(states: Seq<BitmapAllocator>, ops: Seq<AllocOp>) -> bool {
    &&& states.len() == ops.len() + 1
    &&& forall|i: int|
        0 <= i < ops.len() ==> allocator_step(states[i], states[i + 1], #[trigger] ops[i])
}

/// Net number of frames taken over a history: successful allocations minus
/// effective deallocations.
pub open spec fn net_allocations(states: Seq<BitmapAllocator>, ops: Seq<AllocOp>) -> int
    decreases ops.len(),
{
    if ops.len() == 0 {
        0
    } else {
        net_allocations(states.drop_last(), ops.drop_last()) - op_delta(
            states[ops.len() - 1],
            ops.last(),
        )
    }
}

/// Accounting law: over any valid sequence of allocations and deallocations,
/// the free count ends at its initial value minus the net allocations.
pub proof fn lemma_free_count_accounting(states: Seq<BitmapAllocator>, ops: Seq<AllocOp>)
    requires
        valid_history(states, ops),
    ensures
        states.last().free_count() == states[0].free_count() - net_allocations(states, ops),
    decreases ops.len(),
{
    if ops.len() > 0 {
        let n = ops.len() as int;
        assert(valid_history(states.drop_last(), ops.drop_last())) by {
            assert forall|i: int| 0 <= i < n - 1 implies allocator_step(
                states.drop_last()[i],
                states.drop_last()[i + 1],
                #[trigger] ops.drop_last()[i],
            ) by {
                assert(allocator_step(states[i], states[i + 1], ops[i]));
            }
        }
        lemma_free_count_accounting(states.drop_last(), ops.drop_last());
        assert(allocator_step(states[n - 1], states[n], ops[n - 1]));
        assert(states.drop_last().last() == states[n - 1]);
    }
}

/// A frame allocated at step `i` and not deallocated up to step `k` stays
/// allocated in every state after step `i`.
pub proof fn lemma_frame_stays_allocated(
    states: Seq<BitmapAllocator>,
    ops: Seq<AllocOp>,
    i: int,
    k: int,
    f: PhysFrame,
)
    requires
        valid_history(states, ops),
        0 <= i < k <= ops.len(),
        ops[i] == AllocOp::Alloc(Some(f)),
        forall|j: int|
            i < j < k ==> !(#[trigger] ops[j] matches AllocOp::Dealloc(g) && g.spec_number()
                == f.spec_number()),
    ensures
        !states[k].is_free(f.spec_number()),
    decreases k - i,
{
    assert(allocator_step(states[i], states[i + 1], ops[i]));
    if k > i + 1 {
        lemma_frame_stays_allocated(states, ops, i, k - 1, f);
        assert(allocator_step(states[k - 1], states[k], ops[k - 1]));
    }
}

/// No two live allocations name the same frame: a frame handed out at step
/// `i` is not handed out again at step `k` unless it was freed in between.
pub proof fn lemma_live_allocations_distinct(
    states: Seq<BitmapAllocator>,
    ops: Seq<AllocOp>,
    i: int,
    k: int,
    f: PhysFrame,
)
    requires
        valid_history(states, ops),
        0 <= i < k < ops.len(),
        ops[i] == AllocOp::Alloc(Some(f)),
        forall|j: int|
            i < j < k ==> !(#[trigger] ops[j] matches AllocOp::Dealloc(g) && g.spec_number()
                == f.spec_number()),
    ensures
        !(ops[k] matches AllocOp::Alloc(r) && r == Some(f)),
{
    lemma_frame_stays_allocated(states, ops, i, k, f);
    assert(allocator_step(states[k], states[k + 1], ops[k]));
}

/// Exhaustion is sharp: when every frame is taken, freeing one frame and
/// allocating again returns exactly that frame (first-fit reuse).
pub proof fn lemma_exhausted_free_then_alloc(
    s0: BitmapAllocator,
    s1: BitmapAllocator,
    s2: BitmapAllocator,
    f: PhysFrame,
    r: Option<PhysFrame>,
)
    requires
        s0.free_count() == 0,
        0 <= f.spec_number() < s0.total(),
        allocator_step(s0, s1, AllocOp::Dealloc(f)),
        allocator_step(s1, s2, AllocOp::Alloc(r)),
    ensures
        r matches Some(g) && g.spec_number() == f.spec_number(),
{
    s0.lemma_count_zero_no_free();
    assert(s1.free_count() == 1);
    let g = r->Some_0;
    assert(s1.is_free(g.spec_number()));
    if g.spec_number() < f.spec_number() {
        assert(s1.is_free(g.spec_number()) == s0.is_free(g.spec_number()));
    }
    if g.spec_number() > f.spec_number() {
        assert(!s1.is_free(f.spec_number()));
    }
}

/// Start of the degraded allocator's fixed window: 2 MiB, above the reserved
/// low region.
pub const BUMP_BASE: u64 = 0x200000;

/// End of the degraded allocator's fixed window: 64 MiB past its start.
pub const BUMP_LIMIT: u64 = 0x200000 + 64 * 1024 * 1024;

/// Degraded fallback allocator for when the memory map is unavailable or
/// unparsed: a monotonically increasing cursor over the fixed window
/// `[BUMP_BASE, BUMP_LIMIT)`, with no deallocation — frame reuse is traded
/// for simplicity. The bitmap allocator is the canonical design.
pub struct BumpAllocator {
    next: u64,
}

impl BumpAllocator {
    /// The next address the cursor would hand out.
    pub closed spec fn cursor(&self) -> u64 {
        self.next
    }

    /// The cursor stays frame-aligned inside or just past the window.
    pub open spec fn wf(&self) -> bool {
        &&& BUMP_BASE <= self.cursor() <= BUMP_LIMIT
        &&& self.cursor() % 4096 == 0
    }

    /// A fresh cursor at the bottom of the window.
    pub fn new() -> (r: Self)
        ensures
            r.wf(),
            r.cursor() == BUMP_BASE,
    {
        BumpAllocator { next: BUMP_BASE }
    }

    /// Hand out the frame under the cursor and advance; none when the window
    /// is spent.
    pub fn alloc_frame(&mut self) -> (r: Option<PhysFrame>)
        requires
            old(self).wf(),
        ensures
            final(self).wf(),
            r is None <==> old(self).cursor() >= BUMP_LIMIT,
            r is None ==> *final(self) == *old(self),
            r matches Some(f) ==> {
                &&& f.addr == old(self).cursor()
                &&& final(self).cursor() == old(self).cursor() + 4096
            },
    {
        if self.next >= BUMP_LIMIT {
            return None;
        }
        let frame = PhysFrame::containing_address(self.next);
        proof {
            vstd::arithmetic::div_mod::lemma_fundamental_div_mod(self.next as int, 4096);
        }
        self.next = self.next + FRAME_SIZE as u64;
        Some(frame)
    }

    /// Deallocation is a no-op in the degraded variant: the cursor never
    /// moves back and freed frames are not reused.
    pub fn dealloc_frame(&mut self, _frame: PhysFrame)
        ensures
            *final(self) == *old(self),
    {
    }

    /// Bytes left in the window.
    pub fn free_memory(&self) -> (r: u64)
        requires
            self.wf(),
        ensures
            r == BUMP_LIMIT - self.cursor(),
    {
        if self.next < BUMP_LIMIT {
            BUMP_LIMIT - self.next
        } else {
            0
        }
    }

    /// Frames left in the window.
    pub fn free_frames(&self) -> (r: usize)
        requires
            self.wf(),
        ensures
            r == (BUMP_LIMIT - self.cursor()) / 4096,
    {
        (self.free_memory() / FRAME_SIZE as u64) as usize
    }
}

} // verus!
