//! Virtual memory mapping model.
//!
//! An address space records which pages of the four-level table hierarchy are
//! mapped and which intermediate tables exist. Walking installs missing
//! intermediate tables, each consuming one physical frame from the allocator,
//! and a leaf entry pointing at a freshly allocated frame. The actual writes
//! into table memory are the hardware side of this model and happen outside
//! the library, driven by the same decisions.

use vstd::prelude::*;
use crate::physical::BitmapAllocator;

verus! {

/// Mapping failure: the frame allocator cannot supply the frames the
/// requested range needs.
#[derive(Clone, Copy, PartialEq, Eq, Structural, Debug)]
pub enum MapError {
    OutOfMemory,
}

/// One installed leaf entry: a virtual page number and the physical address
/// of the frame backing it.
#[derive(Clone, Copy, PartialEq, Eq, Structural, Debug)]
pub struct PageMapping {
    pub vpn: u64,
    pub frame_addr: u64,
}

/// The set of table indices present in a table list.
pub open spec fn table_set(s: Seq<u64>) -> Set<int> {
    Set::new(|x: int| exists|i: int| 0 <= i < s.len() && s[i] == x)
}

/// Whether `vpn` is mapped in a mapping list.
pub open spec fn mapped_in(s: Seq<PageMapping>, vpn: int) -> bool {
    exists|i: int| 0 <= i < s.len() && s[i].vpn == vpn
}

/// The mapping entry for `vpn` (meaningful when `vpn` is mapped and the list
/// has no duplicate page numbers).
pub open spec fn mapping_at(s: Seq<PageMapping>, vpn: int) -> PageMapping {
    s[choose|i: int| 0 <= i < s.len() && s[i].vpn == vpn]
}

/// Frames one page consumes when walked: the leaf frame plus one frame for
/// each intermediate table its path still misses.
pub open spec fn page_cost(t3: Set<int>, t2: Set<int>, t1: Set<int>, vpn: int) -> int {
    1 + (if t3.contains(vpn / 134217728) {
        0int
    } else {
        1int
    }) + (if t2.contains(vpn / 262144) {
        0int
    } else {
        1int
    }) + (if t1.contains(vpn / 512) {
        0int
    } else {
        1int
    })
}

/// Frames a run of `n` consecutive pages starting at `vpn` consumes,
/// accounting for the tables earlier pages of the run install.
pub open spec fn range_cost(t3: Set<int>, t2: Set<int>, t1: Set<int>, vpn: int, n: nat) -> int
    decreases n,
{
    if n == 0 {
        0
    } else {
        page_cost(t3, t2, t1, vpn) + range_cost(
            t3.insert(vpn / 134217728),
            t2.insert(vpn / 262144),
            t1.insert(vpn / 512),
            vpn + 1,
            (n - 1) as nat,
        )
    }
}

/// Pushing an index onto a table list adds exactly that index to its set.
proof fn lemma_table_set_push(s: Seq<u64>, x: u64)
    ensures
        table_set(s.push(x)) =~= table_set(s).insert(x as int),
{
    let s2 = s.push(x);
    assert forall|y: int| #[trigger] table_set(s2).contains(y) implies table_set(s).insert(
        x as int,
    ).contains(y) by {
        let i = choose|i: int| 0 <= i < s2.len() && s2[i] == y;
        if i < s.len() {
            assert(s[i] == y);
        }
    }
    assert forall|y: int| #[trigger] table_set(s).insert(x as int).contains(y) implies table_set(
        s2,
    ).contains(y) by {
        if y == x as int {
            assert(s2[s.len() as int] == y);
        } else {
            let i = choose|i: int| 0 <= i < s.len() && s[i] == y;
            assert(s2[i] == y);
        }
    }
}

/// Linear scan for a table index.
fn contains_u64(v: &Vec<u64>, x: u64) -> (r: bool)
    ensures
        r == table_set(v@).contains(x as int),
{
    let mut i: usize = 0;
    while i < v.len()
        invariant
            i <= v@.len(),
            forall|j: int| 0 <= j < i ==> v@[j] != x,
        decreases v@.len() - i,
    {
        if v[i] == x {
            return true;
        }
        i = i + 1;
    }
    proof {
        assert(!table_set(v@).contains(x as int));
    }
    false
}

/// Model of one address space: the direct physical-map offset, which
/// intermediate tables exist at each level, and the installed leaf mappings.
pub struct AddressSpace {
    phys_offset: u64,
    l3_tables: Vec<u64>,
    l2_tables: Vec<u64>,
    l1_tables: Vec<u64>,
    mappings: Vec<PageMapping>,
}

impl AddressSpace {
    /// The direct physical-map offset captured at boot.
    pub closed spec fn offset(&self) -> u64 {
        self.phys_offset
    }

    /// Level-3 tables present (indexed by bits 27 and up of the page number).
    pub closed spec fn t3(&self) -> Set<int> {
        table_set(self.l3_tables@)
    }

    /// Level-2 tables present.
    pub closed spec fn t2(&self) -> Set<int> {
        table_set(self.l2_tables@)
    }

    /// Level-1 tables present.
    pub closed spec fn t1(&self) -> Set<int> {
        table_set(self.l1_tables@)
    }

    /// The installed leaf mappings, in installation order.
    pub closed spec fn mappings(&self) -> Seq<PageMapping> {
        self.mappings@
    }

    /// Whether virtual page `vpn` is mapped.
    pub open spec fn is_mapped(&self, vpn: int) -> bool {
        mapped_in(self.mappings(), vpn)
    }

    /// Well-formedness: mapped ranges never overlap (page numbers are
    /// distinct) and every backing frame address leaves room for a page.
    pub open spec fn wf(&self) -> bool {
        &&& forall|i: int, j: int|
            0 <= i < j < self.mappings().len() ==> self.mappings()[i].vpn
                != self.mappings()[j].vpn
        &&& forall|i: int|
            0 <= i < self.mappings().len() ==> #[trigger] self.mappings()[i].frame_addr + 4096
                <= u64::MAX
    }

    /// Coupling with the frame allocator: every backing frame is allocated
    /// there, and no two mappings share a frame.
    pub open spec fn consistent_with(&self, alloc: &BitmapAllocator) -> bool {
        &&& forall|i: int|
            0 <= i < self.mappings().len() ==> !alloc.is_free(
                #[trigger] self.mappings()[i].frame_addr as int / 4096,
            )
        &&& forall|i: int, j: int|
            0 <= i < j < self.mappings().len() ==> self.mappings()[i].frame_addr
                != self.mappings()[j].frame_addr
    }

    /// A fresh address space over the boot-established direct-map offset;
    /// nothing is mapped and no tables exist yet.
    pub fn init(phys_offset: u64) -> (r: Self)
        ensures
            r.wf(),
            r.offset() == phys_offset,
            r.mappings() =~= Seq::<PageMapping>::empty(),
            r.t3() =~= Set::<int>::empty(),
            r.t2() =~= Set::<int>::empty(),
            r.t1() =~= Set::<int>::empty(),
    {
        let r = AddressSpace {
            phys_offset,
            l3_tables: Vec::new(),
            l2_tables: Vec::new(),
            l1_tables: Vec::new(),
            mappings: Vec::new(),
        };
        proof {
            assert(r.t3() =~= Set::<int>::empty());
            assert(r.t2() =~= Set::<int>::empty());
            assert(r.t1() =~= Set::<int>::empty());
        }
        r
    }

    /// Translate a physical address through the stored direct-map offset.
    pub fn phys_to_virt(&self, phys: u64) -> (r: u64)
        requires
            phys + self.offset() <= u64::MAX,
        ensures
            r == phys + self.offset(),
    {
        phys + self.phys_offset
    }

    /// Walk one page into the hierarchy: install the missing intermediate
    /// tables on its path and a leaf entry backed by a fresh frame.
    ///
    /// Succeeds exactly when the allocator holds at least the frames this
    /// page costs; on failure nothing changes.
    fn map_page(&mut self, alloc: &mut BitmapAllocator, vpn: u64) -> (r: Result<(), MapError>)
        requires
            old(self).wf(),
            old(alloc).wf(),
            old(self).consistent_with(old(alloc)),
            !old(self).is_mapped(vpn as int),
        ensures
            final(self).wf(),
            final(alloc).wf(),
            final(self).consistent_with(final(alloc)),
            final(alloc).total() == old(alloc).total(),
            final(self).offset() == old(self).offset(),
            r is Ok <==> old(alloc).free_count() >= page_cost(
                old(self).t3(),
                old(self).t2(),
                old(self).t1(),
                vpn as int,
            ),
            r is Err ==> *final(self) == *old(self) && *final(alloc) == *old(alloc),
            r is Ok ==> {
                &&& final(self).t3() =~= old(self).t3().insert(vpn as int / 134217728)
                &&& final(self).t2() =~= old(self).t2().insert(vpn as int / 262144)
                &&& final(self).t1() =~= old(self).t1().insert(vpn as int / 512)
                &&& final(self).mappings().len() == old(self).mappings().len() + 1
                &&& final(self).mappings().drop_last() =~= old(self).mappings()
                &&& final(self).mappings().last().vpn == vpn
                &&& old(alloc).is_free(final(self).mappings().last().frame_addr as int / 4096)
                &&& final(alloc).free_count() == old(alloc).free_count() - page_cost(
                    old(self).t3(),
                    old(self).t2(),
                    old(self).t1(),
                    vpn as int,
                )
            },
    {
        let p3 = vpn / 134217728;
        let p2 = vpn / 262144;
        let p1 = vpn / 512;
        let need3 = !contains_u64(&self.l3_tables, p3);
        let need2 = !contains_u64(&self.l2_tables, p2);
        let need1 = !contains_u64(&self.l1_tables, p1);
        let cost: usize = 1 + (if need3 {
            1
        } else {
            0
        }) + (if need2 {
            1
        } else {
            0
        }) + (if need1 {
            1
        } else {
            0
        });
        if alloc.free_frames() < cost {
            return Err(MapError::OutOfMemory);
        }

        // Install the missing tables; each takes one frame for its storage.
        if need3 {
            let table_frame = alloc.alloc_frame();
            proof {
                assert(table_frame is Some);
            }
            let ghost pre = self.l3_tables@;
            self.l3_tables.push(p3);
            proof {
                lemma_table_set_push(pre, p3);
            }
        }
        if need2 {
            let table_frame = alloc.alloc_frame();
            proof {
                assert(table_frame is Some);
            }
            let ghost pre = self.l2_tables@;
            self.l2_tables.push(p2);
            proof {
                lemma_table_set_push(pre, p2);
            }
        }
        if need1 {
            let table_frame = alloc.alloc_frame();
            proof {
                assert(table_frame is Some);
            }
            let ghost pre = self.l1_tables@;
            self.l1_tables.push(p1);
            proof {
                lemma_table_set_push(pre, p1);
            }
        }

        // Install the leaf entry on a fresh frame.
        let leaf = alloc.alloc_frame();
        match leaf {
            Some(frame) => {
                proof {
                    alloc.lemma_frame_addresses_fit();
                    vstd::arithmetic::mul::lemma_mul_inequality(
                        frame.spec_number() + 1,
                        alloc.total(),
                        4096,
                    );
                    assert(frame.addr + 4096 <= u64::MAX);
                }
                self.mappings.push(PageMapping { vpn, frame_addr: frame.addr });
                proof {
                    if !need3 {
                        assert(self.t3() =~= old(self).t3().insert(vpn as int / 134217728));
                    }
                    if !need2 {
                        assert(self.t2() =~= old(self).t2().insert(vpn as int / 262144));
                    }
                    if !need1 {
                        assert(self.t1() =~= old(self).t1().insert(vpn as int / 512));
                    }
                    assert(self.mappings().drop_last() =~= old(self).mappings());
                }
                Ok(())
            },
            None => {
                proof {
                    assert(false);
                }
                Err(MapError::OutOfMemory)
            },
        }
    }

    /// Try to map the virtual range `[start, start + size)` page by page.
    ///
    /// Succeeds exactly when the allocator holds the frames the whole range
    /// costs. A zero-sized range succeeds and changes nothing. On failure the
    /// pages already installed by this call stay installed (no rollback) and
    /// the error names the exhausted allocator.
    pub fn try_map_range(
        &mut self,
        alloc: &mut BitmapAllocator,
        start: u64,
        size: u64,
    ) -> (r: Result<(), MapError>)
        requires
            old(self).wf(),
            old(alloc).wf(),
            old(self).consistent_with(old(alloc)),
            start % 4096 == 0,
            start + size <= u64::MAX,
            forall|v: int|
                start as int / 4096 <= v < start as int / 4096 + spec_page_count(size as int)
                    ==> !old(self).is_mapped(v),
        ensures
            final(self).wf(),
            final(alloc).wf(),
            final(self).consistent_with(final(alloc)),
            final(alloc).total() == old(alloc).total(),
            final(self).offset() == old(self).offset(),
            r is Ok <==> old(alloc).free_count() >= range_cost(
                old(self).t3(),
                old(self).t2(),
                old(self).t1(),
                start as int / 4096,
                spec_page_count(size as int) as nat,
            ),
            r is Ok ==> {
                &&& forall|v: int|
                    final(self).is_mapped(v) == (old(self).is_mapped(v) || (start as int / 4096
                        <= v < start as int / 4096 + spec_page_count(size as int)))
                &&& final(alloc).free_count() == old(alloc).free_count() - range_cost(
                    old(self).t3(),
                    old(self).t2(),
                    old(self).t1(),
                    start as int / 4096,
                    spec_page_count(size as int) as nat,
                )
            },
            r is Err ==> exists|k: int|
                0 <= k < spec_page_count(size as int) && #[trigger] maps_prefix_of_range(
                    *old(self),
                    *final(self),
                    start as int / 4096,
                    k,
                ),
    {
        let vpn0 = start / 4096;
        let n: u64 = size / 4096 + if size % 4096 != 0 {
            1
        } else {
            0
        };
        let ghost gn = spec_page_count(size as int);
        proof {
            assert(gn == n);
            assert(vpn0 + n <= u64::MAX) by {
                vstd::arithmetic::div_mod::lemma_fundamental_div_mod(start as int, 4096);
                vstd::arithmetic::div_mod::lemma_fundamental_div_mod(size as int, 4096);
            }
        }
        let mut i: u64 = 0;
        while i < n
            invariant
                self.wf(),
                alloc.wf(),
                self.consistent_with(alloc),
                alloc.total() == old(alloc).total(),
                self.offset() == old(self).offset(),
                0 <= i <= n,
                vpn0 == start as int / 4096,
                gn == n,
                gn == spec_page_count(size as int),
                vpn0 + n <= u64::MAX,
                forall|v: int|
                    vpn0 <= v < vpn0 + n ==> !old(self).is_mapped(v),
                forall|v: int|
                    self.is_mapped(v) == (old(self).is_mapped(v) || (vpn0 <= v < vpn0 + i)),
                alloc.free_count() - range_cost(
                    self.t3(),
                    self.t2(),
                    self.t1(),
                    vpn0 + i,
                    (n - i) as nat,
                ) == old(alloc).free_count() - range_cost(
                    old(self).t3(),
                    old(self).t2(),
                    old(self).t1(),
                    vpn0 as int,
                    n as nat,
                ),
            decreases n - i,
        {
            let ghost pre_maps = self.mappings();
            let ghost pre_t3 = self.t3();
            let ghost pre_t2 = self.t2();
            let ghost pre_t1 = self.t1();
            let ghost pre_count = alloc.free_count();
            let vpn = vpn0 + i;
            match self.map_page(alloc, vpn) {
                Ok(()) => {
                    proof {
                        lemma_mapped_after_push(pre_maps, self.mappings());
                        assert(range_cost(pre_t3, pre_t2, pre_t1, vpn as int, (n - i) as nat)
                            == page_cost(pre_t3, pre_t2, pre_t1, vpn as int) + range_cost(
                            pre_t3.insert(vpn as int / 134217728),
                            pre_t2.insert(vpn as int / 262144),
                            pre_t1.insert(vpn as int / 512),
                            vpn + 1,
                            (n - i - 1) as nat,
                        ));
                        assert(self.t3() == pre_t3.insert(vpn as int / 134217728));
                        assert(self.t2() == pre_t2.insert(vpn as int / 262144));
                        assert(self.t1() == pre_t1.insert(vpn as int / 512));
                    }
                    i = i + 1;
                },
                Err(e) => {
                    proof {
                        // The page cost is a lower bound on the remaining
                        // range cost, so the whole range was unaffordable.
                        let t3i = pre_t3.insert(vpn as int / 134217728);
                        let t2i = pre_t2.insert(vpn as int / 262144);
                        let t1i = pre_t1.insert(vpn as int / 512);
                        assert(range_cost(pre_t3, pre_t2, pre_t1, vpn as int, (n - i) as nat)
                            == page_cost(pre_t3, pre_t2, pre_t1, vpn as int) + range_cost(
                            t3i,
                            t2i,
                            t1i,
                            vpn + 1,
                            (n - i - 1) as nat,
                        ));
                        lemma_range_cost_nonneg(t3i, t2i, t1i, vpn + 1, (n - i - 1) as nat);
                        assert(old(alloc).free_count() < range_cost(
                            old(self).t3(),
                            old(self).t2(),
                            old(self).t1(),
                            start as int / 4096,
                            spec_page_count(size as int) as nat,
                        ));
                        assert(maps_prefix_of_range(
                            *old(self),
                            *self,
                            start as int / 4096,
                            i as int,
                        ));
                        assert(exists|k: int|
                            0 <= k < spec_page_count(size as int) && #[trigger] maps_prefix_of_range(
                                *old(self),
                                *self,
                                start as int / 4096,
                                k,
                            ));
                    }
                    return Err(e);
                },
            }
        }
        Ok(())
    }

    /// Map the virtual range `[start, start + size)` as writable kernel
    /// memory; the caller has checked that the allocator can afford it.
    pub fn map_range(&mut self, alloc: &mut BitmapAllocator, start: u64, size: u64)
        requires
            old(self).wf(),
            old(alloc).wf(),
            old(self).consistent_with(old(alloc)),
            start % 4096 == 0,
            start + size <= u64::MAX,
            forall|v: int|
                start as int / 4096 <= v < start as int / 4096 + spec_page_count(size as int)
                    ==> !old(self).is_mapped(v),
            old(alloc).free_count() >= range_cost(
                old(self).t3(),
                old(self).t2(),
                old(self).t1(),
                start as int / 4096,
                spec_page_count(size as int) as nat,
            ),
        ensures
            final(self).wf(),
            final(alloc).wf(),
            final(self).consistent_with(final(alloc)),
            final(alloc).total() == old(alloc).total(),
            final(self).offset() == old(self).offset(),
            forall|v: int|
                final(self).is_mapped(v) == (old(self).is_mapped(v) || (start as int / 4096 <= v
                    < start as int / 4096 + spec_page_count(size as int))),
    {
        let r = self.try_map_range(alloc, start, size);
        proof {
            assert(r is Ok);
        }
    }

    /// What a load or store at `vaddr` reaches: the backing frame's address
    /// plus the offset inside the page, or nothing when the page is unmapped
    /// (the access then faults).
    pub open spec fn spec_translate(&self, vaddr: u64) -> Option<u64> {
        if self.is_mapped(vaddr as int / 4096) {
            Some(
                (mapping_at(self.mappings(), vaddr as int / 4096).frame_addr + (vaddr as int
                    % 4096)) as u64,
            )
        } else {
            None
        }
    }

    /// Exec mirror of [`AddressSpace::spec_translate`].
    pub fn translate(&self, vaddr: u64) -> (r: Option<u64>)
        requires
            self.wf(),
        ensures
            r == self.spec_translate(vaddr),
    {
        let vpn = vaddr / 4096;
        let offset = vaddr % 4096;
        let mut i: usize = 0;
        while i < self.mappings.len()
            invariant
                i <= self.mappings().len(),
                self.wf(),
                vpn == vaddr as int / 4096,
                offset == vaddr as int % 4096,
                forall|j: int| 0 <= j < i ==> self.mappings()[j].vpn != vpn,
            decreases self.mappings().len() - i,
        {
            let m = self.mappings[i];
            if m.vpn == vpn {
                proof {
                    assert(mapped_in(self.mappings(), vpn as int));
                    let c = choose|c: int|
                        0 <= c < self.mappings().len() && self.mappings()[c].vpn == vpn;
                    assert(c == i);
                }
                return Some(m.frame_addr + offset);
            }
            i = i + 1;
        }
        proof {
            assert(!mapped_in(self.mappings(), vpn as int));
        }
        None
    }
}

/// Whether `post` extends `pre` by exactly the first `k` pages at `vpn0`.
pub open spec fn maps_prefix_of_range(
    pre: AddressSpace,
    post: AddressSpace,
    vpn0: int,
    k: int,
) -> bool {
    forall|v: int| post.is_mapped(v) == (pre.is_mapped(v) || (vpn0 <= v < vpn0 + k))
}

/// Number of pages that cover `size` bytes.
pub open spec fn spec_page_count(size: int) -> int {
    (size + 4095) / 4096
}

/// A range cost is never negative.
proof fn lemma_range_cost_nonneg(t3: Set<int>, t2: Set<int>, t1: Set<int>, vpn: int, n: nat)
    ensures
        range_cost(t3, t2, t1, vpn, n) >= 0,
    decreases n,
{
    if n > 0 {
        lemma_range_cost_nonneg(
            t3.insert(vpn / 134217728),
            t2.insert(vpn / 262144),
            t1.insert(vpn / 512),
            vpn + 1,
            (n - 1) as nat,
        );
    }
}

/// Appending one mapping extends the mapped set by exactly its page number.
proof fn lemma_mapped_after_push(s1: Seq<PageMapping>, s2: Seq<PageMapping>)
    requires
        s2.len() == s1.len() + 1,
        s2.drop_last() =~= s1,
    ensures
        forall|v: int| mapped_in(s2, v) == (mapped_in(s1, v) || s2.last().vpn == v),
{
    assert forall|v: int| mapped_in(s2, v) == (mapped_in(s1, v) || s2.last().vpn == v) by {
        if mapped_in(s2, v) {
            let i = choose|i: int| 0 <= i < s2.len() && s2[i].vpn == v;
            if i < s1.len() {
                assert(s1[i] == s2[i]);
                assert(mapped_in(s1, v));
            }
        }
        if mapped_in(s1, v) {
            let i = choose|i: int| 0 <= i < s1.len() && s1[i].vpn == v;
            assert(s2[i] == s1[i]);
            assert(mapped_in(s2, v));
        }
        if s2.last().vpn == v {
            assert(s2[s2.len() - 1].vpn == v);
            assert(mapped_in(s2, v));
        }
    }
}

/// After a successful range mapping, a load or store through any byte of
/// `[start, start + size)` reaches backed memory: its translation is defined.
pub proof fn lemma_mapped_range_translates(space: &AddressSpace, start: u64, size: u64)
    requires
        space.wf(),
        start % 4096 == 0,
        start + size <= u64::MAX,
        forall|v: int|
            start as int / 4096 <= v < start as int / 4096 + spec_page_count(size as int)
                ==> space.is_mapped(v),
    ensures
        forall|a: u64| start <= a < start + size ==> (#[trigger] space.spec_translate(a)) is Some,
{
    let vpn0 = start as int / 4096;
    let n = spec_page_count(size as int);
    assert forall|a: u64| start <= a < start + size implies (#[trigger] space.spec_translate(
        a,
    )) is Some by {
        let v = a as int / 4096;
        vstd::arithmetic::div_mod::lemma_fundamental_div_mod(start as int, 4096);
        vstd::arithmetic::div_mod::lemma_fundamental_div_mod(size as int, 4096);
        vstd::arithmetic::div_mod::lemma_div_is_ordered(start as int, a as int, 4096);
        assert(a as int <= start + n * 4096 - 1);
        vstd::arithmetic::div_mod::lemma_div_is_ordered(a as int, start + n * 4096 - 1, 4096);
        vstd::arithmetic::div_mod::lemma_fundamental_div_mod_converse(
            start + n * 4096 - 1,
            4096,
            vpn0 + n - 1,
            4095,
        );
        assert(vpn0 <= v < vpn0 + n);
        assert(space.is_mapped(v));
    }
}

} // verus!
