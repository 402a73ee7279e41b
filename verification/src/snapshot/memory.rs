//! The memory regions of a process, and which of them a snapshot keeps.
use crate::process::info::{address_after, in_order, next_address, RegionInfo};
use crate::util::win32::{
    MEM_COMMIT, MEM_IMAGE, MEM_MAPPED, MEM_PRIVATE, PAGE_EXECUTE_READ, PAGE_GUARD, PAGE_NOACCESS,
    PAGE_READONLY,
};
use vstd::prelude::*;

verus! {

/// A snapshot of a single contiguous virtual memory region.
#[derive(Debug)]
pub struct MemoryRegion {
    /// Start address in the source process's virtual address space.
    pub base_address: u64,
    /// Full size of the region in bytes.
    pub size: usize,
    /// Page-protection flags.
    pub protect: u32,
    /// Private, mapped or image memory.
    pub region_type: u32,
    /// The bytes read from the process; a partial read leaves fewer than `size`.
    pub data: Vec<u8>,
}

/// A memory region with its bytes as a sequence.
#[verifier::ext_equal]
pub struct RegionView {
    pub base_address: u64,
    pub size: usize,
    pub protect: u32,
    pub region_type: u32,
    pub data: Seq<u8>,
}

impl View for MemoryRegion {
    type V = RegionView;

    open spec fn view(&self) -> RegionView {
        RegionView {
            base_address: self.base_address,
            size: self.size,
            protect: self.protect,
            region_type: self.region_type,
            data: self.data@,
        }
    }
}

/// The name of a region type.
pub open spec fn region_type_name(region_type: u32) -> Seq<char> {
    if region_type == MEM_IMAGE {
        "image"@
    } else if region_type == MEM_PRIVATE {
        "private"@
    } else if region_type == MEM_MAPPED {
        "mapped"@
    } else {
        "?"@
    }
}

/// The name of a region type, for messages.
pub fn type_str(region_type: u32) -> (s: &'static str)
    ensures
        s@ == region_type_name(region_type),
{
    if region_type == MEM_IMAGE {
        "image"
    } else if region_type == MEM_PRIVATE {
        "private"
    } else if region_type == MEM_MAPPED {
        "mapped"
    } else {
        "?"
    }
}

/// The name of a protection without modifiers.
pub open spec fn base_protection_name(base: u32) -> Seq<char> {
    if base == 0x01 {
        "NOACCESS"@
    } else if base == 0x02 {
        "READONLY"@
    } else if base == 0x04 {
        "READWRITE"@
    } else if base == 0x08 {
        "WRITECOPY"@
    } else if base == 0x10 {
        "EXECUTE"@
    } else if base == 0x20 {
        "EXECUTE_READ"@
    } else if base == 0x40 {
        "EXECUTE_READWRITE"@
    } else if base == 0x80 {
        "EXECUTE_WRITECOPY"@
    } else {
        "?"@
    }
}

/// `name` where the protection has the modifier `bit`, else nothing.
pub open spec fn modifier_name(protect: u32, bit: u32, name: Seq<char>) -> Seq<char> {
    if protect & bit != 0 {
        name
    } else {
        Seq::empty()
    }
}

/// The name of a protection: the base protection, then its modifiers.
pub open spec fn protection_name(protect: u32) -> Seq<char> {
    base_protection_name(protect & 0xFF) + modifier_name(protect, 0x100, "+GUARD"@)
        + modifier_name(protect, 0x200, "+NOCACHE"@) + modifier_name(
        protect,
        0x400,
        "+WRITECOMBINE"@,
    )
}

/// The name of a protection, for messages.
pub fn prot_str(protect: u32) -> (s: String)
    ensures
        s@ == protection_name(protect),
{
    let base: u32 = protect & 0xFF;
    let base_name = match base {
        0x01 => "NOACCESS",
        0x02 => "READONLY",
        0x04 => "READWRITE",
        0x08 => "WRITECOPY",
        0x10 => "EXECUTE",
        0x20 => "EXECUTE_READ",
        0x40 => "EXECUTE_READWRITE",
        0x80 => "EXECUTE_WRITECOPY",
        _ => "?",
    };
    let mut s = base_name.to_string();
    assert(s@ == base_protection_name(protect & 0xFF));
    if protect & 0x100 != 0 {
        s.append("+GUARD");
    }
    if protect & 0x200 != 0 {
        s.append("+NOCACHE");
    }
    if protect & 0x400 != 0 {
        s.append("+WRITECOMBINE");
    }
    assert(s@ =~= protection_name(protect));
    s
}

/// What a dump does with a region.
#[derive(Debug, PartialEq, Eq, Clone, Copy, Structural)]
pub enum RegionClass {
    /// Nothing is there to be kept.
    NotCommitted,
    /// Skipped: cannot be read.
    NoAccess,
    /// Skipped: reading would trip the guard.
    Guard,
    /// Skipped: the loader maps the same bytes from disk.
    ImageReadOnly,
    /// Read and kept.
    Kept,
}

pub open spec fn class_of(region: RegionInfo) -> RegionClass {
    if region.state != MEM_COMMIT {
        RegionClass::NotCommitted
    } else if region.protect == PAGE_NOACCESS {
        RegionClass::NoAccess
    } else if region.protect & PAGE_GUARD != 0 {
        RegionClass::Guard
    } else if region.region_type == MEM_IMAGE && (region.protect == PAGE_READONLY || region.protect
        == PAGE_EXECUTE_READ) {
        RegionClass::ImageReadOnly
    } else {
        RegionClass::Kept
    }
}

/// Decides what a dump does with a region.
pub fn classify(region: &RegionInfo) -> (c: RegionClass)
    ensures
        c == class_of(*region),
{
    if region.state != MEM_COMMIT {
        RegionClass::NotCommitted
    } else if region.protect == PAGE_NOACCESS {
        RegionClass::NoAccess
    } else if region.protect & PAGE_GUARD != 0 {
        RegionClass::Guard
    } else if region.region_type == MEM_IMAGE && (region.protect == PAGE_READONLY || region.protect
        == PAGE_EXECUTE_READ) {
        RegionClass::ImageReadOnly
    } else {
        RegionClass::Kept
    }
}

/// How much of a region a read brought.
#[derive(Debug, PartialEq, Eq, Clone, Copy, Structural)]
pub enum ReadOutcome {
    Full,
    /// Some bytes, which are kept.
    Partial,
    /// None: the region is dropped.
    Failed,
}

pub open spec fn outcome_of(size: usize, bytes_read: usize) -> ReadOutcome {
    if bytes_read == size {
        ReadOutcome::Full
    } else if bytes_read > 0 {
        ReadOutcome::Partial
    } else {
        ReadOutcome::Failed
    }
}

/// What is kept of a region after a read of `bytes_read` bytes into `buf`.
pub open spec fn captured(region: RegionInfo, buf: Seq<u8>, bytes_read: usize) -> Option<
    RegionView,
> {
    if outcome_of(region.size, bytes_read) is Failed {
        None
    } else {
        Some(
            RegionView {
                base_address: region.base_address,
                size: region.size,
                protect: region.protect,
                region_type: region.region_type,
                data: if bytes_read < buf.len() {
                    buf.take(bytes_read as int)
                } else {
                    buf
                },
            },
        )
    }
}

/// What the dump of a process asks for next.
#[derive(Debug, PartialEq, Eq, Clone, Copy, Structural)]
pub enum DumpAction {
    /// Describe the region at this address.
    Query { address: u64 },
    /// Read this many bytes from this address.
    Read { base_address: u64, size: usize },
    Finish,
}

/// A walk over the address space of a process that reads every region worth
/// keeping.
pub struct MemoryDump {
    /// Where the next region is looked for.
    pub address: u64,
    /// There is no next region.
    pub exhausted: bool,
    /// The region whose bytes are awaited.
    pub pending: Option<RegionInfo>,
    pub regions: Vec<MemoryRegion>,
    pub skipped_noaccess: u32,
    pub skipped_guard: u32,
    pub skipped_image_ro: u32,
    pub read_partial: u32,
    pub read_failed: u32,
}

/// A dump, with its regions as a sequence and its counters unbounded.
#[verifier::ext_equal]
pub struct DumpView {
    pub address: u64,
    pub exhausted: bool,
    pub pending: Option<RegionInfo>,
    pub regions: Seq<RegionView>,
    pub skipped_noaccess: nat,
    pub skipped_guard: nat,
    pub skipped_image_ro: nat,
    pub read_partial: nat,
    pub read_failed: nat,
}

impl DumpView {
    /// A dump before its first step.
    pub open spec fn start() -> DumpView {
        DumpView {
            address: 0,
            exhausted: false,
            pending: None,
            regions: Seq::empty(),
            skipped_noaccess: 0,
            skipped_guard: 0,
            skipped_image_ro: 0,
            read_partial: 0,
            read_failed: 0,
        }
    }

    pub open spec fn action(self) -> DumpAction {
        match self.pending {
            Some(region) => DumpAction::Read {
                base_address: region.base_address,
                size: region.size,
            },
            None => if self.exhausted {
                DumpAction::Finish
            } else {
                DumpAction::Query { address: self.address }
            },
        }
    }

    /// The dump once the region at its address is known.
    pub open spec fn after_query(self, found: Option<RegionInfo>) -> DumpView {
        match found {
            None => DumpView { exhausted: true, ..self },
            Some(region) => {
                let next = DumpView {
                    address: address_after(region),
                    exhausted: address_after(region) == 0,
                    ..self
                };
                match class_of(region) {
                    RegionClass::NotCommitted => next,
                    RegionClass::NoAccess => DumpView {
                        skipped_noaccess: self.skipped_noaccess + 1,
                        ..next
                    },
                    RegionClass::Guard => DumpView {
                        skipped_guard: self.skipped_guard + 1,
                        ..next
                    },
                    RegionClass::ImageReadOnly => DumpView {
                        skipped_image_ro: self.skipped_image_ro + 1,
                        ..next
                    },
                    RegionClass::Kept => DumpView { pending: Some(region), ..next },
                }
            },
        }
    }

    /// The dump once `bytes_read` bytes of the awaited region were read into
    /// `buf`.
    pub open spec fn after_read(self, buf: Seq<u8>, bytes_read: usize) -> DumpView {
        let region = self.pending.unwrap();
        let kept = match captured(region, buf, bytes_read) {
            Some(r) => DumpView { pending: None, regions: self.regions.push(r), ..self },
            None => DumpView { pending: None, ..self },
        };
        match outcome_of(region.size, bytes_read) {
            ReadOutcome::Full => kept,
            ReadOutcome::Partial => DumpView { read_partial: self.read_partial + 1, ..kept },
            ReadOutcome::Failed => DumpView { read_failed: self.read_failed + 1, ..kept },
        }
    }
}

impl View for MemoryDump {
    type V = DumpView;

    open spec fn view(&self) -> DumpView {
        DumpView {
            address: self.address,
            exhausted: self.exhausted,
            pending: self.pending,
            regions: self.regions@.map_values(|r: MemoryRegion| r@),
            skipped_noaccess: self.skipped_noaccess as nat,
            skipped_guard: self.skipped_guard as nat,
            skipped_image_ro: self.skipped_image_ro as nat,
            read_partial: self.read_partial as nat,
            read_failed: self.read_failed as nat,
        }
    }
}

impl MemoryDump {
    /// The counter that the region found raises, if any, can still be raised.
    pub open spec fn room_for_query(self, found: Option<RegionInfo>) -> bool {
        found matches Some(region) ==> match class_of(region) {
            RegionClass::NoAccess => self.skipped_noaccess < u32::MAX,
            RegionClass::Guard => self.skipped_guard < u32::MAX,
            RegionClass::ImageReadOnly => self.skipped_image_ro < u32::MAX,
            RegionClass::NotCommitted | RegionClass::Kept => true,
        }
    }

    /// The counter that a read of `bytes_read` bytes raises, if any, can still
    /// be raised.
    pub open spec fn room_for_read(self, bytes_read: usize) -> bool {
        match outcome_of(self.pending.unwrap().size, bytes_read) {
            ReadOutcome::Full => true,
            ReadOutcome::Partial => self.read_partial < u32::MAX,
            ReadOutcome::Failed => self.read_failed < u32::MAX,
        }
    }

    /// Every counter can still be raised.
    pub open spec fn room(self) -> bool {
        &&& self.skipped_noaccess < u32::MAX
        &&& self.skipped_guard < u32::MAX
        &&& self.skipped_image_ro < u32::MAX
        &&& self.read_partial < u32::MAX
        &&& self.read_failed < u32::MAX
    }

    /// A dump before its first step.
    pub fn new() -> (d: MemoryDump)
        ensures
            d@ == DumpView::start(),
    {
        let d = MemoryDump {
            address: 0,
            exhausted: false,
            pending: None,
            regions: Vec::new(),
            skipped_noaccess: 0,
            skipped_guard: 0,
            skipped_image_ro: 0,
            read_partial: 0,
            read_failed: 0,
        };
        assert(d@ =~= DumpView::start());
        d
    }

    /// Whether every counter can still be raised, which is enough for any step.
    pub fn has_room(&self) -> (r: bool)
        ensures
            r == self.room(),
            r ==> forall|found: Option<RegionInfo>| #[trigger] self.room_for_query(found),
            r ==> forall|bytes_read: usize| #[trigger] self.room_for_read(bytes_read),
    {
        self.skipped_noaccess < u32::MAX && self.skipped_guard < u32::MAX && self.skipped_image_ro
            < u32::MAX && self.read_partial < u32::MAX && self.read_failed < u32::MAX
    }

    /// What to do next.
    pub fn action(&self) -> (a: DumpAction)
        ensures
            a == self@.action(),
    {
        match self.pending {
            Some(region) => DumpAction::Read {
                base_address: region.base_address,
                size: region.size,
            },
            None => if self.exhausted {
                DumpAction::Finish
            } else {
                DumpAction::Query { address: self.address }
            },
        }
    }

    /// Takes the region found at the queried address, or `None` where there is
    /// no region any more.
    pub fn on_query(&mut self, found: Option<RegionInfo>)
        requires
            old(self)@.action() is Query,
            old(self).room_for_query(found),
        ensures
            final(self)@ == old(self)@.after_query(found),
    {
        match found {
            None => {
                self.exhausted = true;
            },
            Some(region) => {
                self.address = next_address(&region);
                self.exhausted = self.address == 0;
                match classify(&region) {
                    RegionClass::NotCommitted => {},
                    RegionClass::NoAccess => {
                        self.skipped_noaccess = self.skipped_noaccess + 1;
                    },
                    RegionClass::Guard => {
                        self.skipped_guard = self.skipped_guard + 1;
                    },
                    RegionClass::ImageReadOnly => {
                        self.skipped_image_ro = self.skipped_image_ro + 1;
                    },
                    RegionClass::Kept => {
                        self.pending = Some(region);
                    },
                }
            },
        }
    }

    /// Takes the bytes of the awaited region: the first `bytes_read` of `buf`.
    pub fn on_read(&mut self, buf: Vec<u8>, bytes_read: usize) -> (outcome: ReadOutcome)
        requires
            old(self)@.action() matches DumpAction::Read { size, .. } && buf@.len() == size,
            old(self).room_for_read(bytes_read),
        ensures
            final(self)@ == old(self)@.after_read(buf@, bytes_read),
            outcome == outcome_of(old(self).pending.unwrap().size, bytes_read),
    {
        let ghost before = self@;
        let ghost bytes = buf@;
        let mut data = buf;
        let region = self.pending.unwrap();
        self.pending = None;
        if bytes_read == region.size {
            self.regions.push(
                MemoryRegion {
                    base_address: region.base_address,
                    size: region.size,
                    protect: region.protect,
                    region_type: region.region_type,
                    data,
                },
            );
            assert(self@ =~= before.after_read(bytes, bytes_read));
            ReadOutcome::Full
        } else if bytes_read > 0 {
            self.read_partial = self.read_partial + 1;
            data.truncate(bytes_read);
            self.regions.push(
                MemoryRegion {
                    base_address: region.base_address,
                    size: region.size,
                    protect: region.protect,
                    region_type: region.region_type,
                    data,
                },
            );
            assert(self@ =~= before.after_read(bytes, bytes_read));
            ReadOutcome::Partial
        } else {
            self.read_failed = self.read_failed + 1;
            assert(self@ =~= before.after_read(bytes, bytes_read));
            ReadOutcome::Failed
        }
    }
}

/// A region that a dump came upon, with what a read of it brings.
pub struct Found {
    pub region: RegionInfo,
    pub buf: Seq<u8>,
    pub bytes_read: usize,
}

impl Found {
    /// What a dump keeps of it.
    pub open spec fn kept(self) -> Option<RegionView> {
        if class_of(self.region) is Kept {
            captured(self.region, self.buf, self.bytes_read)
        } else {
            None
        }
    }

    /// It is read, with this outcome.
    pub open spec fn is_read(self, outcome: ReadOutcome) -> bool {
        class_of(self.region) is Kept && outcome_of(self.region.size, self.bytes_read) == outcome
    }
}

/// The dump after coming upon these regions.
pub open spec fn dump_of(found: Seq<Found>) -> DumpView
    decreases found.len(),
{
    if found.len() == 0 {
        DumpView::start()
    } else {
        let last = found.last();
        let queried = dump_of(found.drop_last()).after_query(Some(last.region));
        if class_of(last.region) is Kept {
            queried.after_read(last.buf, last.bytes_read)
        } else {
            queried
        }
    }
}

/// A dump keeps, in order, the committed regions that are neither inaccessible
/// nor guarded nor read-only image pages, and counts all others by the reason.
pub proof fn dump_keeps_and_counts(found: Seq<Found>)
    ensures
        dump_of(found).pending is None,
        dump_of(found).regions == found.filter_map(|f: Found| f.kept()),
        dump_of(found).skipped_noaccess == found.filter(
            |f: Found| class_of(f.region) is NoAccess,
        ).len(),
        dump_of(found).skipped_guard == found.filter(
            |f: Found| class_of(f.region) is Guard,
        ).len(),
        dump_of(found).skipped_image_ro == found.filter(
            |f: Found| class_of(f.region) is ImageReadOnly,
        ).len(),
        dump_of(found).read_partial == found.filter(
            |f: Found| f.is_read(ReadOutcome::Partial),
        ).len(),
        dump_of(found).read_failed == found.filter(
            |f: Found| f.is_read(ReadOutcome::Failed),
        ).len(),
    decreases found.len(),
{
    reveal(Seq::filter);
    if found.len() > 0 {
        dump_keeps_and_counts(found.drop_last());
    }
}

/// Every committed region is either kept or counted under exactly one reason,
/// and a partial read is kept.
pub proof fn dump_accounts_for_every_region(found: Seq<Found>)
    ensures
        dump_of(found).regions.len() + dump_of(found).skipped_noaccess + dump_of(
            found,
        ).skipped_guard + dump_of(found).skipped_image_ro + dump_of(found).read_failed
            == found.filter(|f: Found| f.region.state == MEM_COMMIT).len(),
        dump_of(found).read_partial <= dump_of(found).regions.len(),
    decreases found.len(),
{
    reveal(Seq::filter);
    if found.len() > 0 {
        dump_accounts_for_every_region(found.drop_last());
        dump_keeps_and_counts(found.drop_last());
    }
}

/// What a dump keeps was neither inaccessible nor guarded nor a read-only
/// image page, and holds no more bytes than the region has.
pub proof fn dumped_regions_were_readable(found: Seq<Found>)
    requires
        forall|i: int|
            0 <= i < found.len() ==> (#[trigger] found[i]).buf.len() == found[i].region.size,
    ensures
        forall|i: int|
            0 <= i < dump_of(found).regions.len() ==> {
                let r = #[trigger] dump_of(found).regions[i];
                &&& r.data.len() <= r.size
                &&& r.protect != PAGE_NOACCESS
                &&& r.protect & PAGE_GUARD == 0
                &&& !(r.region_type == MEM_IMAGE && (r.protect == PAGE_READONLY || r.protect
                    == PAGE_EXECUTE_READ))
            },
    decreases found.len(),
{
    if found.len() > 0 {
        let before = found.drop_last();
        assert forall|i: int| 0 <= i < before.len() implies (#[trigger] before[i]).buf.len()
            == before[i].region.size by {
            assert(before[i] == found[i]);
        }
        dumped_regions_were_readable(before);
        dump_keeps_and_counts(before);
        assert(found[found.len() - 1].buf.len() == found.last().region.size);
    }
}

/// The bytes that the regions hold, added up.
pub open spec fn raw_bytes(regions: Seq<RegionView>) -> nat
    decreases regions.len(),
{
    if regions.len() == 0 {
        0
    } else {
        raw_bytes(regions.drop_last()) + regions.last().data.len()
    }
}

/// A dump of regions that follow one another in an address space holds no more
/// bytes than the address space.
pub proof fn dump_of_regions_in_order_fits(found: Seq<Found>, end: int)
    requires
        in_order(found.map_values(|f: Found| f.region), end),
        forall|i: int|
            0 <= i < found.len() ==> (#[trigger] found[i]).buf.len() == found[i].region.size,
    ensures
        raw_bytes(dump_of(found).regions) <= end,
    decreases found.len(),
{
    if found.len() > 0 {
        let before = found.drop_last();
        let regions = found.map_values(|f: Found| f.region);
        assert forall|i: int| 0 <= i < before.len() implies (#[trigger] before[i]).buf.len()
            == before[i].region.size by {
            assert(before[i] == found[i]);
        }
        assert(before.map_values(|f: Found| f.region) =~= regions.drop_last());
        dump_of_regions_in_order_fits(before, regions.last().base_address as int);
        dump_keeps_and_counts(before);
        assert(found[found.len() - 1].buf.len() == found.last().region.size);
        let rest = dump_of(before).regions;
        if found.last().kept() is Some {
            assert(dump_of(found).regions.drop_last() =~= rest);
        }
    }
}

/// The numbers reported of a dump.
#[derive(Debug, PartialEq, Eq, Clone, Copy, Structural)]
pub struct RegionStats {
    pub region_count: usize,
    pub image_count: usize,
    pub private_count: usize,
    pub mapped_count: usize,
    pub raw_bytes: u64,
}

/// The regions of the type `region_type`.
pub open spec fn of_type(regions: Seq<RegionView>, region_type: u32) -> Seq<RegionView> {
    regions.filter(|r: RegionView| r.region_type == region_type)
}

proof fn lemma_raw_bytes_prefix(regions: Seq<RegionView>, i: int)
    requires
        0 <= i <= regions.len(),
    ensures
        raw_bytes(regions.take(i)) <= raw_bytes(regions),
    decreases regions.len(),
{
    if i == regions.len() {
        assert(regions.take(i) =~= regions);
    } else {
        lemma_raw_bytes_prefix(regions.drop_last(), i);
        assert(regions.drop_last().take(i) =~= regions.take(i));
    }
}

/// Adds up the bytes that the regions hold. `None` stands for a sum that does
/// not fit in 64 bits.
pub fn total_raw_bytes(regions: &[MemoryRegion]) -> (total: Option<u64>)
    ensures
        match total {
            Some(n) => n == raw_bytes(regions@.map_values(|r: MemoryRegion| r@)),
            None => raw_bytes(regions@.map_values(|r: MemoryRegion| r@)) > u64::MAX,
        },
{
    let ghost all = regions@.map_values(|r: MemoryRegion| r@);
    let mut total: u64 = 0;
    assert(all.take(0) =~= Seq::empty());
    for i in 0..regions.len()
        invariant
            all == regions@.map_values(|r: MemoryRegion| r@),
            total == raw_bytes(all.take(i as int)),
    {
        assert(all.take(i + 1).drop_last() =~= all.take(i as int));
        proof {
            lemma_raw_bytes_prefix(all, i + 1);
        }
        match total.checked_add(regions[i].data.len() as u64) {
            Some(sum) => {
                total = sum;
            },
            None => {
                return None;
            },
        }
    }
    assert(all.take(regions.len() as int) =~= all);
    Some(total)
}

/// Counts the regions of a dump by type, and their bytes.
pub fn region_stats(regions: &[MemoryRegion]) -> (stats: RegionStats)
    requires
        raw_bytes(regions@.map_values(|r: MemoryRegion| r@)) <= u64::MAX,
    ensures
        stats.region_count == regions@.len(),
        stats.image_count == of_type(
            regions@.map_values(|r: MemoryRegion| r@),
            MEM_IMAGE,
        ).len(),
        stats.private_count == of_type(
            regions@.map_values(|r: MemoryRegion| r@),
            MEM_PRIVATE,
        ).len(),
        stats.mapped_count == of_type(
            regions@.map_values(|r: MemoryRegion| r@),
            MEM_MAPPED,
        ).len(),
        stats.raw_bytes == raw_bytes(regions@.map_values(|r: MemoryRegion| r@)),
{
    let ghost all = regions@.map_values(|r: MemoryRegion| r@);
    let mut image_count: usize = 0;
    let mut private_count: usize = 0;
    let mut mapped_count: usize = 0;
    let mut total: u64 = 0;
    proof {
        reveal(Seq::filter);
    }
    assert(all.take(0) =~= Seq::empty());
    for i in 0..regions.len()
        invariant
            all == regions@.map_values(|r: MemoryRegion| r@),
            raw_bytes(all) <= u64::MAX,
            image_count <= i,
            private_count <= i,
            mapped_count <= i,
            image_count == of_type(all.take(i as int), MEM_IMAGE).len(),
            private_count == of_type(all.take(i as int), MEM_PRIVATE).len(),
            mapped_count == of_type(all.take(i as int), MEM_MAPPED).len(),
            total == raw_bytes(all.take(i as int)),
    {
        proof {
            reveal(Seq::filter);
            lemma_raw_bytes_prefix(all, i + 1);
        }
        assert(all.take(i + 1).drop_last() =~= all.take(i as int));
        let r = &regions[i];
        total = total + r.data.len() as u64;
        if r.region_type == MEM_IMAGE {
            image_count = image_count + 1;
        }
        if r.region_type == MEM_PRIVATE {
            private_count = private_count + 1;
        }
        if r.region_type == MEM_MAPPED {
            mapped_count = mapped_count + 1;
        }
    }
    assert(all.take(regions.len() as int) =~= all);
    RegionStats {
        region_count: regions.len(),
        image_count,
        private_count,
        mapped_count,
        raw_bytes: total,
    }
}

} // verus!
