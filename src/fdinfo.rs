//! DRM fdinfo accounting: which file descriptors are read, what their text
//! says, and how the readings of one process add up per slot.
use vstd::prelude::*;
use crate::pci_slot::{PciSlot, slot_at, slot_in, slot_shape};
use crate::slot_map::SlotMap;
use crate::text::{
    CharClass, chars_of, field_line, field_number, field_u64, field_value, integer_in,
    min_nat, parse_unsigned, run_end, same_text, skip_run, value_start, word_at,
    word_matches,
};
use crate::usage::{GpuUsageStats, NpuUsageStats, gpu_merged, merge_gpu, merge_npu, npu_merged};

verus! {

/// Major device number of DRM character devices.
pub const DRM_MAJOR: u32 = 226;

/// A `drm-pdev:` line with an address stands at `p`.
pub open spec fn pdev_at(t: Seq<char>, p: int) -> bool {
    word_at(t, p, "drm-pdev:"@) && slot_shape(t, value_start(t, p, "drm-pdev:"@))
}

pub open spec fn first_pdev_at(t: Seq<char>, p: int) -> bool {
    pdev_at(t, p) && forall|q: int| 0 <= q < p ==> !pdev_at(t, q)
}

/// The address of the leftmost `drm-pdev:` line, if there is one.
pub open spec fn pdev_value(t: Seq<char>) -> Option<PciSlot> {
    if exists|p: int| first_pdev_at(t, p) {
        let p = choose|p: int| first_pdev_at(t, p);
        Some(slot_at(t, value_start(t, p, "drm-pdev:"@)))
    } else {
        None
    }
}

/// The driver that the fdinfo text names.
pub open spec fn driver_value(t: Seq<char>) -> Option<Seq<char>> {
    field_value(t, "drm-driver:"@, CharClass::NotNewline, Seq::empty())
}

/// A nanosecond counter of the text, where one stands and fits.
pub open spec fn ns_field(t: Seq<char>, key: Seq<char>) -> Option<nat> {
    field_number(t, key, "ns"@, u64::MAX as nat)
}

/// A KiB amount of the text, where one stands and fits.
pub open spec fn kib_field(t: Seq<char>, key: Seq<char>) -> Option<nat> {
    field_number(t, key, "KiB"@, u64::MAX as nat)
}

pub open spec fn or_zero(o: Option<nat>) -> nat {
    match o {
        Some(n) => n,
        None => 0,
    }
}

pub open spec fn or_else(a: Option<nat>, b: Option<nat>) -> Option<nat> {
    match a {
        Some(n) => Some(n),
        None => b,
    }
}

pub open spec fn sat_u64(n: nat) -> u64 {
    min_nat(n as int, u64::MAX as int) as u64
}

pub open spec fn is_gpu_driver(d: Seq<char>) -> bool {
    d == "amdgpu"@ || d == "i915"@
}

pub open spec fn is_npu_driver(d: Seq<char>) -> bool {
    d == "amdxdna_accel_driver"@
}

/// What a GPU's fdinfo text says: its slot and usage. The text must name a
/// slot and a GPU driver. Graphics time is AMD's `gfx` or else Intel's
/// `render` counter, plus AMD's `compute` counter; encode time is AMD's `enc`
/// or else Intel's `video` counter; memory is VRAM plus GTT.
pub open spec fn gpu_fdinfo(t: Seq<char>) -> Option<(PciSlot, GpuUsageStats)> {
    match pdev_value(t) {
        None => None,
        Some(slot) => match driver_value(t) {
            Some(d) if is_gpu_driver(d) => Some(
                (
                    slot,
                    GpuUsageStats {
                        gfx: sat_u64(
                            or_zero(
                                or_else(
                                    ns_field(t, "drm-engine-gfx:"@),
                                    ns_field(t, "drm-engine-render:"@),
                                ),
                            ) + or_zero(ns_field(t, "drm-engine-compute:"@)),
                        ),
                        mem: sat_u64(
                            (sat_u64(or_zero(kib_field(t, "drm-memory-vram:"@)) * 1024) + sat_u64(
                                or_zero(kib_field(t, "drm-memory-gtt:"@)) * 1024,
                            )) as nat,
                        ),
                        enc: or_zero(
                            or_else(
                                ns_field(t, "drm-engine-enc:"@),
                                ns_field(t, "drm-engine-video:"@),
                            ),
                        ) as u64,
                        dec: or_zero(ns_field(t, "drm-engine-dec:"@)) as u64,
                        nvidia: false,
                    },
                ),
            ),
            _ => None,
        },
    }
}

/// What an NPU's fdinfo text says: its slot (the zero address where none is
/// named) and usage. The text must name an NPU driver.
pub open spec fn npu_fdinfo(t: Seq<char>) -> Option<(PciSlot, NpuUsageStats)> {
    match driver_value(t) {
        Some(d) if is_npu_driver(d) => Some(
            (
                match pdev_value(t) {
                    Some(s) => s,
                    None => PciSlot { domain: 0, bus: 0, device: 0, function: 0 },
                },
                NpuUsageStats {
                    usage: or_zero(ns_field(t, "drm-engine-npu-amdxdna:"@)) as u64,
                    mem: sat_u64(or_zero(kib_field(t, "drm-total-memory:"@)) * 1024),
                },
            ),
        ),
        _ => None,
    }
}

/// The address of the leftmost `drm-pdev:` line of `t`.
pub fn find_pdev(t: &Vec<char>) -> (r: Option<PciSlot>)
    ensures
        r == pdev_value(t@),
{
    let key = chars_of("drm-pdev:");
    let mut p: usize = 0;
    while p < t.len()
        invariant
            p <= t.len(),
            key@ == "drm-pdev:"@,
            forall|q: int| 0 <= q < p ==> !pdev_at(t@, q),
        decreases t.len() - p,
    {
        if word_matches(t, p, &key) {
            let s = skip_run(t, p + key.len(), CharClass::Space);
            let found = slot_in(t, s);
            if found.is_some() {
                assert(first_pdev_at(t@, p as int));
                proof {
                    let c = choose|c: int| first_pdev_at(t@, c);
                    assert(c == p) by {
                        if c < p {
                            assert(!pdev_at(t@, c));
                        }
                        if c > p {
                            assert(!pdev_at(t@, p as int));
                        }
                    }
                }
                return found;
            }
        }
        p = p + 1;
    }
    assert forall|q: int| !pdev_at(t@, q) by {
        if q >= t.len() && word_at(t@, q, "drm-pdev:"@) {
            assert(run_end(t@, q + key@.len(), CharClass::Space) == q + key@.len());
        }
    }
    None
}

fn or_zero_u64(o: Option<u64>) -> (r: u64)
    ensures
        r == (match o {
            Some(n) => n,
            None => 0,
        }),
{
    match o {
        Some(n) => n,
        None => 0,
    }
}

/// Reads the slot and usage out of a GPU's fdinfo text; `None` where the text
/// names no slot or no GPU driver.
pub fn read_gpu_fdinfo(content: &str) -> (r: Option<(PciSlot, GpuUsageStats)>)
    ensures
        r == gpu_fdinfo(content@),
{
    let t = chars_of(content);
    let slot = match find_pdev(&t) {
        Some(s) => s,
        None => return None,
    };
    let driver = match field_line(&t, "drm-driver:") {
        Some(d) => d,
        None => return None,
    };
    if !(same_text(&driver, "amdgpu") || same_text(&driver, "i915")) {
        return None;
    }
    let gfx = match field_u64(&t, "drm-engine-gfx:", "ns", u64::MAX) {
        Some(n) => n,
        None => or_zero_u64(field_u64(&t, "drm-engine-render:", "ns", u64::MAX)),
    };
    let compute = or_zero_u64(field_u64(&t, "drm-engine-compute:", "ns", u64::MAX));
    let enc = match field_u64(&t, "drm-engine-enc:", "ns", u64::MAX) {
        Some(n) => n,
        None => or_zero_u64(field_u64(&t, "drm-engine-video:", "ns", u64::MAX)),
    };
    let dec = or_zero_u64(field_u64(&t, "drm-engine-dec:", "ns", u64::MAX));
    let vram = crate::text::saturating_mul_u64(
        or_zero_u64(field_u64(&t, "drm-memory-vram:", "KiB", u64::MAX)),
        1024,
    );
    let gtt = crate::text::saturating_mul_u64(
        or_zero_u64(field_u64(&t, "drm-memory-gtt:", "KiB", u64::MAX)),
        1024,
    );
    let stats = GpuUsageStats {
        gfx: gfx.saturating_add(compute),
        mem: vram.saturating_add(gtt),
        enc,
        dec,
        nvidia: false,
    };
    Some((slot, stats))
}

/// Reads the slot and usage out of an NPU's fdinfo text; `None` where the
/// text names no NPU driver.
pub fn read_npu_fdinfo(content: &str) -> (r: Option<(PciSlot, NpuUsageStats)>)
    ensures
        r == npu_fdinfo(content@),
{
    let t = chars_of(content);
    let driver = match field_line(&t, "drm-driver:") {
        Some(d) => d,
        None => return None,
    };
    if !same_text(&driver, "amdxdna_accel_driver") {
        return None;
    }
    let slot = match find_pdev(&t) {
        Some(s) => s,
        None => PciSlot::zero(),
    };
    let usage = or_zero_u64(field_u64(&t, "drm-engine-npu-amdxdna:", "ns", u64::MAX));
    let mem = crate::text::saturating_mul_u64(
        or_zero_u64(field_u64(&t, "drm-total-memory:", "KiB", u64::MAX)),
        1024,
    );
    Some((slot, NpuUsageStats { usage, mem }))
}

/// The kind of file that a descriptor refers to.
#[derive(Clone, Copy, Debug, PartialEq, Eq, Structural)]
pub struct DeviceInfo {
    pub is_char_device: bool,
    pub major: u32,
}

/// What could be learned about one `fdinfo` entry without reading it.
#[derive(Clone, Copy, Debug, PartialEq, Eq, Structural)]
pub struct FdProbe {
    /// The descriptor number that the entry's name gives (0 where it gives none).
    pub fd_num: usize,
    /// Whether the entry is a regular file; `None` where it could not be
    /// opened or stated.
    pub info_is_file: Option<bool>,
    /// The file that the descriptor itself refers to; `None` where it could
    /// not be stated.
    pub fd_device: Option<DeviceInfo>,
}

/// How far a probe goes towards reading an entry.
#[derive(Clone, Copy, Debug, PartialEq, Eq, Structural)]
pub enum Plausibility {
    /// Not accelerator accounting: skip it.
    Rejected,
    /// Could not be disproved, and could not be compared either: read it.
    Plausible,
    /// Read it unless it refers to the same file as a descriptor already read.
    NeedsComparison,
}

pub open spec fn plausibility(p: FdProbe) -> Plausibility {
    if p.fd_num <= 2 {
        Plausibility::Rejected
    } else {
        match p.info_is_file {
            None => Plausibility::Plausible,
            Some(false) => Plausibility::Rejected,
            Some(true) => match p.fd_device {
                Some(d) if !d.is_char_device || d.major != DRM_MAJOR => Plausibility::Rejected,
                _ => Plausibility::NeedsComparison,
            },
        }
    }
}

/// The descriptor number that an `fdinfo` entry's name gives, 0 where it gives none.
pub open spec fn fd_number_of(name: Seq<char>) -> usize {
    match integer_in(name, 0, usize::MAX as int) {
        Some(n) => n as usize,
        None => 0,
    }
}

/// The descriptor number that an `fdinfo` entry's name gives, 0 where it gives none.
pub fn fd_number(name: &str) -> (r: usize)
    ensures
        r == fd_number_of(name@),
{
    let t = chars_of(name);
    assert(t@.subrange(0, t.len() as int) =~= t@);
    match parse_unsigned(&t, 0, t.len(), usize::MAX as u64) {
        Some(n) => n as usize,
        None => 0,
    }
}

/// Judges an entry before its text is read: standard streams, entries that are
/// no regular file and descriptors that are no DRM device are rejected; where
/// the entry cannot be opened or stated it is kept.
pub fn drm_fdinfo_plausible(p: &FdProbe) -> (r: Plausibility)
    ensures
        r == plausibility(*p),
{
    if p.fd_num <= 2 {
        return Plausibility::Rejected;
    }
    match p.info_is_file {
        None => Plausibility::Plausible,
        Some(false) => Plausibility::Rejected,
        Some(true) => match p.fd_device {
            Some(d) => if !d.is_char_device || d.major != DRM_MAJOR {
                Plausibility::Rejected
            } else {
                Plausibility::NeedsComparison
            },
            None => Plausibility::NeedsComparison,
        },
    }
}

/// Whether an entry is read, given its probe and whether it refers to the
/// same file as a descriptor read before.
pub open spec fn is_read(p: FdProbe, equivalent_to_seen: bool) -> bool {
    plausibility(p) == Plausibility::Plausible || (plausibility(p)
        == Plausibility::NeedsComparison && !equivalent_to_seen)
}

/// One pass over a process's `fdinfo` entries: the descriptors read so far and
/// the GPU and NPU usage they reported, per slot.
pub struct FdScan {
    seen: Vec<usize>,
    gpu: SlotMap<GpuUsageStats>,
    npu: SlotMap<NpuUsageStats>,
}

impl FdScan {
    pub closed spec fn seen(&self) -> Seq<usize> {
        self.seen@
    }

    pub closed spec fn gpu(&self) -> Map<PciSlot, GpuUsageStats> {
        self.gpu@
    }

    pub closed spec fn npu(&self) -> Map<PciSlot, NpuUsageStats> {
        self.npu@
    }

    pub closed spec fn wf(&self) -> bool {
        self.gpu.wf() && self.npu.wf()
    }

    pub fn new() -> (r: FdScan)
        ensures
            r.wf(),
            r.seen() == Seq::<usize>::empty(),
            r.gpu() == Map::<PciSlot, GpuUsageStats>::empty(),
            r.npu() == Map::<PciSlot, NpuUsageStats>::empty(),
    {
        FdScan { seen: Vec::new(), gpu: SlotMap::new(), npu: SlotMap::new() }
    }

    /// The descriptors read so far, to be compared with the next one.
    pub fn seen_fds(&self) -> (r: &Vec<usize>)
        ensures
            r@ == self.seen(),
    {
        &self.seen
    }

    /// Decides whether the entry of `p` is read. An entry that refers to the
    /// same file as one read before is not: it would count the same session
    /// twice. A descriptor that is read joins those seen.
    pub fn accept_entry(&mut self, p: &FdProbe, equivalent_to_seen: bool) -> (r: bool)
        requires
            old(self).wf(),
        ensures
            final(self).wf(),
            r == is_read(*p, equivalent_to_seen),
            final(self).seen() == (if r {
                old(self).seen().push(p.fd_num)
            } else {
                old(self).seen()
            }),
            final(self).gpu() == old(self).gpu(),
            final(self).npu() == old(self).npu(),
    {
        let verdict = drm_fdinfo_plausible(p);
        let read = match verdict {
            Plausibility::Rejected => false,
            Plausibility::Plausible => true,
            Plausibility::NeedsComparison => !equivalent_to_seen,
        };
        if read {
            self.seen.push(p.fd_num);
        }
        read
    }

    /// Adds what the text of an accepted entry reports, if anything, to the
    /// usage of its slot.
    pub fn record(&mut self, content: &str)
        requires
            old(self).wf(),
        ensures
            final(self).wf(),
            final(self).seen() == old(self).seen(),
            final(self).gpu() == (match gpu_fdinfo(content@) {
                Some((slot, stats)) => gpu_merged(old(self).gpu(), slot, stats),
                None => old(self).gpu(),
            }),
            final(self).npu() == (match npu_fdinfo(content@) {
                Some((slot, stats)) => npu_merged(old(self).npu(), slot, stats),
                None => old(self).npu(),
            }),
    {
        if let Some((slot, stats)) = read_gpu_fdinfo(content) {
            merge_gpu(&mut self.gpu, slot, stats);
        }
        if let Some((slot, stats)) = read_npu_fdinfo(content) {
            merge_npu(&mut self.npu, slot, stats);
        }
    }

    /// The GPU and NPU usage of the pass, per slot.
    pub fn finish(self) -> (r: (SlotMap<GpuUsageStats>, SlotMap<NpuUsageStats>))
        requires
            self.wf(),
        ensures
            r.0.wf(),
            r.1.wf(),
            r.0@ == self.gpu(),
            r.1@ == self.npu(),
    {
        (self.gpu, self.npu)
    }
}

/// An entry found to refer to the same file as one read before is not read,
/// and leaves the pass as it was, whatever its text would report.
pub proof fn lemma_duplicate_fd_ignored(p: FdProbe)
    requires
        plausibility(p) == Plausibility::NeedsComparison,
    ensures
        !is_read(p, true),
        is_read(p, false),
{
}

} // verus!
