//! Accelerator usage per process and slot, and how readings of one slot combine.
use vstd::prelude::*;
use crate::pci_slot::PciSlot;
use crate::slot_map::SlotMap;

verus! {

/// GPU usage of one process on one device.
///
/// Where `nvidia` is false, `gfx`, `enc` and `dec` are nanoseconds of engine
/// time since the device was opened; where it is true they are percentages
/// from 0 to 100. Intel devices fold decoding into `enc` and report no memory.
#[derive(Clone, Copy, Debug, PartialEq, Eq, Structural, Hash)]
pub struct GpuUsageStats {
    pub gfx: u64,
    pub mem: u64,
    pub enc: u64,
    pub dec: u64,
    pub nvidia: bool,
}

/// NPU usage of one process on one device: engine time in nanoseconds and
/// memory in bytes.
#[derive(Clone, Copy, Debug, PartialEq, Eq, Structural, Hash)]
pub struct NpuUsageStats {
    pub usage: u64,
    pub mem: u64,
}

pub open spec fn max_u64(a: u64, b: u64) -> u64 {
    if a >= b {
        a
    } else {
        b
    }
}

impl GpuUsageStats {
    /// Field by field the larger of two readings; the unit flag is kept.
    pub open spec fn max_with(self, o: GpuUsageStats) -> GpuUsageStats {
        GpuUsageStats {
            gfx: max_u64(self.gfx, o.gfx),
            mem: max_u64(self.mem, o.mem),
            enc: max_u64(self.enc, o.enc),
            dec: max_u64(self.dec, o.dec),
            nvidia: self.nvidia,
        }
    }
}

impl NpuUsageStats {
    /// Field by field the larger of two readings.
    pub open spec fn max_with(self, o: NpuUsageStats) -> NpuUsageStats {
        NpuUsageStats { usage: max_u64(self.usage, o.usage), mem: max_u64(self.mem, o.mem) }
    }
}

/// The map after one more reading for `slot`: a first reading is kept as it
/// is, a later one is combined field by field by maximum.
pub open spec fn gpu_merged(
    m: Map<PciSlot, GpuUsageStats>,
    slot: PciSlot,
    stats: GpuUsageStats,
) -> Map<PciSlot, GpuUsageStats> {
    if m.contains_key(slot) {
        m.insert(slot, m[slot].max_with(stats))
    } else {
        m.insert(slot, stats)
    }
}

pub open spec fn npu_merged(
    m: Map<PciSlot, NpuUsageStats>,
    slot: PciSlot,
    stats: NpuUsageStats,
) -> Map<PciSlot, NpuUsageStats> {
    if m.contains_key(slot) {
        m.insert(slot, m[slot].max_with(stats))
    } else {
        m.insert(slot, stats)
    }
}

fn max_of(a: u64, b: u64) -> (r: u64)
    ensures
        r == max_u64(a, b),
{
    if a >= b {
        a
    } else {
        b
    }
}

/// Adds one fdinfo reading of `slot` to `m`.
pub fn merge_gpu(m: &mut SlotMap<GpuUsageStats>, slot: PciSlot, stats: GpuUsageStats)
    requires
        old(m).wf(),
    ensures
        final(m).wf(),
        final(m)@ == gpu_merged(old(m)@, slot, stats),
{
    match m.get(slot) {
        Some(e) => {
            let merged = GpuUsageStats {
                gfx: max_of(e.gfx, stats.gfx),
                mem: max_of(e.mem, stats.mem),
                enc: max_of(e.enc, stats.enc),
                dec: max_of(e.dec, stats.dec),
                nvidia: e.nvidia,
            };
            m.set(slot, merged);
        },
        None => m.set(slot, stats),
    }
}

/// Adds one fdinfo reading of `slot` to `m`.
pub fn merge_npu(m: &mut SlotMap<NpuUsageStats>, slot: PciSlot, stats: NpuUsageStats)
    requires
        old(m).wf(),
    ensures
        final(m).wf(),
        final(m)@ == npu_merged(old(m)@, slot, stats),
{
    match m.get(slot) {
        Some(e) => {
            let merged = NpuUsageStats {
                usage: max_of(e.usage, stats.usage),
                mem: max_of(e.mem, stats.mem),
            };
            m.set(slot, merged);
        },
        None => m.set(slot, stats),
    }
}

/// Two readings of one slot combine to their field-by-field maximum, in
/// either order, never to their sum.
pub proof fn lemma_gpu_readings_take_max(
    m: Map<PciSlot, GpuUsageStats>,
    slot: PciSlot,
    a: GpuUsageStats,
    b: GpuUsageStats,
)
    requires
        !m.contains_key(slot),
    ensures
        gpu_merged(gpu_merged(m, slot, a), slot, b)[slot] == a.max_with(b),
        gpu_merged(gpu_merged(m, slot, a), slot, b)[slot].gfx == max_u64(a.gfx, b.gfx),
        gpu_merged(gpu_merged(m, slot, b), slot, a)[slot].gfx == gpu_merged(
            gpu_merged(m, slot, a),
            slot,
            b,
        )[slot].gfx,
{
}

/// The same holds of NPU readings.
pub proof fn lemma_npu_readings_take_max(
    m: Map<PciSlot, NpuUsageStats>,
    slot: PciSlot,
    a: NpuUsageStats,
    b: NpuUsageStats,
)
    requires
        !m.contains_key(slot),
    ensures
        npu_merged(npu_merged(m, slot, a), slot, b)[slot] == a.max_with(b),
        npu_merged(npu_merged(m, slot, b), slot, a)[slot] == npu_merged(
            npu_merged(m, slot, a),
            slot,
            b,
        )[slot],
{
}

} // verus!
