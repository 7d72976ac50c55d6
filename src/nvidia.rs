//! The NVIDIA session cache as a value: per device, the utilization samples
//! and memory records of one refresh, and the per-process figures read from it.
use vstd::prelude::*;
use crate::pci_slot::PciSlot;
use crate::slot_map::SlotMap;
use crate::text::min_nat;
use crate::usage::GpuUsageStats;

verus! {

/// Length of the trailing window of utilization samples, in microseconds.
pub const SAMPLE_WINDOW_MICROS: u64 = 5_000_000;

/// One utilization sample of one process on one device, in percent.
#[derive(Clone, Copy, Debug, PartialEq, Eq, Structural)]
pub struct UtilizationSample {
    pub pid: u32,
    pub sm_util: u32,
    pub enc_util: u32,
    pub dec_util: u32,
}

/// Device memory used by one process; `None` where the driver does not say.
#[derive(Clone, Copy, Debug, PartialEq, Eq, Structural)]
pub struct MemoryRecord {
    pub pid: u32,
    pub used_memory: Option<u64>,
}

/// What one refresh learned of one device: samples over the trailing window
/// and the memory of its graphics and compute processes.
#[derive(Clone, Debug)]
pub struct NvidiaDevice {
    pub pci_slot: PciSlot,
    pub samples: Vec<UtilizationSample>,
    pub processes: Vec<MemoryRecord>,
}

/// The engines whose utilization a sample gives.
#[derive(Clone, Copy, Debug, PartialEq, Eq, Structural)]
pub enum Engine {
    Streaming,
    Encoder,
    Decoder,
}

pub open spec fn engine_util(s: UtilizationSample, e: Engine) -> nat {
    match e {
        Engine::Streaming => s.sm_util as nat,
        Engine::Encoder => s.enc_util as nat,
        Engine::Decoder => s.dec_util as nat,
    }
}

/// The sample belongs to the process `pid`.
pub open spec fn of_process(sample_pid: u32, pid: i32) -> bool {
    sample_pid as int == pid as int
}

/// The sum of the utilization of engine `e` over the samples of `pid`.
pub open spec fn util_total(s: Seq<UtilizationSample>, pid: i32, e: Engine) -> nat
    decreases s.len(),
{
    if s.len() == 0 {
        0
    } else {
        util_total(s.drop_last(), pid, e) + if of_process(s.last().pid, pid) {
            engine_util(s.last(), e)
        } else {
            0
        }
    }
}

/// The sum of the memory of the records of `pid`, counting 0 where unknown.
pub open spec fn memory_total(s: Seq<MemoryRecord>, pid: i32) -> nat
    decreases s.len(),
{
    if s.len() == 0 {
        0
    } else {
        memory_total(s.drop_last(), pid) + if of_process(s.last().pid, pid) {
            match s.last().used_memory {
                Some(m) => m as nat,
                None => 0,
            }
        } else {
            0
        }
    }
}

pub open spec fn saturated(n: nat) -> u64 {
    min_nat(n as int, u64::MAX as int) as u64
}

/// The usage of `pid` on a device: summed percentages and summed memory.
pub open spec fn device_stats(samples: Seq<UtilizationSample>, processes: Seq<MemoryRecord>, pid: i32) -> GpuUsageStats {
    GpuUsageStats {
        gfx: saturated(util_total(samples, pid, Engine::Streaming)),
        mem: saturated(memory_total(processes, pid)),
        enc: saturated(util_total(samples, pid, Engine::Encoder)),
        dec: saturated(util_total(samples, pid, Engine::Decoder)),
        nvidia: true,
    }
}

/// The usage of `pid` on each device; where two devices share a slot, the
/// later one counts.
pub open spec fn nvidia_map(devices: Seq<NvidiaDevice>, pid: i32) -> Map<PciSlot, GpuUsageStats>
    decreases devices.len(),
{
    if devices.len() == 0 {
        Map::empty()
    } else {
        nvidia_map(devices.drop_last(), pid).insert(
            devices.last().pci_slot,
            device_stats(devices.last().samples@, devices.last().processes@, pid),
        )
    }
}

fn engine_value(s: &UtilizationSample, e: Engine) -> (r: u64)
    ensures
        r == engine_util(*s, e),
{
    match e {
        Engine::Streaming => s.sm_util as u64,
        Engine::Encoder => s.enc_util as u64,
        Engine::Decoder => s.dec_util as u64,
    }
}

fn same_process(sample_pid: u32, pid: i32) -> (r: bool)
    ensures
        r == of_process(sample_pid, pid),
{
    pid >= 0 && sample_pid as i64 == pid as i64
}

/// The summed utilization of engine `e` over the samples of `pid`,
/// saturating at `u64::MAX`.
pub fn sum_utilization(samples: &Vec<UtilizationSample>, pid: i32, e: Engine) -> (r: u64)
    ensures
        r == saturated(util_total(samples@, pid, e)),
{
    let mut acc: u64 = 0;
    let mut i: usize = 0;
    assert(samples@.subrange(0, 0) =~= Seq::<UtilizationSample>::empty());
    while i < samples.len()
        invariant
            i <= samples.len(),
            acc == saturated(util_total(samples@.subrange(0, i as int), pid, e)),
        decreases samples.len() - i,
    {
        assert(samples@.subrange(0, i + 1).drop_last() =~= samples@.subrange(0, i as int));
        if same_process(samples[i].pid, pid) {
            acc = acc.saturating_add(engine_value(&samples[i], e));
        }
        i = i + 1;
    }
    assert(samples@.subrange(0, samples.len() as int) =~= samples@);
    acc
}

/// The summed memory of the records of `pid`, saturating at `u64::MAX`.
pub fn sum_memory(records: &Vec<MemoryRecord>, pid: i32) -> (r: u64)
    ensures
        r == saturated(memory_total(records@, pid)),
{
    let mut acc: u64 = 0;
    let mut i: usize = 0;
    assert(records@.subrange(0, 0) =~= Seq::<MemoryRecord>::empty());
    while i < records.len()
        invariant
            i <= records.len(),
            acc == saturated(memory_total(records@.subrange(0, i as int), pid)),
        decreases records.len() - i,
    {
        assert(records@.subrange(0, i + 1).drop_last() =~= records@.subrange(0, i as int));
        if same_process(records[i].pid, pid) {
            let used = match records[i].used_memory {
                Some(m) => m,
                None => 0,
            };
            acc = acc.saturating_add(used);
        }
        i = i + 1;
    }
    assert(records@.subrange(0, records.len() as int) =~= records@);
    acc
}

/// The usage of `pid` on one device.
pub fn nvidia_gpu_stats(device: &NvidiaDevice, pid: i32) -> (r: GpuUsageStats)
    ensures
        r == device_stats(device.samples@, device.processes@, pid),
{
    GpuUsageStats {
        gfx: sum_utilization(&device.samples, pid, Engine::Streaming),
        mem: sum_memory(&device.processes, pid),
        enc: sum_utilization(&device.samples, pid, Engine::Encoder),
        dec: sum_utilization(&device.samples, pid, Engine::Decoder),
        nvidia: true,
    }
}

/// The usage of `pid` on every device of a refresh, per slot.
pub fn nvidia_gpu_stats_all(devices: &Vec<NvidiaDevice>, pid: i32) -> (r: SlotMap<GpuUsageStats>)
    ensures
        r.wf(),
        r@ == nvidia_map(devices@, pid),
{
    let mut r: SlotMap<GpuUsageStats> = SlotMap::new();
    let mut i: usize = 0;
    assert(devices@.subrange(0, 0) =~= Seq::<NvidiaDevice>::empty());
    while i < devices.len()
        invariant
            i <= devices.len(),
            r.wf(),
            r@ == nvidia_map(devices@.subrange(0, i as int), pid),
        decreases devices.len() - i,
    {
        assert(devices@.subrange(0, i + 1).drop_last() =~= devices@.subrange(0, i as int));
        let stats = nvidia_gpu_stats(&devices[i], pid);
        r.set(devices[i].pci_slot, stats);
        i = i + 1;
    }
    assert(devices@.subrange(0, devices.len() as int) =~= devices@);
    r
}

/// Where the window of samples of a refresh at `now_millis` starts, in
/// microseconds since the epoch; 0 where that would be before the epoch.
pub fn utilization_window_start(now_millis: u64) -> (r: u64)
    ensures
        r == (if min_nat(now_millis * 1000, u64::MAX as int) >= SAMPLE_WINDOW_MICROS {
            min_nat(now_millis * 1000, u64::MAX as int) - SAMPLE_WINDOW_MICROS
        } else {
            0
        }),
{
    crate::text::saturating_mul_u64(now_millis, 1000).saturating_sub(SAMPLE_WINDOW_MICROS)
}

/// Utilization samples add up: the samples of two stretches of time give the
/// sum of what each gives, never their maximum.
pub proof fn lemma_samples_sum(
    a: Seq<UtilizationSample>,
    b: Seq<UtilizationSample>,
    pid: i32,
    e: Engine,
)
    ensures
        util_total(a + b, pid, e) == util_total(a, pid, e) + util_total(b, pid, e),
    decreases b.len(),
{
    if b.len() == 0 {
        assert(a + b =~= a);
    } else {
        lemma_samples_sum(a, b.drop_last(), pid, e);
        assert((a + b).drop_last() =~= a + b.drop_last());
    }
}

/// The same holds of memory records.
pub proof fn lemma_memory_sum(a: Seq<MemoryRecord>, b: Seq<MemoryRecord>, pid: i32)
    ensures
        memory_total(a + b, pid) == memory_total(a, pid) + memory_total(b, pid),
    decreases b.len(),
{
    if b.len() == 0 {
        assert(a + b =~= a);
    } else {
        lemma_memory_sum(a, b.drop_last(), pid);
        assert((a + b).drop_last() =~= a + b.drop_last());
    }
}

} // verus!
