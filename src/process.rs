//! One snapshot of one process, built from the texts of its directory and the
//! accelerator readings of the same pass.
use vstd::prelude::*;
use crate::cgroup::{cgroup_name, sanitize_cgroup};
use crate::niceness::Niceness;
use crate::nvidia::{NvidiaDevice, nvidia_gpu_stats_all, nvidia_map};
use crate::procfs::{
    Containerization, StatFields, affinity, affinity_mask, clean_comm, containerization,
    containerization_of, io_bytes, io_counter_of, mask_bit, memory_of, memory_usage, parse_stat,
    stat_complete, stat_number, statm_number, swap_of, swap_usage, uid, uid_of, user_name,
    user_name_of, without_newlines, STAT_NICE, STAT_PARENT_PID, STAT_STARTTIME,
    STAT_SYSTEM_CPU_TIME, STAT_USER_CPU_TIME,
};
use crate::slot_map::SlotMap;
use crate::text::{chars_of, integer_in, parse_signed, string_of};
use crate::usage::{GpuUsageStats, NpuUsageStats};

verus! {

/// The texts of one process directory. `io` and `cgroup` are `None` where
/// they could not be read.
#[derive(Clone, Debug)]
pub struct ProcessFiles {
    pub stat: String,
    pub statm: String,
    pub status: String,
    pub comm: String,
    pub cmdline: String,
    pub io: Option<String>,
    pub cgroup: Option<String>,
    /// Whether the process's root holds a `.flatpak-info` file.
    pub flatpak_info_exists: bool,
}

/// What every snapshot of a collection pass shares, built once.
#[derive(Clone, Debug)]
pub struct CollectionContext {
    /// The user database: user id and name.
    pub users: Vec<(u32, String)>,
    /// The number of logical CPUs.
    pub num_cpus: usize,
    /// The size of a memory page in bytes.
    pub page_size: usize,
}

/// A point-in-time record of one process.
#[derive(Clone, Debug, PartialEq, Eq)]
pub struct ProcessData {
    pub pid: i32,
    pub parent_pid: i32,
    pub user: String,
    pub comm: String,
    pub commandline: String,
    pub user_cpu_time: u64,
    pub system_cpu_time: u64,
    pub niceness: Niceness,
    pub affinity: Vec<bool>,
    pub memory_usage: usize,
    pub swap_usage: usize,
    /// In clock ticks after boot.
    pub starttime: u64,
    pub cgroup: Option<String>,
    pub containerization: Containerization,
    pub read_bytes: Option<u64>,
    pub write_bytes: Option<u64>,
    /// Milliseconds since the epoch.
    pub timestamp: u64,
    pub gpu_usage_stats: SlotMap<GpuUsageStats>,
    pub npu_usage_stats: SlotMap<NpuUsageStats>,
}

/// The process id that a process directory's name gives, if any.
pub open spec fn pid_of(name: Seq<char>) -> Option<int> {
    integer_in(name, i32::MIN as int, i32::MAX as int)
}

/// The process id that a process directory's name gives, if any.
pub fn parse_pid(name: &str) -> (r: Option<i32>)
    ensures
        match pid_of(name@) {
            Some(p) => r == Some(p as i32),
            None => r is None,
        },
{
    let t = chars_of(name);
    assert(t@.subrange(0, t.len() as int) =~= t@);
    match parse_signed(&t, 0, t.len(), i32::MIN as i64, i32::MAX as i64) {
        Some(p) => Some(p as i32),
        None => None,
    }
}

/// The GPU usage of a process: the fdinfo readings, with NVIDIA's figures in
/// place of any reading of the same slot.
pub fn gpu_usage_stats(
    fdinfo: SlotMap<GpuUsageStats>,
    devices: &Vec<NvidiaDevice>,
    pid: i32,
) -> (r: SlotMap<GpuUsageStats>)
    requires
        fdinfo.wf(),
    ensures
        r.wf(),
        r@ == fdinfo@.union_prefer_right(nvidia_map(devices@, pid)),
{
    let nvidia = nvidia_gpu_stats_all(devices, pid);
    let mut r = fdinfo;
    r.overlay(&nvidia);
    r
}

pub open spec fn opt_view(s: Option<String>) -> Option<Seq<char>> {
    match s {
        Some(x) => Some(x@),
        None => None,
    }
}

pub open spec fn cgroup_of(cgroup: Option<String>) -> Option<Seq<char>> {
    match cgroup {
        Some(c) => cgroup_name(c@),
        None => None,
    }
}

/// Whether the texts are enough for a snapshot: `stat` and `statm` hold
/// every field a snapshot needs.
pub open spec fn files_complete(f: ProcessFiles) -> bool {
    stat_complete(f.stat@) && statm_number(f.statm@, 1) is Some && statm_number(f.statm@, 2) is Some
}

impl ProcessData {
    /// Builds the snapshot of process `pid` from the texts of its directory,
    /// its fdinfo readings and the NVIDIA refresh of the pass. `None` where
    /// `stat` or `statm` lacks a field: the process is then left out.
    pub fn from_files(
        pid: i32,
        files: &ProcessFiles,
        ctx: &CollectionContext,
        fdinfo_gpu: SlotMap<GpuUsageStats>,
        npu: SlotMap<NpuUsageStats>,
        nvidia: &Vec<NvidiaDevice>,
        timestamp: u64,
    ) -> (r: Option<ProcessData>)
        requires
            fdinfo_gpu.wf(),
            npu.wf(),
        ensures
            r is Some <==> files_complete(*files),
            r is Some ==> {
                let d = r->Some_0;
                let stat = files.stat@;
                &&& d.pid == pid
                &&& d.parent_pid as int == stat_number(
                    stat,
                    STAT_PARENT_PID as int,
                    i32::MIN as int,
                    i32::MAX as int,
                )->Some_0
                &&& d.user_cpu_time as int == stat_number(
                    stat,
                    STAT_USER_CPU_TIME as int,
                    0,
                    u64::MAX as int,
                )->Some_0
                &&& d.system_cpu_time as int == stat_number(
                    stat,
                    STAT_SYSTEM_CPU_TIME as int,
                    0,
                    u64::MAX as int,
                )->Some_0
                &&& d.niceness.value() == stat_number(
                    stat,
                    STAT_NICE as int,
                    i8::MIN as int,
                    i8::MAX as int,
                )->Some_0
                &&& d.starttime as int == stat_number(
                    stat,
                    STAT_STARTTIME as int,
                    0,
                    u64::MAX as int,
                )->Some_0
                &&& d.user@ == user_name_of(ctx.users@, uid_of(files.status@))
                &&& d.comm@ == without_newlines(files.comm@)
                &&& d.commandline@ == files.cmdline@
                &&& d.affinity@.len() == ctx.num_cpus
                &&& forall|i: int|
                    0 <= i < ctx.num_cpus ==> d.affinity@[i] == mask_bit(
                        affinity_mask(files.status@),
                        i,
                    )
                &&& d.memory_usage == memory_of(
                    statm_number(files.statm@, 1)->Some_0,
                    statm_number(files.statm@, 2)->Some_0,
                    ctx.page_size as int,
                )
                &&& d.swap_usage == swap_of(files.status@)
                &&& opt_view(d.cgroup) == cgroup_of(files.cgroup)
                &&& d.containerization == containerization_of(
                    files.cmdline@,
                    files.flatpak_info_exists,
                )
                &&& d.read_bytes == (match files.io {
                    Some(io) => io_counter_of(io@, "read_bytes:"@),
                    None => None,
                })
                &&& d.write_bytes == (match files.io {
                    Some(io) => io_counter_of(io@, "write_bytes:"@),
                    None => None,
                })
                &&& d.timestamp == timestamp
                &&& d.gpu_usage_stats.wf()
                &&& d.gpu_usage_stats@ == fdinfo_gpu@.union_prefer_right(nvidia_map(nvidia@, pid))
                &&& d.npu_usage_stats.wf()
                &&& d.npu_usage_stats@ == npu@
            },
    {
        let stat: StatFields = match parse_stat(files.stat.as_str()) {
            Some(s) => s,
            None => return None,
        };
        let memory = match memory_usage(files.statm.as_str(), ctx.page_size) {
            Some(m) => m,
            None => return None,
        };
        let status = files.status.as_str();
        let user = user_name(&ctx.users, uid(status));
        let comm = string_of(&clean_comm(files.comm.as_str()));
        let cgroup = match &files.cgroup {
            Some(c) => match sanitize_cgroup(c.as_str()) {
                Some(name) => Some(string_of(&name)),
                None => None,
            },
            None => None,
        };
        let (read_bytes, write_bytes) = match &files.io {
            Some(io) => io_bytes(io.as_str()),
            None => (None, None),
        };
        Some(
            ProcessData {
                pid,
                parent_pid: stat.parent_pid,
                user,
                comm,
                commandline: files.cmdline.clone(),
                user_cpu_time: stat.user_cpu_time,
                system_cpu_time: stat.system_cpu_time,
                niceness: stat.niceness,
                affinity: affinity(status, ctx.num_cpus),
                memory_usage: memory,
                swap_usage: swap_usage(status),
                starttime: stat.starttime,
                cgroup,
                containerization: containerization(
                    files.cmdline.as_str(),
                    files.flatpak_info_exists,
                ),
                read_bytes,
                write_bytes,
                timestamp,
                gpu_usage_stats: gpu_usage_stats(fdinfo_gpu, nvidia, pid),
                npu_usage_stats: npu,
            },
        )
    }
}

/// Relies on `SystemTime::duration_since`: the time since the epoch, in
/// milliseconds, or `None` where the clock stands before the epoch.
#[verifier::external_body]
fn millis_since_epoch() -> (r: Option<u128>)
{
    match std::time::SystemTime::now().duration_since(std::time::UNIX_EPOCH) {
        Ok(d) => Some(d.as_millis()),
        Err(_) => None,
    }
}

/// A timestamp from the milliseconds elapsed since the epoch: 0 where the
/// clock stands before the epoch, `u64::MAX` where it is too far after it.
pub fn timestamp_from(elapsed_millis: Option<u128>) -> (r: u64)
    ensures
        r == (match elapsed_millis {
            Some(ms) => if ms > u64::MAX {
                u64::MAX as int
            } else {
                ms as int
            },
            None => 0,
        }),
{
    match elapsed_millis {
        Some(ms) => if ms > u64::MAX as u128 {
            u64::MAX
        } else {
            ms as u64
        },
        None => 0,
    }
}

/// The time now in milliseconds since the epoch, as `timestamp_from` gives it.
pub fn unix_as_millis() -> (r: u64) {
    timestamp_from(millis_since_epoch())
}

} // verus!
