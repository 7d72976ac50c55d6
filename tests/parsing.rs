use process_data::cgroup::sanitize_cgroup;
use process_data::fdinfo::{
    drm_fdinfo_plausible, fd_number, read_gpu_fdinfo, read_npu_fdinfo, DeviceInfo, FdProbe,
    FdScan, Plausibility,
};
use process_data::niceness::{Niceness, NicenessError};
use process_data::nvidia::{
    nvidia_gpu_stats, nvidia_gpu_stats_all, utilization_window_start, MemoryRecord, NvidiaDevice,
    UtilizationSample,
};
use process_data::pci_slot::PciSlot;
use process_data::process::{
    gpu_usage_stats, parse_pid, timestamp_from, unix_as_millis, CollectionContext, ProcessData, ProcessFiles,
};
use process_data::procfs::{
    affinity, clean_comm, containerization, io_bytes, memory_usage, parse_stat, swap_usage, uid,
    user_name, Containerization,
};
use process_data::slot_map::SlotMap;
use process_data::usage::{GpuUsageStats, NpuUsageStats};

fn chars(s: &str) -> Vec<char> {
    s.chars().collect()
}

fn slot(s: &str) -> PciSlot {
    PciSlot::parse(s).unwrap()
}

const STAT: &str = "1234 (my (odd) prog) S 1 1234 1234 0 -1 4194560 500 0 0 0 150 75 0 0 20 -5 1 0 98765 1000000 200 18446744073709551615 1 1 0 0 0 0 0 0 0 0 0 0 17 3 0 0 0 0 0\n";

#[test]
fn niceness_accepts_its_range() {
    for v in -20i8..=19 {
        let n = Niceness::try_new(v).unwrap();
        assert_eq!(n.into_inner(), v);
    }
}

#[test]
fn niceness_refuses_outside_its_range() {
    assert_eq!(Niceness::try_new(20), Err(NicenessError::LessOrEqualViolated));
    assert_eq!(Niceness::try_new(-21), Err(NicenessError::GreaterOrEqualViolated));
    assert_eq!(Niceness::try_new(i8::MAX), Err(NicenessError::LessOrEqualViolated));
    assert_eq!(Niceness::try_new(i8::MIN), Err(NicenessError::GreaterOrEqualViolated));
    assert_eq!(Niceness::default().into_inner(), 0);
}

#[test]
fn affinity_full_nibble() {
    assert_eq!(affinity("Cpus_allowed:\tf\n", 4), vec![true, true, true, true]);
}

#[test]
fn affinity_lowest_bit_first() {
    assert_eq!(affinity("Cpus_allowed:\t1\n", 4), vec![true, false, false, false]);
}

#[test]
fn affinity_length_is_cpu_count() {
    let status = "Name:\tx\nCpus_allowed:\tffffffff,ffffffff\nCpus_allowed_list:\t0-63\n";
    let a = affinity(status, 6);
    assert_eq!(a, vec![true; 6]);
    let b = affinity("Cpus_allowed:\t00000002\n", 3);
    assert_eq!(b, vec![false, true, false]);
    let c = affinity("Cpus_allowed:\t2\n", 8);
    assert_eq!(c, vec![false, true, false, false, false, false, false, false]);
}

#[test]
fn affinity_without_mask_is_all_false() {
    assert_eq!(affinity("Name:\tkworker\n", 5), vec![false; 5]);
}

#[test]
fn memory_is_resident_minus_shared() {
    assert_eq!(memory_usage("500 100 40 10 0 80 0\n", 4096), Some(245760));
}

#[test]
fn memory_never_goes_below_zero() {
    assert_eq!(memory_usage("500 40 100 10 0 80 0\n", 4096), Some(0));
}

#[test]
fn memory_needs_both_counts() {
    assert_eq!(memory_usage("500 40", 4096), None);
    assert_eq!(memory_usage("500 x 3", 4096), None);
}

#[test]
fn swap_is_counted_in_thousands() {
    let status = "Name:\tbash\nVmSwap:    12 kB\nThreads:\t1\n";
    assert_eq!(swap_usage(status), 12000);
}

#[test]
fn swap_defaults_to_zero() {
    assert_eq!(swap_usage("Name:\tkworker/0:1\nThreads:\t1\n"), 0);
}

#[test]
fn uid_is_first_number_of_its_line() {
    assert_eq!(uid("Name:\tx\nUid:\t1000\t1000\t1000\t1000\n"), 1000);
    assert_eq!(uid("Name:\tx\n"), 0);
    assert_eq!(uid("Uid:\t99999999999\n"), 0);
}

#[test]
fn io_counters() {
    let io = "rchar: 10\nwchar: 20\nread_bytes: 4096\nwrite_bytes: 8192\ncancelled_write_bytes: 7\n";
    assert_eq!(io_bytes(io), (Some(4096), Some(8192)));
    assert_eq!(io_bytes("rchar: 1\n"), (None, None));
}

#[test]
fn stat_fields_after_the_name() {
    let f = parse_stat(STAT).unwrap();
    assert_eq!(f.parent_pid, 1);
    assert_eq!(f.user_cpu_time, 150);
    assert_eq!(f.system_cpu_time, 75);
    assert_eq!(f.niceness.into_inner(), -5);
    assert_eq!(f.starttime, 98765);
}

#[test]
fn stat_with_missing_field_fails() {
    assert!(parse_stat("12 (x) S 1 2 3").is_none());
    assert!(parse_stat("").is_none());
}

#[test]
fn stat_with_niceness_out_of_range_fails() {
    let bad = STAT.replace(" 20 -5 ", " 20 25 ");
    assert!(parse_stat(&bad).is_none());
}

#[test]
fn cgroup_scope_name() {
    let name = sanitize_cgroup("0::/user.slice/app-myapp-1234.scope\n").unwrap();
    assert_eq!(name, chars("myapp"));
}

#[test]
fn cgroup_service_name() {
    let name = sanitize_cgroup("0::/system.slice/foo@1.service\n").unwrap();
    assert_eq!(name, chars("foo"));
}

#[test]
fn cgroup_escapes_are_decoded() {
    let name = sanitize_cgroup("0::/user.slice/app-my\\x41pp-99.scope").unwrap();
    assert_eq!(name, chars("myApp"));
}

#[test]
fn cgroup_dbus_service() {
    let name =
        sanitize_cgroup("0::/user.slice/dbus-:1.2-org.freedesktop.Notifications@0.service")
            .unwrap();
    assert_eq!(name, chars("org.freedesktop.Notifications"));
}

#[test]
fn cgroup_legacy_lines_are_ignored() {
    assert_eq!(sanitize_cgroup("1:name=systemd:/user.slice/app-x-1.scope\n0::/\n"), None);
    assert_eq!(sanitize_cgroup("1:name=systemd:/a.scope\n"), None);
    assert_eq!(sanitize_cgroup("0::/init.scope"), None);
}

#[test]
fn pci_slot_parses_its_shape() {
    let s = slot("0000:0a:1f.3");
    assert_eq!((s.domain, s.bus, s.device, s.function), (0, 10, 31, 3));
    assert!(PciSlot::parse("0000:0a:1f").is_none());
    assert!(PciSlot::parse("0000-0a:1f.3").is_none());
}

const AMD_FDINFO: &str = "pos:\t0\nflags:\t02100002\nmnt_id:\t24\ndrm-driver:\tamdgpu\ndrm-pdev:\t0000:03:00.0\ndrm-client-id:\t12\ndrm-memory-vram:\t2048 KiB\ndrm-memory-gtt:\t1024 KiB\ndrm-engine-gfx:\t100 ns\ndrm-engine-compute:\t20 ns\ndrm-engine-enc:\t7 ns\ndrm-engine-dec:\t9 ns\n";

#[test]
fn amd_fdinfo_fields() {
    let (s, stats) = read_gpu_fdinfo(AMD_FDINFO).unwrap();
    assert_eq!(s, slot("0000:03:00.0"));
    assert_eq!(
        stats,
        GpuUsageStats { gfx: 120, mem: 3072 * 1024, enc: 7, dec: 9, nvidia: false }
    );
}

#[test]
fn intel_fdinfo_fields() {
    let text = "drm-driver:\ti915\ndrm-pdev:\t0000:00:02.0\ndrm-engine-render:\t500 ns\ndrm-engine-video:\t40 ns\n";
    let (s, stats) = read_gpu_fdinfo(text).unwrap();
    assert_eq!(s, slot("0000:00:02.0"));
    assert_eq!(stats, GpuUsageStats { gfx: 500, mem: 0, enc: 40, dec: 0, nvidia: false });
}

#[test]
fn gpu_fdinfo_needs_slot_and_gpu_driver() {
    assert!(read_gpu_fdinfo("drm-driver:\tamdgpu\ndrm-engine-gfx:\t1 ns\n").is_none());
    assert!(read_gpu_fdinfo("drm-driver:\tnouveau\ndrm-pdev:\t0000:01:00.0\n").is_none());
}

#[test]
fn npu_fdinfo_fields() {
    let text = "drm-driver:\tamdxdna_accel_driver\ndrm-engine-npu-amdxdna:\t77 ns\ndrm-total-memory:\t3 KiB\n";
    let (s, stats) = read_npu_fdinfo(text).unwrap();
    assert_eq!(s, PciSlot::zero());
    assert_eq!(stats, NpuUsageStats { usage: 77, mem: 3072 });
    assert!(read_npu_fdinfo(AMD_FDINFO).is_none());
    assert!(read_npu_fdinfo("pos:\t0\n").is_none());
}

fn gfx_fdinfo(gfx: u64) -> String {
    format!("drm-driver:\tamdgpu\ndrm-pdev:\t0000:03:00.0\ndrm-engine-gfx:\t{gfx} ns\n")
}

fn drm_probe(fd_num: usize) -> FdProbe {
    FdProbe {
        fd_num,
        info_is_file: Some(true),
        fd_device: Some(DeviceInfo { is_char_device: true, major: 226 }),
    }
}

#[test]
fn fdinfo_readings_of_one_slot_take_the_maximum() {
    let mut scan = FdScan::new();
    assert!(scan.accept_entry(&drm_probe(5), false));
    scan.record(&gfx_fdinfo(100));
    assert!(scan.accept_entry(&drm_probe(6), false));
    scan.record(&gfx_fdinfo(150));
    let (gpu, npu) = scan.finish();
    assert_eq!(gpu.get(slot("0000:03:00.0")).unwrap().gfx, 150);
    assert_eq!(gpu.len(), 1);
    assert_eq!(npu.len(), 0);
}

#[test]
fn duplicate_fd_is_not_read() {
    let mut scan = FdScan::new();
    assert!(scan.accept_entry(&drm_probe(5), false));
    scan.record(&gfx_fdinfo(100));
    assert!(!scan.accept_entry(&drm_probe(9), true));
    assert_eq!(scan.seen_fds(), &vec![5]);
    let (gpu, _) = scan.finish();
    assert_eq!(gpu.get(slot("0000:03:00.0")).unwrap().gfx, 100);
}

#[test]
fn plausibility_of_probes() {
    assert_eq!(drm_fdinfo_plausible(&drm_probe(2)), Plausibility::Rejected);
    assert_eq!(drm_fdinfo_plausible(&drm_probe(3)), Plausibility::NeedsComparison);
    let unreadable = FdProbe { fd_num: 7, info_is_file: None, fd_device: None };
    assert_eq!(drm_fdinfo_plausible(&unreadable), Plausibility::Plausible);
    let not_file = FdProbe { fd_num: 7, info_is_file: Some(false), fd_device: None };
    assert_eq!(drm_fdinfo_plausible(&not_file), Plausibility::Rejected);
    let other_dev = FdProbe {
        fd_num: 7,
        info_is_file: Some(true),
        fd_device: Some(DeviceInfo { is_char_device: true, major: 1 }),
    };
    assert_eq!(drm_fdinfo_plausible(&other_dev), Plausibility::Rejected);
    let socket = FdProbe {
        fd_num: 7,
        info_is_file: Some(true),
        fd_device: Some(DeviceInfo { is_char_device: false, major: 226 }),
    };
    assert_eq!(drm_fdinfo_plausible(&socket), Plausibility::Rejected);
    let unstated = FdProbe { fd_num: 7, info_is_file: Some(true), fd_device: None };
    assert_eq!(drm_fdinfo_plausible(&unstated), Plausibility::NeedsComparison);
}

#[test]
fn fd_numbers_from_names() {
    assert_eq!(fd_number("17"), 17);
    assert_eq!(fd_number("abc"), 0);
    assert_eq!(fd_number(""), 0);
}

fn sample(pid: u32, sm: u32, enc: u32, dec: u32) -> UtilizationSample {
    UtilizationSample { pid, sm_util: sm, enc_util: enc, dec_util: dec }
}

#[test]
fn nvidia_samples_are_summed() {
    let device = NvidiaDevice {
        pci_slot: slot("0000:01:00.0"),
        samples: vec![sample(42, 10, 1, 2), sample(7, 99, 99, 99), sample(42, 15, 3, 4)],
        processes: vec![
            MemoryRecord { pid: 42, used_memory: Some(1000) },
            MemoryRecord { pid: 42, used_memory: None },
            MemoryRecord { pid: 42, used_memory: Some(24) },
            MemoryRecord { pid: 8, used_memory: Some(5) },
        ],
    };
    let stats = nvidia_gpu_stats(&device, 42);
    assert_eq!(stats, GpuUsageStats { gfx: 25, mem: 1024, enc: 4, dec: 6, nvidia: true });
    let none = nvidia_gpu_stats(&device, 3);
    assert_eq!(none, GpuUsageStats { gfx: 0, mem: 0, enc: 0, dec: 0, nvidia: true });
}

#[test]
fn nvidia_entries_take_precedence() {
    let mut fd = SlotMap::new();
    fd.set(slot("0000:01:00.0"), GpuUsageStats { gfx: 5, mem: 5, enc: 5, dec: 5, nvidia: false });
    fd.set(slot("0000:00:02.0"), GpuUsageStats { gfx: 1, mem: 0, enc: 0, dec: 0, nvidia: false });
    let devices = vec![NvidiaDevice {
        pci_slot: slot("0000:01:00.0"),
        samples: vec![sample(42, 30, 0, 0)],
        processes: vec![],
    }];
    let all = nvidia_gpu_stats_all(&devices, 42);
    assert_eq!(all.len(), 1);
    let merged = gpu_usage_stats(fd, &devices, 42);
    assert_eq!(merged.len(), 2);
    assert_eq!(merged.get(slot("0000:01:00.0")).unwrap().gfx, 30);
    assert!(merged.get(slot("0000:01:00.0")).unwrap().nvidia);
    assert_eq!(merged.get(slot("0000:00:02.0")).unwrap().gfx, 1);
    let keys: Vec<PciSlot> = merged.as_pairs().iter().map(|p| p.0).collect();
    assert_eq!(keys, vec![slot("0000:00:02.0"), slot("0000:01:00.0")]);
}

#[test]
fn window_starts_five_seconds_back() {
    assert_eq!(utilization_window_start(10_000), 5_000_000);
    assert_eq!(utilization_window_start(1_000), 0);
    assert_eq!(utilization_window_start(u64::MAX), u64::MAX - 5_000_000);
}

#[test]
fn snap_takes_precedence_over_flatpak() {
    assert_eq!(containerization("/snap/foo/bar", true), Containerization::Snap);
    assert_eq!(containerization("/usr/bin/foo", true), Containerization::Flatpak);
    assert_eq!(containerization("/usr/bin/foo", false), Containerization::Uncontained);
}

#[test]
fn user_names_fall_back_to_root() {
    let users = vec![(0, String::from("root")), (1000, String::from("alice"))];
    assert_eq!(user_name(&users, 1000), "alice");
    assert_eq!(user_name(&users, 4242), "root");
}

#[test]
fn comm_loses_its_newline() {
    assert_eq!(clean_comm("bash\n"), chars("bash"));
}

#[test]
fn pids_from_directory_names() {
    assert_eq!(parse_pid("1234"), Some(1234));
    assert_eq!(parse_pid("self"), None);
}

#[test]
fn clock_is_after_the_epoch() {
    assert!(unix_as_millis() > 1_600_000_000_000);
}

fn files() -> ProcessFiles {
    ProcessFiles {
        stat: STAT.to_string(),
        statm: "500 100 40 10 0 80 0\n".to_string(),
        status: "Name:\tprog\nUid:\t1000\t1000\t1000\t1000\nVmSwap:\t    12 kB\nCpus_allowed:\t5\n"
            .to_string(),
        comm: "prog\n".to_string(),
        cmdline: "/snap/prog/bin".to_string(),
        io: Some("read_bytes: 11\nwrite_bytes: 22\n".to_string()),
        cgroup: Some("0::/user.slice/app-prog-77.scope\n".to_string()),
        flatpak_info_exists: true,
    }
}

#[test]
fn snapshot_from_files() {
    let ctx = CollectionContext {
        users: vec![(1000, String::from("alice"))],
        num_cpus: 4,
        page_size: 4096,
    };
    let d = ProcessData::from_files(1234, &files(), &ctx, SlotMap::new(), SlotMap::new(), &vec![], 77)
        .unwrap();
    assert_eq!(d.pid, 1234);
    assert_eq!(d.parent_pid, 1);
    assert_eq!(d.user, "alice");
    assert_eq!(d.comm, "prog");
    assert_eq!(d.commandline, "/snap/prog/bin");
    assert_eq!(d.user_cpu_time, 150);
    assert_eq!(d.system_cpu_time, 75);
    assert_eq!(d.niceness.into_inner(), -5);
    assert_eq!(d.affinity, vec![true, false, true, false]);
    assert_eq!(d.memory_usage, 245760);
    assert_eq!(d.swap_usage, 12000);
    assert_eq!(d.starttime, 98765);
    assert_eq!(d.cgroup.as_deref(), Some("prog"));
    assert_eq!(d.containerization, Containerization::Snap);
    assert_eq!((d.read_bytes, d.write_bytes), (Some(11), Some(22)));
    assert_eq!(d.timestamp, 77);
    assert_eq!(d.gpu_usage_stats.len(), 0);
}

#[test]
fn snapshot_needs_stat_and_statm() {
    let ctx = CollectionContext { users: vec![], num_cpus: 2, page_size: 4096 };
    let mut f = files();
    f.statm = "".to_string();
    assert!(ProcessData::from_files(1, &f, &ctx, SlotMap::new(), SlotMap::new(), &vec![], 0)
        .is_none());
    let mut g = files();
    g.stat = "1 (x) S".to_string();
    assert!(ProcessData::from_files(1, &g, &ctx, SlotMap::new(), SlotMap::new(), &vec![], 0)
        .is_none());
    let mut h = files();
    h.io = None;
    h.cgroup = None;
    let d = ProcessData::from_files(1, &h, &ctx, SlotMap::new(), SlotMap::new(), &vec![], 0)
        .unwrap();
    assert_eq!((d.read_bytes, d.write_bytes, d.cgroup), (None, None, None));
    assert_eq!(d.user, "root");
}

#[test]
fn memory_saturates_at_the_largest_size() {
    let statm = format!("0 {} 0 0 0 0 0\n", usize::MAX);
    assert_eq!(memory_usage(&statm, 4096), Some(usize::MAX));
    assert_eq!(memory_usage("0 99999999999999999999999 0\n", 4096), None);
}

#[test]
fn swap_saturates_and_overflow_counts_as_missing() {
    let huge = format!("VmSwap:\t{} kB\n", usize::MAX);
    assert_eq!(swap_usage(&huge), usize::MAX);
    assert_eq!(swap_usage("VmSwap:\t99999999999999999999999 kB\n"), 0);
    assert_eq!(swap_usage("VmSwap:\t12 MB\n"), 0);
}

#[test]
fn gpu_counters_saturate() {
    let text = format!(
        "drm-driver:\tamdgpu\ndrm-pdev:\t0000:03:00.0\ndrm-engine-gfx:\t{} ns\ndrm-engine-compute:\t5 ns\ndrm-memory-vram:\t{} KiB\n",
        u64::MAX,
        u64::MAX / 2
    );
    let (_, stats) = read_gpu_fdinfo(&text).unwrap();
    assert_eq!(stats.gfx, u64::MAX);
    assert_eq!(stats.mem, u64::MAX);
}

#[test]
fn npu_readings_of_one_slot_take_the_maximum() {
    let mut scan = FdScan::new();
    let text = |usage: u64, kib: u64| {
        format!("drm-driver:\tamdxdna_accel_driver\ndrm-pdev:\t0000:c5:00.1\ndrm-engine-npu-amdxdna:\t{usage} ns\ndrm-total-memory:\t{kib} KiB\n")
    };
    assert!(scan.accept_entry(&drm_probe(4), false));
    scan.record(&text(10, 8));
    assert!(scan.accept_entry(&drm_probe(5), false));
    scan.record(&text(30, 2));
    let (gpu, npu) = scan.finish();
    assert_eq!(gpu.len(), 0);
    assert_eq!(npu.get(slot("0000:c5:00.1")), Some(NpuUsageStats { usage: 30, mem: 8192 }));
}

#[test]
fn empty_texts() {
    assert_eq!(affinity("", 0), Vec::<bool>::new());
    assert_eq!(swap_usage(""), 0);
    assert_eq!(uid(""), 0);
    assert_eq!(sanitize_cgroup(""), None);
    assert!(read_gpu_fdinfo("").is_none());
    assert!(read_npu_fdinfo("").is_none());
    assert_eq!(clean_comm(""), Vec::<char>::new());
}

#[test]
fn slot_map_keeps_one_value_per_slot_in_order() {
    let mut m = SlotMap::new();
    m.set(slot("0000:02:00.0"), 2u64);
    m.set(slot("0000:01:00.0"), 1u64);
    m.set(slot("0001:00:00.0"), 3u64);
    m.set(slot("0000:02:00.0"), 4u64);
    assert_eq!(m.len(), 3);
    assert_eq!(
        m.as_pairs(),
        &vec![(slot("0000:01:00.0"), 1), (slot("0000:02:00.0"), 4), (slot("0001:00:00.0"), 3)]
    );
    assert_eq!(m.get(slot("0000:03:00.0")), None);
}

#[test]
fn timestamps_from_elapsed_time() {
    assert_eq!(timestamp_from(Some(1_700_000_000_123)), 1_700_000_000_123);
    assert_eq!(timestamp_from(Some(u128::MAX)), u64::MAX);
    assert_eq!(timestamp_from(None), 0);
}

#[test]
fn containerization_defaults_to_none() {
    assert_eq!(Containerization::default(), Containerization::Uncontained);
}
