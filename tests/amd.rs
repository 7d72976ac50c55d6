use process_data::amd::{amdgpu_name, parse_amdgpu_ids, AmdGpu};
use process_data::pci_slot::PciSlot;

const IDS: &str = "# List of AMDGPU IDs\n#\n# Syntax:\n# device_id,\trevision_id,\tproduct_name        <-- single tab after comma\n\n1.0.0\n1309,\t00,\tAMD Radeon R7 Graphics\n73BF,\tC1,\tAMD Radeon RX 6900 XT\n73BF,\tC1,\tAMD Radeon RX 6900 XT (later)\n";

#[test]
fn amdgpu_ids_lines() {
    let ids = parse_amdgpu_ids(IDS);
    assert_eq!(ids.len(), 3);
    assert_eq!((ids[0].device_id, ids[0].revision), (0x1309, 0x00));
    assert_eq!(ids[0].name, "AMD Radeon R7 Graphics");
    assert_eq!((ids[1].device_id, ids[1].revision), (0x73BF, 0xC1));
}

#[test]
fn amdgpu_name_lookup_takes_the_last_entry() {
    let ids = parse_amdgpu_ids(IDS);
    assert_eq!(amdgpu_name(&ids, 0x73BF, 0xC1).as_deref(), Some("AMD Radeon RX 6900 XT (later)"));
    assert_eq!(amdgpu_name(&ids, 0x1309, 0x00).as_deref(), Some("AMD Radeon R7 Graphics"));
    assert_eq!(amdgpu_name(&ids, 0x1309, 0x01), None);
}

fn gpu(gc: Option<i64>, vcn: Option<i64>) -> AmdGpu {
    AmdGpu::new(
        Some(0x73BF),
        PciSlot::parse("0000:03:00.0").unwrap(),
        "amdgpu".to_string(),
        "/sys/class/drm/card0".to_string(),
        Some("/sys/class/hwmon/hwmon3".to_string()),
        gc,
        vcn,
    )
}

#[test]
fn combined_media_engine_needs_both_generations() {
    assert!(gpu(Some(11), Some(4)).combined_media_engine());
    assert!(gpu(Some(9), Some(4)).combined_media_engine());
    assert!(!gpu(Some(8), Some(4)).combined_media_engine());
    assert!(!gpu(Some(11), Some(3)).combined_media_engine());
    assert!(!gpu(None, Some(4)).combined_media_engine());
    assert!(!gpu(Some(11), None).combined_media_engine());
}

#[test]
fn amd_gpu_getters() {
    let g = gpu(None, None);
    assert_eq!(g.device(), Some(0x73BF));
    assert_eq!(g.pci_slot(), PciSlot::parse("0000:03:00.0").unwrap());
    assert_eq!(g.driver(), "amdgpu");
    assert_eq!(g.sysfs_path(), "/sys/class/drm/card0");
    assert_eq!(g.first_hwmon().as_deref(), Some("/sys/class/hwmon/hwmon3"));
}
