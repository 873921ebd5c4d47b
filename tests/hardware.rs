use nvix::hwid::{
    detect_device_name, device_id_from_hardware_id, device_id_from_matching_id,
    find_device_name, gpu_id_from_drivers, scan_pci_ids, PciLine, PnpDriver,
};

const PCI_IDS: &str = "# List of PCI ID's\n#\n10de  NVIDIA Corporation\n\t2204  GA102 [GeForce RTX 3090]\n\t\t10de 1454  GA102 [GeForce RTX 3090 Founders Edition]\n\t2206  GA102 [GeForce RTX 3080]\n\t1234  Plain Name\n1002  Advanced Micro Devices, Inc. [AMD/ATI]\n\t73bf  Navi 21 [Radeon RX 6800/6800 XT / 6900 XT]\n\t2204  Not NVIDIA [Other]\n";

fn pnp(hw: Option<&str>, class: Option<&str>, name: Option<&str>) -> PnpDriver {
    PnpDriver {
        hardware_id: hw.map(|s| s.to_string()),
        device_class: class.map(|s| s.to_string()),
        device_name: name.map(|s| s.to_string()),
    }
}

#[test]
fn hardware_id_gives_lowercase_device_id() {
    assert_eq!(device_id_from_hardware_id("PCI\\VEN_10DE&DEV_2204&SUBSYS_3881103C&REV_A1"), "2204");
    assert_eq!(device_id_from_hardware_id("PCI\\VEN_10DE&DEV_1F9D"), "1f9d");
    assert_eq!(device_id_from_hardware_id("NOTHING"), "nothing");
}

#[test]
fn matching_id_gives_device_id() {
    assert_eq!(device_id_from_matching_id("pci\\ven_10de&dev_2204"), "2204");
    assert_eq!(device_id_from_matching_id("pci\\ven_10de&dev_2204&subsys_1"), "2204&subsys_1");
}

#[test]
fn first_display_adapter_with_hardware_id_wins() {
    let drivers = vec![
        pnp(Some("PCI\\VEN_8086&DEV_A0C8"), Some("MEDIA"), None),
        pnp(None, Some("DISPLAY"), None),
        pnp(Some("PCI\\VEN_10DE&DEV_25A2&SUBSYS_1"), None, Some("3D Video Controller")),
        pnp(Some("PCI\\VEN_10DE&DEV_2204"), Some("DISPLAY"), None),
    ];
    assert_eq!(gpu_id_from_drivers(&drivers), Some("25a2".to_string()));
    assert_eq!(gpu_id_from_drivers(&drivers[..2].to_vec()), None);
    assert_eq!(gpu_id_from_drivers(&Vec::new()), None);
}

#[test]
fn pci_scan_finds_nvidia_device_names() {
    assert_eq!(detect_device_name(PCI_IDS, "2204"), Some("GeForce RTX 3090".to_string()));
    assert_eq!(detect_device_name(PCI_IDS, "2206"), Some("GeForce RTX 3080".to_string()));
    assert_eq!(detect_device_name(PCI_IDS, "1234"), Some("Plain Name".to_string()));
    assert_eq!(detect_device_name(PCI_IDS, "73bf"), None);
    assert_eq!(detect_device_name(PCI_IDS, "ffff"), None);
    assert_eq!(detect_device_name("", "2204"), None);
}

#[test]
fn pci_scan_reports_what_each_line_holds() {
    let found = scan_pci_ids(PCI_IDS);
    assert_eq!(found.len(), 8);
    assert_eq!(found[0].vendor, Some("10de".to_string()));
    assert_eq!(found[0].device, None);
    assert_eq!(found[1].vendor, None);
    assert_eq!(
        found[1].device,
        Some(("2204".to_string(), "GA102 [GeForce RTX 3090]".to_string()))
    );
    assert_eq!(found[2].vendor, None);
    assert_eq!(found[2].device, None);
    assert_eq!(found[5].vendor, Some("1002".to_string()));
}

#[test]
fn device_lookup_follows_latest_vendor() {
    let lines = vec![
        PciLine { vendor: Some("1002".to_string()), device: None },
        PciLine { vendor: None, device: Some(("2204".to_string(), "AMD [No]".to_string())) },
        PciLine { vendor: Some("10de".to_string()), device: None },
        PciLine { vendor: None, device: Some(("2204".to_string(), "GA102 [Yes]".to_string())) },
    ];
    assert_eq!(find_device_name(&lines, "2204"), Some("Yes".to_string()));
    assert_eq!(find_device_name(&lines[..2].to_vec(), "2204"), None);
}

#[test]
fn vendor_then_device_line_gives_bracket_name() {
    let nvidia = "10de  NVIDIA Corporation\n\t2204  GA102 [GeForce RTX 3090]";
    assert_eq!(detect_device_name(nvidia, "2204"), Some("GeForce RTX 3090".to_string()));
    let amd = "1002  AMD\n\t2204  GA102 [GeForce RTX 3090]";
    assert_eq!(detect_device_name(amd, "2204"), None);
}

#[test]
fn pattern_edges_of_the_scan() {
    // upper-case hex, one space, or a missing tab do not make id lines
    let found = scan_pci_ids("10DE  Upper\n10de Single\n2204  no tab\r\n\t2204  ok\r\n");
    assert_eq!(found.len(), 4);
    assert_eq!(found[0].vendor, None);
    assert_eq!(found[1].vendor, None);
    assert_eq!(found[2].vendor, Some("2204".to_string()));
    assert_eq!(found[2].device, None);
    assert_eq!(found[3].vendor, None);
    assert_eq!(found[3].device, Some(("2204".to_string(), "ok".to_string())));
}
