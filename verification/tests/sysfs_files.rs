use cosmic_sys_monitor::sysfs::{
    nvml_devices, parse_trimmed_u64, pci_slot_from_uevents, pci_slot_name, vram_from_sysfs,
    vram_of_card, GpuDevice,
};

#[test]
fn pci_slot_is_read_from_its_line() {
    let uevent = "DRIVER=nvidia\nPCI_CLASS=30000\nPCI_SLOT_NAME=0000:01:00.0\nMODALIAS=pci:v\n";
    assert_eq!(pci_slot_name(uevent), Some("0000:01:00.0".to_string()));
}

#[test]
fn pci_slot_ignores_a_carriage_return_before_the_line_feed() {
    assert_eq!(
        pci_slot_name("A=1\r\nPCI_SLOT_NAME=0000:03:00.0\r\nB=2"),
        Some("0000:03:00.0".to_string())
    );
}

#[test]
fn pci_slot_on_the_last_line_without_line_feed() {
    assert_eq!(pci_slot_name("X=1\nPCI_SLOT_NAME=abc"), Some("abc".to_string()));
    assert_eq!(pci_slot_name("PCI_SLOT_NAME=abc\r"), Some("abc\r".to_string()));
}

#[test]
fn pci_slot_takes_the_first_matching_line() {
    assert_eq!(
        pci_slot_name("PCI_SLOT_NAME=first\nPCI_SLOT_NAME=second\n"),
        Some("first".to_string())
    );
}

#[test]
fn pci_slot_needs_the_prefix_at_the_start_of_a_line() {
    assert_eq!(pci_slot_name(" PCI_SLOT_NAME=x\nXPCI_SLOT_NAME=y"), None);
    assert_eq!(pci_slot_name(""), None);
    assert_eq!(pci_slot_name("\n\n"), None);
    assert_eq!(pci_slot_name("PCI_SLOT_NAME"), None);
    assert_eq!(pci_slot_name("PCI_SLOT_NAME=\n"), Some(String::new()));
}

#[test]
fn pci_slot_agrees_with_line_scanning() {
    let samples = [
        "a\nb\r\nPCI_SLOT_NAME=1\n",
        "PCI_SLOT_NAME=\r\r\n",
        "\r\nPCI_SLOT_NAME=é\n",
        "x\ny\nz",
        "PCI_SLOT_NAME=q\rPCI_SLOT_NAME=r\n",
    ];
    for s in samples {
        let mut expected = None;
        for line in s.lines() {
            if line.starts_with("PCI_SLOT_NAME=") {
                expected = line.strip_prefix("PCI_SLOT_NAME=").map(|x| x.to_string());
                break;
            }
        }
        assert_eq!(pci_slot_name(s), expected, "uevent = {:?}", s);
    }
}

#[test]
fn pci_slot_of_the_first_card_that_names_one() {
    let uevents = vec![None, Some("DRIVER=amdgpu\n".to_string()), Some("PCI_SLOT_NAME=0000:0a:00.0\n".to_string())];
    assert_eq!(pci_slot_from_uevents(&uevents), Some("0000:0a:00.0".to_string()));
    assert_eq!(pci_slot_from_uevents(&vec![None, None]), None);
}

#[test]
fn parse_agrees_with_std() {
    let samples = [
        "0",
        "42",
        " 42\n",
        "\t+17 ",
        "+",
        "-3",
        "",
        "   ",
        "12a",
        "1 2",
        "18446744073709551615",
        "18446744073709551616",
        "000000000000000000000000000123",
        "99999999999999999999",
        "\u{a0}7\u{3000}",
        "\u{2009}8\u{85}",
        "\u{200b}9",
        "٣",
        "+-1",
        "++1",
        "8589934592\n",
    ];
    for s in samples {
        assert_eq!(parse_trimmed_u64(s), s.trim().parse::<u64>().ok(), "text = {:?}", s);
    }
}

#[test]
fn vram_needs_both_files_numbers_and_a_total() {
    let s = |x: &str| Some(x.to_string());
    assert_eq!(vram_of_card(&s("100\n"), &s("8192\n")), Some((100, 8192)));
    assert_eq!(vram_of_card(&s("100\n"), &s("0\n")), None);
    assert_eq!(vram_of_card(&None, &s("8192\n")), None);
    assert_eq!(vram_of_card(&s("x"), &s("8192")), None);
}

#[test]
fn vram_comes_from_the_first_card_that_gives_it() {
    let s = |x: &str| Some(x.to_string());
    let cards = vec![(s("1"), s("0")), (s("5"), s("10"))];
    assert_eq!(vram_from_sysfs(&cards), Some((5, 10)));
    let cards = vec![(s("7"), s("9")), (s("5"), s("10"))];
    assert_eq!(vram_from_sysfs(&cards), Some((7, 9)));
    assert_eq!(vram_from_sysfs(&vec![(None, None), (s("1"), None)]), None);
}

#[test]
fn nvml_lookups_prefer_the_sysfs_slot() {
    let d = nvml_devices(Some("0000:01:00.0".to_string()));
    assert_eq!(d.len(), 2);
    assert!(matches!(&d[0], GpuDevice::BusId(b) if b == "0000:01:00.0"));
    assert!(matches!(d[1], GpuDevice::Index(0)));
    let d = nvml_devices(None);
    assert_eq!(d.len(), 1);
    assert!(matches!(d[0], GpuDevice::Index(0)));
}
