use aura::i2c::{is_i2c_entry_name, parse_adapter_name, parse_pci_class, I2CAdapter, SMBUS_PCI_CLASS};

#[test]
fn pci_class_file_of_an_smbus_controller() {
    let class = parse_pci_class(&b"0x0c0500\n".to_vec());
    assert_eq!(class, Some(0x000C0500));
    assert_eq!(class, Some(SMBUS_PCI_CLASS));
}

#[test]
fn pci_class_of_another_device_differs() {
    let class = parse_pci_class(&b"0x030000\n".to_vec());
    assert_eq!(class, Some(0x030000));
    assert_ne!(class, Some(SMBUS_PCI_CLASS));
}

#[test]
fn pci_class_rejects_short_or_malformed_content() {
    assert_eq!(parse_pci_class(&b"0".to_vec()), None);
    assert_eq!(parse_pci_class(&b"".to_vec()), None);
    assert_eq!(parse_pci_class(&b"0xzz\n".to_vec()), None);
    assert_eq!(parse_pci_class(&b"0x\n".to_vec()), None);
}

#[test]
fn adapter_name_line_parses_port_and_base_address() {
    let parsed = parse_adapter_name(&b"SMBus PIIX4 adapter port 0 at 0b00\n".to_vec());
    assert_eq!(parsed, Some((0, 0xB00)));
    let parsed = parse_adapter_name(&b"SMBus PIIX4 adapter port 2 at 0b20\n".to_vec());
    assert_eq!(parsed, Some((2, 0xB20)));
}

#[test]
fn adapter_name_line_with_too_few_fields_is_rejected() {
    assert_eq!(parse_adapter_name(&b"short name\n".to_vec()), None);
    assert_eq!(parse_adapter_name(&b"\n".to_vec()), None);
}

#[test]
fn adapter_name_line_with_bad_numerals_is_rejected() {
    assert_eq!(parse_adapter_name(&b"adapter port x at 0b00\n".to_vec()), None);
    assert_eq!(parse_adapter_name(&b"adapter port 0 at 0xzz\n".to_vec()), None);
    assert_eq!(parse_adapter_name(&b"adapter port 300 at 0b00\n".to_vec()), None);
}

#[test]
fn i2c_directory_entries_are_recognised() {
    assert!(is_i2c_entry_name(&b"i2c-0".to_vec()));
    assert!(is_i2c_entry_name(&b"i2c-12".to_vec()));
    assert!(!is_i2c_entry_name(&b"usb-1".to_vec()));
    assert!(!is_i2c_entry_name(&b"i2c".to_vec()));
}

#[test]
fn adapter_record_carries_its_fields() {
    let adapter = I2CAdapter { path: String::from("/dev/i2c-3"), port: 0, base_address: 0xB00 };
    assert_eq!(adapter.path, "/dev/i2c-3");
    assert_eq!(adapter.port, 0);
    assert_eq!(adapter.base_address, 0xB00);
}
