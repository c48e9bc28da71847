use razer_chroma::device::{
    serial_text, DiscoveryError, RazerDevice, SerialAnswer, SerialSource, RAZER_VENDOR_ID,
};
use razer_chroma::endpoint::{
    ControlRequest, Direction, Endpoint, EndpointInfo, TransferType,
};
use razer_chroma::hw::DeviceType;
use razer_chroma::razer::{RazerCmdStatus, RazerError, RazerPacket};

fn with_serial(product_id: u16, handle: usize, serial: &str) -> RazerDevice {
    let mut d = RazerDevice::new(product_id, handle);
    d.serial = serial.to_string();
    d
}

fn serial_answer(text: &[u8]) -> RazerPacket {
    let mut p = RazerPacket::new(0x00, 0x82, text);
    p.status = RazerCmdStatus::Successful;
    p
}

#[test]
fn classify_known_ids() {
    assert_eq!(DeviceType::from_id(0x0235), DeviceType::Keyboard(0x0235, "Blackwidow Lite (2018)"));
    assert_eq!(DeviceType::from_id(0x0224), DeviceType::Laptop(0x0224, "Razer blade 15 2016"));
    assert_eq!(
        DeviceType::from_id(0x0245),
        DeviceType::Laptop(0x0245, "Razer blade 15 mid 2019 (Mercury edition)")
    );
    assert_eq!(DeviceType::from_id(0x0256), DeviceType::Laptop(0x0256, "Razer blade Pro 2020 (FHD)"));
    assert_eq!(DeviceType::from_id(0x020F), DeviceType::Laptop(0x020F, "Razer blade QHD"));
    assert_eq!(DeviceType::from_id(0x0000), DeviceType::Unknown(0x0000));
    assert_eq!(DeviceType::from_id(0xFFFF), DeviceType::Unknown(0xFFFF));
}

#[test]
fn classify_every_laptop() {
    let laptops = [
        0x0224, 0x0233, 0x023A, 0x023B, 0x0240, 0x0245, 0x024B, 0x024D, 0x0253, 0x0255, 0x022D,
        0x0232, 0x0239, 0x024A, 0x0252, 0x0116, 0x0210, 0x0225, 0x022F, 0x0234, 0x024C, 0x0256,
        0x020F,
    ];
    let mut count = 0;
    for id in 0..=u16::MAX {
        let d = DeviceType::from_id(id);
        assert_eq!(d.id(), id);
        assert_eq!(d.is_laptop(), laptops.contains(&id));
        assert_eq!(d.is_keyboard(), id == 0x0235);
        assert!(!d.is_mouse());
        if d.is_laptop() {
            count += 1;
            assert!(d.get_name().starts_with("Razer"));
        }
    }
    assert_eq!(count, 23);
}

#[test]
fn device_kind_predicates_and_names() {
    let laptop = DeviceType::Laptop(1, "a laptop");
    let keyboard = DeviceType::Keyboard(2, "a keyboard");
    let mouse = DeviceType::Mouse(3, "a mouse");
    let unknown = DeviceType::Unknown(4);
    assert!(laptop.is_laptop() && !laptop.is_keyboard() && !laptop.is_mouse());
    assert!(!keyboard.is_laptop() && keyboard.is_keyboard() && !keyboard.is_mouse());
    assert!(!mouse.is_laptop() && !mouse.is_keyboard() && mouse.is_mouse());
    assert!(!unknown.is_laptop() && !unknown.is_keyboard() && !unknown.is_mouse());
    assert_eq!(laptop.get_name(), "a laptop");
    assert_eq!(keyboard.get_name(), "a keyboard");
    assert_eq!(mouse.get_name(), "a mouse");
    assert_eq!(unknown.get_name(), "UNKNOWN");
    assert_eq!(mouse.id(), 3);
}

#[test]
fn only_our_vendor_is_a_candidate() {
    assert_eq!(RAZER_VENDOR_ID, 0x1532);
    assert!(RazerDevice::is_candidate(0x1532));
    assert!(!RazerDevice::is_candidate(0x1533));
    assert!(!RazerDevice::is_candidate(0));
}

#[test]
fn new_device_has_no_serial_yet() {
    let d = RazerDevice::new(0x0235, 7);
    assert_eq!(d.serial, "UNKNOWN SN");
    assert_eq!(d.device, 7);
    assert!(d.device_type.is_keyboard());
}

#[test]
fn laptop_serial_comes_from_firmware() {
    let mut d = RazerDevice::new(0x0253, 0);
    assert!(matches!(d.serial_source(), SerialSource::Firmware));
    d.get_serial_number(SerialAnswer::Firmware(Some("BY2027A1".to_string())));
    assert_eq!(d.serial, "BY2027A1");
    d.get_serial_number(SerialAnswer::Firmware(None));
    assert_eq!(d.serial, "BY2027A1");
    d.get_serial_number(SerialAnswer::Response(Ok(serial_answer(b"PM123"))));
    assert_eq!(d.serial, "BY2027A1");
}

#[test]
fn laptop_without_firmware_serial_stays_unknown() {
    let mut d = RazerDevice::new(0x0253, 0);
    d.get_serial_number(SerialAnswer::Firmware(None));
    assert_eq!(d.serial, "UNKNOWN SN");
}

#[test]
fn keyboard_serial_comes_from_the_device() {
    let mut d = RazerDevice::new(0x0235, 0);
    match d.serial_source() {
        SerialSource::Query(p) => assert_eq!(p, RazerPacket::new(0x00, 0x82, &[0u8; 16])),
        SerialSource::Firmware => panic!("a keyboard is asked itself"),
    }
    d.get_serial_number(SerialAnswer::Response(Ok(serial_answer(b"PM1234H05600123"))));
    assert_eq!(d.serial, "PM1234H05600123");
    d.get_serial_number(SerialAnswer::Firmware(Some("BY2027A1".to_string())));
    assert_eq!(d.serial, "PM1234H05600123");
}

#[test]
fn failed_or_unreadable_answer_keeps_the_serial() {
    let mut d = RazerDevice::new(0x0235, 0);
    d.get_serial_number(SerialAnswer::Response(Err(RazerError::ECTimeout)));
    assert_eq!(d.serial, "UNKNOWN SN");
    d.get_serial_number(SerialAnswer::Response(Ok(serial_answer(&[0xFF, 0xFE, 0x41]))));
    assert_eq!(d.serial, "UNKNOWN SN");
    let mut odd = serial_answer(b"PM1");
    odd.data_size = 81;
    d.get_serial_number(SerialAnswer::Response(Ok(odd)));
    assert_eq!(d.serial, "UNKNOWN SN");
}

#[test]
fn serial_text_reads_data_size_bytes() {
    let mut p = serial_answer(b"ABCDEF");
    assert_eq!(serial_text(&p), Some("ABCDEF".to_string()));
    p.data_size = 3;
    assert_eq!(serial_text(&p), Some("ABC".to_string()));
    p.data_size = 0;
    assert_eq!(serial_text(&p), Some(String::new()));
    p.data_size = 8;
    assert_eq!(serial_text(&p), Some("ABCDEF\0\0".to_string()));
    assert_eq!(serial_text(&serial_answer("Tastatur \u{00e4}".as_bytes())), Some("Tastatur \u{00e4}".to_string()));
    assert_eq!(serial_text(&serial_answer(&[0xC3])), None);
    assert_eq!(serial_text(&serial_answer(&[0x80])), None);
    p.data_size = 200;
    assert_eq!(serial_text(&p), None);
}

#[test]
fn register_refuses_a_known_serial() {
    let mut located = Vec::new();
    assert!(RazerDevice::register(&mut located, with_serial(0x0235, 0, "A")));
    assert!(RazerDevice::register(&mut located, with_serial(0x0235, 1, "B")));
    assert!(!RazerDevice::register(&mut located, with_serial(0x0224, 2, "A")));
    assert_eq!(located.len(), 2);
    assert_eq!(located[0].device, 0);
    assert_eq!(located[1].device, 1);
}

#[test]
fn scan_lists_each_serial_once() {
    let found = vec![
        with_serial(0x0253, 0, "BY2027A1"),
        with_serial(0x0253, 1, "BY2027A1"),
        with_serial(0x0235, 2, "PM1"),
        with_serial(0x0253, 3, "BY2027A1"),
        with_serial(0x0235, 4, "PM2"),
        with_serial(0x0235, 5, "PM1"),
    ];
    let located = RazerDevice::scan_devices(found);
    let handles: Vec<usize> = located.iter().map(|d| d.device).collect();
    assert_eq!(handles, vec![0, 2, 4]);
    let serials: Vec<&str> = located.iter().map(|d| d.serial.as_str()).collect();
    assert_eq!(serials, vec!["BY2027A1", "PM1", "PM2"]);
    for i in 0..located.len() {
        for j in 0..i {
            assert_ne!(located[i].serial, located[j].serial);
        }
    }
}

#[test]
fn scan_of_unresolved_devices_keeps_one() {
    let found = vec![RazerDevice::new(0x0235, 0), RazerDevice::new(0x0224, 1)];
    let located = RazerDevice::scan_devices(found);
    assert_eq!(located.len(), 1);
    assert_eq!(located[0].device, 0);
}

#[test]
fn no_device_is_a_discovery_error() {
    let none = RazerDevice::scan_devices(Vec::new());
    assert!(none.is_empty());
    assert_eq!(RazerDevice::first_device(&none).err(), Some(DiscoveryError::NoDevice));
    let some = RazerDevice::scan_devices(vec![with_serial(0x0235, 9, "A"), with_serial(0x0235, 8, "B")]);
    assert_eq!(RazerDevice::first_device(&some).unwrap().device, 9);
}

fn info(iface: u8, direction: Direction, protocol_code: u8, has_kernel_driver: bool) -> EndpointInfo {
    EndpointInfo {
        config: 1,
        iface,
        setting: 0,
        address: 0x80 | iface,
        direction,
        transfer_type: TransferType::Interrupt,
        protocol_code,
        has_kernel_driver,
    }
}

#[test]
fn the_last_qualifying_endpoint_is_chosen() {
    let found = vec![
        info(0, Direction::In, 1, true),
        info(1, Direction::In, 2, true),
        info(2, Direction::In, 2, false),
        info(3, Direction::Out, 2, true),
        info(4, Direction::In, 1, true),
    ];
    let r = Endpoint::resolve(&found, 2).unwrap();
    assert_eq!(r.endpoint.iface(), 2);
    assert_eq!(r.endpoint.config(), 1);
    assert_eq!(r.endpoint.setting(), 0);
    assert_eq!(r.endpoint.address(), 0x82);
    assert_eq!(r.endpoint.transfer_type(), TransferType::Interrupt);
    assert!(!r.detach_now);
    assert!(!r.endpoint.has_kernel_driver());
    let r = Endpoint::resolve(&found, 1).unwrap();
    assert_eq!(r.endpoint.iface(), 4);
}

#[test]
fn no_qualifying_endpoint_is_a_discovery_error() {
    let found = vec![info(0, Direction::Out, 2, false), info(1, Direction::In, 1, false)];
    assert_eq!(Endpoint::resolve(&found, 2), Err(DiscoveryError::NoEndpoint));
    assert_eq!(Endpoint::resolve(&Vec::new(), 2), Err(DiscoveryError::NoEndpoint));
}

#[test]
fn driver_is_detached_once_when_several_qualify() {
    let found = vec![
        info(0, Direction::In, 2, true),
        info(1, Direction::In, 2, true),
        info(2, Direction::In, 2, true),
    ];
    let r = Endpoint::resolve(&found, 2).unwrap();
    assert_eq!(r.endpoint.iface(), 2);
    assert!(r.detach_now);
    assert!(!r.endpoint.has_kernel_driver());
    let plan = r.endpoint.driver_plan();
    assert!(!plan.detach_before);
    assert!(!plan.reattach_after);
}

#[test]
fn single_endpoint_keeps_its_driver_until_a_transfer() {
    let r = Endpoint::resolve(&vec![info(0, Direction::In, 2, true)], 2).unwrap();
    assert!(!r.detach_now);
    assert!(r.endpoint.has_kernel_driver());
    let plan = r.endpoint.driver_plan();
    assert!(plan.detach_before);
    assert!(plan.reattach_after);
    let mut endpoint = r.endpoint;
    endpoint.mark_detached();
    assert!(!endpoint.has_kernel_driver());
    endpoint.mark_detached();
    assert!(!endpoint.has_kernel_driver());
    assert!(!endpoint.driver_plan().detach_before);
    assert_eq!(endpoint.iface(), 0);
}

#[test]
fn control_transfers_carry_the_fixed_constants() {
    let r = Endpoint::resolve(&vec![info(3, Direction::In, 2, false)], 2).unwrap();
    assert_eq!(
        r.endpoint.send_request(),
        ControlRequest { request_type: 0x21, request: 0x09, value: 0x0300, index: 3, timeout_millis: 1000 }
    );
    assert_eq!(
        r.endpoint.receive_request(),
        ControlRequest { request_type: 0xA1, request: 0x01, value: 0x0300, index: 3, timeout_millis: 1000 }
    );
}
