use xarxa::driver::{self, Medium};
use xarxa::wire::{
    Error, EthernetAddress, HardwareAddress, Ieee802154Address, RawHardwareAddress,
};

#[test]
fn test_parse_hardware_address_ethernet() {
    let parse = |bytes: &[u8]| RawHardwareAddress::from_bytes(bytes).parse(Medium::Ethernet);
    assert_eq!(
        parse(&[0u8; 6]),
        Ok(HardwareAddress::Ethernet(EthernetAddress([0, 0, 0, 0, 0, 0])))
    );
    assert_eq!(parse(&[1u8; 5]), Err(Error));
    assert_eq!(parse(&[1u8; 7]), Err(Error));
}

#[test]
fn test_parse_hardware_address_ieee802154() {
    let parse = |bytes: &[u8]| RawHardwareAddress::from_bytes(bytes).parse(Medium::Ieee802154);
    assert_eq!(
        parse(&[0u8; 8]),
        Ok(HardwareAddress::Ieee802154(Ieee802154Address::Extended([0; 8])))
    );
    assert_eq!(parse(&[1u8; 2]), Err(Error));
    assert_eq!(parse(&[1u8; 1]), Err(Error));
}

#[test]
fn parse_on_a_medium_without_addresses() {
    assert_eq!(RawHardwareAddress::from_bytes(&[]).parse(Medium::Ip), Err(Error));
}

#[test]
fn raw_address_keeps_its_octets() {
    let raw = RawHardwareAddress::from_bytes(&[2, 0, 0, 0, 0xab, 1]);
    assert_eq!(raw.as_bytes(), &[2, 0, 0, 0, 0xab, 1]);
    assert_eq!(raw.len(), 6);
    assert!(!raw.is_empty());
    assert!(RawHardwareAddress::from_bytes(&[]).is_empty());
    assert_eq!(raw, RawHardwareAddress::from(EthernetAddress([2, 0, 0, 0, 0xab, 1])));
    assert_eq!(
        raw.parse(Medium::Ethernet),
        Ok(HardwareAddress::Ethernet(EthernetAddress([2, 0, 0, 0, 0xab, 1])))
    );
    assert_eq!(raw.text(), b"02:00:00:00:ab:01".to_vec());
    assert_eq!(RawHardwareAddress::from_bytes(&[]).text(), b"".to_vec());
}

#[test]
fn raw_addresses_are_equal_if_their_octets_are() {
    let octets: [&[u8]; 4] = [&[], &[0], &[0, 0], &[1, 2, 3, 4, 5, 6, 7, 8]];
    for a in octets {
        for b in octets {
            let equal = RawHardwareAddress::from_bytes(a) == RawHardwareAddress::from_bytes(b);
            assert_eq!(equal, a == b);
        }
        let raw = RawHardwareAddress::from_bytes(a);
        assert_eq!(RawHardwareAddress::from_bytes(raw.as_bytes()), raw);
    }
}

#[test]
fn driver_addresses_convert_back() {
    let reported = driver::HardwareAddress::Ieee802154([1, 2, 3, 4, 5, 6, 7, 8]);
    let addr = HardwareAddress::from_driver(reported).unwrap();
    assert_eq!(addr.medium(), Medium::Ieee802154);
    assert_eq!(addr.as_bytes(), &[1, 2, 3, 4, 5, 6, 7, 8]);
    assert!(matches!(
        addr.to_driver(),
        Some(driver::HardwareAddress::Ieee802154([1, 2, 3, 4, 5, 6, 7, 8]))
    ));
    let short = HardwareAddress::Ieee802154(Ieee802154Address::Short([1, 2]));
    assert!(short.to_driver().is_none());
    assert_eq!(short.as_eui_64(), None);
}

#[test]
fn interface_identifiers_and_kinds() {
    let addr = HardwareAddress::Ethernet(EthernetAddress([0x02, 0, 0, 0xaa, 0xbb, 0xcc]));
    assert_eq!(addr.as_eui_64(), Some([0, 0, 0, 0xff, 0xfe, 0xaa, 0xbb, 0xcc]));
    assert!(addr.is_unicast());
    assert!(!addr.is_broadcast());
    assert_eq!(addr.ethernet(), Some(EthernetAddress([0x02, 0, 0, 0xaa, 0xbb, 0xcc])));
    assert_eq!(addr.ieee802154(), None);
    let broadcast = HardwareAddress::Ethernet(EthernetAddress::broadcast());
    assert!(broadcast.is_broadcast());
    assert!(!broadcast.is_unicast());
    assert!(!HardwareAddress::Ip.is_unicast());
    assert!(!HardwareAddress::Ip.is_broadcast());
    assert_eq!(HardwareAddress::Ip.as_bytes(), &[] as &[u8]);
}
