use dash_button::error::Error;
use dash_button::ethernet::{EtherType, Frame};

fn frame_bytes(ethertype: [u8; 2]) -> Vec<u8> {
    let mut v = vec![0xFF, 0xFF, 0xFF, 0xFF, 0xFF, 0xFF, 0xAA, 0xBB, 0xCC, 0x11, 0x22, 0x33];
    v.extend_from_slice(&ethertype);
    v.extend_from_slice(&[1, 2, 3]);
    v
}

#[test]
fn frame_fields() {
    let data = frame_bytes([0x08, 0x06]);
    let f = Frame::new(&data).unwrap();
    assert_eq!(f.destination(), &[0xFF; 6]);
    assert_eq!(f.source(), &[0xAA, 0xBB, 0xCC, 0x11, 0x22, 0x33]);
    assert_eq!(f.ethertype(), EtherType::ARP);
    assert_eq!(f.payload(), &[1, 2, 3]);
}

#[test]
fn frame_with_header_only_has_empty_payload() {
    let data = vec![0u8; 14];
    let f = Frame::new(&data).unwrap();
    assert_eq!(f.payload().len(), 0);
}

#[test]
fn short_frame_is_refused() {
    let data = vec![0u8; 13];
    assert_eq!(Frame::new(&data).err().unwrap(), Error::MalformedFrame { len: 13 });
    assert_eq!(Frame::new(&[]).err().unwrap(), Error::MalformedFrame { len: 0 });
}

#[test]
fn ethertype_known_codes() {
    assert_eq!(EtherType::from_code(0x0800), EtherType::IPv4);
    assert_eq!(EtherType::from_code(0x0806), EtherType::ARP);
    assert_eq!(EtherType::from_code(0x86DD), EtherType::IPv6);
    assert_eq!(EtherType::from(0x86DDu16), EtherType::IPv6);
}

#[test]
fn ethertype_boundary_codes() {
    assert_eq!(EtherType::from_code(0x0000), EtherType::Unknown(0x0000));
    assert_eq!(EtherType::from_code(0xFFFF), EtherType::Unknown(0xFFFF));
    assert_eq!(EtherType::from_code(0x0807), EtherType::Unknown(0x0807));
}

#[test]
fn ethertype_read_big_endian() {
    let data = frame_bytes([0x86, 0xDD]);
    assert_eq!(Frame::new(&data).unwrap().ethertype(), EtherType::IPv6);
    let data = frame_bytes([0x00, 0x08]);
    assert_eq!(Frame::new(&data).unwrap().ethertype(), EtherType::Unknown(0x0008));
    let data = frame_bytes([0x08, 0x00]);
    assert_eq!(Frame::new(&data).unwrap().ethertype(), EtherType::IPv4);
}
