use fmtp::{FmtpPacket, FmtpPacketHeader, FmtpType};

#[test]
fn fmtp_type_to_u8() {
    assert_eq!(FmtpType::Operational.to_u8(), 1);
    assert_eq!(FmtpType::Operator.to_u8(), 2);
    assert_eq!(FmtpType::Identification.to_u8(), 3);
    assert_eq!(FmtpType::System.to_u8(), 4);
}

#[test]
fn fmtp_header_to_bytes() {
    let header = FmtpPacketHeader::new(FmtpType::Operator, 5);
    assert_eq!([2, 0, 0, 5, 2], header.as_bytes());
}

#[test]
fn header_length_is_big_endian() {
    let header = FmtpPacketHeader::new(FmtpType::System, 0x0102);
    assert_eq!([2, 0, 1, 2, 4], header.as_bytes());
    assert_eq!(header.length(), 258);
}

#[test]
fn control_packets_on_the_wire() {
    assert_eq!(FmtpPacket::heartbeat().into_bytes(), vec![2, 0, 0, 7, 4, b'0', b'3']);
    assert_eq!(FmtpPacket::startup().into_bytes(), vec![2, 0, 0, 7, 4, b'0', b'1']);
    assert_eq!(FmtpPacket::shutdown().into_bytes(), vec![2, 0, 0, 7, 4, b'0', b'0']);
    assert_eq!(FmtpPacket::accept().into_bytes(), b"\x02\x00\x00\x0b\x03ACCEPT".to_vec());
    assert_eq!(FmtpPacket::reject().into_bytes(), b"\x02\x00\x00\x0b\x03REJECT".to_vec());
}
