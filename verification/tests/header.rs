use mc_proxy::proxy::loadbalancer::Endpoint;
use mc_proxy::proxy::ppv2::{build_header, read_header, HeaderError, FIXED_LEN};
use tokio_util::bytes::Bytes;

const SIGNATURE: [u8; 12] = [
    0x0d, 0x0a, 0x0d, 0x0a, 0x00, 0x0d, 0x0a, 0x51, 0x55, 0x49, 0x54, 0x0a,
];

fn v4(ip: [u8; 4], port: u16) -> Endpoint {
    Endpoint::V4 { ip: u32::from_be_bytes(ip), port }
}

fn v6(ip: [u8; 16], port: u16) -> Endpoint {
    Endpoint::V6 { ip: u128::from_be_bytes(ip), port, flowinfo: 0, scope_id: 0 }
}

#[test]
fn header_of_an_ipv4_stream() {
    let header = build_header(v4([192, 168, 1, 7], 40000), v4([10, 0, 0, 1], 25565));
    let mut expected = SIGNATURE.to_vec();
    expected.extend_from_slice(&[0x21, 0x11, 0x00, 0x0c]);
    expected.extend_from_slice(&[192, 168, 1, 7, 10, 0, 0, 1]);
    expected.extend_from_slice(&[0x9c, 0x40, 0x63, 0xdd]);
    assert_eq!(header, expected);
    assert_eq!(header.len(), 28);
}

#[test]
fn header_of_an_ipv6_stream() {
    let mut from = [0u8; 16];
    from[0] = 0x20;
    from[1] = 0x01;
    from[15] = 0x01;
    let mut to = [0u8; 16];
    to[15] = 0x02;
    let header = build_header(v6(from, 1), v6(to, 0xffff));
    let mut expected = SIGNATURE.to_vec();
    expected.extend_from_slice(&[0x21, 0x21, 0x00, 0x24]);
    expected.extend_from_slice(&from);
    expected.extend_from_slice(&to);
    expected.extend_from_slice(&[0x00, 0x01, 0xff, 0xff]);
    assert_eq!(header, expected);
    assert_eq!(header.len(), 52);
}

#[test]
fn header_of_mixed_families_tells_no_addresses() {
    let header = build_header(v4([127, 0, 0, 1], 1), v6([0; 16], 2));
    let mut expected = SIGNATURE.to_vec();
    expected.extend_from_slice(&[0x20, 0x00, 0x00, 0x00]);
    assert_eq!(header, expected);
    assert_eq!(header.len(), FIXED_LEN);
}

#[test]
fn built_header_is_read_back() {
    let pairs = [
        (v4([1, 2, 3, 4], 5), v4([6, 7, 8, 9], 10)),
        (v6([0xff; 16], 65535), v6([0x11; 16], 0)),
        (v4([1, 2, 3, 4], 5), v6([0; 16], 2)),
    ];
    for (from, to) in pairs {
        let header = build_header(from, to);
        let mut bytes = header.clone();
        bytes.extend_from_slice(b"rest");
        let mut src = Bytes::from(bytes);
        assert_eq!(read_header(&mut src), Ok(header.len()));
        assert_eq!(src.to_vec(), b"rest".to_vec());
    }
}

#[test]
fn header_with_more_behind_the_addresses() {
    let mut bytes = SIGNATURE.to_vec();
    bytes.extend_from_slice(&[0x21, 0x11, 0x01, 0x02]);
    bytes.extend_from_slice(&[0u8; 0x0102]);
    bytes.push(0x99);
    let mut src = Bytes::from(bytes);
    assert_eq!(read_header(&mut src), Ok(16 + 0x0102));
    assert_eq!(src.to_vec(), vec![0x99]);
}

#[test]
fn short_input_is_truncated() {
    let mut src = Bytes::from(SIGNATURE.to_vec());
    assert_eq!(read_header(&mut src), Err(HeaderError::Truncated));
    assert_eq!(src.len(), 12);
    let mut src = Bytes::new();
    assert_eq!(read_header(&mut src), Err(HeaderError::Truncated));
}

#[test]
fn missing_addresses_are_truncated() {
    let mut bytes = SIGNATURE.to_vec();
    bytes.extend_from_slice(&[0x21, 0x11, 0x00, 0x0c]);
    bytes.extend_from_slice(&[0u8; 11]);
    let mut src = Bytes::from(bytes);
    assert_eq!(read_header(&mut src), Err(HeaderError::Truncated));
    assert_eq!(src.len(), 11);
}

#[test]
fn other_signature_is_rejected() {
    let mut bytes = SIGNATURE.to_vec();
    bytes[11] = 0x0b;
    bytes.extend_from_slice(&[0x21, 0x11, 0x00, 0x00]);
    let mut src = Bytes::from(bytes);
    assert_eq!(read_header(&mut src), Err(HeaderError::BadSignature));
    let mut src = Bytes::from(b"PROXY TCP4 1.2.3.4 5.6.7.8 1 2\r\n".to_vec());
    assert_eq!(read_header(&mut src), Err(HeaderError::BadSignature));
}

#[test]
fn other_version_is_rejected() {
    for version in [0x11, 0x31, 0x01] {
        let mut bytes = SIGNATURE.to_vec();
        bytes.extend_from_slice(&[version, 0x11, 0x00, 0x00]);
        let mut src = Bytes::from(bytes);
        assert_eq!(read_header(&mut src), Err(HeaderError::BadVersion));
    }
}

#[test]
fn header_error_texts() {
    assert_eq!(HeaderError::Truncated.message(), "proxy header incomplete");
    assert_eq!(HeaderError::BadSignature.message(), "not a proxy header");
    assert_eq!(HeaderError::BadVersion.message(), "proxy header of another version");
}
