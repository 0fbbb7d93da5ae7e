use code_termination::stun::{parse_stun_response, stun_binding_request, MappedAddress};

fn header(body_len: u8) -> Vec<u8> {
    let mut r = vec![0x01, 0x01, 0x00, body_len, 0x21, 0x12, 0xA4, 0x42];
    r.extend(8u8..20);
    r
}

fn xor_attr(a: [u8; 4], port: u16) -> Vec<u8> {
    let xp = port ^ 0x2112;
    vec![0x00, 0x20, 0x00, 0x08, 0x00, 0x01, (xp >> 8) as u8, xp as u8, a[0] ^ 0x21, a[1] ^ 0x12, a[2] ^ 0xA4, a[3] ^ 0x42]
}

#[test]
fn binding_request_bytes() {
    assert_eq!(
        stun_binding_request(),
        vec![0x00, 0x01, 0x00, 0x00, 0x21, 0x12, 0xA4, 0x42, 8, 9, 10, 11, 12, 13, 14, 15, 16, 17, 18, 19]
    );
}

#[test]
fn xor_mapped_address_is_unmasked() {
    let mut r = header(12);
    r.extend(xor_attr([203, 0, 113, 5], 50505));
    let m = parse_stun_response(&r).unwrap();
    assert_eq!(m, MappedAddress { a: 203, b: 0, c: 113, d: 5, port: 50505 });
    assert_eq!(m.text(), "203.0.113.5:50505");
}

#[test]
fn mapped_address_is_read_as_is() {
    let mut r = header(12);
    r.extend([0x00, 0x01, 0x00, 0x08, 0x00, 0x01, 0x1F, 0x90, 10, 0, 0, 7]);
    assert_eq!(parse_stun_response(&r), Some(MappedAddress { a: 10, b: 0, c: 0, d: 7, port: 8080 }));
}

#[test]
fn unknown_attributes_are_skipped_with_padding() {
    let mut r = header(24);
    r.extend([0x80, 0x22, 0x00, 0x05, b'v', b'e', b'r', b'1', b'x', 0, 0, 0]);
    r.extend(xor_attr([1, 2, 3, 4], 9));
    assert_eq!(parse_stun_response(&r), Some(MappedAddress { a: 1, b: 2, c: 3, d: 4, port: 9 }));
}

#[test]
fn ipv6_and_short_attributes_are_skipped() {
    let mut r = header(32);
    r.extend([0x00, 0x20, 0x00, 0x04, 0x00, 0x02, 0x00, 0x00]);
    r.extend([0x00, 0x01, 0x00, 0x08, 0x00, 0x02, 0x00, 0x50, 1, 1, 1, 1]);
    r.extend(xor_attr([8, 8, 4, 4], 443));
    assert_eq!(parse_stun_response(&r), Some(MappedAddress { a: 8, b: 8, c: 4, d: 4, port: 443 }));
}

#[test]
fn rejected_responses() {
    let mut good = header(12);
    good.extend(xor_attr([1, 2, 3, 4], 5));
    assert!(parse_stun_response(&good).is_some());
    assert_eq!(parse_stun_response(&good[..19]), None);
    let mut wrong_type = good.clone();
    wrong_type[1] = 0x11;
    assert_eq!(parse_stun_response(&wrong_type), None);
    let mut wrong_id = good.clone();
    wrong_id[12] = 0;
    assert_eq!(parse_stun_response(&wrong_id), None);
    let mut overrun = good.clone();
    overrun[23] = 0x09;
    assert_eq!(parse_stun_response(&overrun), None);
    assert_eq!(parse_stun_response(&good[..31]), None);
    let mut short_header = good.clone();
    short_header[3] = 4;
    assert_eq!(parse_stun_response(&short_header), None);
    assert_eq!(parse_stun_response(&header(0)), None);
}
