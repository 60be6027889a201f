use agent_relay::descriptor::{parse_descriptor, DescriptorError, PortError, NONCE_LEN};

fn nonce(n: usize) -> Vec<u8> {
    (0..n).map(|i| (i as u8).wrapping_mul(37).wrapping_add(200)).collect()
}

fn file(line: &[u8], nonce: &[u8]) -> Vec<u8> {
    let mut f = line.to_vec();
    f.push(b'\n');
    f.extend_from_slice(nonce);
    f
}

#[test]
fn valid_descriptor_gives_port_and_nonce() {
    let n = nonce(NONCE_LEN);
    let d = parse_descriptor(&file(b"12345", &n)).unwrap();
    assert_eq!(d.port, 12345);
    assert_eq!(d.nonce, n);
}

#[test]
fn nonce_may_hold_newlines_and_zero_bytes() {
    let n = vec![b'\n', 0, 0, b'\r', 255, b'\n', 1, 2, 3, 4, 5, 6, 7, 8, 9, 10];
    let d = parse_descriptor(&file(b"0", &n)).unwrap();
    assert_eq!(d.port, 0);
    assert_eq!(d.nonce, n);
}

#[test]
fn port_line_is_trimmed() {
    let d = parse_descriptor(&file(b" \t8080 \r", &nonce(16))).unwrap();
    assert_eq!(d.port, 8080);
}

#[test]
fn port_with_sign_rejected() {
    let r = parse_descriptor(&file(b"+80", &nonce(16)));
    assert_eq!(r.err(), Some(DescriptorError::Port(PortError::InvalidDigit)));
}

#[test]
fn port_with_leading_zeros() {
    let d = parse_descriptor(&file(b"00443", &nonce(16))).unwrap();
    assert_eq!(d.port, 443);
}

#[test]
fn largest_port() {
    let d = parse_descriptor(&file(b"65535", &nonce(16))).unwrap();
    assert_eq!(d.port, 65535);
}

#[test]
fn port_out_of_range() {
    let r = parse_descriptor(&file(b"65536", &nonce(16)));
    assert_eq!(r.err(), Some(DescriptorError::Port(PortError::Overflow)));
}

#[test]
fn port_empty() {
    let r = parse_descriptor(&file(b"  ", &nonce(16)));
    assert_eq!(r.err(), Some(DescriptorError::Port(PortError::Empty)));
}

#[test]
fn port_not_numeric() {
    for line in [&b"abc"[..], b"+", b"-1", b"12 3", b"99999x"] {
        let r = parse_descriptor(&file(line, &nonce(16)));
        assert_eq!(r.err(), Some(DescriptorError::Port(PortError::InvalidDigit)));
    }
}

#[test]
fn long_nonce_rejected() {
    let r = parse_descriptor(&file(b"4000", &nonce(17)));
    assert_eq!(r.err(), Some(DescriptorError::InvalidNonce(17)));
}

#[test]
fn long_nonce_rejected_before_port() {
    let r = parse_descriptor(&file(b"not a port", &nonce(40)));
    assert_eq!(r.err(), Some(DescriptorError::InvalidNonce(40)));
}

#[test]
fn short_nonce_rejected() {
    let r = parse_descriptor(&file(b"4000", &nonce(15)));
    assert_eq!(r.err(), Some(DescriptorError::InvalidNonce(15)));
}

#[test]
fn missing_newline_rejected() {
    let r = parse_descriptor(&b"4000".to_vec());
    assert_eq!(r.err(), Some(DescriptorError::InvalidNonce(0)));
}
