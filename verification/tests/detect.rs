use khonsu::addr::{IpAddress, Ipv4Address};
use khonsu::daemon::{DetectCause, RefreshErrorKind};
use khonsu::detect::{cmd_output_address, http_body_address};

fn v4(o0: u8, o1: u8, o2: u8, o3: u8) -> IpAddress {
    IpAddress::V4(Ipv4Address { o0, o1, o2, o3 })
}

// Verifies detection from a script's captured standard output
#[test]
fn test_cmd() {
    let detected = cmd_output_address(b"127.1.2.3\n").unwrap();
    assert_eq!(v4(127, 1, 2, 3), detected);
}

#[test]
fn test_cmd_rejects_garbage() {
    let r = cmd_output_address(b"no address here");
    assert!(matches!(
        r,
        Err(RefreshErrorKind::DetectError(DetectCause::AddressParse))
    ));
    let r = cmd_output_address(&[0xff, 0xfe, 0x31]);
    assert!(matches!(
        r,
        Err(RefreshErrorKind::DetectError(DetectCause::AddressParse))
    ));
}

// Verifies a simple HTTP response with the IP address works
#[test]
fn test_http_basic() {
    let detected = http_body_address("127.1.2.3", None).unwrap();
    assert_eq!(v4(127, 1, 2, 3), detected);
}

// Verifies we can extract the IP from a more complex response
#[test]
fn test_http_regex() {
    let body = "<html><body>Your IP is: 127.1.2.3</body></html>";
    let detected = http_body_address(body, Some(": (.*?)<")).unwrap();
    assert_eq!(v4(127, 1, 2, 3), detected);
}

#[test]
fn test_http_body_whitespace() {
    let detected = http_body_address("  127.1.2.3\r\n", None).unwrap();
    assert_eq!(v4(127, 1, 2, 3), detected);
}

#[test]
fn test_http_invalid_pattern() {
    let r = http_body_address("127.1.2.3", Some("("));
    assert!(matches!(
        r,
        Err(RefreshErrorKind::DetectError(DetectCause::PatternInvalid))
    ));
}

#[test]
fn test_http_pattern_without_match() {
    let r = http_body_address("nothing of note", Some("ip: ([0-9.]+)"));
    match r {
        Err(RefreshErrorKind::RuntimeError(m)) => {
            assert_eq!(
                m,
                "Unable to find IP in nothing of note with regex ip: ([0-9.]+)"
            );
        }
        other => panic!("expected a runtime error, got {:?}", other),
    }
}

#[test]
fn test_http_pattern_without_group() {
    // A pattern that matches but has no capture group yields no candidate.
    let r = http_body_address("127.1.2.3", Some("[0-9.]+"));
    assert!(matches!(r, Err(RefreshErrorKind::RuntimeError(_))));
}

#[test]
fn test_http_candidate_not_an_address() {
    let body = "<b>addr: zzz</b>";
    let r = http_body_address(body, Some(": (.*?)<"));
    assert!(matches!(
        r,
        Err(RefreshErrorKind::DetectError(DetectCause::AddressParse))
    ));
}
