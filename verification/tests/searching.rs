use tokio_ssdp::{Device, Server};
use tokio_ssdp::parse::{ParseOutcome, ParsedRequest, parse_request};
use tokio_ssdp::search::{SearchError, extract_search, find_device, reply_delay};

const DATE: &str = "Sun, 06 Nov 1994 08:49:37 GMT";

fn parsed(datagram: &[u8]) -> ParsedRequest {
    match parse_request(datagram) {
        ParseOutcome::Complete(req) => req,
        _ => panic!("expected a complete parse"),
    }
}

fn two_device_server() -> Server {
    Server::new(vec![
        Device::new("uuid-1", "upnp:rootdevice", "http://10.0.0.2/one.xml"),
        Device::new("uuid-2", "urn:schemas-upnp-org:device:Basic:1", "http://10.0.0.2/two.xml"),
    ])
}

#[test]
fn matching_search_yields_one_reply_with_usn_and_location() {
    let s = two_device_server();
    let req = parsed(
        b"M-SEARCH * HTTP/1.1\r\nMAN: \"ssdp:discover\"\r\nMX: 1\r\nST: urn:schemas-upnp-org:device:Basic:1\r\n\r\n",
    );
    let reply = s.handle_search(&req, DATE).expect("valid request").expect("a match");
    assert!(reply.message.contains("USN: uuid-2::urn:schemas-upnp-org:device:Basic:1\r\n"));
    assert!(reply.message.contains("LOCATION: http://10.0.0.2/two.xml\r\n"));
    assert!(reply.message.contains("ST: urn:schemas-upnp-org:device:Basic:1\r\n"));
    assert!(reply.message.starts_with("HTTP/1.1 200 OK\r\n"));
    assert!(reply.message.ends_with("\r\n\r\n"));
}

#[test]
fn search_target_matches_case_insensitively() {
    let s = two_device_server();
    let req = parsed(
        b"M-SEARCH * HTTP/1.1\r\nMAN: \"ssdp:discover\"\r\nST: UPNP:ROOTDEVICE\r\n\r\n",
    );
    let reply = s.handle_search(&req, DATE).expect("valid request").expect("a match");
    assert!(reply.message.contains("USN: uuid-1::upnp:rootdevice\r\n"));
}

#[test]
fn unknown_search_target_yields_no_reply() {
    let s = two_device_server();
    let req = parsed(
        b"M-SEARCH * HTTP/1.1\r\nMAN: \"ssdp:discover\"\r\nST: urn:nothing-here\r\n\r\n",
    );
    assert!(s.handle_search(&req, DATE).expect("valid request").is_none());
}

#[test]
fn missing_man_is_invalid_and_unanswered() {
    let s = two_device_server();
    let req = parsed(b"M-SEARCH * HTTP/1.1\r\nST: upnp:rootdevice\r\n\r\n");
    assert!(matches!(s.handle_search(&req, DATE), Err(SearchError::MissingMan)));
}

#[test]
fn wrong_man_is_invalid_and_unanswered() {
    let s = two_device_server();
    let req = parsed(
        b"M-SEARCH * HTTP/1.1\r\nMAN: ssdp:discover\r\nST: upnp:rootdevice\r\n\r\n",
    );
    assert!(matches!(s.handle_search(&req, DATE), Err(SearchError::BadMan)));
}

#[test]
fn non_numeric_mx_is_invalid_and_unanswered() {
    let s = two_device_server();
    let req = parsed(
        b"M-SEARCH * HTTP/1.1\r\nMAN: \"ssdp:discover\"\r\nMX: soon\r\nST: upnp:rootdevice\r\n\r\n",
    );
    assert!(matches!(s.handle_search(&req, DATE), Err(SearchError::InvalidMx)));
}

#[test]
fn missing_st_is_invalid_and_unanswered() {
    let s = two_device_server();
    let req = parsed(b"M-SEARCH * HTTP/1.1\r\nMAN: \"ssdp:discover\"\r\nMX: 1\r\n\r\n");
    assert!(matches!(s.handle_search(&req, DATE), Err(SearchError::MissingSt)));
}

#[test]
fn header_names_match_case_insensitively_and_last_st_wins() {
    let req = parsed(
        b"M-SEARCH * HTTP/1.1\r\nman: \"ssdp:discover\"\r\nmx: 3\r\nSt: first\r\nst: second\r\n\r\n",
    );
    let params = extract_search(&req.headers).expect("valid request");
    assert_eq!(params.st, b"second");
    assert_eq!(params.mx, 3);
}

#[test]
fn mx_defaults_to_zero() {
    let req = parsed(b"M-SEARCH * HTTP/1.1\r\nMAN: \"ssdp:discover\"\r\nST: a\r\n\r\n");
    let params = extract_search(&req.headers).expect("valid request");
    assert_eq!(params.mx, 0);
}

#[test]
fn first_registered_device_wins_on_duplicate_targets() {
    let devices = vec![
        Device::new("uuid-1", "upnp:rootdevice", "http://10.0.0.2/one.xml"),
        Device::new("uuid-2", "upnp:rootdevice", "http://10.0.0.2/two.xml"),
    ];
    assert_eq!(find_device(&devices, b"upnp:rootdevice"), Some(0));
    let s = Server::new(devices);
    let req = parsed(
        b"M-SEARCH * HTTP/1.1\r\nMAN: \"ssdp:discover\"\r\nST: upnp:rootdevice\r\n\r\n",
    );
    let reply = s.handle_search(&req, DATE).expect("valid request").expect("a match");
    assert!(reply.message.contains("USN: uuid-1::upnp:rootdevice\r\n"));
}

#[test]
fn find_device_reports_no_match() {
    let devices = vec![Device::new("uuid-1", "upnp:rootdevice", "http://10.0.0.2/one.xml")];
    assert_eq!(find_device(&devices, b"urn:other"), None);
}

#[test]
fn zero_mx_replies_immediately_and_larger_mx_is_clamped() {
    assert_eq!(reply_delay(0), 0);
    assert_eq!(reply_delay(1), 0);
    for _ in 0..100 {
        assert!(reply_delay(2) < 2);
        assert!(reply_delay(10) < 3);
        assert!(reply_delay(u32::MAX) < 3);
    }
}

#[test]
fn reply_delay_of_matched_search_respects_mx() {
    let s = two_device_server();
    let req = parsed(
        b"M-SEARCH * HTTP/1.1\r\nMAN: \"ssdp:discover\"\r\nMX: 10\r\nST: upnp:rootdevice\r\n\r\n",
    );
    for _ in 0..50 {
        let reply = s.handle_search(&req, DATE).expect("valid request").expect("a match");
        assert!(reply.delay_secs < 3);
    }
    let req0 = parsed(
        b"M-SEARCH * HTTP/1.1\r\nMAN: \"ssdp:discover\"\r\nMX: 0\r\nST: upnp:rootdevice\r\n\r\n",
    );
    let reply = s.handle_search(&req0, DATE).expect("valid request").expect("a match");
    assert_eq!(reply.delay_secs, 0);
}

#[test]
fn empty_search_target_matches_device_with_empty_target() {
    let s = Server::new(vec![
        Device::new("uuid-1", "upnp:rootdevice", "http://10.0.0.2/one.xml"),
        Device::new("uuid-2", "", "http://10.0.0.2/two.xml"),
    ]);
    let req = parsed(b"M-SEARCH * HTTP/1.1\r\nMAN: \"ssdp:discover\"\r\nST: \r\n\r\n");
    let reply = s.handle_search(&req, DATE).expect("valid request").expect("a match");
    assert!(reply.message.contains("USN: uuid-2\r\n"));
    assert!(reply.message.contains("ST: \r\n"));
}

#[test]
fn extra_headers_appear_in_replies() {
    let s = two_device_server().extra_header("CONFIGID.UPNP.ORG", "1");
    let req = parsed(
        b"M-SEARCH * HTTP/1.1\r\nMAN: \"ssdp:discover\"\r\nST: upnp:rootdevice\r\n\r\n",
    );
    let reply = s.handle_search(&req, DATE).expect("valid request").expect("a match");
    assert!(reply.message.contains("CONFIGID.UPNP.ORG: 1\r\n"));
    assert!(reply.message.ends_with("CONFIGID.UPNP.ORG: 1\r\n\r\n"));
}

#[test]
fn error_descriptions_name_the_header() {
    assert_eq!(SearchError::MissingMan.describe(), "MAN header not found");
    assert_eq!(SearchError::MissingSt.describe(), "ST header not found");
    assert_eq!(SearchError::InvalidMx.describe(), "MX is not a number");
    assert_eq!(SearchError::BadMan.describe(), "MAN != \"ssdp:discover\"");
}
