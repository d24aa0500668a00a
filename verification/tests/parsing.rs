use tokio_ssdp::{Device, Server};
use tokio_ssdp::message::format_search_response;
use tokio_ssdp::parse::{ParseOutcome, parse_request};
use tokio_ssdp::server::{Dispatch, classify};
use tokio_ssdp::text::parse_u32_ascii;

fn msearch_datagram() -> Vec<u8> {
    b"M-SEARCH * HTTP/1.1\r\n\
      HOST: 239.255.255.250:1900\r\n\
      MAN: \"ssdp:discover\"\r\n\
      MX: 2\r\n\
      ST: upnp:rootdevice\r\n\
      \r\n"
        .to_vec()
}

#[test]
fn parses_complete_msearch() {
    let buf = b"M-SEARCH * HTTP/1.1\r\nMAN: \"ssdp:discover\"\r\nST: upnp:rootdevice\r\n\r\n";
    match parse_request(buf) {
        ParseOutcome::Complete(req) => {
            assert_eq!(req.method, b"M-SEARCH");
            assert_eq!(req.path, b"*");
            assert_eq!(req.headers.len(), 2);
            assert_eq!(req.headers[0].name, b"MAN");
            assert_eq!(req.headers[0].value, b"\"ssdp:discover\"");
            assert_eq!(req.headers[1].name, b"ST");
            assert_eq!(req.headers[1].value, b"upnp:rootdevice");
        }
        _ => panic!("expected a complete parse"),
    }
}

#[test]
fn strips_leading_value_whitespace() {
    let buf = b"NOTIFY * HTTP/1.1\r\nNT:   \t upnp:rootdevice\r\n\r\n";
    match parse_request(buf) {
        ParseOutcome::Complete(req) => {
            assert_eq!(req.headers[0].value, b"upnp:rootdevice");
        }
        _ => panic!("expected a complete parse"),
    }
}

#[test]
fn unterminated_request_is_incomplete() {
    let buf = b"M-SEARCH * HTTP/1.1\r\nST: upnp:rootdevice\r\n";
    assert!(matches!(parse_request(buf), ParseOutcome::Incomplete));
    assert!(matches!(parse_request(b""), ParseOutcome::Incomplete));
}

#[test]
fn header_without_colon_is_invalid() {
    let buf = b"M-SEARCH * HTTP/1.1\r\nNOCOLON\r\n\r\n";
    assert!(matches!(parse_request(buf), ParseOutcome::Invalid));
}

#[test]
fn request_line_without_two_tokens_is_invalid() {
    assert!(matches!(parse_request(b"M-SEARCH\r\n\r\n"), ParseOutcome::Invalid));
    assert!(matches!(parse_request(b" * HTTP/1.1\r\n\r\n"), ParseOutcome::Invalid));
}

#[test]
fn trailing_bytes_after_empty_line_are_ignored() {
    let buf = b"NOTIFY * HTTP/1.1\r\nNT: x\r\n\r\ntrailing garbage";
    assert!(matches!(parse_request(buf), ParseOutcome::Complete(_)));
}

#[test]
fn classify_routes_by_method_and_path() {
    let parse = |b: &[u8]| match parse_request(b) {
        ParseOutcome::Complete(req) => req,
        _ => panic!("expected a complete parse"),
    };
    let search = parse(b"M-SEARCH * HTTP/1.1\r\nA: b\r\n\r\n");
    assert!(matches!(classify(&search), Dispatch::Search));
    let notify = parse(b"NOTIFY * HTTP/1.1\r\nA: b\r\n\r\n");
    assert!(matches!(classify(&notify), Dispatch::Notify));
    let get = parse(b"GET /index HTTP/1.1\r\nA: b\r\n\r\n");
    assert!(matches!(classify(&get), Dispatch::Unknown));
    let wrong_path = parse(b"M-SEARCH /x HTTP/1.1\r\nA: b\r\n\r\n");
    assert!(matches!(classify(&wrong_path), Dispatch::Unknown));
}

#[test]
fn partial_workaround_completes_bare_crlf_request() {
    let s = Server::new(vec![]).partial_request_workaround(true);
    let mut data: Vec<u8> =
        b"M-SEARCH * HTTP/1.1\r\nMAN: \"ssdp:discover\"\r\nST: a\r\n".to_vec();
    assert!(matches!(parse_request(&data), ParseOutcome::Incomplete));
    s.apply_partial_request_workaround(&mut data);
    assert!(matches!(parse_request(&data), ParseOutcome::Complete(_)));
}

#[test]
fn partial_workaround_leaves_complete_requests_alone() {
    let s = Server::new(vec![]).partial_request_workaround(true);
    let mut data = msearch_datagram();
    let before = data.clone();
    s.apply_partial_request_workaround(&mut data);
    assert_eq!(data, before);
}

#[test]
fn partial_workaround_off_leaves_data_alone() {
    let s = Server::new(vec![]);
    let mut data: Vec<u8> = b"M-SEARCH * HTTP/1.1\r\nST: a\r\n".to_vec();
    let before = data.clone();
    s.apply_partial_request_workaround(&mut data);
    assert_eq!(data, before);
}

#[test]
fn parse_u32_accepts_digits_and_plus() {
    assert_eq!(parse_u32_ascii(b"0"), Some(0));
    assert_eq!(parse_u32_ascii(b"2"), Some(2));
    assert_eq!(parse_u32_ascii(b"007"), Some(7));
    assert_eq!(parse_u32_ascii(b"+5"), Some(5));
    assert_eq!(parse_u32_ascii(b"4294967295"), Some(u32::MAX));
}

#[test]
fn parse_u32_rejects_junk_and_overflow() {
    assert_eq!(parse_u32_ascii(b""), None);
    assert_eq!(parse_u32_ascii(b"+"), None);
    assert_eq!(parse_u32_ascii(b"-1"), None);
    assert_eq!(parse_u32_ascii(b"12a"), None);
    assert_eq!(parse_u32_ascii(b" 3"), None);
    assert_eq!(parse_u32_ascii(b"4294967296"), None);
}

#[test]
fn formatted_response_reparses_as_complete() {
    let r = format_search_response(
        100,
        "Sun, 06 Nov 1994 08:49:37 GMT",
        "http://10.0.0.2/desc.xml",
        "Tokio-SSDP/1.0 UPnP/1.0",
        "upnp:rootdevice",
        "uuid-1::upnp:rootdevice",
        "CONFIGID.UPNP.ORG: 1\r\n",
    );
    match parse_request(r.as_bytes()) {
        ParseOutcome::Complete(req) => {
            assert_eq!(req.method, b"HTTP/1.1");
            assert_eq!(req.path, b"200");
            assert_eq!(req.headers.len(), 8);
            assert_eq!(req.headers[6].name, b"USN");
            assert_eq!(req.headers[6].value, b"uuid-1::upnp:rootdevice");
        }
        _ => panic!("expected the formatted response to re-parse as complete"),
    }
}

#[test]
fn httparse_accepts_formatted_alive_message() {
    let d = Device::new("uuid-1", "upnp:rootdevice", "http://10.0.0.2/desc.xml");
    let s = Server::new(vec![d]);
    let messages = s.alive_messages();
    let mut headers = [httparse::EMPTY_HEADER; 16];
    let mut req = httparse::Request::new(&mut headers);
    let status = req.parse(messages[0].as_bytes()).expect("well-formed request");
    assert!(status.is_complete());
    assert_eq!(req.method, Some("NOTIFY"));
    assert_eq!(req.path, Some("*"));
}

#[test]
fn httparse_agrees_on_msearch_datagram() {
    let data = msearch_datagram();
    let ours = match parse_request(&data) {
        ParseOutcome::Complete(req) => req,
        _ => panic!("expected a complete parse"),
    };
    let mut headers = [httparse::EMPTY_HEADER; 16];
    let mut req = httparse::Request::new(&mut headers);
    let status = req.parse(&data).expect("well-formed request");
    assert!(status.is_complete());
    assert_eq!(req.method.unwrap().as_bytes(), ours.method.as_slice());
    assert_eq!(req.path.unwrap().as_bytes(), ours.path.as_slice());
    let theirs: Vec<(&[u8], &[u8])> =
        req.headers.iter().map(|h| (h.name.as_bytes(), h.value)).collect();
    let mine: Vec<(&[u8], &[u8])> = ours
        .headers
        .iter()
        .map(|h| (h.name.as_slice(), h.value.as_slice()))
        .collect();
    assert_eq!(theirs, mine);
}
