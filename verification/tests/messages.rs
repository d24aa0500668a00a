use tokio_ssdp::{Device, Server};
use tokio_ssdp::message::{format_alive, format_byebye, format_search_response};
use tokio_ssdp::text::u64_to_string;

#[test]
fn device_usn_joins_id_and_target() {
    let d = Device::new("uuid-1", "upnp:rootdevice", "http://10.0.0.2/desc.xml");
    assert_eq!(d.usn, "uuid-1::upnp:rootdevice");
    assert_eq!(d.unique_id, "uuid-1");
    assert_eq!(d.search_target, "upnp:rootdevice");
    assert_eq!(d.location, "http://10.0.0.2/desc.xml");
}

#[test]
fn device_usn_with_empty_target_is_id_alone() {
    let d = Device::new("uuid-1", "", "http://10.0.0.2/desc.xml");
    assert_eq!(d.usn, "uuid-1");
}

#[test]
fn u64_decimal_text() {
    assert_eq!(u64_to_string(0), "0");
    assert_eq!(u64_to_string(7), "7");
    assert_eq!(u64_to_string(100), "100");
    assert_eq!(u64_to_string(u64::MAX), "18446744073709551615");
}

#[test]
fn search_response_exact_text() {
    let r = format_search_response(
        100,
        "Sun, 06 Nov 1994 08:49:37 GMT",
        "http://10.0.0.2/desc.xml",
        "Tokio-SSDP/1.0 UPnP/1.0",
        "upnp:rootdevice",
        "uuid-1::upnp:rootdevice",
        "",
    );
    let expected = "HTTP/1.1 200 OK\r\n\
        CACHE-CONTROL: max-age=100\r\n\
        DATE: Sun, 06 Nov 1994 08:49:37 GMT\r\n\
        EXT:\r\n\
        LOCATION: http://10.0.0.2/desc.xml\r\n\
        SERVER: Tokio-SSDP/1.0 UPnP/1.0\r\n\
        ST: upnp:rootdevice\r\n\
        USN: uuid-1::upnp:rootdevice\r\n\
        \r\n";
    assert_eq!(r, expected);
}

#[test]
fn alive_exact_text() {
    let r = format_alive(
        100,
        "http://10.0.0.2/desc.xml",
        "Tokio-SSDP/1.0 UPnP/1.0",
        "upnp:rootdevice",
        "uuid-1::upnp:rootdevice",
        "",
    );
    let expected = "NOTIFY * HTTP/1.1\r\n\
        HOST: 239.255.255.250:1900\r\n\
        CACHE-CONTROL: max-age=100\r\n\
        LOCATION: http://10.0.0.2/desc.xml\r\n\
        NT: upnp:rootdevice\r\n\
        NTS: ssdp:alive\r\n\
        SERVER: Tokio-SSDP/1.0 UPnP/1.0\r\n\
        USN: uuid-1::upnp:rootdevice\r\n\
        \r\n";
    assert_eq!(r, expected);
}

#[test]
fn byebye_exact_text_keeps_alive_nts() {
    let r = format_byebye("upnp:rootdevice", "uuid-1::upnp:rootdevice", "");
    let expected = "NOTIFY * HTTP/1.1\r\n\
        HOST: 239.255.255.250:1900\r\n\
        NT: upnp:rootdevice\r\n\
        NTS: ssdp:alive\r\n\
        USN: uuid-1::upnp:rootdevice\r\n\
        \r\n";
    assert_eq!(r, expected);
}

#[test]
fn formatting_twice_is_byte_identical() {
    let a = format_search_response(
        1800,
        "Sun, 02 Oct 2016 14:44:11 GMT",
        "http://10.0.0.9:8080/d.xml",
        "Custom/2.0 UPnP/1.0",
        "urn:schemas-upnp-org:device:Basic:1",
        "uuid-9::urn:schemas-upnp-org:device:Basic:1",
        "BOOTID.UPNP.ORG: 1\r\n",
    );
    let b = format_search_response(
        1800,
        "Sun, 02 Oct 2016 14:44:11 GMT",
        "http://10.0.0.9:8080/d.xml",
        "Custom/2.0 UPnP/1.0",
        "urn:schemas-upnp-org:device:Basic:1",
        "uuid-9::urn:schemas-upnp-org:device:Basic:1",
        "BOOTID.UPNP.ORG: 1\r\n",
    );
    assert_eq!(a.as_bytes(), b.as_bytes());
}

#[test]
fn extra_headers_render_in_order() {
    let s = Server::new(vec![])
        .extra_header("CONFIGID.UPNP.ORG", "1")
        .extra_header("BOOTID.UPNP.ORG", "2");
    let text = s.render_extra_headers();
    assert_eq!(text, "CONFIGID.UPNP.ORG: 1\r\nBOOTID.UPNP.ORG: 2\r\n");
}

#[test]
fn builder_defaults_and_overrides() {
    let s = Server::new(vec![Device::new("u", "t", "l")]);
    assert_eq!(s.max_age, 100);
    assert!(s.server_name.is_none());
    assert!(!s.partial_req_workaround);
    assert_eq!(s.headers.len(), 0);
    assert_eq!(s.devices.len(), 1);

    let s = s
        .server_name("SomeRandomDevice/1.0 UPnP/1.0")
        .max_age(1800)
        .partial_request_workaround(true);
    assert_eq!(s.server_name.as_deref(), Some("SomeRandomDevice/1.0 UPnP/1.0"));
    assert_eq!(s.max_age, 1800);
    assert!(s.partial_req_workaround);
}
