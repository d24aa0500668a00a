use tokio_ssdp::{Device, Server};
use tokio_ssdp::lifecycle::{BroadcastPhase, LifecycleEvent, alive_step};
use tokio_ssdp::outside::http_date_now;

fn three_device_server() -> Server {
    Server::new(vec![
        Device::new("uuid-1", "upnp:rootdevice", "http://10.0.0.2/one.xml"),
        Device::new("uuid-2", "urn:a", "http://10.0.0.2/two.xml"),
        Device::new("uuid-3", "urn:b", "http://10.0.0.2/three.xml"),
    ])
    .max_age(100)
}

#[test]
fn alive_broadcast_has_one_message_per_device_in_order() {
    let s = three_device_server();
    let messages = s.alive_messages();
    assert_eq!(messages.len(), 3);
    for (m, usn) in messages.iter().zip([
        "uuid-1::upnp:rootdevice",
        "uuid-2::urn:a",
        "uuid-3::urn:b",
    ]) {
        assert!(m.starts_with("NOTIFY * HTTP/1.1\r\n"));
        assert!(m.contains("CACHE-CONTROL: max-age=100\r\n"));
        assert!(m.contains("NTS: ssdp:alive\r\n"));
        assert!(m.contains(&format!("USN: {}\r\n", usn)));
        assert!(m.ends_with("\r\n\r\n"));
    }
}

#[test]
fn byebye_broadcast_has_one_message_per_device_in_order() {
    let s = three_device_server();
    let messages = s.byebye_messages();
    assert_eq!(messages.len(), 3);
    assert!(messages[0].contains("USN: uuid-1::upnp:rootdevice\r\n"));
    assert!(messages[1].contains("USN: uuid-2::urn:a\r\n"));
    assert!(messages[2].contains("USN: uuid-3::urn:b\r\n"));
    for m in &messages {
        assert!(!m.contains("CACHE-CONTROL"));
        assert!(!m.contains("SERVER:"));
    }
}

#[test]
fn empty_registry_broadcasts_nothing() {
    let s = Server::new(vec![]);
    assert_eq!(s.alive_messages().len(), 0);
    assert_eq!(s.byebye_messages().len(), 0);
}

#[test]
fn alive_loop_cycles_until_shutdown() {
    let p = BroadcastPhase::Announcing;
    let p = alive_step(p, LifecycleEvent::WaitElapsed);
    assert_eq!(p, BroadcastPhase::Waiting);
    let p = alive_step(p, LifecycleEvent::WaitElapsed);
    assert_eq!(p, BroadcastPhase::Announcing);
    let p = alive_step(p, LifecycleEvent::WaitElapsed);
    let p = alive_step(p, LifecycleEvent::ShutdownSignal);
    assert_eq!(p, BroadcastPhase::Finished);
    let p = alive_step(p, LifecycleEvent::WaitElapsed);
    assert_eq!(p, BroadcastPhase::Finished);
}

#[test]
fn http_date_has_rfc1123_shape() {
    let d = http_date_now();
    assert_eq!(d.len(), 29);
    assert!(d.ends_with(" GMT"));
    assert_eq!(&d[3..5], ", ");
}
