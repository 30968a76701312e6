use idevice::usbmuxd::{Connection, UsbmuxdDevice};
use ioreg_explorer::message::{Command, FilterTriple, WorkerResult};
use ioreg_explorer::props::{PropValue, PropertySet};
use ioreg_explorer::worker::{
    build_roster, execute, extract_device_info, run_commands, DeviceProbe, EnumerationOutcome,
    IoOutcome,
};

fn device(udid: &str, id: u32) -> UsbmuxdDevice {
    UsbmuxdDevice {
        connection_type: Connection::Usb,
        udid: udid.to_string(),
        device_id: id,
    }
}

fn props(pairs: &[(&str, Option<&str>)]) -> PropertySet {
    let mut p = PropertySet::new();
    for (k, v) in pairs {
        match v {
            Some(t) => p.push(k.to_string(), PropValue::Text(t.to_string())),
            None => p.push(k.to_string(), PropValue::Other),
        }
    }
    p
}

#[test]
fn roster_skips_devices_without_name() {
    let probes = vec![
        DeviceProbe {
            device: device("a", 1),
            handshake: Some(props(&[("DeviceName", Some("iPhone"))])),
        },
        DeviceProbe {
            device: device("b", 2),
            handshake: Some(props(&[("ProductType", Some("iPad16,3"))])),
        },
        DeviceProbe {
            device: device("c", 3),
            handshake: None,
        },
        DeviceProbe {
            device: device("d", 4),
            handshake: Some(props(&[("DeviceName", None)])),
        },
    ];
    let r = build_roster(&probes);
    assert_eq!(r.len(), 1);
    assert_eq!(r.name_at(0).as_str(), "iPhone");
    assert_eq!(r.device_at(0).udid, "a");
    assert!(r.get(&"iPhone".to_string()).is_some());
    assert!(r.get(&"iPad".to_string()).is_none());
}

#[test]
fn roster_name_collision_overwrites() {
    let probes = vec![
        DeviceProbe {
            device: device("a", 1),
            handshake: Some(props(&[("DeviceName", Some("iPhone"))])),
        },
        DeviceProbe {
            device: device("b", 2),
            handshake: Some(props(&[("DeviceName", Some("iPhone"))])),
        },
    ];
    let r = build_roster(&probes);
    assert_eq!(r.len(), 1);
    let d = r.get(&"iPhone".to_string()).unwrap();
    assert_eq!(d.udid, "b");
}

#[test]
fn info_rows_come_in_fixed_order() {
    let p = props(&[
        ("UniqueDeviceID", Some("u1")),
        ("DeviceName", Some("iPhone")),
        ("ProductVersion", Some("26.0")),
        ("ProductType", Some("iPhone17,1")),
        ("BuildVersion", Some("23A341")),
    ]);
    let rows = extract_device_info(&p);
    let expected = vec![
        ("Device Name".to_string(), "iPhone".to_string()),
        ("Model".to_string(), "iPhone17,1".to_string()),
        ("iOS Version".to_string(), "26.0".to_string()),
        ("Build Number".to_string(), "23A341".to_string()),
        ("UDID".to_string(), "u1".to_string()),
    ];
    assert_eq!(rows, expected);
}

#[test]
fn info_rows_skip_absent_and_nonstring_properties() {
    let p = props(&[
        ("DeviceName", Some("iPhone")),
        ("ProductVersion", None),
        ("UniqueDeviceID", Some("u1")),
    ]);
    let rows = extract_device_info(&p);
    let expected = vec![
        ("Device Name".to_string(), "iPhone".to_string()),
        ("UDID".to_string(), "u1".to_string()),
    ];
    assert_eq!(rows, expected);
}

#[test]
fn enumerate_without_service_answers_service_unavailable() {
    let r = execute(
        &Command::Enumerate,
        IoOutcome::Enumeration(EnumerationOutcome::NoService("no socket".to_string())),
    );
    match r {
        Some(WorkerResult::ServiceUnavailable(d)) => assert_eq!(d, "no socket"),
        _ => panic!("expected one ServiceUnavailable result"),
    }
}

#[test]
fn enumerate_listing_failure_answers_enumeration_failed() {
    let r = execute(
        &Command::Enumerate,
        IoOutcome::Enumeration(EnumerationOutcome::ListingFailed("bad reply".to_string())),
    );
    match r {
        Some(WorkerResult::EnumerationFailed(d)) => assert_eq!(d, "bad reply"),
        _ => panic!("expected one EnumerationFailed result"),
    }
}

#[test]
fn enumerate_success_answers_the_roster() {
    let probes = vec![DeviceProbe {
        device: device("a", 1),
        handshake: Some(props(&[("DeviceName", Some("iPhone"))])),
    }];
    let r = execute(&Command::Enumerate, IoOutcome::Enumeration(EnumerationOutcome::Listed(probes)));
    match r {
        Some(WorkerResult::EnumerationOk(ro)) => {
            assert_eq!(ro.len(), 1);
            assert_eq!(ro.name_at(0).as_str(), "iPhone");
        },
        _ => panic!("expected one EnumerationOk result"),
    }
}

#[test]
fn failed_handshake_emits_no_result() {
    let r = execute(&Command::FetchInfo(device("a", 1)), IoOutcome::Handshake(None));
    assert!(r.is_none());
}

#[test]
fn failed_registry_query_emits_no_result() {
    let cmd = Command::FetchRegistry(
        device("a", 1),
        FilterTriple {
            plane: None,
            entry: None,
            class: None,
        },
    );
    let r = execute(&cmd, IoOutcome::Registry(None));
    assert!(r.is_none());
}

#[test]
fn empty_registry_answer_is_an_absent_snapshot() {
    let cmd = Command::FetchRegistry(
        device("a", 1),
        FilterTriple {
            plane: None,
            entry: None,
            class: None,
        },
    );
    let r = execute(&cmd, IoOutcome::Registry(Some(None)));
    match r {
        Some(WorkerResult::RegistryOk(doc)) => assert!(doc.is_none()),
        _ => panic!("expected one RegistryOk result"),
    }
}

#[test]
fn results_keep_the_order_of_their_commands() {
    let cmds = vec![
        Command::Enumerate,
        Command::FetchInfo(device("a", 1)),
        Command::FetchInfo(device("b", 2)),
        Command::Enumerate,
    ];
    let outs = vec![
        IoOutcome::Enumeration(EnumerationOutcome::NoService("down".to_string())),
        IoOutcome::Handshake(None),
        IoOutcome::Handshake(Some(props(&[("DeviceName", Some("iPad"))]))),
        IoOutcome::Enumeration(EnumerationOutcome::ListingFailed("late".to_string())),
    ];
    let rs = run_commands(cmds, outs);
    assert_eq!(rs.len(), 3);
    assert!(matches!(&rs[0], WorkerResult::ServiceUnavailable(d) if d == "down"));
    assert!(
        matches!(&rs[1], WorkerResult::InfoOk(rows) if rows == &vec![("Device Name".to_string(), "iPad".to_string())])
    );
    assert!(matches!(&rs[2], WorkerResult::EnumerationFailed(d) if d == "late"));
}
