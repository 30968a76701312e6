use idevice::usbmuxd::{Connection, UsbmuxdDevice};
use ioreg_explorer::message::{Command, WorkerResult};
use ioreg_explorer::props::{PropValue, PropertySet};
use ioreg_explorer::ui::{ExportError, FilterAxis, Platform, UiState};
use ioreg_explorer::worker::{execute, DeviceProbe, EnumerationOutcome, IoOutcome};

fn device(udid: &str, id: u32) -> UsbmuxdDevice {
    UsbmuxdDevice {
        connection_type: Connection::Usb,
        udid: udid.to_string(),
        device_id: id,
    }
}

fn named_probe(udid: &str, id: u32, name: &str) -> DeviceProbe {
    let mut p = PropertySet::new();
    p.push("DeviceName".to_string(), PropValue::Text(name.to_string()));
    DeviceProbe {
        device: device(udid, id),
        handshake: Some(p),
    }
}

fn state_with_roster(probes: Vec<DeviceProbe>) -> UiState {
    let mut st = UiState::new(Platform::Other);
    let r = execute(
        &Command::Enumerate,
        IoOutcome::Enumeration(EnumerationOutcome::Listed(probes)),
    )
    .unwrap();
    st.apply_result(r);
    st
}

#[test]
fn startup_state_shows_the_loading_placeholder() {
    let st = UiState::new(Platform::Other);
    assert!(st.roster.is_none());
    assert_eq!(st.roster_placeholder, "Loading...");
    assert!(st.device_info.is_none());
    assert!(st.snapshot.is_none());
    assert!(st.save_error.is_none());
}

#[test]
fn service_unavailable_sets_a_platform_hinted_placeholder() {
    let mut st = UiState::new(Platform::Other);
    st.apply_result(WorkerResult::ServiceUnavailable("connection refused".to_string()));
    assert_eq!(
        st.roster_placeholder,
        "Failed to connect to usbmuxd! Make sure usbmuxd is installed and running.\n\nconnection refused"
    );
    assert!(st.roster.is_none());
}

#[test]
fn windows_hint_mentions_itunes() {
    let mut st = UiState::new(Platform::Windows);
    st.apply_result(WorkerResult::ServiceUnavailable("x".to_string()));
    assert_eq!(
        st.roster_placeholder,
        "Failed to connect to usbmuxd! Make sure you have iTunes installed from Apple's website, and that it's running.\n\nx"
    );
}

#[test]
fn listing_failure_sets_its_placeholder() {
    let mut st = UiState::new(Platform::MacOs);
    st.apply_result(WorkerResult::EnumerationFailed("timeout".to_string()));
    assert_eq!(
        st.roster_placeholder,
        "Failed to get list of connected devices from usbmuxd! timeout"
    );
}

#[test]
fn each_result_overwrites_only_its_own_panel() {
    let mut st = state_with_roster(vec![named_probe("a", 1, "iPhone")]);
    assert!(st.roster.is_some());

    st.apply_result(WorkerResult::InfoOk(vec![(
        "Device Name".to_string(),
        "iPhone".to_string(),
    )]));
    assert!(st.roster.is_some());
    assert!(st.device_info.is_some());

    let mut doc = plist::Dictionary::new();
    doc.insert("Status".to_string(), plist::Value::String("Success".to_string()));
    st.apply_result(WorkerResult::RegistryOk(Some(doc)));
    assert!(st.snapshot.is_some());
    assert!(st.device_info.is_some());

    st.apply_result(WorkerResult::RegistryOk(None));
    assert!(st.snapshot.is_none());
    assert!(st.device_info.is_some());
}

#[test]
fn selecting_a_device_clears_info_and_fetches_it() {
    let mut st = state_with_roster(vec![named_probe("a", 1, "iPhone")]);
    st.apply_result(WorkerResult::InfoOk(vec![]));
    assert!(st.device_info.is_some());

    let cmd = st.select_device("iPhone".to_string());
    assert_eq!(st.selected_device, "iPhone");
    assert!(st.device_info.is_none());
    match cmd {
        Some(Command::FetchInfo(d)) => assert_eq!(d.udid, "a"),
        _ => panic!("expected a FetchInfo command"),
    }
}

#[test]
fn selecting_an_unknown_name_fetches_nothing() {
    let mut st = state_with_roster(vec![named_probe("a", 1, "iPhone")]);
    let cmd = st.select_device("iPod".to_string());
    assert!(cmd.is_none());
    assert_eq!(st.selected_device, "iPod");
}

#[test]
fn last_selection_wins_once_both_results_drain() {
    let mut st = state_with_roster(vec![
        named_probe("udid-iphone", 1, "iPhone"),
        named_probe("udid-ipad", 2, "iPad"),
    ]);

    let first = st.select_device("iPad".to_string()).unwrap();
    let second = st.select_device("iPhone".to_string()).unwrap();

    let mut ipad_props = PropertySet::new();
    ipad_props.push("DeviceName".to_string(), PropValue::Text("iPad".to_string()));
    let mut iphone_props = PropertySet::new();
    iphone_props.push("DeviceName".to_string(), PropValue::Text("iPhone".to_string()));

    let r1 = execute(&first, IoOutcome::Handshake(Some(ipad_props))).unwrap();
    let r2 = execute(&second, IoOutcome::Handshake(Some(iphone_props))).unwrap();

    st.apply_result(r1);
    st.apply_result(r2);

    let rows = st.device_info.unwrap();
    assert_eq!(rows, vec![("Device Name".to_string(), "iPhone".to_string())]);
}

#[test]
fn three_filter_edits_enqueue_three_queries() {
    let mut st = state_with_roster(vec![named_probe("a", 1, "iPhone")]);
    st.select_device("iPhone".to_string());

    let c1 = st.edit_filter(FilterAxis::Plane, "IOPower".to_string());
    let c2 = st.edit_filter(FilterAxis::Entry, "Root".to_string());
    let c3 = st.edit_filter(FilterAxis::Class, "".to_string());

    let f1 = match c1 {
        Some(Command::FetchRegistry(_, f)) => f,
        _ => panic!("expected a FetchRegistry command"),
    };
    assert_eq!(f1.plane.as_deref(), Some("IOPower"));
    assert_eq!(f1.entry.as_deref(), None);
    assert_eq!(f1.class.as_deref(), None);

    let f2 = match c2 {
        Some(Command::FetchRegistry(_, f)) => f,
        _ => panic!("expected a FetchRegistry command"),
    };
    assert_eq!(f2.plane.as_deref(), Some("IOPower"));
    assert_eq!(f2.entry.as_deref(), Some("Root"));
    assert_eq!(f2.class.as_deref(), None);

    let f3 = match c3 {
        Some(Command::FetchRegistry(_, f)) => f,
        _ => panic!("expected a FetchRegistry command"),
    };
    assert_eq!(f3.plane.as_deref(), f2.plane.as_deref());
    assert_eq!(f3.entry.as_deref(), f2.entry.as_deref());
    assert_eq!(f3.class.as_deref(), f2.class.as_deref());
}

#[test]
fn edits_without_a_selection_query_nothing() {
    let mut st = UiState::new(Platform::Other);
    let cmd = st.edit_filter(FilterAxis::Plane, "IOService".to_string());
    assert!(cmd.is_none());
    assert_eq!(st.plane, "IOService");
}

#[test]
fn exporting_an_absent_snapshot_is_refused() {
    let st = UiState::new(Platform::Other);
    assert!(matches!(st.export_snapshot(), Err(ExportError::NoSnapshot)));
}

#[test]
fn exporting_a_snapshot_hands_back_the_stored_document() {
    let mut st = UiState::new(Platform::Other);
    let mut doc = plist::Dictionary::new();
    doc.insert("Status".to_string(), plist::Value::String("Success".to_string()));
    st.apply_result(WorkerResult::RegistryOk(Some(doc)));
    let exported = st.export_snapshot().unwrap();
    assert_eq!(
        exported.get("Status").and_then(|v| v.as_string()),
        Some("Success")
    );
    let text = plist_macro::pretty_print_dictionary(exported);
    assert_eq!(text, "{\nStatus: \"Success\"\n}");
}

#[test]
fn save_outcome_is_recorded_without_touching_panels() {
    let mut st = state_with_roster(vec![named_probe("a", 1, "iPhone")]);
    st.set_save_error(Some("disk full".to_string()));
    assert_eq!(st.save_error.as_deref(), Some("disk full"));
    assert!(st.roster.is_some());
    st.set_save_error(None);
    assert!(st.save_error.is_none());
}
