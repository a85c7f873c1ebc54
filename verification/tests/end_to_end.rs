//! End-to-end tests over synthetic hierarchies.

use serial_enumerator::enumerate::Candidate;
use serial_enumerator::get_serial_list;
use serial_enumerator::probe::DeviceNode;

fn empty_node() -> DeviceNode {
    DeviceNode {
        interface_number: None,
        manufacturer: None,
        product: None,
        id_vendor: None,
        id_product: None,
        subsystem: None,
        has_of_node: false,
        of_compatible: None,
        has_pnp_id: false,
        pnp_id: None,
        driver: None,
    }
}

#[test]
fn usb_serial_candidate_resolves_identity() {
    let mut node = empty_node();
    node.id_vendor = Some("1a86".into());
    node.id_product = Some("7523".into());
    node.manufacturer = Some("wch.cn".into());
    node.driver = Some("ch341-uart".into());
    let candidates = vec![Candidate {
        name: "ttyUSB0".into(),
        nodes: Some(vec![node, empty_node(), empty_node()]),
    }];
    let records = get_serial_list(None, &candidates);
    assert_eq!(records.len(), 1);
    let record = &records[0];
    assert_eq!(record.name, "/dev/ttyUSB0");
    assert_eq!(record.vendor.as_deref(), Some("wch.cn"));
    assert_eq!(record.driver.as_deref(), Some("ch341-uart"));
    let usb = record.usb_info.as_ref().unwrap();
    assert_eq!(usb.vid, "1a86");
    assert_eq!(usb.pid, "7523");
}

#[test]
fn unclassified_candidate_is_absent() {
    let mut node = empty_node();
    node.manufacturer = Some("somebody".into());
    let candidates = vec![
        Candidate { name: "video0".into(), nodes: Some(vec![node]) },
        Candidate { name: "ttyS0".into(), nodes: Some(vec![empty_node()]) },
    ];
    let records = get_serial_list(None, &candidates);
    assert!(records.iter().all(|r| r.name != "/dev/video0"));
}

#[test]
fn unresolved_backing_node_is_skipped() {
    let candidates = vec![Candidate { name: "ttyUSB0".into(), nodes: None }];
    let records = get_serial_list(None, &candidates);
    assert_eq!(records.len(), 0);
}

#[test]
fn invalid_probe_outcome_is_dropped_silently() {
    // classified, resolved, but no identity anywhere within the walk's bound
    let candidates = vec![Candidate {
        name: "ttyUSB1".into(),
        nodes: Some(vec![empty_node(), empty_node(), empty_node()]),
    }];
    let records = get_serial_list(None, &candidates);
    assert_eq!(records.len(), 0);
}

#[test]
fn acm_name_dispatches_acm_policy_whatever_the_class() {
    // the fallback table classifies ttyACM as built-in, yet the name pattern
    // selects the ACM policy, which accepts a non-USB device as it stands
    let mut node = empty_node();
    node.subsystem = Some("platform".into());
    let candidates = vec![Candidate { name: "ttyACM0".into(), nodes: Some(vec![node]) }];
    let records = get_serial_list(None, &candidates);
    assert_eq!(records.len(), 1);
    assert_eq!(records[0].name, "/dev/ttyACM0");
    assert_eq!(records[0].vendor, None);
    assert_eq!(records[0].product, None);
    assert!(records[0].usb_info.is_none());
}

#[test]
fn builtin_candidate_without_markers_is_dropped() {
    let mut node = empty_node();
    node.subsystem = Some("platform".into());
    let candidates = vec![Candidate { name: "ttyS0".into(), nodes: Some(vec![node]) }];
    let records = get_serial_list(None, &candidates);
    assert_eq!(records.len(), 0);
}

#[test]
fn driver_table_text_steers_classification() {
    let text = "usbserial /dev/ttyXR 40 serial\n";
    let mut node = empty_node();
    node.manufacturer = Some("exar".into());
    let candidates = vec![
        Candidate { name: "ttyXR0".into(), nodes: Some(vec![node]) },
        // a prefix the parsed table does not hold is skipped
        Candidate { name: "ttyUSB0".into(), nodes: Some(vec![empty_node()]) },
    ];
    let records = get_serial_list(Some(text), &candidates);
    assert_eq!(records.len(), 1);
    assert_eq!(records[0].name, "/dev/ttyXR0");
    assert_eq!(records[0].vendor.as_deref(), Some("exar"));
}

#[test]
fn records_keep_enumeration_order() {
    let mut first = empty_node();
    first.manufacturer = Some("a".into());
    let mut second = empty_node();
    second.manufacturer = Some("b".into());
    let candidates = vec![
        Candidate { name: "ttyUSB1".into(), nodes: Some(vec![first]) },
        Candidate { name: "ttyUSB0".into(), nodes: Some(vec![second]) },
    ];
    let records = get_serial_list(None, &candidates);
    assert_eq!(records.len(), 2);
    assert_eq!(records[0].name, "/dev/ttyUSB1");
    assert_eq!(records[1].name, "/dev/ttyUSB0");
}
