//! Tests for the three ancestor-walk probe policies.

use serial_enumerator::SerialInfo;
use serial_enumerator::probe::DeviceNode;
use serial_enumerator::probe::probe_acm_serial;
use serial_enumerator::probe::probe_builtin_serial;
use serial_enumerator::probe::probe_usb_serial;

fn empty_node() -> DeviceNode {
    DeviceNode {
        interface_number: None,
        manufacturer: None,
        product: None,
        id_vendor: None,
        id_product: None,
        subsystem: None,
        has_of_node: false,
        of_compatible: None,
        has_pnp_id: false,
        pnp_id: None,
        driver: None,
    }
}

fn blank_info() -> SerialInfo {
    SerialInfo {
        name: String::from("/dev/ttyUSB0"),
        vendor: None,
        product: None,
        driver: None,
        usb_info: None,
    }
}

#[test]
fn usb_probe_invalid_after_three_empty_visits() {
    let nodes = vec![empty_node(), empty_node(), empty_node(), empty_node()];
    let mut info = blank_info();
    assert!(!probe_usb_serial(&nodes, &mut info));
    assert_eq!(info.vendor, None);
    assert_eq!(info.product, None);
    assert!(info.usb_info.is_none());
}

#[test]
fn usb_probe_never_reaches_a_fourth_node() {
    // identity stands at the fourth node only: out of the walk's bound
    let mut far = empty_node();
    far.manufacturer = Some("too far up".into());
    let nodes = vec![empty_node(), empty_node(), empty_node(), far];
    let mut info = blank_info();
    assert!(!probe_usb_serial(&nodes, &mut info));
    assert_eq!(info.vendor, None);
}

#[test]
fn usb_probe_reaches_the_third_node() {
    let mut top = empty_node();
    top.manufacturer = Some("acme".into());
    let nodes = vec![empty_node(), empty_node(), top];
    let mut info = blank_info();
    assert!(probe_usb_serial(&nodes, &mut info));
    assert_eq!(info.vendor.as_deref(), Some("acme"));
    assert_eq!(info.product, None);
}

#[test]
fn usb_probe_first_visit_product_with_interface_number() {
    let mut node = empty_node();
    node.interface_number = Some("1".into());
    node.product = Some("Dual RS232".into());
    let nodes = vec![node, empty_node(), empty_node()];
    let mut info = blank_info();
    assert!(probe_usb_serial(&nodes, &mut info));
    assert_eq!(info.product.as_deref(), Some("Dual RS232:1"));
}

#[test]
fn usb_probe_interface_number_found_below_the_hit() {
    // the interface number stands at the device node, the product above it
    let mut first = empty_node();
    first.interface_number = Some("0".into());
    let mut second = empty_node();
    second.product = Some("FT2232".into());
    let nodes = vec![first, second];
    let mut info = blank_info();
    assert!(probe_usb_serial(&nodes, &mut info));
    assert_eq!(info.product.as_deref(), Some("FT2232:0"));
}

#[test]
fn usb_probe_ids_only_when_both_present() {
    let mut node = empty_node();
    node.id_vendor = Some("1a86".into());
    let nodes = vec![node, empty_node(), empty_node()];
    let mut info = blank_info();
    // a lone vendor ID resolves nothing, the walk climbs on and fails
    assert!(!probe_usb_serial(&nodes, &mut info));
    assert!(info.usb_info.is_none());

    let mut node = empty_node();
    node.id_vendor = Some("1a86".into());
    node.id_product = Some("7523".into());
    let nodes = vec![node];
    let mut info = blank_info();
    assert!(probe_usb_serial(&nodes, &mut info));
    let usb = info.usb_info.unwrap();
    assert_eq!(usb.vid, "1a86");
    assert_eq!(usb.pid, "7523");
}

#[test]
fn acm_probe_non_usb_subsystem_is_valid_with_nothing() {
    let mut node = empty_node();
    node.subsystem = Some("platform".into());
    // ancestors carry identity, but a non-USB device never looks at them
    let mut parent = empty_node();
    parent.manufacturer = Some("ignored".into());
    let nodes = vec![node, parent];
    let mut info = blank_info();
    assert!(probe_acm_serial(&nodes, &mut info));
    assert_eq!(info.vendor, None);
    assert_eq!(info.product, None);
    assert!(info.usb_info.is_none());
}

#[test]
fn acm_probe_usb_subsystem_delegates_to_usb_walk() {
    let mut node = empty_node();
    node.subsystem = Some("usb".into());
    node.manufacturer = Some("modem makers".into());
    let nodes = vec![node];
    let mut info = blank_info();
    assert!(probe_acm_serial(&nodes, &mut info));
    assert_eq!(info.vendor.as_deref(), Some("modem makers"));
}

#[test]
fn acm_probe_usb_subsystem_with_empty_walk_is_invalid() {
    let mut node = empty_node();
    node.subsystem = Some("usb".into());
    let nodes = vec![node];
    let mut info = blank_info();
    assert!(!probe_acm_serial(&nodes, &mut info));
}

#[test]
fn builtin_probe_no_markers_is_invalid() {
    let mut node = empty_node();
    node.subsystem = Some("platform".into());
    // identity at the parent never rescues a single-shot probe
    let mut parent = empty_node();
    parent.has_of_node = true;
    parent.of_compatible = Some("ignored".into());
    let nodes = vec![node, parent];
    let mut info = blank_info();
    assert!(!probe_builtin_serial(&nodes, &mut info));
    assert_eq!(info.vendor, None);
    assert_eq!(info.product, None);
}

#[test]
fn builtin_probe_device_tree_marker() {
    let mut node = empty_node();
    node.subsystem = Some("amba".into());
    node.has_of_node = true;
    node.of_compatible = Some("arm,pl011;arm,primecell".into());
    let nodes = vec![node];
    let mut info = blank_info();
    assert!(probe_builtin_serial(&nodes, &mut info));
    assert_eq!(info.vendor.as_deref(), Some("amba"));
    assert_eq!(info.product.as_deref(), Some("arm,pl011;arm,primecell"));
    assert!(info.usb_info.is_none());
}

#[test]
fn builtin_probe_pnp_marker() {
    let mut node = empty_node();
    node.subsystem = Some("pnp".into());
    node.has_pnp_id = true;
    node.pnp_id = Some("PNP0501".into());
    let nodes = vec![node];
    let mut info = blank_info();
    assert!(probe_builtin_serial(&nodes, &mut info));
    assert_eq!(info.vendor.as_deref(), Some("pnp"));
    assert_eq!(info.product.as_deref(), Some("PNP0501"));
}

#[test]
fn builtin_probe_device_tree_marker_wins_over_pnp() {
    let mut node = empty_node();
    node.has_of_node = true;
    node.of_compatible = Some("ns16550a".into());
    node.has_pnp_id = true;
    node.pnp_id = Some("PNP0501".into());
    let nodes = vec![node];
    let mut info = blank_info();
    assert!(probe_builtin_serial(&nodes, &mut info));
    assert_eq!(info.vendor, None);
    assert_eq!(info.product.as_deref(), Some("ns16550a"));
}
