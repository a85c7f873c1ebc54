//! The ancestor-walk probes.
//!
//! A probe receives a snapshot of the device hierarchy above one candidate:
//! the resolved device node first, then its ancestors in order. It decides
//! whether identity attributes are reachable and fills the vendor, product
//! and USB-identity fields of the record accordingly.
//!
//! Three entry policies exist. The USB-serial policy reads identity
//! attributes at the current node and climbs to the parent when nothing
//! resolved, bounded by 3 total node visits. The ACM/modem policy delegates
//! to the USB-serial policy when the node's own subsystem is USB and is
//! otherwise always valid with nothing populated. The built-in policy is
//! single-shot: it inspects the first node only, demands a device-tree or
//! plug-and-play marker there, and never retries across ancestors.

use vstd::prelude::*;
use crate::SerialInfo;
use crate::UsbInfo;
use crate::UsbInfoV;
use crate::strutil::clone_opt_string;
use crate::strutil::str_eq;

verus! {

/// Snapshot of one device-hierarchy node: the attribute markers a probe may
/// read there. A missing attribute is `None`, never an empty string.
#[derive(Debug)]
pub struct DeviceNode {
    /// Content of the interface-number attribute (`bInterfaceNumber`).
    pub interface_number: Option<String>,
    /// Content of the `manufacturer` attribute.
    pub manufacturer: Option<String>,
    /// Content of the `product` attribute.
    pub product: Option<String>,
    /// Content of the `idVendor` attribute.
    pub id_vendor: Option<String>,
    /// Content of the `idProduct` attribute.
    pub id_product: Option<String>,
    /// Name of the node's subsystem: the final path segment of the canonical
    /// target of its `subsystem` link, when that link resolves.
    pub subsystem: Option<String>,
    /// Whether the node carries a device-tree marker (`of_node`).
    pub has_of_node: bool,
    /// Content of the device-tree compatible-string marker.
    pub of_compatible: Option<String>,
    /// Whether the node carries a plug-and-play identifier marker (`id`).
    pub has_pnp_id: bool,
    /// Content of the plug-and-play identifier marker.
    pub pnp_id: Option<String>,
    /// Name of the owning driver: the final path segment of the canonical
    /// target of the node's `driver` link, when that link resolves.
    pub driver: Option<String>,
}

/// Mathematical value of a [`DeviceNode`].
#[verifier::ext_equal]
pub ghost struct DeviceNodeV {
    pub interface_number: Option<Seq<char>>,
    pub manufacturer: Option<Seq<char>>,
    pub product: Option<Seq<char>>,
    pub id_vendor: Option<Seq<char>>,
    pub id_product: Option<Seq<char>>,
    pub subsystem: Option<Seq<char>>,
    pub has_of_node: bool,
    pub of_compatible: Option<Seq<char>>,
    pub has_pnp_id: bool,
    pub pnp_id: Option<Seq<char>>,
    pub driver: Option<Seq<char>>,
}

impl View for DeviceNode {
    type V = DeviceNodeV;

    open spec fn view(&self) -> DeviceNodeV {
        DeviceNodeV {
            interface_number: self.interface_number.deep_view(),
            manufacturer: self.manufacturer.deep_view(),
            product: self.product.deep_view(),
            id_vendor: self.id_vendor.deep_view(),
            id_product: self.id_product.deep_view(),
            subsystem: self.subsystem.deep_view(),
            has_of_node: self.has_of_node,
            of_compatible: self.of_compatible.deep_view(),
            has_pnp_id: self.has_pnp_id,
            pnp_id: self.pnp_id.deep_view(),
            driver: self.driver.deep_view(),
        }
    }
}

impl DeepView for DeviceNode {
    type V = DeviceNodeV;

    open spec fn deep_view(&self) -> DeviceNodeV {
        self.view()
    }
}

/// The node the walk stands on after `i` parent steps, when the snapshot
/// still has one there; stepping past the end of the snapshot reads nothing.
pub open spec fn node_at(chain: Seq<DeviceNodeV>, i: int) -> Option<DeviceNodeV> {
    if 0 <= i < chain.len() {
        Some(chain[i])
    } else {
        None
    }
}

/// The interface number read at visit `i`.
pub open spec fn visit_iface(chain: Seq<DeviceNodeV>, i: int) -> Option<Seq<char>> {
    match node_at(chain, i) {
        Some(n) => n.interface_number,
        None => None,
    }
}

/// The manufacturer string read at visit `i`.
pub open spec fn visit_vendor(chain: Seq<DeviceNodeV>, i: int) -> Option<Seq<char>> {
    match node_at(chain, i) {
        Some(n) => n.manufacturer,
        None => None,
    }
}

/// The raw product string read at visit `i`.
pub open spec fn visit_product_raw(chain: Seq<DeviceNodeV>, i: int) -> Option<Seq<char>> {
    match node_at(chain, i) {
        Some(n) => n.product,
        None => None,
    }
}

/// The USB identity read at visit `i`: present only when the node carries
/// both the vendor ID and the product ID.
pub open spec fn visit_usb(chain: Seq<DeviceNodeV>, i: int) -> Option<UsbInfoV> {
    match node_at(chain, i) {
        Some(n) => match (n.id_vendor, n.id_product) {
            (Some(v), Some(p)) => Some(UsbInfoV { vid: v, pid: p }),
            _ => None,
        },
        None => None,
    }
}

/// Did visit `i` resolve any of the three identity fields?
pub open spec fn visit_hit(chain: Seq<DeviceNodeV>, i: int) -> bool {
    visit_vendor(chain, i) is Some || visit_product_raw(chain, i) is Some || visit_usb(chain, i)
        is Some
}

/// The first interface number found over visits 0 through `i`: once found it
/// is kept, later visits do not overwrite it.
pub open spec fn iface_through(chain: Seq<DeviceNodeV>, i: int) -> Option<Seq<char>>
    decreases i + 1,
{
    if i < 0 {
        None
    } else {
        match iface_through(chain, i - 1) {
            Some(x) => Some(x),
            None => visit_iface(chain, i),
        }
    }
}

/// The visit at which the USB-serial walk stops with a hit: the first of its
/// 3 bounded visits that resolves a field, or none at all.
pub open spec fn usb_hit_index(chain: Seq<DeviceNodeV>) -> Option<int> {
    if visit_hit(chain, 0) {
        Some(0int)
    } else if visit_hit(chain, 1) {
        Some(1int)
    } else if visit_hit(chain, 2) {
        Some(2int)
    } else {
        None
    }
}

/// Does the USB-serial policy declare the device valid?
pub open spec fn usb_probe_valid(chain: Seq<DeviceNodeV>) -> bool {
    usb_hit_index(chain) is Some
}

/// A product string with the interface-number disambiguator appended when an
/// interface number was found.
pub open spec fn formatted_product(raw: Seq<char>, iface: Option<Seq<char>>) -> Seq<char> {
    match iface {
        Some(f) => raw.push(':') + f,
        None => raw,
    }
}

/// The vendor the USB-serial policy resolves.
pub open spec fn usb_probe_vendor(chain: Seq<DeviceNodeV>) -> Option<Seq<char>> {
    match usb_hit_index(chain) {
        Some(i) => visit_vendor(chain, i),
        None => None,
    }
}

/// The product the USB-serial policy resolves, disambiguated by the first
/// interface number found up to the stopping visit.
pub open spec fn usb_probe_product(chain: Seq<DeviceNodeV>) -> Option<Seq<char>> {
    match usb_hit_index(chain) {
        Some(i) => match visit_product_raw(chain, i) {
            Some(p) => Some(formatted_product(p, iface_through(chain, i))),
            None => None,
        },
        None => None,
    }
}

/// The USB identity the USB-serial policy resolves.
pub open spec fn usb_probe_usb(chain: Seq<DeviceNodeV>) -> Option<UsbInfoV> {
    match usb_hit_index(chain) {
        Some(i) => visit_usb(chain, i),
        None => None,
    }
}

fn node_iface(nodes: &Vec<DeviceNode>, i: usize) -> (r: Option<String>)
    ensures
        r.deep_view() == visit_iface(nodes.deep_view(), i as int),
{
    if i < nodes.len() {
        proof {
            assert(nodes.deep_view()[i as int] == nodes@[i as int].deep_view());
        }
        clone_opt_string(&nodes[i].interface_number)
    } else {
        None
    }
}

fn node_vendor(nodes: &Vec<DeviceNode>, i: usize) -> (r: Option<String>)
    ensures
        r.deep_view() == visit_vendor(nodes.deep_view(), i as int),
{
    if i < nodes.len() {
        proof {
            assert(nodes.deep_view()[i as int] == nodes@[i as int].deep_view());
        }
        clone_opt_string(&nodes[i].manufacturer)
    } else {
        None
    }
}

fn node_product(nodes: &Vec<DeviceNode>, i: usize) -> (r: Option<String>)
    ensures
        r.deep_view() == visit_product_raw(nodes.deep_view(), i as int),
{
    if i < nodes.len() {
        proof {
            assert(nodes.deep_view()[i as int] == nodes@[i as int].deep_view());
        }
        clone_opt_string(&nodes[i].product)
    } else {
        None
    }
}

fn node_usb(nodes: &Vec<DeviceNode>, i: usize) -> (r: Option<UsbInfo>)
    ensures
        r.deep_view() == visit_usb(nodes.deep_view(), i as int),
{
    if i < nodes.len() {
        proof {
            assert(nodes.deep_view()[i as int] == nodes@[i as int].deep_view());
        }
        let vid = clone_opt_string(&nodes[i].id_vendor);
        let pid = clone_opt_string(&nodes[i].id_product);
        match (vid, pid) {
            (Some(v), Some(p)) => Some(UsbInfo { vid: v, pid: p }),
            _ => None,
        }
    } else {
        None
    }
}

/// Walk up to 3 nodes of the hierarchy snapshot looking for USB identity
/// attributes, stopping at the first visit that resolves any of vendor,
/// product or USB identity; with nothing resolved after 3 visits the device
/// is invalid. A product found together with an interface number carries the
/// interface number appended as `:<interface>`.
pub fn probe_usb_serial(nodes: &Vec<DeviceNode>, serial_info: &mut SerialInfo) -> (valid: bool)
    requires
        old(serial_info).vendor is None,
        old(serial_info).product is None,
        old(serial_info).usb_info is None,
    ensures
        valid == usb_probe_valid(nodes.deep_view()),
        final(serial_info).name == old(serial_info).name,
        final(serial_info).driver == old(serial_info).driver,
        final(serial_info)@.vendor == usb_probe_vendor(nodes.deep_view()),
        final(serial_info)@.product == usb_probe_product(nodes.deep_view()),
        final(serial_info)@.usb_info == usb_probe_usb(nodes.deep_view()),
{
    let ghost chain = nodes.deep_view();
    let mut interface_num: Option<String> = None;
    let mut attempt: usize = 0;
    loop
        invariant
            chain == nodes.deep_view(),
            attempt <= 3,
            interface_num.deep_view() == iface_through(chain, attempt as int - 1),
            forall|j: int| 0 <= j < attempt ==> !visit_hit(chain, j),
            serial_info.vendor is None,
            serial_info.product is None,
            serial_info.usb_info is None,
            serial_info.name == old(serial_info).name,
            serial_info.driver == old(serial_info).driver,
        decreases 3 - attempt,
    {
        if attempt == 3 {
            return false;
        }
        if interface_num.is_none() {
            interface_num = node_iface(nodes, attempt);
        }
        proof {
            assert(interface_num.deep_view() == iface_through(chain, attempt as int));
        }

        serial_info.vendor = node_vendor(nodes, attempt);

        let raw_product = node_product(nodes, attempt);
        serial_info.product = match raw_product {
            Some(mut p) => {
                match &interface_num {
                    Some(iface) => {
                        p.push(':');
                        p.append(iface.as_str());
                        Some(p)
                    },
                    None => Some(p),
                }
            },
            None => None,
        };

        serial_info.usb_info = node_usb(nodes, attempt);

        if serial_info.vendor.is_some() || serial_info.product.is_some()
            || serial_info.usb_info.is_some() {
            proof {
                assert(visit_hit(chain, attempt as int));
                assert(usb_hit_index(chain) == Some(attempt as int));
            }
            return true;
        }
        attempt = attempt + 1;
    }
}

/// The subsystem name that marks a USB-owned node.
pub open spec fn usb_subsystem() -> Seq<char> {
    seq!['u', 's', 'b']
}

/// Is the first node of the snapshot owned by the USB subsystem?
pub open spec fn acm_node_is_usb(chain: Seq<DeviceNodeV>) -> bool {
    match node_at(chain, 0) {
        Some(n) => n.subsystem == Some(usb_subsystem()),
        None => false,
    }
}

/// Does the ACM/modem policy declare the device valid? A device whose own
/// subsystem is not USB is always valid; a USB-owned one follows the
/// USB-serial walk.
pub open spec fn acm_probe_valid(chain: Seq<DeviceNodeV>) -> bool {
    if acm_node_is_usb(chain) {
        usb_probe_valid(chain)
    } else {
        true
    }
}

/// The vendor the ACM/modem policy resolves.
pub open spec fn acm_probe_vendor(chain: Seq<DeviceNodeV>) -> Option<Seq<char>> {
    if acm_node_is_usb(chain) {
        usb_probe_vendor(chain)
    } else {
        None
    }
}

/// The product the ACM/modem policy resolves.
pub open spec fn acm_probe_product(chain: Seq<DeviceNodeV>) -> Option<Seq<char>> {
    if acm_node_is_usb(chain) {
        usb_probe_product(chain)
    } else {
        None
    }
}

/// The USB identity the ACM/modem policy resolves.
pub open spec fn acm_probe_usb(chain: Seq<DeviceNodeV>) -> Option<UsbInfoV> {
    if acm_node_is_usb(chain) {
        usb_probe_usb(chain)
    } else {
        None
    }
}

/// Probe an ACM/modem device: resolve the node's own subsystem first, and
/// delegate to the USB-serial walk only when that subsystem is USB. Any
/// other subsystem is valid as it stands, with no identity fields populated.
pub fn probe_acm_serial(nodes: &Vec<DeviceNode>, serial_info: &mut SerialInfo) -> (valid: bool)
    requires
        old(serial_info).vendor is None,
        old(serial_info).product is None,
        old(serial_info).usb_info is None,
    ensures
        valid == acm_probe_valid(nodes.deep_view()),
        final(serial_info).name == old(serial_info).name,
        final(serial_info).driver == old(serial_info).driver,
        final(serial_info)@.vendor == acm_probe_vendor(nodes.deep_view()),
        final(serial_info)@.product == acm_probe_product(nodes.deep_view()),
        final(serial_info)@.usb_info == acm_probe_usb(nodes.deep_view()),
{
    proof {
        reveal_strlit("usb");
        assert("usb"@ =~= usb_subsystem());
    }
    let is_usb = if nodes.len() > 0 {
        proof {
            assert(nodes.deep_view()[0] == nodes@[0].deep_view());
        }
        match &nodes[0].subsystem {
            Some(s) => str_eq(s.as_str(), "usb"),
            None => false,
        }
    } else {
        false
    };
    if is_usb {
        probe_usb_serial(nodes, serial_info)
    } else {
        true
    }
}

/// Does the built-in policy declare the device valid? It demands one of the
/// two markers — device-tree node or plug-and-play identifier — at the first
/// node, and looks nowhere else.
pub open spec fn builtin_probe_valid(chain: Seq<DeviceNodeV>) -> bool {
    match node_at(chain, 0) {
        Some(n) => n.has_of_node || n.has_pnp_id,
        None => false,
    }
}

/// The vendor the built-in policy resolves: the node's subsystem name.
pub open spec fn builtin_probe_vendor(chain: Seq<DeviceNodeV>) -> Option<Seq<char>> {
    match node_at(chain, 0) {
        Some(n) => if n.has_of_node || n.has_pnp_id {
            n.subsystem
        } else {
            None
        },
        None => None,
    }
}

/// The product the built-in policy resolves: the device-tree compatible
/// string when the device-tree marker exists, else the plug-and-play
/// identifier.
pub open spec fn builtin_probe_product(chain: Seq<DeviceNodeV>) -> Option<Seq<char>> {
    match node_at(chain, 0) {
        Some(n) => if n.has_of_node {
            n.of_compatible
        } else if n.has_pnp_id {
            n.pnp_id
        } else {
            None
        },
        None => None,
    }
}

/// Probe a built-in (platform-native) serial device. Single-shot: only the
/// first node of the snapshot is inspected; absence of both the device-tree
/// marker and the plug-and-play marker there makes the device invalid.
pub fn probe_builtin_serial(nodes: &Vec<DeviceNode>, serial_info: &mut SerialInfo) -> (valid: bool)
    requires
        old(serial_info).vendor is None,
        old(serial_info).product is None,
        old(serial_info).usb_info is None,
    ensures
        valid == builtin_probe_valid(nodes.deep_view()),
        final(serial_info).name == old(serial_info).name,
        final(serial_info).driver == old(serial_info).driver,
        final(serial_info)@.vendor == builtin_probe_vendor(nodes.deep_view()),
        final(serial_info)@.product == builtin_probe_product(nodes.deep_view()),
        final(serial_info).usb_info is None,
{
    if nodes.len() == 0 {
        return false;
    }
    proof {
        assert(nodes.deep_view()[0] == nodes@[0].deep_view());
    }
    let node = &nodes[0];
    if node.has_of_node || node.has_pnp_id {
        serial_info.vendor = clone_opt_string(&node.subsystem);
        serial_info.product = if node.has_of_node {
            clone_opt_string(&node.of_compatible)
        } else {
            clone_opt_string(&node.pnp_id)
        };
        true
    } else {
        false
    }
}

/// Law: the USB-serial walk is bounded by 3 total node visits. Two hierarchy
/// snapshots that agree on their first 3 nodes give the walk the same
/// outcome and the same resolved fields, whatever stands further up.
pub proof fn lemma_usb_probe_bounded(c1: Seq<DeviceNodeV>, c2: Seq<DeviceNodeV>)
    requires
        forall|i: int| 0 <= i < 3 ==> node_at(c1, i) == node_at(c2, i),
    ensures
        usb_probe_valid(c1) == usb_probe_valid(c2),
        usb_probe_vendor(c1) == usb_probe_vendor(c2),
        usb_probe_product(c1) == usb_probe_product(c2),
        usb_probe_usb(c1) == usb_probe_usb(c2),
{
    assert forall|i: int| 0 <= i < 3 implies iface_through(c1, i) == iface_through(c2, i) by {
        assert(iface_through(c1, -1) == iface_through(c2, -1));
        assert(iface_through(c1, 0) == iface_through(c2, 0));
        assert(iface_through(c1, 1) == iface_through(c2, 1));
        assert(iface_through(c1, 2) == iface_through(c2, 2));
    }
}

/// Law: when the first visit of the USB-serial walk resolves the product and
/// an interface number stands at that same first node, the emitted product
/// is exactly the raw product, a colon, and the interface number.
pub proof fn lemma_usb_probe_first_visit_product(
    chain: Seq<DeviceNodeV>,
    raw: Seq<char>,
    iface: Seq<char>,
)
    requires
        visit_product_raw(chain, 0) == Some(raw),
        visit_iface(chain, 0) == Some(iface),
    ensures
        usb_probe_valid(chain),
        usb_probe_product(chain) == Some(raw.push(':') + iface),
{
    assert(visit_hit(chain, 0));
    assert(usb_hit_index(chain) == Some(0int));
    assert(iface_through(chain, -1) is None);
    assert(iface_through(chain, 0) == Some(iface));
}

/// Law: the built-in policy is single-shot. Two hierarchy snapshots that
/// agree on their first node give it the same outcome and the same resolved
/// fields, whatever the ancestors hold.
pub proof fn lemma_builtin_probe_single_shot(c1: Seq<DeviceNodeV>, c2: Seq<DeviceNodeV>)
    requires
        node_at(c1, 0) == node_at(c2, 0),
    ensures
        builtin_probe_valid(c1) == builtin_probe_valid(c2),
        builtin_probe_vendor(c1) == builtin_probe_vendor(c2),
        builtin_probe_product(c1) == builtin_probe_product(c2),
{
}

/// Law: a device whose resolved subsystem is not USB is always valid under
/// the ACM/modem policy, with no identity fields populated, regardless of
/// what any node of the hierarchy holds.
pub proof fn lemma_acm_non_usb_always_valid(chain: Seq<DeviceNodeV>)
    requires
        !acm_node_is_usb(chain),
    ensures
        acm_probe_valid(chain),
        acm_probe_vendor(chain) is None,
        acm_probe_product(chain) is None,
        acm_probe_usb(chain) is None,
{
}

} // verus!
