//! The attribute-resolution orchestrator.
//!
//! Each candidate device name coming out of the platform's enumeration is
//! classified against the driver classification table; an unclassified
//! candidate is skipped entirely. A classified candidate whose backing
//! hierarchy node could not be resolved is skipped as well. The rest are
//! dispatched to the probe their name and class select — the ACM/modem
//! policy for modem-named devices, the USB-serial walk for USB-serial
//! classes, the single-shot built-in policy for everything else — and each
//! candidate the probe declares valid contributes one record to the output,
//! in enumeration order. The owning driver is resolved independently of the
//! probe outcome and its absence is never a failure.

use vstd::prelude::*;
use crate::SerialInfo;
use crate::SerialInfoV;
use crate::UsbInfoV;
use crate::drivers_table::DriverClass;
use crate::drivers_table::DriverClassEntry;
use crate::drivers_table::DriverClassEntryV;
use crate::drivers_table::classify;
use crate::drivers_table::classify_name;
use crate::drivers_table::fallback_table;
use crate::drivers_table::get_serial_prefix;
use crate::drivers_table::table_of_text;
use crate::probe::DeviceNode;
use crate::probe::DeviceNodeV;
use crate::probe::acm_probe_product;
use crate::probe::acm_probe_usb;
use crate::probe::acm_probe_valid;
use crate::probe::acm_probe_vendor;
use crate::probe::builtin_probe_product;
use crate::probe::builtin_probe_valid;
use crate::probe::builtin_probe_vendor;
use crate::probe::node_at;
use crate::probe::probe_acm_serial;
use crate::probe::probe_builtin_serial;
use crate::probe::probe_usb_serial;
use crate::probe::usb_probe_product;
use crate::probe::usb_probe_usb;
use crate::probe::usb_probe_valid;
use crate::probe::usb_probe_vendor;
use crate::strutil::clone_opt_string;
use crate::strutil::str_starts_with;

verus! {

/// One enumerated candidate: the bare device name the platform listed, and
/// the snapshot of its backing hierarchy — the resolved device node followed
/// by its ancestors — or `None` when that node could not be resolved.
#[derive(Debug)]
pub struct Candidate {
    pub name: String,
    pub nodes: Option<Vec<DeviceNode>>,
}

/// Mathematical value of a [`Candidate`].
#[verifier::ext_equal]
pub ghost struct CandidateV {
    pub name: Seq<char>,
    pub nodes: Option<Seq<DeviceNodeV>>,
}

impl View for Candidate {
    type V = CandidateV;

    open spec fn view(&self) -> CandidateV {
        CandidateV { name: self.name@, nodes: self.nodes.deep_view() }
    }
}

impl DeepView for Candidate {
    type V = CandidateV;

    open spec fn deep_view(&self) -> CandidateV {
        self.view()
    }
}

/// The naming pattern that marks a modem/ACM device.
pub open spec fn acm_name_prefix() -> Seq<char> {
    seq!['t', 't', 'y', 'A', 'C', 'M']
}

/// Does the device name select the ACM/modem policy?
pub open spec fn is_acm_name(name: Seq<char>) -> bool {
    acm_name_prefix().is_prefix_of(name)
}

/// The canonical path the operating system addresses a listed device by.
pub open spec fn dev_path_of(name: Seq<char>) -> Seq<char> {
    seq!['/', 'd', 'e', 'v', '/'] + name
}

/// Outcome of the dispatched probe: modem-named devices always take the
/// ACM/modem policy, USB-serial-classified devices the USB-serial walk, and
/// every other class the built-in policy.
pub open spec fn dispatched_valid(
    class: DriverClass,
    name: Seq<char>,
    chain: Seq<DeviceNodeV>,
) -> bool {
    if is_acm_name(name) {
        acm_probe_valid(chain)
    } else if class == DriverClass::UsbSerial {
        usb_probe_valid(chain)
    } else {
        builtin_probe_valid(chain)
    }
}

/// The vendor the dispatched probe resolves.
pub open spec fn dispatched_vendor(
    class: DriverClass,
    name: Seq<char>,
    chain: Seq<DeviceNodeV>,
) -> Option<Seq<char>> {
    if is_acm_name(name) {
        acm_probe_vendor(chain)
    } else if class == DriverClass::UsbSerial {
        usb_probe_vendor(chain)
    } else {
        builtin_probe_vendor(chain)
    }
}

/// The product the dispatched probe resolves.
pub open spec fn dispatched_product(
    class: DriverClass,
    name: Seq<char>,
    chain: Seq<DeviceNodeV>,
) -> Option<Seq<char>> {
    if is_acm_name(name) {
        acm_probe_product(chain)
    } else if class == DriverClass::UsbSerial {
        usb_probe_product(chain)
    } else {
        builtin_probe_product(chain)
    }
}

/// The USB identity the dispatched probe resolves; the built-in policy
/// never resolves one.
pub open spec fn dispatched_usb(
    class: DriverClass,
    name: Seq<char>,
    chain: Seq<DeviceNodeV>,
) -> Option<UsbInfoV> {
    if is_acm_name(name) {
        acm_probe_usb(chain)
    } else if class == DriverClass::UsbSerial {
        usb_probe_usb(chain)
    } else {
        None
    }
}

/// The owning driver of the candidate, read at the resolved device node.
pub open spec fn chain_driver(chain: Seq<DeviceNodeV>) -> Option<Seq<char>> {
    match node_at(chain, 0) {
        Some(n) => n.driver,
        None => None,
    }
}

/// The record one candidate contributes against a given table, or nothing:
/// an unclassified name, an unresolved backing node, and a probe that
/// declares the device invalid each drop the candidate silently.
pub open spec fn record_for(t: Seq<DriverClassEntryV>, c: CandidateV) -> Option<SerialInfoV> {
    match classify(t, c.name) {
        None => None,
        Some(class) => match c.nodes {
            None => None,
            Some(chain) => if dispatched_valid(class, c.name, chain) {
                Some(
                    SerialInfoV {
                        name: dev_path_of(c.name),
                        vendor: dispatched_vendor(class, c.name, chain),
                        product: dispatched_product(class, c.name, chain),
                        driver: chain_driver(chain),
                        usb_info: dispatched_usb(class, c.name, chain),
                    },
                )
            } else {
                None
            },
        },
    }
}

/// The records the first `k` candidates contribute, in enumeration order.
pub open spec fn serial_list_of(
    t: Seq<DriverClassEntryV>,
    cands: Seq<CandidateV>,
    k: int,
) -> Seq<SerialInfoV>
    decreases k,
{
    if k <= 0 {
        Seq::empty()
    } else {
        let prev = serial_list_of(t, cands, k - 1);
        match record_for(t, cands[k - 1]) {
            Some(r) => prev.push(r),
            None => prev,
        }
    }
}

/// Build the canonical device path for a listed name.
fn dev_path(name: &str) -> (r: String)
    ensures
        r@ == dev_path_of(name@),
{
    proof {
        reveal_strlit("/dev/");
    }
    let mut r = "/dev/".to_owned();
    r.append(name);
    proof {
        assert(r@ =~= dev_path_of(name@));
    }
    r
}

fn chain_driver_exec(nodes: &Vec<DeviceNode>) -> (r: Option<String>)
    ensures
        r.deep_view() == chain_driver(nodes.deep_view()),
{
    if nodes.len() > 0 {
        proof {
            assert(nodes.deep_view()[0] == nodes@[0].deep_view());
        }
        clone_opt_string(&nodes[0].driver)
    } else {
        None
    }
}

/// Probe every candidate against the classification table and append one
/// record for each candidate that classifies, resolves and probes valid.
pub fn probe_serial_by_prefix(
    serial_list: &mut Vec<SerialInfo>,
    serial_prefix: &Vec<DriverClassEntry>,
    candidates: &Vec<Candidate>,
)
    ensures
        final(serial_list).deep_view() == old(serial_list).deep_view() + serial_list_of(
            serial_prefix.deep_view(),
            candidates.deep_view(),
            candidates.deep_view().len() as int,
        ),
{
    let ghost t = serial_prefix.deep_view();
    let ghost cands = candidates.deep_view();
    let n = candidates.len();
    let mut k: usize = 0;
    proof {
        assert(serial_list.deep_view() =~= old(serial_list).deep_view() + serial_list_of(
            t,
            cands,
            0,
        ));
    }
    loop
        invariant
            k <= n,
            n == candidates@.len(),
            t == serial_prefix.deep_view(),
            cands == candidates.deep_view(),
            cands.len() == n,
            serial_list.deep_view() == old(serial_list).deep_view() + serial_list_of(
                t,
                cands,
                k as int,
            ),
        decreases n - k,
    {
        if k == n {
            return ;
        }
        proof {
            assert(cands[k as int] == candidates@[k as int].deep_view());
        }
        let c = &candidates[k];
        let ghost prev = serial_list.deep_view();
        match classify_name(serial_prefix, c.name.as_str()) {
            None => {},
            Some(class) => {
                match &c.nodes {
                    None => {},
                    Some(nodes) => {
                        let mut serial_info = SerialInfo {
                            name: dev_path(c.name.as_str()),
                            vendor: None,
                            product: None,
                            driver: chain_driver_exec(nodes),
                            usb_info: None,
                        };
                        let valid = if str_starts_with(c.name.as_str(), "ttyACM") {
                            proof {
                                reveal_strlit("ttyACM");
                                assert("ttyACM"@ =~= acm_name_prefix());
                            }
                            probe_acm_serial(nodes, &mut serial_info)
                        } else {
                            proof {
                                reveal_strlit("ttyACM");
                                assert("ttyACM"@ =~= acm_name_prefix());
                            }
                            match class {
                                DriverClass::UsbSerial => probe_usb_serial(
                                    nodes,
                                    &mut serial_info,
                                ),
                                _ => probe_builtin_serial(nodes, &mut serial_info),
                            }
                        };
                        if valid {
                            proof {
                                assert(serial_info@ == record_for(t, cands[k as int]).unwrap());
                            }
                            serial_list.push(serial_info);
                            proof {
                                assert(serial_list.deep_view() =~= prev.push(
                                    record_for(t, cands[k as int]).unwrap(),
                                ));
                            }
                        }
                    },
                }
            },
        }
        k = k + 1;
    }
}

/// Resolve the whole candidate list: build the classification table from the
/// driver-registration text (or its fallback), then probe every candidate,
/// returning one record per candidate that classified, resolved and probed
/// valid, in enumeration order.
pub fn get_serial_list(drivers_text: Option<&str>, candidates: &Vec<Candidate>) -> (r: Vec<
    SerialInfo,
>)
    ensures
        r.deep_view() == serial_list_of(
            match drivers_text {
                Some(text) => table_of_text(text@),
                None => fallback_table(),
            },
            candidates.deep_view(),
            candidates.deep_view().len() as int,
        ),
{
    let mut serial_list: Vec<SerialInfo> = Vec::new();
    let serial_prefix = get_serial_prefix(drivers_text);
    proof {
        assert(serial_list.deep_view() =~= Seq::<SerialInfoV>::empty());
    }
    probe_serial_by_prefix(&mut serial_list, &serial_prefix, candidates);
    proof {
        assert(serial_list.deep_view() =~= Seq::<SerialInfoV>::empty() + serial_list.deep_view());
    }
    serial_list
}

/// Law: a candidate whose name no table prefix classifies is absent from the
/// output. Every record of the output carries the device path of some
/// candidate that the table does classify.
pub proof fn lemma_unclassified_candidates_absent(
    t: Seq<DriverClassEntryV>,
    cands: Seq<CandidateV>,
    k: int,
)
    requires
        0 <= k <= cands.len(),
    ensures
        forall|j: int|
            0 <= j < serial_list_of(t, cands, k).len() ==> exists|i: int|
                0 <= i < k && classify(t, cands[i].name) is Some && (#[trigger] serial_list_of(
                    t,
                    cands,
                    k,
                )[j]).name == dev_path_of(cands[i].name),
    decreases k,
{
    if k > 0 {
        lemma_unclassified_candidates_absent(t, cands, k - 1);
        let prev = serial_list_of(t, cands, k - 1);
        let cur = serial_list_of(t, cands, k);
        assert forall|j: int| 0 <= j < cur.len() implies exists|i: int|
            0 <= i < k && classify(t, cands[i].name) is Some && (#[trigger] cur[j]).name
                == dev_path_of(cands[i].name) by {
            if j < prev.len() {
                let i = choose|i: int|
                    0 <= i < k - 1 && classify(t, cands[i].name) is Some && prev[j].name
                        == dev_path_of(cands[i].name);
                assert(cur[j] == prev[j]);
                assert(
                    0 <= i < k && classify(t, cands[i].name) is Some && cur[j].name == dev_path_of(
                        cands[i].name,
                    )
                );
            } else {
                let i = k - 1;
                assert(record_for(t, cands[i]) is Some);
                assert(cur[j] == record_for(t, cands[i]).unwrap());
                assert(
                    0 <= i < k && classify(t, cands[i].name) is Some && cur[j].name == dev_path_of(
                        cands[i].name,
                    )
                );
            }
        }
    }
}

} // verus!
