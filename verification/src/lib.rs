//! Discovery of serial communication endpoints and resolution of their
//! identifying attributes.
//!
//! The crate is organised around a small pipeline. A driver classification
//! table is built from the platform's driver-registration text (module
//! [`drivers_table`]), candidate device names are classified against it, and
//! each classified candidate is probed along a snapshot of its device
//! hierarchy (module [`probe`]) until identity attributes (vendor, product,
//! USB vendor/product IDs) are found or the probe gives the candidate up.
//! Module [`enumerate`] ties the pieces together and produces the final
//! sequence of [`SerialInfo`] records. Module [`device_id`] parses composite
//! device-instance identifiers of the form `USB\VID_xxxx&PID_xxxx\...`.
//!
//! Reading directories, attribute files and links is left to the caller: the
//! functions here take the already-read snapshot as plain values, so that the
//! whole decision logic is stated and checked in contracts.

use vstd::prelude::*;

pub mod strutil;
pub mod device_id;
pub mod drivers_table;
pub mod probe;
pub mod enumerate;

pub use device_id::parse_device_id;
pub use drivers_table::get_serial_prefix;
pub use drivers_table::parse_line;
pub use enumerate::get_serial_list;

verus! {

/// USB identity of a serial port: the 4-hex-digit vendor and product IDs,
/// kept as the literal substrings found in the platform data.
#[derive(Debug)]
pub struct UsbInfo {
    /// Vendor ID.
    pub vid: String,
    /// Product ID.
    pub pid: String,
}

/// Mathematical value of a [`UsbInfo`]: both IDs as character sequences.
#[verifier::ext_equal]
pub ghost struct UsbInfoV {
    pub vid: Seq<char>,
    pub pid: Seq<char>,
}

impl View for UsbInfo {
    type V = UsbInfoV;

    open spec fn view(&self) -> UsbInfoV {
        UsbInfoV { vid: self.vid@, pid: self.pid@ }
    }
}

impl DeepView for UsbInfo {
    type V = UsbInfoV;

    open spec fn deep_view(&self) -> UsbInfoV {
        self.view()
    }
}

/// One resolved serial endpoint. Optional fields distinguish "no value was
/// found" (`None`) from "a value was read" (`Some`), even when the value read
/// is empty.
#[derive(Debug)]
pub struct SerialInfo {
    /// Canonical name the operating system uses to address the device.
    pub name: String,
    /// Human-readable manufacturer string, when one was resolved.
    pub vendor: Option<String>,
    /// Human-readable product string, when one was resolved; for
    /// multi-function USB chips it may carry `:<interface>` as a
    /// disambiguator.
    pub product: Option<String>,
    /// Name of the owning kernel driver, when one was resolved.
    pub driver: Option<String>,
    /// USB vendor/product identity, present only when the probe reached a
    /// USB device node carrying both IDs.
    pub usb_info: Option<UsbInfo>,
}

/// Mathematical value of a [`SerialInfo`].
#[verifier::ext_equal]
pub ghost struct SerialInfoV {
    pub name: Seq<char>,
    pub vendor: Option<Seq<char>>,
    pub product: Option<Seq<char>>,
    pub driver: Option<Seq<char>>,
    pub usb_info: Option<UsbInfoV>,
}

impl View for SerialInfo {
    type V = SerialInfoV;

    open spec fn view(&self) -> SerialInfoV {
        SerialInfoV {
            name: self.name@,
            vendor: self.vendor.deep_view(),
            product: self.product.deep_view(),
            driver: self.driver.deep_view(),
            usb_info: self.usb_info.deep_view(),
        }
    }
}

impl DeepView for SerialInfo {
    type V = SerialInfoV;

    open spec fn deep_view(&self) -> SerialInfoV {
        self.view()
    }
}

} // verus!
