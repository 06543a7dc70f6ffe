//! Choice of which listed serial port to open.
//!
//! The host enumerates the ports it can see and hands over one
//! candidate per port: its system name, whether it is a USB device, and
//! the serial number and manufacturer it reports, if any. The policy
//! prefers a serial-number match, then a manufacturer match, then the
//! first USB device, and otherwise falls back to the first listed port.

use vstd::prelude::*;

verus! {

/// What the host learned about one listed serial port.
pub struct PortCandidate {
    /// The system name the port is opened by.
    pub name: String,
    /// Whether the port is a USB device (only those report a serial
    /// number or manufacturer).
    pub is_usb: bool,
    /// Serial number the device reports, if any.
    pub serial_number: Option<String>,
    /// Manufacturer the device reports, if any.
    pub manufacturer: Option<String>,
}

/// Which rule picked the port to open, and the index it picked.
pub enum PortSelection {
    /// A USB device reported exactly the configured serial number.
    BySerialNumber(usize),
    /// No serial number matched; a USB device reported the configured
    /// manufacturer.
    ByManufacturer(usize),
    /// Neither string matched; the first USB device is taken.
    FirstUsb(usize),
    /// Nothing is USB; the first listed port is tried anyway.
    FirstListed,
}

/// Whether `p` is a USB device reporting serial number `sn`.
pub open spec fn sn_matches(p: PortCandidate, sn: Seq<char>) -> bool {
    p.is_usb && (p.serial_number matches Some(s) && s@ == sn)
}

/// Whether `p` is a USB device reporting manufacturer `mf`.
pub open spec fn mf_matches(p: PortCandidate, mf: Seq<char>) -> bool {
    p.is_usb && (p.manufacturer matches Some(m) && m@ == mf)
}

/// Pick the port to open: the first serial-number match, else the first
/// manufacturer match, else the first USB device, else the first listed
/// port; `None` only when nothing is listed.
pub fn select_port(
    ports: &Vec<PortCandidate>,
    serial_number: &String,
    manufacturer: &String,
) -> (r: Option<PortSelection>)
    ensures
        match r {
            None => ports@.len() == 0,
            Some(sel) => ports@.len() > 0 && match sel {
                PortSelection::BySerialNumber(i) => i < ports@.len() && sn_matches(
                    ports@[i as int],
                    serial_number@,
                ) && (forall|j: int| 0 <= j < i ==> !sn_matches(ports@[j], serial_number@)),
                PortSelection::ByManufacturer(i) => (forall|j: int|
                    0 <= j < ports@.len() ==> !sn_matches(ports@[j], serial_number@)) && i
                    < ports@.len() && mf_matches(ports@[i as int], manufacturer@) && (forall|j: int|
                    0 <= j < i ==> !mf_matches(ports@[j], manufacturer@)),
                PortSelection::FirstUsb(i) => (forall|j: int|
                    0 <= j < ports@.len() ==> !sn_matches(ports@[j], serial_number@)) && (forall|
                    j: int,
                |
                    0 <= j < ports@.len() ==> !mf_matches(ports@[j], manufacturer@)) && i
                    < ports@.len() && ports@[i as int].is_usb && (forall|j: int|
                    0 <= j < i ==> !ports@[j].is_usb),
                PortSelection::FirstListed => forall|j: int|
                    0 <= j < ports@.len() ==> !ports@[j].is_usb,
            },
        },
{
    let n = ports.len();
    if n == 0 {
        return None;
    }

    let mut i: usize = 0;
    while i < n
        invariant
            i <= n == ports@.len(),
            forall|j: int| 0 <= j < i ==> !sn_matches(ports@[j], serial_number@),
        decreases n - i,
    {
        let p = &ports[i];
        if p.is_usb {
            match &p.serial_number {
                Some(s) => {
                    if *s == *serial_number {
                        return Some(PortSelection::BySerialNumber(i));
                    }
                },
                None => {},
            }
        }
        i = i + 1;
    }

    let mut i: usize = 0;
    while i < n
        invariant
            i <= n == ports@.len(),
            forall|j: int| 0 <= j < ports@.len() ==> !sn_matches(ports@[j], serial_number@),
            forall|j: int| 0 <= j < i ==> !mf_matches(ports@[j], manufacturer@),
        decreases n - i,
    {
        let p = &ports[i];
        if p.is_usb {
            match &p.manufacturer {
                Some(m) => {
                    if *m == *manufacturer {
                        return Some(PortSelection::ByManufacturer(i));
                    }
                },
                None => {},
            }
        }
        i = i + 1;
    }

    let mut i: usize = 0;
    while i < n
        invariant
            i <= n == ports@.len(),
            forall|j: int| 0 <= j < ports@.len() ==> !sn_matches(ports@[j], serial_number@),
            forall|j: int| 0 <= j < ports@.len() ==> !mf_matches(ports@[j], manufacturer@),
            forall|j: int| 0 <= j < i ==> !ports@[j].is_usb,
        decreases n - i,
    {
        if ports[i].is_usb {
            return Some(PortSelection::FirstUsb(i));
        }
        i = i + 1;
    }

    Some(PortSelection::FirstListed)
}

} // verus!
