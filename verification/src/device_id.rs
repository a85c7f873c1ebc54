//! Grammar for composite device-instance identifiers.
//!
//! An identifier names a USB serial device when it begins with one of the two
//! known bus-prefix literals (`USB` or `FTDIBUS`) followed immediately by a
//! `\`-delimited segment of the exact form `VID_XXXX&PID_XXXX`, where each
//! `XXXX` is exactly 4 case-insensitive hex digits. Anything else declines
//! with "no match"; a malformed identifier is never a fatal error here.

use vstd::prelude::*;

verus! {

/// An ASCII hexadecimal digit, either case.
pub open spec fn is_hex_digit_char(c: char) -> bool {
    ('0' <= c && c <= '9') || ('a' <= c && c <= 'f') || ('A' <= c && c <= 'F')
}

/// The first bus-prefix literal: `USB`.
pub open spec fn usb_bus_prefix() -> Seq<char> {
    seq!['U', 'S', 'B']
}

/// The second bus-prefix literal: `FTDIBUS`.
pub open spec fn ftdi_bus_prefix() -> Seq<char> {
    seq!['F', 'T', 'D', 'I', 'B', 'U', 'S']
}

/// Length of the bus prefix that `s` begins with, or -1 when `s` begins with
/// neither literal.
pub open spec fn bus_prefix_len(s: Seq<char>) -> int {
    if usb_bus_prefix().is_prefix_of(s) {
        3
    } else if ftdi_bus_prefix().is_prefix_of(s) {
        7
    } else {
        -1
    }
}

/// The exact segment `\VID_XXXX&PID_XXXX\` stands at position `p` of `s`.
pub open spec fn vid_pid_segment_at(s: Seq<char>, p: int) -> bool {
    &&& 0 <= p
    &&& p + 19 <= s.len()
    &&& s[p] == '\\'
    &&& s[p + 1] == 'V' && s[p + 2] == 'I' && s[p + 3] == 'D' && s[p + 4] == '_'
    &&& (forall|i: int| p + 5 <= i < p + 9 ==> is_hex_digit_char(#[trigger] s[i]))
    &&& s[p + 9] == '&'
    &&& s[p + 10] == 'P' && s[p + 11] == 'I' && s[p + 12] == 'D' && s[p + 13] == '_'
    &&& (forall|i: int| p + 14 <= i < p + 18 ==> is_hex_digit_char(#[trigger] s[i]))
    &&& s[p + 18] == '\\'
}

/// The whole device-instance grammar: a known bus prefix, then the
/// `\VID_XXXX&PID_XXXX\` segment immediately after it.
pub open spec fn device_id_matches(s: Seq<char>) -> bool {
    bus_prefix_len(s) >= 0 && vid_pid_segment_at(s, bus_prefix_len(s))
}

/// The 4 vendor-ID hex digits of a matching identifier, case as found.
pub open spec fn device_id_vid(s: Seq<char>) -> Seq<char> {
    s.subrange(bus_prefix_len(s) + 5, bus_prefix_len(s) + 9)
}

/// The 4 product-ID hex digits of a matching identifier, case as found.
pub open spec fn device_id_pid(s: Seq<char>) -> Seq<char> {
    s.subrange(bus_prefix_len(s) + 14, bus_prefix_len(s) + 18)
}

fn is_hex_digit(c: char) -> (r: bool)
    ensures
        r == is_hex_digit_char(c),
{
    ('0' <= c && c <= '9') || ('a' <= c && c <= 'f') || ('A' <= c && c <= 'F')
}

/// Are the 4 characters of `s` starting at `at` all hex digits?
fn all_hex4(s: &str, at: usize) -> (r: bool)
    requires
        at + 4 <= s@.len(),
        at + 4 <= usize::MAX,
    ensures
        r == forall|i: int| at <= i < at + 4 ==> is_hex_digit_char(#[trigger] s@[i]),
{
    for k in 0..4usize
        invariant
            at + 4 <= s@.len(),
            at + 4 <= usize::MAX,
            forall|i: int| at <= i < at + k ==> is_hex_digit_char(#[trigger] s@[i]),
    {
        if !is_hex_digit(s.get_char(at + k)) {
            return false;
        }
    }
    true
}

/// Parse a composite device-instance identifier, returning the embedded
/// vendor and product IDs when, and only when, the identifier matches the
/// grammar.
pub fn parse_device_id(device_id: &str) -> (r: Option<(String, String)>)
    ensures
        r is Some <==> device_id_matches(device_id@),
        r matches Some(ids) ==> ids.0@ == device_id_vid(device_id@) && ids.1@ == device_id_pid(
            device_id@,
        ),
{
    proof {
        reveal_strlit("USB");
        reveal_strlit("FTDIBUS");
    }
    let p: usize = if crate::strutil::str_starts_with(device_id, "USB") {
        proof {
            assert("USB"@ =~= usb_bus_prefix());
        }
        3
    } else if crate::strutil::str_starts_with(device_id, "FTDIBUS") {
        proof {
            assert("USB"@ =~= usb_bus_prefix());
            assert("FTDIBUS"@ =~= ftdi_bus_prefix());
        }
        7
    } else {
        proof {
            assert("USB"@ =~= usb_bus_prefix());
            assert("FTDIBUS"@ =~= ftdi_bus_prefix());
        }
        return None;
    };
    let len = device_id.unicode_len();
    if len < 19 || p > len - 19 {
        return None;
    }
    if device_id.get_char(p) != '\\' {
        return None;
    }
    if device_id.get_char(p + 1) != 'V' || device_id.get_char(p + 2) != 'I' || device_id.get_char(
        p + 3,
    ) != 'D' || device_id.get_char(p + 4) != '_' {
        return None;
    }
    if !all_hex4(device_id, p + 5) {
        return None;
    }
    if device_id.get_char(p + 9) != '&' {
        return None;
    }
    if device_id.get_char(p + 10) != 'P' || device_id.get_char(p + 11) != 'I'
        || device_id.get_char(p + 12) != 'D' || device_id.get_char(p + 13) != '_' {
        return None;
    }
    if !all_hex4(device_id, p + 14) {
        return None;
    }
    if device_id.get_char(p + 18) != '\\' {
        return None;
    }
    let vid = device_id.substring_char(p + 5, p + 9).to_owned();
    let pid = device_id.substring_char(p + 14, p + 18).to_owned();
    Some((vid, pid))
}

/// An identifier built as `USB\VID_<v>&PID_<p>\<rest>` out of the given
/// pieces.
pub open spec fn usb_device_id_of(v: Seq<char>, p: Seq<char>, rest: Seq<char>) -> Seq<char> {
    seq!['U', 'S', 'B', '\\', 'V', 'I', 'D', '_'] + v + seq!['&', 'P', 'I', 'D', '_'] + p + seq![
        '\\',
    ] + rest
}

/// Law: for every pair `(v, p)` of 4-hex-digit sequences and every tail, the
/// identifier `USB\VID_<v>&PID_<p>\<rest>` matches the device-instance
/// grammar and yields exactly `(v, p)`.
pub proof fn lemma_device_id_grammar_complete(v: Seq<char>, p: Seq<char>, rest: Seq<char>)
    requires
        v.len() == 4,
        forall|i: int| 0 <= i < 4 ==> is_hex_digit_char(#[trigger] v[i]),
        p.len() == 4,
        forall|i: int| 0 <= i < 4 ==> is_hex_digit_char(#[trigger] p[i]),
    ensures
        device_id_matches(usb_device_id_of(v, p, rest)),
        device_id_vid(usb_device_id_of(v, p, rest)) == v,
        device_id_pid(usb_device_id_of(v, p, rest)) == p,
{
    let s = usb_device_id_of(v, p, rest);
    assert(usb_bus_prefix().is_prefix_of(s)) by {
        assert(usb_bus_prefix() =~= s.subrange(0, 3));
    }
    assert(bus_prefix_len(s) == 3);
    assert forall|i: int| 8 <= i < 12 implies is_hex_digit_char(#[trigger] s[i]) by {
        assert(s[i] == v[i - 8]);
    }
    assert forall|i: int| 17 <= i < 21 implies is_hex_digit_char(#[trigger] s[i]) by {
        assert(s[i] == p[i - 17]);
    }
    assert(vid_pid_segment_at(s, 3));
    assert(device_id_vid(s) =~= v);
    assert(device_id_pid(s) =~= p);
}

} // verus!
