//! The driver-table line grammar and the driver classification table.
//!
//! One line of the platform's driver-registration table is relevant exactly
//! when it ends with the literal token `serial`. A relevant line is parsed
//! as: the first whitespace-delimited token is the driver class, and the
//! first occurrence of the marker `/dev/` after that token introduces the
//! device-name prefix — the maximal run of non-whitespace characters
//! following the marker. A line that fails the grammar declines with "no
//! match"; it is dropped, never a fatal error.
//!
//! The classification table maps device-name prefixes to driver classes,
//! keys unique with last-write-wins. When the driver-registration text is
//! unreadable the table degrades to a fixed fallback set of well-known
//! prefixes instead of failing.

use vstd::prelude::*;
use crate::strutil::lines_of;
use crate::strutil::split_lines;
use crate::strutil::str_ends_with;
use crate::strutil::str_eq;
use crate::strutil::str_starts_with;

verus! {

/// An ASCII whitespace character.
pub open spec fn is_space_char(c: char) -> bool {
    c == ' ' || c == '\t' || c == '\n' || c == '\r' || c == '\u{c}'
}

fn is_space(c: char) -> (r: bool)
    ensures
        r == is_space_char(c),
{
    c == ' ' || c == '\t' || c == '\n' || c == '\r' || c == '\u{c}'
}

/// End of the run of non-whitespace characters that starts at `i`: the first
/// index at `i` or later holding whitespace, or `s.len()` when none does.
pub open spec fn token_end(s: Seq<char>, i: int) -> int
    decreases s.len() - i,
{
    if i < 0 || i >= s.len() {
        s.len() as int
    } else if is_space_char(s[i]) {
        i
    } else {
        token_end(s, i + 1)
    }
}

/// The literal suffix that marks a relevant driver-table line.
pub open spec fn serial_suffix() -> Seq<char> {
    seq!['s', 'e', 'r', 'i', 'a', 'l']
}

/// Does the line end with the literal `serial`?
pub open spec fn ends_in_serial(s: Seq<char>) -> bool {
    serial_suffix().is_suffix_of(s)
}

/// The marker `/dev/` stands at position `j` of `s`.
pub open spec fn dev_marker_at(s: Seq<char>, j: int) -> bool {
    &&& 0 <= j
    &&& j + 5 <= s.len()
    &&& s[j] == '/'
    &&& s[j + 1] == 'd'
    &&& s[j + 2] == 'e'
    &&& s[j + 3] == 'v'
    &&& s[j + 4] == '/'
}

/// Position of the first `/dev/` marker at `j` or later, or -1 when there is
/// none.
pub open spec fn find_dev(s: Seq<char>, j: int) -> int
    decreases s.len() - j,
{
    if j < 0 || j + 5 > s.len() {
        -1
    } else if dev_marker_at(s, j) {
        j
    } else {
        find_dev(s, j + 1)
    }
}

/// The whole driver-table line grammar: the line ends in `serial`, begins
/// with a non-empty class token, and carries a `/dev/` marker followed by a
/// non-empty prefix token after the class token.
pub open spec fn line_matches(s: Seq<char>) -> bool {
    &&& ends_in_serial(s)
    &&& token_end(s, 0) > 0
    &&& find_dev(s, token_end(s, 0)) >= 0
    &&& token_end(s, find_dev(s, token_end(s, 0)) + 5) > find_dev(s, token_end(s, 0)) + 5
}

/// The class token of a matching line.
pub open spec fn line_class(s: Seq<char>) -> Seq<char> {
    s.subrange(0, token_end(s, 0))
}

/// The device-name prefix token of a matching line.
pub open spec fn line_prefix(s: Seq<char>) -> Seq<char> {
    s.subrange(find_dev(s, token_end(s, 0)) + 5, token_end(s, find_dev(s, token_end(s, 0)) + 5))
}

/// End of the non-whitespace run starting at `from`.
fn token_end_exec(s: &str, from: usize) -> (r: usize)
    requires
        from <= s@.len(),
    ensures
        r == token_end(s@, from as int),
        from <= r <= s@.len(),
{
    let len = s.unicode_len();
    let mut t = from;
    loop
        invariant
            from <= t <= len,
            len == s@.len(),
            token_end(s@, from as int) == token_end(s@, t as int),
        decreases len - t,
    {
        if t == len {
            return t;
        }
        if is_space(s.get_char(t)) {
            return t;
        }
        t = t + 1;
    }
}

/// First position of a `/dev/` marker at `from` or later.
fn find_dev_exec(s: &str, from: usize) -> (r: Option<usize>)
    requires
        from <= s@.len(),
    ensures
        match r {
            Some(j) => find_dev(s@, from as int) == j as int && dev_marker_at(s@, j as int) && from
                <= j && j + 5 <= s@.len() && j + 5 <= usize::MAX,
            None => find_dev(s@, from as int) == -1,
        },
{
    let len = s.unicode_len();
    if len < 5 {
        return None;
    }
    let mut t = from;
    loop
        invariant
            from <= t,
            t <= len,
            5 <= len,
            len == s@.len(),
            find_dev(s@, from as int) == find_dev(s@, t as int),
        decreases len - t,
    {
        if t > len - 5 {
            return None;
        }
        if s.get_char(t) == '/' && s.get_char(t + 1) == 'd' && s.get_char(t + 2) == 'e'
            && s.get_char(t + 3) == 'v' && s.get_char(t + 4) == '/' {
            return Some(t);
        }
        t = t + 1;
    }
}

/// Parse one line of the driver-registration table. Lines that do not end in
/// the literal `serial` never match; a matching line yields its class token
/// and its device-name prefix.
pub fn parse_line(line: &str) -> (r: Option<(String, String)>)
    ensures
        r is Some <==> line_matches(line@),
        r matches Some(cp) ==> cp.0@ == line_class(line@) && cp.1@ == line_prefix(line@),
        !ends_in_serial(line@) ==> r is None,
{
    proof {
        reveal_strlit("serial");
    }
    if !str_ends_with(line, "serial") {
        proof {
            assert("serial"@ =~= serial_suffix());
        }
        return None;
    }
    proof {
        assert("serial"@ =~= serial_suffix());
    }
    let te = token_end_exec(line, 0);
    if te == 0 {
        return None;
    }
    match find_dev_exec(line, te) {
        None => None,
        Some(d) => {
            let pe = token_end_exec(line, d + 5);
            if pe == d + 5 {
                return None;
            }
            let class = line.substring_char(0, te).to_owned();
            let prefix = line.substring_char(d + 5, pe).to_owned();
            Some((class, prefix))
        },
    }
}

/// The driver class that owns a device-name prefix.
#[derive(Debug, Clone, Copy, PartialEq, Eq, Structural)]
pub enum DriverClass {
    /// A USB serial adapter.
    UsbSerial,
    /// A plain serial driver.
    Serial,
    /// Anything else: built-in UARTs, SoC serial blocks, gadgets.
    BuiltinOrOther,
}

/// One classification entry: a device-name prefix and the class of the
/// driver that owns it.
#[derive(Debug)]
pub struct DriverClassEntry {
    pub prefix: String,
    pub class: DriverClass,
}

/// Mathematical value of a [`DriverClassEntry`].
#[verifier::ext_equal]
pub ghost struct DriverClassEntryV {
    pub prefix: Seq<char>,
    pub class: DriverClass,
}

impl View for DriverClassEntry {
    type V = DriverClassEntryV;

    open spec fn view(&self) -> DriverClassEntryV {
        DriverClassEntryV { prefix: self.prefix@, class: self.class }
    }
}

impl DeepView for DriverClassEntry {
    type V = DriverClassEntryV;

    open spec fn deep_view(&self) -> DriverClassEntryV {
        self.view()
    }
}

/// The class token naming a USB serial driver.
pub open spec fn usbserial_token() -> Seq<char> {
    seq!['u', 's', 'b', 's', 'e', 'r', 'i', 'a', 'l']
}

/// The fixed mapping from class tokens to driver classes; unrecognised
/// tokens map to [`DriverClass::BuiltinOrOther`].
pub open spec fn class_of_token(s: Seq<char>) -> DriverClass {
    if s == usbserial_token() {
        DriverClass::UsbSerial
    } else if s == serial_suffix() {
        DriverClass::Serial
    } else {
        DriverClass::BuiltinOrOther
    }
}

/// Normalise a class token to its driver class.
pub fn normalize_class(s: &str) -> (c: DriverClass)
    ensures
        c == class_of_token(s@),
{
    proof {
        reveal_strlit("usbserial");
        reveal_strlit("serial");
        assert("usbserial"@ =~= usbserial_token());
        assert("serial"@ =~= serial_suffix());
    }
    if str_eq(s, "usbserial") {
        DriverClass::UsbSerial
    } else if str_eq(s, "serial") {
        DriverClass::Serial
    } else {
        DriverClass::BuiltinOrOther
    }
}

/// Index of the first entry at `i` or later whose prefix equals `p`, or -1.
pub open spec fn index_of_prefix_from(t: Seq<DriverClassEntryV>, p: Seq<char>, i: int) -> int
    decreases t.len() - i,
{
    if i < 0 || i >= t.len() {
        -1
    } else if t[i].prefix == p {
        i
    } else {
        index_of_prefix_from(t, p, i + 1)
    }
}

/// Index of the entry holding prefix `p`, or -1 when the table has none.
pub open spec fn index_of_prefix(t: Seq<DriverClassEntryV>, p: Seq<char>) -> int {
    index_of_prefix_from(t, p, 0)
}

/// The table after inserting `(prefix, class)` with last-write-wins: an
/// entry already keyed by `prefix` takes the new class in place, anything
/// else appends.
pub open spec fn table_upsert(
    t: Seq<DriverClassEntryV>,
    prefix: Seq<char>,
    class: DriverClass,
) -> Seq<DriverClassEntryV> {
    let i = index_of_prefix(t, prefix);
    if i < 0 {
        t.push(DriverClassEntryV { prefix, class })
    } else {
        t.update(i, DriverClassEntryV { prefix, class })
    }
}

proof fn lemma_index_of_prefix_from_bounds(t: Seq<DriverClassEntryV>, p: Seq<char>, i: int)
    requires
        0 <= i <= t.len(),
    ensures
        index_of_prefix_from(t, p, i) == -1 || i <= index_of_prefix_from(t, p, i) < t.len(),
    decreases t.len() - i,
{
    if i < t.len() && t[i].prefix != p {
        lemma_index_of_prefix_from_bounds(t, p, i + 1);
    }
}

/// Insert one classification entry, last-write-wins on an equal prefix.
pub fn table_insert(table: &mut Vec<DriverClassEntry>, prefix: String, class: DriverClass)
    ensures
        final(table).deep_view() == table_upsert(old(table).deep_view(), prefix@, class),
{
    proof {
        lemma_index_of_prefix_from_bounds(table.deep_view(), prefix@, 0);
    }
    let n = table.len();
    let mut i: usize = 0;
    loop
        invariant
            i <= n,
            n == table@.len(),
            *table == *old(table),
            index_of_prefix(table.deep_view(), prefix@) == index_of_prefix_from(
                table.deep_view(),
                prefix@,
                i as int,
            ),
            index_of_prefix(table.deep_view(), prefix@) == -1 || 0 <= index_of_prefix(
                table.deep_view(),
                prefix@,
            ) < table@.len(),
        decreases n - i,
    {
        if i == n {
            table.push(DriverClassEntry { prefix, class });
            proof {
                let ghost goal = table_upsert(old(table).deep_view(), prefix@, class);
                assert(index_of_prefix(old(table).deep_view(), prefix@) == -1);
                assert forall|j: int| 0 <= j < goal.len() implies table.deep_view()[j] == goal[j]
                by {
                    assert(table.deep_view()[j] == table@[j].deep_view());
                }
                assert(table.deep_view() =~= goal);
            }
            return;
        }
        if str_eq(table[i].prefix.as_str(), prefix.as_str()) {
            proof {
                assert(table.deep_view()[i as int] == table@[i as int].deep_view());
                assert(index_of_prefix(table.deep_view(), prefix@) == i);
            }
            let ghost before = table@;
            let entry = DriverClassEntry { prefix, class };
            table[i] = entry;
            proof {
                assert(table@ =~= before.update(i as int, entry));
                let ghost goal = table_upsert(old(table).deep_view(), prefix@, class);
                assert(goal == old(table).deep_view().update(
                    i as int,
                    DriverClassEntryV { prefix: prefix@, class },
                ));
                assert(table.deep_view().len() == goal.len());
                assert forall|j: int| 0 <= j < goal.len() implies table.deep_view()[j] == goal[j] by {
                    assert(table.deep_view()[j] == table@[j].deep_view());
                    assert(old(table).deep_view()[j] == old(table)@[j].deep_view());
                    if j == i as int {
                        assert(table@[j] == entry);
                        assert(entry.deep_view() =~= DriverClassEntryV { prefix: prefix@, class });
                    } else {
                        assert(table@[j] == old(table)@[j]);
                    }
                }
                assert(table.deep_view() =~= goal);
            }
            return;
        }
        i = i + 1;
    }
}

/// The table built from the first `k` lines, in order, one upsert for each
/// line that matches the grammar.
pub open spec fn table_after_lines(lines: Seq<Seq<char>>, k: int) -> Seq<DriverClassEntryV>
    decreases k,
{
    if k <= 0 {
        Seq::empty()
    } else {
        let t = table_after_lines(lines, k - 1);
        let l = lines[k - 1];
        if line_matches(l) {
            table_upsert(t, line_prefix(l), class_of_token(line_class(l)))
        } else {
            t
        }
    }
}

/// The classification table a readable driver-registration text gives.
pub open spec fn table_of_text(text: Seq<char>) -> Seq<DriverClassEntryV> {
    table_after_lines(lines_of(text), lines_of(text).len() as int)
}

/// One fallback entry as a mathematical value.
pub open spec fn fb(prefix: Seq<char>, class: DriverClass) -> DriverClassEntryV {
    DriverClassEntryV { prefix, class }
}

/// The fixed fallback table used when the driver-registration text is
/// unreadable: a generic UART prefix, a USB-serial-adapter prefix, and
/// well-known SoC/embedded UART prefixes.
pub open spec fn fallback_table() -> Seq<DriverClassEntryV> {
    seq![
        fb(seq!['t', 't', 'y', 'S'], DriverClass::Serial),
        fb(seq!['t', 't', 'y', 'U', 'S', 'B'], DriverClass::UsbSerial),
        fb(seq!['t', 't', 'y', 'P', 'S'], DriverClass::BuiltinOrOther),
        fb(seq!['t', 't', 'y', 'A', 'C', 'M'], DriverClass::BuiltinOrOther),
        fb(seq!['t', 't', 'y', 'A', 'M', 'A'], DriverClass::BuiltinOrOther),
        fb(seq!['t', 't', 'y', 'm', 'x', 'c'], DriverClass::BuiltinOrOther),
        fb(seq!['t', 't', 'y', 'G', 'S'], DriverClass::BuiltinOrOther),
    ]
}

/// Build the driver classification table. A readable driver-registration
/// text is parsed line by line; an unreadable one (`None`) degrades to the
/// fixed fallback table. This never fails.
pub fn get_serial_prefix(drivers_text: Option<&str>) -> (table: Vec<DriverClassEntry>)
    ensures
        match drivers_text {
            Some(text) => table.deep_view() == table_of_text(text@),
            None => table.deep_view() == fallback_table(),
        },
{
    let mut table: Vec<DriverClassEntry> = Vec::new();
    match drivers_text {
        Some(text) => {
            let lines = split_lines(text);
            let n = lines.len();
            proof {
                assert(table.deep_view() =~= table_after_lines(lines_of(text@), 0));
                assert(lines.deep_view().len() == lines@.len());
            }
            let mut k: usize = 0;
            loop
                invariant
                    drivers_text == Some(text),
                    k <= n,
                    n == lines@.len(),
                    n == lines_of(text@).len(),
                    lines.deep_view() == lines_of(text@),
                    table.deep_view() == table_after_lines(lines_of(text@), k as int),
                decreases n - k,
            {
                if k == n {
                    return table;
                }
                proof {
                    assert(lines@[k as int]@ == lines.deep_view()[k as int]);
                }
                match parse_line(lines[k].as_str()) {
                    Some(cp) => {
                        let class = normalize_class(cp.0.as_str());
                        table_insert(&mut table, cp.1, class);
                    },
                    None => {},
                }
                k = k + 1;
            }
        },
        None => {
            proof {
                reveal_strlit("ttyS");
                reveal_strlit("ttyUSB");
                reveal_strlit("ttyPS");
                reveal_strlit("ttyACM");
                reveal_strlit("ttyAMA");
                reveal_strlit("ttymxc");
                reveal_strlit("ttyGS");
            }
            table.push(DriverClassEntry { prefix: "ttyS".to_owned(), class: DriverClass::Serial });
            table.push(
                DriverClassEntry { prefix: "ttyUSB".to_owned(), class: DriverClass::UsbSerial },
            );
            table.push(
                DriverClassEntry { prefix: "ttyPS".to_owned(), class: DriverClass::BuiltinOrOther },
            );
            table.push(
                DriverClassEntry {
                    prefix: "ttyACM".to_owned(),
                    class: DriverClass::BuiltinOrOther,
                },
            );
            table.push(
                DriverClassEntry {
                    prefix: "ttyAMA".to_owned(),
                    class: DriverClass::BuiltinOrOther,
                },
            );
            table.push(
                DriverClassEntry {
                    prefix: "ttymxc".to_owned(),
                    class: DriverClass::BuiltinOrOther,
                },
            );
            table.push(
                DriverClassEntry { prefix: "ttyGS".to_owned(), class: DriverClass::BuiltinOrOther },
            );
            proof {
                assert("ttyS"@ =~= seq!['t', 't', 'y', 'S']);
                assert("ttyUSB"@ =~= seq!['t', 't', 'y', 'U', 'S', 'B']);
                assert("ttyPS"@ =~= seq!['t', 't', 'y', 'P', 'S']);
                assert("ttyACM"@ =~= seq!['t', 't', 'y', 'A', 'C', 'M']);
                assert("ttyAMA"@ =~= seq!['t', 't', 'y', 'A', 'M', 'A']);
                assert("ttymxc"@ =~= seq!['t', 't', 'y', 'm', 'x', 'c']);
                assert("ttyGS"@ =~= seq!['t', 't', 'y', 'G', 'S']);
                assert(table.deep_view() =~= fallback_table());
            }
            table
        },
    }
}

/// The class of the first table entry whose prefix the name starts with,
/// searching from position `i` of the table.
pub open spec fn classify_from(
    t: Seq<DriverClassEntryV>,
    name: Seq<char>,
    i: int,
) -> Option<DriverClass>
    decreases t.len() - i,
{
    if i < 0 || i >= t.len() {
        None
    } else if t[i].prefix.is_prefix_of(name) {
        Some(t[i].class)
    } else {
        classify_from(t, name, i + 1)
    }
}

/// The classification of a device name against a table: the class of the
/// first entry whose prefix the name starts with, or no class at all.
pub open spec fn classify(t: Seq<DriverClassEntryV>, name: Seq<char>) -> Option<DriverClass> {
    classify_from(t, name, 0)
}

/// Classify a candidate device name against the table; the first structural
/// match wins.
pub fn classify_name(table: &Vec<DriverClassEntry>, name: &str) -> (r: Option<DriverClass>)
    ensures
        r == classify(table.deep_view(), name@),
{
    let n = table.len();
    let mut i: usize = 0;
    loop
        invariant
            i <= n,
            n == table@.len(),
            classify(table.deep_view(), name@) == classify_from(
                table.deep_view(),
                name@,
                i as int,
            ),
        decreases n - i,
    {
        if i == n {
            return None;
        }
        if str_starts_with(name, table[i].prefix.as_str()) {
            return Some(table[i].class);
        }
        i = i + 1;
    }
}

} // verus!
