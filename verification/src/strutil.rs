//! Small verified helpers on strings: equality, prefix and suffix tests,
//! line splitting, attribute-text normalisation, and extraction of the final
//! path segment of a canonical path.

use vstd::prelude::*;

verus! {

/// Character-for-character equality of two string slices.
pub fn str_eq(a: &str, b: &str) -> (r: bool)
    ensures
        r == (a@ == b@),
{
    let alen = a.unicode_len();
    let blen = b.unicode_len();
    if alen != blen {
        assert(a@ != b@);
        return false;
    }
    for i in 0..alen
        invariant
            alen == a@.len(),
            alen == b@.len(),
            forall|j: int| 0 <= j < i ==> a@[j] == b@[j],
    {
        if a.get_char(i) != b.get_char(i) {
            return false;
        }
    }
    proof {
        assert(a@ =~= b@);
    }
    true
}

/// Does `s` begin with `prefix`?
pub fn str_starts_with(s: &str, prefix: &str) -> (r: bool)
    ensures
        r == prefix@.is_prefix_of(s@),
{
    let plen = prefix.unicode_len();
    let slen = s.unicode_len();
    if plen > slen {
        return false;
    }
    for i in 0..plen
        invariant
            plen == prefix@.len(),
            slen == s@.len(),
            plen <= slen,
            forall|j: int| 0 <= j < i ==> s@[j] == prefix@[j],
    {
        if s.get_char(i) != prefix.get_char(i) {
            return false;
        }
    }
    proof {
        assert(prefix@ =~= s@.subrange(0, prefix@.len() as int));
    }
    true
}

/// Does `s` end with `suffix`?
pub fn str_ends_with(s: &str, suffix: &str) -> (r: bool)
    ensures
        r == suffix@.is_suffix_of(s@),
{
    let xlen = suffix.unicode_len();
    let slen = s.unicode_len();
    if xlen > slen {
        return false;
    }
    let base = slen - xlen;
    for i in 0..xlen
        invariant
            xlen == suffix@.len(),
            slen == s@.len(),
            base == slen - xlen,
            forall|j: int| 0 <= j < i ==> s@[base + j] == suffix@[j],
    {
        if s.get_char(base + i) != suffix.get_char(i) {
            return false;
        }
    }
    proof {
        assert(suffix@ =~= s@.subrange(s@.len() - suffix@.len(), s@.len() as int));
    }
    true
}

/// Clone an optional string, value for value.
pub fn clone_opt_string(o: &Option<String>) -> (r: Option<String>)
    ensures
        r.deep_view() == o.deep_view(),
{
    match o {
        Some(s) => Some(s.clone()),
        None => None,
    }
}

/// Relies on `String::push` of std, which vstd leaves unspecified: it appends
/// the given character to the end of the string.
pub assume_specification[ String::push ](s: &mut String, c: char)
    ensures
        final(s)@ == old(s)@.push(c),
;

/// Index of the first newline character of `s` at position `i` or later;
/// `s.len()` when there is none.
pub open spec fn find_nl(s: Seq<char>, i: int) -> int
    decreases s.len() - i,
{
    if i < 0 || i >= s.len() {
        s.len() as int
    } else if s[i] == '\n' {
        i
    } else {
        find_nl(s, i + 1)
    }
}

pub proof fn lemma_find_nl_bounds(s: Seq<char>, i: int)
    requires
        0 <= i <= s.len(),
    ensures
        i <= find_nl(s, i) <= s.len(),
        find_nl(s, i) < s.len() ==> s[find_nl(s, i)] == '\n',
        forall|j: int| i <= j < find_nl(s, i) ==> s[j] != '\n',
    decreases s.len() - i,
{
    if i < s.len() && s[i] != '\n' {
        lemma_find_nl_bounds(s, i + 1);
    }
}

/// A line segment with a trailing carriage return removed, as a line ending
/// of `\r\n` leaves one on the segment before the newline.
pub open spec fn strip_cr(l: Seq<char>) -> Seq<char> {
    if l.len() > 0 && l.last() == '\r' {
        l.drop_last()
    } else {
        l
    }
}

/// The lines of `s` from position `i` on: segments split at `\n`, each with a
/// trailing `\r` removed; a final line ending opens no further line.
pub open spec fn lines_from(s: Seq<char>, i: int) -> Seq<Seq<char>>
    decreases s.len() - i,
{
    if i < 0 || i >= s.len() {
        Seq::empty()
    } else {
        let n = find_nl(s, i);
        proof {
            lemma_find_nl_bounds(s, i);
        }
        if n >= s.len() {
            seq![s.subrange(i, s.len() as int)]
        } else {
            seq![strip_cr(s.subrange(i, n))] + lines_from(s, n + 1)
        }
    }
}

/// The lines of a whole text, as the standard line iterator yields them.
pub open spec fn lines_of(s: Seq<char>) -> Seq<Seq<char>> {
    lines_from(s, 0)
}

/// Index of the first newline of `s` at `from` or later, `s.len()` if none.
fn find_nl_exec(s: &str, from: usize) -> (r: usize)
    requires
        from <= s@.len(),
    ensures
        r == find_nl(s@, from as int),
        from <= r <= s@.len(),
        r < s@.len() ==> s@[r as int] == '\n',
{
    let len = s.unicode_len();
    let mut t = from;
    loop
        invariant
            from <= t <= len,
            len == s@.len(),
            find_nl(s@, from as int) == find_nl(s@, t as int),
        decreases len - t,
    {
        if t == len {
            return t;
        }
        if s.get_char(t) == '\n' {
            return t;
        }
        t = t + 1;
    }
}

/// Split a text into its lines.
pub fn split_lines(s: &str) -> (r: Vec<String>)
    ensures
        r.deep_view() == lines_of(s@),
{
    let len = s.unicode_len();
    let mut out: Vec<String> = Vec::new();
    let mut pos: usize = 0;
    loop
        invariant
            pos <= len,
            len == s@.len(),
            lines_of(s@) =~= out.deep_view() + lines_from(s@, pos as int),
        decreases len - pos,
    {
        if pos == len {
            assert(lines_of(s@) =~= out.deep_view());
            return out;
        }
        let n = find_nl_exec(s, pos);
        let ghost prev = out.deep_view();
        if n == len {
            let line = s.substring_char(pos, n).to_owned();
            out.push(line);
            assert(out.deep_view() =~= prev + lines_from(s@, pos as int));
            pos = len;
        } else {
            let seg_end = if n > pos && s.get_char(n - 1) == '\r' {
                n - 1
            } else {
                n
            };
            let line = s.substring_char(pos, seg_end).to_owned();
            proof {
                assert(strip_cr(s@.subrange(pos as int, find_nl(s@, pos as int))) =~= s@.subrange(
                    pos as int,
                    seg_end as int,
                ));
            }
            out.push(line);
            assert(out.deep_view() =~= prev + seq![strip_cr(
                s@.subrange(pos as int, find_nl(s@, pos as int)),
            )]);
            pos = n + 1;
        }
    }
}

/// Every character of `l`, with each NUL replaced by a semicolon.
pub open spec fn replace_nul(l: Seq<char>) -> Seq<char> {
    l.map_values(|c: char| if c == '\0' { ';' } else { c })
}

/// The first line of an attribute text, NUL characters replaced by
/// semicolons; `None` when the text has no line at all.
pub open spec fn attr_first_line(s: Seq<char>) -> Option<Seq<char>> {
    if lines_of(s).len() == 0 {
        None
    } else {
        Some(replace_nul(lines_of(s)[0]))
    }
}

/// Normalise the raw text of one attribute read: keep the first line only
/// and replace embedded NULs, so a value can be printed safely. An empty
/// text has no value at all.
pub fn normalize_attr(text: &str) -> (r: Option<String>)
    ensures
        r.deep_view() == attr_first_line(text@),
{
    let len = text.unicode_len();
    if len == 0 {
        return None;
    }
    let n = find_nl_exec(text, 0);
    let seg_end = if n < len && n > 0 && text.get_char(n - 1) == '\r' {
        n - 1
    } else {
        n
    };
    let ghost line = lines_of(text@)[0];
    proof {
        assert(line =~= text@.subrange(0, seg_end as int));
    }
    let mut out = String::new();
    for i in 0..seg_end
        invariant
            seg_end <= text@.len(),
            line =~= text@.subrange(0, seg_end as int),
            out@.len() == i,
            forall|j: int|
                0 <= j < i ==> out@[j] == (if line[j] == '\0' {
                    ';'
                } else {
                    line[j]
                }),
    {
        let c = text.get_char(i);
        if c == '\0' {
            out.push(';');
        } else {
            out.push(c);
        }
    }
    proof {
        assert(out@ =~= replace_nul(line));
    }
    Some(out)
}

/// Index of the last slash of `s`, or -1 when it has none.
pub open spec fn find_last_slash(s: Seq<char>) -> int
    decreases s.len(),
{
    if s.len() == 0 {
        -1
    } else if s.last() == '/' {
        s.len() - 1
    } else {
        find_last_slash(s.drop_last())
    }
}

/// The final segment of a path: everything after the last slash.
pub open spec fn last_path_segment(s: Seq<char>) -> Seq<char> {
    s.subrange(find_last_slash(s) + 1, s.len() as int)
}

proof fn lemma_find_last_slash_bounds(s: Seq<char>)
    ensures
        -1 <= find_last_slash(s) < s.len(),
    decreases s.len(),
{
    if s.len() > 0 && s.last() != '/' {
        lemma_find_last_slash_bounds(s.drop_last());
    }
}

/// The name a canonical path addresses: the characters after its last slash,
/// or no value when nothing follows the last slash (as for a bare root).
pub fn get_file_name(path: &str) -> (r: Option<String>)
    ensures
        r matches Some(name) ==> name@ == last_path_segment(path@) && last_path_segment(
            path@,
        ).len() > 0,
        r is None ==> last_path_segment(path@).len() == 0,
{
    let len = path.unicode_len();
    proof {
        lemma_find_last_slash_bounds(path@);
        assert(path@.subrange(0, len as int) =~= path@);
    }
    let mut j: usize = len;
    loop
        invariant
            j <= len,
            len == path@.len(),
            find_last_slash(path@) == find_last_slash(path@.subrange(0, j as int)),
        decreases j,
    {
        if j == 0 {
            proof {
                assert(path@.subrange(0, 0) =~= Seq::<char>::empty());
            }
            if len == 0 {
                return None;
            }
            let name = path.substring_char(0, len).to_owned();
            proof {
                assert(name@ =~= last_path_segment(path@));
            }
            return Some(name);
        }
        let c = path.get_char(j - 1);
        proof {
            assert(path@.subrange(0, j as int).last() == path@[j - 1]);
        }
        if c == '/' {
            if j == len {
                return None;
            }
            let name = path.substring_char(j, len).to_owned();
            proof {
                assert(name@ =~= last_path_segment(path@));
            }
            return Some(name);
        }
        proof {
            assert(path@.subrange(0, j as int).drop_last() =~= path@.subrange(0, j - 1));
        }
        j = j - 1;
    }
}

} // verus!
