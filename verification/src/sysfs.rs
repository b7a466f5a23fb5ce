use vstd::prelude::*;

use crate::linux::{lemma_parse_narrower, spec_parse_unsigned};
use crate::model::{HidBus, HidNode, LOGITECH_VENDOR_ID, spec_hid_bus};
use crate::strmap::{key_less, key_less_exec, lemma_key_less_irreflexive, lemma_key_less_transitive};
use crate::text::str_eq;

verus! {

/// A line without the carriage return of a `\r\n` ending.
pub open spec fn strip_cr(l: Seq<char>) -> Seq<char> {
    if l.len() > 0 && l.last() == '\r' {
        l.drop_last()
    } else {
        l
    }
}

/// The lines of `s` as `str::lines` splits them: at `\n` or `\r\n`; the
/// text after the last `\n` is the last line, kept as it is (possibly empty).
pub open spec fn text_lines(s: Seq<char>) -> Seq<Seq<char>>
    decreases s.len(),
{
    if s.len() == 0 {
        seq![Seq::<char>::empty()]
    } else {
        let prior = text_lines(s.drop_last());
        if s.last() == '\n' {
            prior.update(prior.len() - 1, strip_cr(prior.last())).push(Seq::<char>::empty())
        } else {
            prior.update(prior.len() - 1, prior.last().push(s.last()))
        }
    }
}

/// `k` is the position of the first `=` of `l`.
pub open spec fn is_first_eq(l: Seq<char>, k: int) -> bool {
    &&& 0 <= k < l.len()
    &&& l[k] == '='
    &&& forall|j: int| 0 <= j < k ==> l[j] != '='
}

/// A `KEY=value` line split at its first `=`; `None` for a line without `=`.
pub open spec fn line_entry(l: Seq<char>) -> Option<(Seq<char>, Seq<char>)> {
    if exists|k: int| is_first_eq(l, k) {
        let k = choose|k: int| is_first_eq(l, k);
        Some((l.take(k), l.skip(k + 1)))
    } else {
        None
    }
}

/// The value of `key` in a list of lines: the last line with that key wins.
pub open spec fn lines_value(lines: Seq<Seq<char>>, key: Seq<char>) -> Option<Seq<char>>
    decreases lines.len(),
{
    if lines.len() == 0 {
        None
    } else {
        match line_entry(lines.last()) {
            Some((k, v)) => if k == key {
                Some(v)
            } else {
                lines_value(lines.drop_last(), key)
            },
            None => lines_value(lines.drop_last(), key),
        }
    }
}

/// The value of `key` in a sysfs `uevent` file.
pub open spec fn uevent_value(contents: Seq<char>, key: Seq<char>) -> Option<Seq<char>> {
    lines_value(text_lines(contents), key)
}

/// The position of the first `sep` of `s` at or after `from`, or `s.len()`.
pub open spec fn next_sep(s: Seq<char>, sep: char, from: int) -> int
    decreases s.len() - from,
{
    if from >= s.len() {
        s.len() as int
    } else if s[from] == sep {
        from
    } else {
        next_sep(s, sep, from + 1)
    }
}

/// Bus, vendor and product of a `HID_ID` value `BUS:VENDOR:PRODUCT`: the
/// first three `:`-separated fields, each hexadecimal and below 65536.
pub open spec fn spec_hid_id(v: Seq<char>) -> Option<(u16, u16, u16)> {
    let c1 = next_sep(v, ':', 0);
    let c2 = next_sep(v, ':', c1 + 1);
    let c3 = next_sep(v, ':', c2 + 1);
    if c1 >= v.len() || c2 >= v.len() {
        None
    } else {
        match (
            spec_parse_unsigned(v.subrange(0, c1), 16, 0xffff),
            spec_parse_unsigned(v.subrange(c1 + 1, c2), 16, 0xffff),
            spec_parse_unsigned(v.subrange(c2 + 1, c3), 16, 0xffff),
        ) {
            (Some(bus), Some(vendor), Some(product)) => Some((bus as u16, vendor as u16, product as u16)),
            _ => None,
        }
    }
}

/// The text of an optional string.
pub open spec fn opt_text(o: Option<String>) -> Option<Seq<char>> {
    match o {
        Some(s) => Some(s@),
        None => None,
    }
}

/// A `HID_UNIQ` value names a serial only when it is not empty.
pub open spec fn non_empty(o: Option<Seq<char>>) -> Option<Seq<char>> {
    match o {
        Some(s) => if s.len() > 0 {
            Some(s)
        } else {
            None
        },
        None => None,
    }
}

/// `u16::from_str_radix` in base 16.
#[verifier::external_body]
fn hex_u16(s: &str) -> (r: Option<u16>)
    ensures
        match spec_parse_unsigned(s@, 16, 0xffff) {
            Some(v) => r == Some(v as u16),
            None => r is None,
        },
{
    u16::from_str_radix(s, 16).ok()
}

/// `u32::from_str_radix` in base 16.
#[verifier::external_body]
fn hex_u32(s: &str) -> (r: Option<u32>)
    ensures
        match spec_parse_unsigned(s@, 16, 0xffff_ffff) {
            Some(v) => r == Some(v as u32),
            None => r is None,
        },
{
    u32::from_str_radix(s, 16).ok()
}

pub(crate) fn next_sep_exec(s: &str, sep: char, from: usize) -> (r: usize)
    requires
        from <= s@.len(),
    ensures
        r == next_sep(s@, sep, from as int),
        from <= r <= s@.len(),
{
    let n = s.unicode_len();
    let mut k = from;
    while k < n && s.get_char(k) != sep
        invariant
            n == s@.len(),
            from <= k <= n,
            next_sep(s@, sep, from as int) == next_sep(s@, sep, k as int),
        decreases n - k,
    {
        k = k + 1;
    }
    k
}

/// A hexadecimal field below 65536, read the way `u32::from_str_radix`
/// and `u16::try_from` read it.
fn hex_field(s: &str) -> (r: Option<u16>)
    ensures
        match spec_parse_unsigned(s@, 16, 0xffff) {
            Some(v) => r == Some(v as u16),
            None => r is None,
        },
{
    let r = hex_u32(s);
    proof {
        lemma_parse_narrower(s@, 16, 0xffff_ffff, 0xffff);
    }
    match r {
        Some(v) => if v <= 0xffff {
            Some(v as u16)
        } else {
            None
        },
        None => None,
    }
}

/// Parses a `HID_ID` value.
pub fn parse_hid_id(v: &str) -> (r: Option<(u16, u16, u16)>)
    ensures
        r == spec_hid_id(v@),
{
    let n = v.unicode_len();
    let c1 = next_sep_exec(v, ':', 0);
    if c1 >= n {
        return None;
    }
    let c2 = next_sep_exec(v, ':', c1 + 1);
    if c2 >= n {
        return None;
    }
    let c3 = next_sep_exec(v, ':', c2 + 1);
    let bus = hex_u16(v.substring_char(0, c1));
    let vendor = hex_field(v.substring_char(c1 + 1, c2));
    let product = hex_field(v.substring_char(c2 + 1, c3));
    match (bus, vendor, product) {
        (Some(bus), Some(vendor), Some(product)) => Some((bus, vendor, product)),
        _ => None,
    }
}

/// Where the values of the three keys a hidraw `uevent` is read for stand.
struct UeventFields {
    id: Option<(usize, usize)>,
    name: Option<(usize, usize)>,
    uniq: Option<(usize, usize)>,
}

/// The text a character range of `s` holds, when it is a valid range.
spec fn range_text(s: Seq<char>, r: Option<(usize, usize)>) -> Option<Seq<char>> {
    match r {
        Some((a, b)) => Some(s.subrange(a as int, b as int)),
        None => None,
    }
}

spec fn range_ok(s: Seq<char>, r: Option<(usize, usize)>) -> bool {
    r matches Some((a, b)) ==> a <= b <= s.len()
}

/// After the line `l`, the value of `key` is the line's value when the line
/// has that key, else `before`.
spec fn after_line(l: Seq<char>, key: Seq<char>, before: Option<Seq<char>>) -> Option<Seq<char>> {
    match line_entry(l) {
        Some((k, v)) => if k == key {
            Some(v)
        } else {
            before
        },
        None => before,
    }
}

proof fn lemma_first_eq_unique(l: Seq<char>, a: int, b: int)
    requires
        is_first_eq(l, a),
        is_first_eq(l, b),
    ensures
        a == b,
{
    if a < b {
        assert(l[a] != '=');
    } else if b < a {
        assert(l[b] != '=');
    }
}

/// Finds the first `=` of the line `s[start..end]`.
fn first_eq(s: &str, start: usize, end: usize) -> (r: Option<usize>)
    requires
        start <= end <= s@.len(),
    ensures
        match r {
            Some(k) => start <= k < end && is_first_eq(s@.subrange(start as int, end as int), k - start),
            None => !exists|k: int| is_first_eq(s@.subrange(start as int, end as int), k),
        },
{
    let ghost l = s@.subrange(start as int, end as int);
    let mut k = start;
    while k < end
        invariant
            start <= k <= end <= s@.len(),
            l == s@.subrange(start as int, end as int),
            forall|j: int| 0 <= j < k - start ==> l[j] != '=',
        decreases end - k,
    {
        if s.get_char(k) == '=' {
            return Some(k);
        }
        k = k + 1;
    }
    proof {
        assert forall|k: int| !is_first_eq(l, k) by {
            if 0 <= k < l.len() && l[k] == '=' {
                assert(l[k] != '=');
            }
        }
    }
    None
}

fn scan_line(s: &str, start: usize, end: usize, fields: &mut UeventFields)
    requires
        start <= end <= s@.len(),
        range_ok(s@, old(fields).id),
        range_ok(s@, old(fields).name),
        range_ok(s@, old(fields).uniq),
    ensures
        range_ok(s@, final(fields).id),
        range_ok(s@, final(fields).name),
        range_ok(s@, final(fields).uniq),
        range_text(s@, final(fields).id) == after_line(
            s@.subrange(start as int, end as int),
            "HID_ID"@,
            range_text(s@, old(fields).id),
        ),
        range_text(s@, final(fields).name) == after_line(
            s@.subrange(start as int, end as int),
            "HID_NAME"@,
            range_text(s@, old(fields).name),
        ),
        range_text(s@, final(fields).uniq) == after_line(
            s@.subrange(start as int, end as int),
            "HID_UNIQ"@,
            range_text(s@, old(fields).uniq),
        ),
{
    let ghost l = s@.subrange(start as int, end as int);
    proof {
        reveal_strlit("HID_ID");
        reveal_strlit("HID_NAME");
        reveal_strlit("HID_UNIQ");
        assert("HID_ID"@.len() == 6 && "HID_NAME"@.len() == 8 && "HID_UNIQ"@.len() == 8);
        assert("HID_NAME"@[4] == 'N' && "HID_UNIQ"@[4] == 'U');
    }
    match first_eq(s, start, end) {
        None => {},
        Some(k) => {
            proof {
                let c = choose|c: int| is_first_eq(l, c);
                lemma_first_eq_unique(l, c, k - start);
                assert(l.take(k - start) =~= s@.subrange(start as int, k as int));
                assert(l.skip(k - start + 1) =~= s@.subrange(k + 1, end as int));
            }
            let key = s.substring_char(start, k);
            if str_eq(key, "HID_ID") {
                fields.id = Some((k + 1, end));
            } else if str_eq(key, "HID_NAME") {
                fields.name = Some((k + 1, end));
            } else if str_eq(key, "HID_UNIQ") {
                fields.uniq = Some((k + 1, end));
            }
        },
    }
}

fn range_string(s: &str, r: Option<(usize, usize)>) -> (o: Option<String>)
    requires
        range_ok(s@, r),
    ensures
        opt_text(o) == range_text(s@, r),
{
    match r {
        Some((a, b)) => Some(s.substring_char(a, b).to_owned()),
        None => None,
    }
}

/// Parses one hidraw sysfs `uevent` file into the node at `path`; `None`
/// when `HID_ID` is missing or malformed.
pub fn parse_uevent(contents: &str, path: String) -> (r: Option<HidNode>)
    ensures
        match uevent_value(contents@, "HID_ID"@) {
            None => r is None,
            Some(id) => match spec_hid_id(id) {
                None => r is None,
                Some((bus, vendor, product)) => r matches Some(node) && node.path@ == path@
                    && node.vendor_id == vendor && node.product_id == product && node.bus
                    == spec_hid_bus(bus) && opt_text(node.name) == uevent_value(
                    contents@,
                    "HID_NAME"@,
                ) && opt_text(node.serial) == non_empty(uevent_value(contents@, "HID_UNIQ"@)),
            },
        },
{
    let n = contents.unicode_len();
    let mut fields = UeventFields { id: None, name: None, uniq: None };
    let ghost mut done: Seq<Seq<char>> = Seq::empty();
    let mut start: usize = 0;
    let mut i: usize = 0;
    proof {
        assert(contents@.take(0) =~= Seq::<char>::empty());
        assert(contents@.subrange(0, 0) =~= Seq::<char>::empty());
        assert(done.push(contents@.subrange(0, 0)) =~= seq![Seq::<char>::empty()]);
    }
    while i < n
        invariant
            n == contents@.len(),
            0 <= start <= i <= n,
            text_lines(contents@.take(i as int)) == done.push(contents@.subrange(start as int, i as int)),
            range_ok(contents@, fields.id),
            range_ok(contents@, fields.name),
            range_ok(contents@, fields.uniq),
            range_text(contents@, fields.id) == lines_value(done, "HID_ID"@),
            range_text(contents@, fields.name) == lines_value(done, "HID_NAME"@),
            range_text(contents@, fields.uniq) == lines_value(done, "HID_UNIQ"@),
        decreases n - i,
    {
        let c = contents.get_char(i);
        proof {
            assert(contents@.take(i + 1).drop_last() =~= contents@.take(i as int));
            assert(contents@.take(i + 1).last() == c);
        }
        if c == '\n' {
            let end = if i > start && contents.get_char(i - 1) == '\r' {
                i - 1
            } else {
                i
            };
            proof {
                let piece = contents@.subrange(start as int, i as int);
                assert(strip_cr(piece) =~= contents@.subrange(start as int, end as int));
            }
            scan_line(contents, start, end, &mut fields);
            proof {
                let line = contents@.subrange(start as int, end as int);
                let before = done;
                done = done.push(line);
                assert(done.drop_last() =~= before);
                assert(contents@.subrange(i + 1, i + 1) =~= Seq::<char>::empty());
                assert(text_lines(contents@.take(i + 1)) =~= done.push(contents@.subrange(i + 1, i + 1)));
            }
            start = i + 1;
        } else {
            proof {
                let prior = text_lines(contents@.take(i as int));
                assert(contents@.subrange(start as int, i + 1) =~= contents@.subrange(start as int, i as int).push(c));
                assert(text_lines(contents@.take(i + 1)) =~= done.push(contents@.subrange(start as int, i + 1)));
            }
        }
        i = i + 1;
    }
    scan_line(contents, start, n, &mut fields);
    proof {
        let line = contents@.subrange(start as int, n as int);
        assert(contents@.take(n as int) =~= contents@);
        let all = done.push(line);
        assert(all.drop_last() =~= done);
    }
    let id = match fields.id {
        Some((a, b)) => parse_hid_id(contents.substring_char(a, b)),
        None => None,
    };
    match id {
        None => None,
        Some((bus, vendor_id, product_id)) => {
            let name = range_string(contents, fields.name);
            let serial = match fields.uniq {
                Some((a, b)) => if a < b {
                    Some(contents.substring_char(a, b).to_owned())
                } else {
                    None
                },
                None => None,
            };
            Some(HidNode { path, vendor_id, product_id, bus: HidBus::from(bus), name, serial })
        },
    }
}

/// The Logitech nodes of a list, in order.
pub open spec fn logitech_seq(s: Seq<HidNode>) -> Seq<HidNode>
    decreases s.len(),
{
    if s.len() == 0 {
        seq![]
    } else {
        (if s[0].vendor_id == LOGITECH_VENDOR_ID {
            seq![s[0]]
        } else {
            seq![]
        }) + logitech_seq(s.drop_first())
    }
}

/// Keeps the nodes whose vendor is Logitech, in their order.
pub fn retain_logitech(nodes: Vec<HidNode>) -> (r: Vec<HidNode>)
    ensures
        r@ == logitech_seq(nodes@),
{
    let ghost all = nodes@;
    let mut rest = nodes;
    let mut kept: Vec<HidNode> = Vec::new();
    while rest.len() > 0
        invariant
            kept@ + logitech_seq(rest@) == logitech_seq(all),
        decreases rest@.len(),
    {
        let ghost before = rest@;
        let node = rest.remove(0);
        proof {
            assert(before.drop_first() =~= rest@);
        }
        if node.vendor_id == LOGITECH_VENDOR_ID {
            let ghost k = kept@;
            kept.push(node);
            assert(k + logitech_seq(before) =~= kept@ + logitech_seq(rest@));
        } else {
            assert(kept@ + logitech_seq(before) =~= kept@ + logitech_seq(rest@));
        }
    }
    assert(kept@ + logitech_seq(rest@) =~= kept@);
    kept
}

/// The nodes are in ascending path order: no node's path sorts before that
/// of a node ahead of it.
pub open spec fn paths_ascending(s: Seq<HidNode>) -> bool {
    forall|a: int, b: int| 0 <= a < b < s.len() ==> !key_less(#[trigger] s[b].path@, #[trigger] s[a].path@)
}

/// The nodes ordered by device path.
pub fn sort_by_path(nodes: Vec<HidNode>) -> (r: Vec<HidNode>)
    ensures
        r@.to_multiset() == nodes@.to_multiset(),
        paths_ascending(r@),
{
    let ghost all = nodes@;
    let mut rest = nodes;
    let mut sorted: Vec<HidNode> = Vec::new();
    let ghost mut taken: Seq<HidNode> = seq![];
    while rest.len() > 0
        invariant
            all == taken + rest@,
            sorted@.to_multiset() == taken.to_multiset(),
            paths_ascending(sorted@),
        decreases rest@.len(),
    {
        let ghost before = rest@;
        let node = rest.remove(0);
        proof {
            assert(before.drop_first() =~= rest@);
            assert(all =~= taken.push(node) + rest@);
        }
        let mut p: usize = 0;
        while p < sorted.len() && !key_less_exec(node.path.as_str(), sorted[p].path.as_str())
            invariant
                0 <= p <= sorted@.len(),
                forall|j: int| 0 <= j < p ==> !key_less(node.path@, (#[trigger] sorted@[j]).path@),
            decreases sorted@.len() - p,
        {
            p = p + 1;
        }
        let ghost old_sorted = sorted@;
        sorted.insert(p, node);
        proof {
            assert(sorted@ == old_sorted.insert(p as int, node));
            vstd::seq_lib::to_multiset_insert(old_sorted, p as int, node);
            vstd::seq_lib::to_multiset_build(taken, node);
            assert forall|a: int, b: int| 0 <= a < b < sorted@.len() implies !key_less(
                #[trigger] sorted@[b].path@,
                #[trigger] sorted@[a].path@,
            ) by {
                if b < p {
                    assert(sorted@[a] == old_sorted[a] && sorted@[b] == old_sorted[b]);
                } else if b == p {
                    assert(sorted@[a] == old_sorted[a]);
                } else if a < p {
                    assert(sorted@[a] == old_sorted[a] && sorted@[b] == old_sorted[b - 1]);
                } else if a == p {
                    assert(sorted@[b] == old_sorted[b - 1]);
                    assert(key_less(node.path@, old_sorted[p as int].path@));
                    if key_less(old_sorted[b - 1].path@, node.path@) {
                        lemma_key_less_transitive(old_sorted[b - 1].path@, node.path@, old_sorted[p as int].path@);
                        if b - 1 == p {
                            lemma_key_less_irreflexive(old_sorted[p as int].path@);
                        }
                    }
                } else {
                    assert(sorted@[a] == old_sorted[a - 1] && sorted@[b] == old_sorted[b - 1]);
                }
            }
            taken = taken.push(node);
        }
    }
    proof {
        assert(all =~= taken);
    }
    sorted
}

} // verus!
