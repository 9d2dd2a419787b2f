use vstd::prelude::*;

use crate::linux::{is_header, linux_entry, linux_rows, linux_table};
use crate::mac::{is_ipv4_section, is_ipv6_section, mac_entry, mac_rows, mac_table};
use crate::text::token_lines;
use crate::model::{routes_of, table_prepend, IpVersion, RouteEntryView, RouteTableView};

verus! {

/// Every route of a table from `linux_rows` is an IPv4 route, and none is IPv6.
proof fn lemma_linux_all_v4(lines: Seq<Seq<Seq<char>>>, in_table: bool)
    ensures
        linux_rows(lines, in_table).ipv6.len() == 0,
        forall|i: int|
            0 <= i < linux_rows(lines, in_table).ipv4.len() ==> (#[trigger] linux_rows(
                lines,
                in_table,
            ).ipv4[i]).ip_version == IpVersion::IPv4,
    decreases lines.len(),
{
    if lines.len() > 0 {
        let toks = lines[0];
        let rest = lines.drop_first();
        lemma_linux_all_v4(rest, true);
        lemma_linux_all_v4(rest, in_table);
        lemma_linux_all_v4(rest, is_header(toks));
        let t = linux_rows(lines, in_table);
        if toks.len() > 0 && in_table {
            if let Some(e) = linux_entry(toks, IpVersion::IPv4) {
                let r = linux_rows(rest, true);
                assert forall|i: int| 0 <= i < t.ipv4.len() implies (#[trigger] t.ipv4[i]).ip_version
                    == IpVersion::IPv4 by {
                    if i > 0 {
                        assert(t.ipv4[i] == r.ipv4[i - 1]);
                    }
                }
            }
        }
    }
}

/// Lines before the Linux header that are not themselves the header give no route.
proof fn lemma_linux_skip_preamble(pre: Seq<Seq<Seq<char>>>, rest: Seq<Seq<Seq<char>>>)
    requires
        forall|i: int| 0 <= i < pre.len() ==> !is_header(#[trigger] pre[i]),
    ensures
        linux_rows(pre + rest, false) == linux_rows(rest, false),
    decreases pre.len(),
{
    if pre.len() == 0 {
        assert(pre + rest =~= rest);
    } else {
        assert((pre + rest)[0] == pre[0]);
        assert((pre + rest).drop_first() =~= pre.drop_first() + rest);
        assert(!is_header(pre[0]));
        lemma_linux_skip_preamble(pre.drop_first(), rest);
    }
}

/// Whether a line has at least one column.
pub open spec fn is_filled(toks: Seq<Seq<char>>) -> bool {
    toks.len() > 0
}

/// After the header, blank lines give nothing and rows with enough columns give their
/// IPv4 entries in line order.
proof fn lemma_linux_table_rows(rows: Seq<Seq<Seq<char>>>)
    requires
        forall|j: int|
            0 <= j < rows.len() ==> (#[trigger] rows[j]).len() == 0 || rows[j].len() >= 4,
    ensures
        linux_rows(rows, true) == (RouteTableView {
            ipv4: rows.filter(|r: Seq<Seq<char>>| is_filled(r)).map_values(
                |r: Seq<Seq<char>>| linux_entry(r, IpVersion::IPv4)->Some_0,
            ),
            ipv6: Seq::empty(),
        }),
    decreases rows.len(),
{
    let p = |r: Seq<Seq<char>>| is_filled(r);
    let f = |r: Seq<Seq<char>>| linux_entry(r, IpVersion::IPv4)->Some_0;
    if rows.len() == 0 {
        assert(rows.filter(p) =~= rows);
        assert(rows.filter(p).map_values(f) =~= Seq::<RouteEntryView>::empty());
    } else {
        let rest = rows.drop_first();
        assert(rows[0].len() == 0 || rows[0].len() >= 4);
        assert forall|j: int| 0 <= j < rest.len() implies (#[trigger] rest[j]).len() == 0
            || rest[j].len() >= 4 by {
            assert(rest[j] == rows[j + 1]);
        }
        lemma_linux_table_rows(rest);
        assert(rows =~= seq![rows[0]] + rest);
        rest.lemma_filter_prepend(rows[0], p);
        if rows[0].len() > 0 {
            assert(rows.filter(p).map_values(f) =~= seq![f(rows[0])] + rest.filter(p).map_values(f));
        } else {
            assert(rows.filter(p) =~= rest.filter(p));
        }
    }
}

/// Linux output: given lines that precede the column header (none of them a header),
/// the header, and after it lines that are blank or have at least four columns, every
/// row that is not blank gives exactly one IPv4 entry, in line order, and no IPv6 entry
/// comes out.
pub proof fn lemma_linux_rows_in_line_order(
    pre: Seq<Seq<Seq<char>>>,
    header: Seq<Seq<char>>,
    rows: Seq<Seq<Seq<char>>>,
)
    requires
        forall|i: int| 0 <= i < pre.len() ==> !is_header(#[trigger] pre[i]),
        is_header(header),
        forall|j: int|
            0 <= j < rows.len() ==> (#[trigger] rows[j]).len() == 0 || rows[j].len() >= 4,
    ensures
        linux_rows(pre + seq![header] + rows, false) == (RouteTableView {
            ipv4: rows.filter(|r: Seq<Seq<char>>| is_filled(r)).map_values(
                |r: Seq<Seq<char>>| linux_entry(r, IpVersion::IPv4)->Some_0,
            ),
            ipv6: Seq::empty(),
        }),
        forall|i: int|
            0 <= i < linux_rows(pre + seq![header] + rows, false).ipv4.len() ==> (#[trigger] linux_rows(
                pre + seq![header] + rows,
                false,
            ).ipv4[i]).ip_version == IpVersion::IPv4,
{
    assert(pre + seq![header] + rows =~= pre + (seq![header] + rows));
    lemma_linux_skip_preamble(pre, seq![header] + rows);
    assert((seq![header] + rows)[0] == header);
    assert((seq![header] + rows).drop_first() =~= rows);
    lemma_linux_table_rows(rows);
    lemma_linux_all_v4(pre + seq![header] + rows, false);
}

/// Every route parsed from Linux output, whatever the text, is IPv4.
pub proof fn lemma_linux_output_is_ipv4(s: Seq<char>)
    ensures
        linux_table(s).ipv6.len() == 0,
        forall|i: int|
            0 <= i < linux_table(s).ipv4.len() ==> (#[trigger] linux_table(s).ipv4[i]).ip_version
                == IpVersion::IPv4,
{
    lemma_linux_all_v4(token_lines(s), false);
}

/// Every route of a table from `mac_rows` is filed under its own family.
proof fn lemma_mac_families(lines: Seq<Seq<Seq<char>>>, section: Option<IpVersion>, header: bool)
    ensures
        forall|i: int|
            0 <= i < mac_rows(lines, section, header).ipv4.len() ==> (#[trigger] mac_rows(
                lines,
                section,
                header,
            ).ipv4[i]).ip_version == IpVersion::IPv4,
        forall|i: int|
            0 <= i < mac_rows(lines, section, header).ipv6.len() ==> (#[trigger] mac_rows(
                lines,
                section,
                header,
            ).ipv6[i]).ip_version == IpVersion::IPv6,
    decreases lines.len(),
{
    if lines.len() > 0 {
        let toks = lines[0];
        let rest = lines.drop_first();
        lemma_mac_families(rest, section, header);
        lemma_mac_families(rest, section, true);
        lemma_mac_families(rest, section, is_header(toks));
        lemma_mac_families(rest, Some(IpVersion::IPv4), false);
        lemma_mac_families(rest, Some(IpVersion::IPv6), false);
        let t = mac_rows(lines, section, header);
        let r = mac_rows(rest, section, true);
        if toks.len() > 0 && !is_ipv4_section(toks) && !is_ipv6_section(toks) && header {
            if let Some(v) = section {
                if let Some(e) = mac_entry(toks, v) {
                    assert(t == table_prepend(e, r));
                    assert forall|i: int| 0 <= i < t.ipv4.len() implies (#[trigger] t.ipv4[i]).ip_version
                        == IpVersion::IPv4 by {
                        if i > 0 && e.ip_version == IpVersion::IPv4 {
                            assert(t.ipv4[i] == r.ipv4[i - 1]);
                        }
                    }
                    assert forall|i: int| 0 <= i < t.ipv6.len() implies (#[trigger] t.ipv6[i]).ip_version
                        == IpVersion::IPv6 by {
                        if i > 0 && e.ip_version == IpVersion::IPv6 {
                            assert(t.ipv6[i] == r.ipv6[i - 1]);
                        }
                    }
                }
            }
        }
    }
}

/// Every route parsed from macOS output, whatever the text and the order of its
/// sections, is filed under the family of the section it came from: the IPv4 routes
/// are all IPv4 and the IPv6 routes all IPv6.
pub proof fn lemma_mac_sections_tag_family(s: Seq<char>)
    ensures
        forall|i: int|
            0 <= i < mac_table(s).ipv4.len() ==> (#[trigger] mac_table(s).ipv4[i]).ip_version
                == IpVersion::IPv4,
        forall|i: int|
            0 <= i < mac_table(s).ipv6.len() ==> (#[trigger] mac_table(s).ipv6[i]).ip_version
                == IpVersion::IPv6,
{
    lemma_mac_families(token_lines(s), None, false);
}

/// macOS output: inside a section of family `v`, after its header, lines that are
/// blank or have at least four columns, none of which opens a section, give exactly one
/// entry per line that is not blank, tagged `v` and in line order, and nothing of the
/// other family.
pub proof fn lemma_mac_section_rows_in_line_order(rows: Seq<Seq<Seq<char>>>, v: IpVersion)
    requires
        forall|j: int|
            0 <= j < rows.len() ==> ((#[trigger] rows[j]).len() == 0 || rows[j].len() >= 4)
                && !is_section_line(rows[j]),
    ensures
        routes_of(mac_rows(rows, Some(v), true), v) == rows.filter(
            |r: Seq<Seq<char>>| is_filled(r),
        ).map_values(|r: Seq<Seq<char>>| mac_entry(r, v)->Some_0),
        forall|i: int|
            0 <= i < routes_of(mac_rows(rows, Some(v), true), v).len() ==> (#[trigger] routes_of(
                mac_rows(rows, Some(v), true),
                v,
            )[i]).ip_version == v,
        mac_rows(rows, Some(v), true).ipv4.len() + mac_rows(rows, Some(v), true).ipv6.len()
            == rows.filter(|r: Seq<Seq<char>>| is_filled(r)).len(),
    decreases rows.len(),
{
    let p = |r: Seq<Seq<char>>| is_filled(r);
    let f = |r: Seq<Seq<char>>| mac_entry(r, v)->Some_0;
    if rows.len() == 0 {
        assert(rows.filter(p) =~= rows);
        assert(rows.filter(p).map_values(f) =~= Seq::<RouteEntryView>::empty());
    } else {
        let rest = rows.drop_first();
        assert((rows[0].len() == 0 || rows[0].len() >= 4) && !is_section_line(rows[0]));
        assert forall|j: int| 0 <= j < rest.len() implies ((#[trigger] rest[j]).len() == 0
            || rest[j].len() >= 4) && !is_section_line(rest[j]) by {
            assert(rest[j] == rows[j + 1]);
        }
        lemma_mac_section_rows_in_line_order(rest, v);
        assert(rows =~= seq![rows[0]] + rest);
        rest.lemma_filter_prepend(rows[0], p);
        let t = mac_rows(rows, Some(v), true);
        let r = mac_rows(rest, Some(v), true);
        if rows[0].len() > 0 {
            assert(rows.filter(p) =~= seq![rows[0]] + rest.filter(p));
            assert(rows.filter(p).map_values(f) =~= seq![f(rows[0])] + rest.filter(p).map_values(f));
            assert forall|i: int| 0 <= i < routes_of(t, v).len() implies (#[trigger] routes_of(
                t,
                v,
            )[i]).ip_version == v by {
                if i > 0 {
                    assert(routes_of(t, v)[i] == routes_of(r, v)[i - 1]);
                }
            }
        } else {
            assert(rows.filter(p) =~= rest.filter(p));
        }
    }
}

/// Whether a line opens a section of macOS output.
pub open spec fn is_section_line(toks: Seq<Seq<char>>) -> bool {
    is_ipv4_section(toks) || is_ipv6_section(toks)
}

/// No line starts both with `Destination` and with a section name.
proof fn lemma_header_not_section(toks: Seq<Seq<char>>)
    requires
        is_header(toks),
    ensures
        !is_section_line(toks),
{
    reveal_strlit("Destination");
    reveal_strlit("Internet:");
    reveal_strlit("Internet6:");
    let t = toks[0];
    assert(t.subrange(0, 11)[0] == 'D');
    if is_ipv4_section(toks) {
        assert(t.subrange(0, 9)[0] == 'I');
    }
    if is_ipv6_section(toks) {
        assert(t.subrange(0, 10)[0] == 'I');
    }
}

/// Lines outside any section, section lines aside, give no route.
proof fn lemma_mac_skip_outside(pre: Seq<Seq<Seq<char>>>, rest: Seq<Seq<Seq<char>>>, header: bool)
    requires
        forall|i: int| 0 <= i < pre.len() ==> !is_section_line(#[trigger] pre[i]),
    ensures
        mac_rows(pre + rest, None, header) == mac_rows(rest, None, header),
    decreases pre.len(),
{
    if pre.len() == 0 {
        assert(pre + rest =~= rest);
    } else {
        assert((pre + rest)[0] == pre[0]);
        assert((pre + rest).drop_first() =~= pre.drop_first() + rest);
        assert(!is_section_line(pre[0]));
        lemma_mac_skip_outside(pre.drop_first(), rest, header);
    }
}

/// In a section, lines before its header, neither headers nor section lines, give no route.
proof fn lemma_mac_skip_before_header(
    pre: Seq<Seq<Seq<char>>>,
    rest: Seq<Seq<Seq<char>>>,
    v: IpVersion,
)
    requires
        forall|i: int|
            0 <= i < pre.len() ==> !is_section_line(#[trigger] pre[i]) && !is_header(pre[i]),
    ensures
        mac_rows(pre + rest, Some(v), false) == mac_rows(rest, Some(v), false),
    decreases pre.len(),
{
    if pre.len() == 0 {
        assert(pre + rest =~= rest);
    } else {
        assert((pre + rest)[0] == pre[0]);
        assert((pre + rest).drop_first() =~= pre.drop_first() + rest);
        assert(!is_section_line(pre[0]) && !is_header(pre[0]));
        lemma_mac_skip_before_header(pre.drop_first(), rest, v);
    }
}

/// macOS output: the lines before the `Internet:` section line, and those between it
/// and the section's column header, give no route; reading resumes after the header
/// as rows of the IPv4 section.
pub proof fn lemma_mac_before_header_excluded(
    outside: Seq<Seq<Seq<char>>>,
    section: Seq<Seq<char>>,
    before_header: Seq<Seq<Seq<char>>>,
    header: Seq<Seq<char>>,
    rest: Seq<Seq<Seq<char>>>,
)
    requires
        forall|i: int| 0 <= i < outside.len() ==> !is_section_line(#[trigger] outside[i]),
        is_ipv4_section(section),
        forall|i: int|
            0 <= i < before_header.len() ==> !is_section_line(#[trigger] before_header[i])
                && !is_header(before_header[i]),
        is_header(header),
    ensures
        mac_rows(outside + seq![section] + before_header + seq![header] + rest, None, false)
            == mac_rows(rest, Some(IpVersion::IPv4), true),
{
    let tail = seq![header] + rest;
    let mid = seq![section] + (before_header + tail);
    assert(outside + seq![section] + before_header + seq![header] + rest =~= outside + mid);
    lemma_mac_skip_outside(outside, mid, false);
    assert(mid[0] == section);
    assert(mid.drop_first() =~= before_header + tail);
    lemma_mac_skip_before_header(before_header, tail, IpVersion::IPv4);
    lemma_header_not_section(header);
    assert(tail[0] == header);
    assert(tail.drop_first() =~= rest);
}

/// A Linux line with fewer than four columns gives no route: reading on from it gives
/// what reading on from the next line gives, in the state the line leaves behind.
pub proof fn lemma_linux_short_line_dropped(
    toks: Seq<Seq<char>>,
    rest: Seq<Seq<Seq<char>>>,
    in_table: bool,
)
    requires
        toks.len() < 4,
    ensures
        forall|v: IpVersion| linux_entry(toks, v) is None,
        linux_rows(seq![toks] + rest, in_table) == linux_rows(rest, in_table || is_header(toks)),
{
    assert((seq![toks] + rest)[0] == toks);
    assert((seq![toks] + rest).drop_first() =~= rest);
}

/// A macOS line with fewer than four columns, other than a section line, gives no
/// route: reading on from it gives what reading on from the next line gives, in the
/// state the line leaves behind.
pub proof fn lemma_mac_short_line_dropped(
    toks: Seq<Seq<char>>,
    rest: Seq<Seq<Seq<char>>>,
    section: Option<IpVersion>,
    header: bool,
)
    requires
        toks.len() < 4,
        !is_section_line(toks),
    ensures
        forall|v: IpVersion| mac_entry(toks, v) is None,
        mac_rows(seq![toks] + rest, section, header) == mac_rows(
            rest,
            section,
            if section is None {
                header
            } else {
                header || is_header(toks)
            },
        ),
{
    assert((seq![toks] + rest)[0] == toks);
    assert((seq![toks] + rest).drop_first() =~= rest);
}

/// Parsing is a function of the text alone: the same text gives the same table, on
/// either platform.
pub proof fn lemma_parse_deterministic(a: Seq<char>, b: Seq<char>)
    requires
        a == b,
    ensures
        linux_table(a) == linux_table(b),
        mac_table(a) == mac_table(b),
{
}

} // verus!
