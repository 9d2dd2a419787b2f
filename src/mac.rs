use vstd::prelude::*;

use crate::collector::RouteError;
use crate::model::{
    empty_table, lemma_concat_empty, lemma_push_then_concat, opt_entry, table_concat,
    table_prepend, IpVersion, RouteEntry, RouteEntryView, RouteTable, RouteTableView,
};
use crate::linux::is_header;
use crate::text::{has_prefix, line_starts_with, same_text, split_token_lines, token_lines};

verus! {

/// Whether every character of `t` is an ASCII digit.
pub open spec fn all_digits(t: Seq<char>) -> bool {
    forall|i: int| 0 <= i < t.len() ==> '0' <= #[trigger] t[i] <= '9'
}

/// The expiry of a macOS row, read from its last column: kept when it is the
/// literal `Expire` or all digits.
pub open spec fn expire_marker(t: Seq<char>) -> Option<Seq<char>> {
    if t == "Expire"@ || all_digits(t) {
        Some(t)
    } else {
        None
    }
}

/// The entry a macOS row of section `v` describes: destination, gateway, flags and
/// interface in the first four columns, the expiry marker in the last; `None` for
/// fewer than four columns.
pub open spec fn mac_entry(toks: Seq<Seq<char>>, v: IpVersion) -> Option<RouteEntryView> {
    if toks.len() >= 4 {
        Some(
            RouteEntryView {
                destination: toks[0],
                gateway: toks[1],
                flags: toks[2],
                interface: toks[3],
                expire: expire_marker(toks.last()),
                genmask: None,
                ip_version: v,
            },
        )
    } else {
        None
    }
}

/// Whether a line opens the IPv4 section.
pub open spec fn is_ipv4_section(toks: Seq<Seq<char>>) -> bool {
    line_starts_with(toks, "Internet:"@)
}

/// Whether a line opens the IPv6 section.
pub open spec fn is_ipv6_section(toks: Seq<Seq<char>>) -> bool {
    line_starts_with(toks, "Internet6:"@)
}

/// The routes of the macOS `lines`, read from the state where `section` is the
/// family of the current section, if any, and `header` says whether that section's
/// column header has been passed. A section line switches the section and awaits
/// its header; a header gives no route; rows are read only in a section after its
/// header, and give their entry, tagged with the section's family, when they have
/// enough columns.
pub open spec fn mac_rows(
    lines: Seq<Seq<Seq<char>>>,
    section: Option<IpVersion>,
    header: bool,
) -> RouteTableView
    decreases lines.len(),
{
    if lines.len() == 0 {
        empty_table()
    } else {
        let toks = lines[0];
        let rest = lines.drop_first();
        if toks.len() == 0 {
            mac_rows(rest, section, header)
        } else if is_ipv4_section(toks) {
            mac_rows(rest, Some(IpVersion::IPv4), false)
        } else if is_ipv6_section(toks) {
            mac_rows(rest, Some(IpVersion::IPv6), false)
        } else {
            match section {
                None => mac_rows(rest, section, header),
                Some(v) => if !header {
                    mac_rows(rest, section, is_header(toks))
                } else {
                    match mac_entry(toks, v) {
                        Some(e) => table_prepend(e, mac_rows(rest, section, true)),
                        None => mac_rows(rest, section, true),
                    }
                },
            }
        }
    }
}

/// The routing table that macOS `netstat -rn` output `s` describes.
pub open spec fn mac_table(s: Seq<char>) -> RouteTableView {
    mac_rows(token_lines(s), None, false)
}

/// Whether the text `t` is made of ASCII digits only.
fn is_digits(t: &str) -> (r: bool)
    ensures
        r == all_digits(t@),
{
    let cs = crate::text::chars_of(t);
    let mut i: usize = 0;
    while i < cs.len()
        invariant
            i <= cs.len(),
            cs@ == t@,
            forall|k: int| 0 <= k < i ==> '0' <= #[trigger] cs@[k] <= '9',
        decreases cs.len() - i,
    {
        let c = cs[i];
        if !('0' <= c && c <= '9') {
            return false;
        }
        i = i + 1;
    }
    true
}

/// The entry of a macOS row of section `ip_version`, given by its columns.
pub fn parse_macos_line(toks: &Vec<String>, ip_version: IpVersion) -> (r: Option<RouteEntry>)
    ensures
        opt_entry(r) == mac_entry(toks.deep_view(), ip_version),
{
    let n = toks.len();
    if n < 4 {
        return None;
    }
    let last = toks[n - 1].as_str();
    let expire = if same_text(last, "Expire") || is_digits(last) {
        Some(toks[n - 1].clone())
    } else {
        None
    };
    let e = RouteEntry {
        destination: toks[0].clone(),
        gateway: toks[1].clone(),
        flags: toks[2].clone(),
        interface: toks[3].clone(),
        expire,
        genmask: None,
        ip_version,
    };
    assert(e@ =~= mac_entry(toks.deep_view(), ip_version)->Some_0);
    Some(e)
}

/// Parses macOS `netstat -rn` output into a routing table, tagging each row with the
/// family of its section. Malformed rows are left out; parsing itself never fails.
pub fn parse_macos_route_output(output: &str) -> (r: Result<RouteTable, RouteError>)
    ensures
        r matches Ok(t) && t@ == mac_table(output@),
{
    let lines = split_token_lines(output);
    let mut table = RouteTable::new();
    let mut section: Option<IpVersion> = None;
    let mut header = false;
    let mut k: usize = 0;
    proof {
        assert(lines.deep_view().skip(0) =~= lines.deep_view());
        lemma_concat_empty(mac_table(output@));
    }
    while k < lines.len()
        invariant
            k <= lines.len(),
            lines.deep_view() == token_lines(output@),
            table_concat(table@, mac_rows(lines.deep_view().skip(k as int), section, header))
                == mac_table(output@),
        decreases lines.len() - k,
    {
        let ghost rest = lines.deep_view().skip(k as int);
        let toks = &lines[k];
        assert(rest[0] == toks.deep_view());
        assert(rest.drop_first() =~= lines.deep_view().skip(k + 1));
        if toks.len() == 0 {
        } else {
            assert(toks.deep_view()[0] == toks[0]@);
            let first = toks[0].as_str();
            if has_prefix(first, "Internet:") {
                section = Some(IpVersion::IPv4);
                header = false;
            } else if has_prefix(first, "Internet6:") {
                section = Some(IpVersion::IPv6);
                header = false;
            } else {
                match section {
                    None => {},
                    Some(v) => {
                        if !header {
                            header = has_prefix(first, "Destination");
                        } else {
                            match parse_macos_line(toks, v) {
                                Some(e) => {
                                    proof {
                                        lemma_push_then_concat(
                                            table@,
                                            e@,
                                            mac_rows(rest.drop_first(), section, true),
                                        );
                                    }
                                    table.add_route(e);
                                },
                                None => {},
                            }
                        }
                    },
                }
            }
        }
        k = k + 1;
    }
    proof {
        assert(lines.deep_view().skip(k as int) =~= Seq::<Seq<Seq<char>>>::empty());
        lemma_concat_empty(table@);
    }
    Ok(table)
}

} // verus!
