use vstd::prelude::*;

use crate::collector::RouteError;
use crate::model::{
    empty_table, lemma_concat_empty, lemma_push_then_concat, opt_entry, table_concat,
    table_prepend, IpVersion, RouteEntry, RouteEntryView, RouteTable, RouteTableView,
};
use crate::text::{has_prefix, line_starts_with, split_token_lines, token_lines};

verus! {

/// The entry a Linux row of family `v` describes: destination, gateway, netmask and
/// flags in the first four columns, the interface in the last; `None` for fewer than
/// four columns.
pub open spec fn linux_entry(toks: Seq<Seq<char>>, v: IpVersion) -> Option<RouteEntryView> {
    if toks.len() >= 4 {
        Some(
            RouteEntryView {
                destination: toks[0],
                gateway: toks[1],
                genmask: Some(toks[2]),
                flags: toks[3],
                interface: toks.last(),
                expire: None,
                ip_version: v,
            },
        )
    } else {
        None
    }
}

/// Whether a line is the column header of the table.
pub open spec fn is_header(toks: Seq<Seq<char>>) -> bool {
    line_starts_with(toks, "Destination"@)
}

/// The routes of the Linux `lines`, read from the state where `in_table` says
/// whether the column header has been passed. Blank lines are skipped, lines before
/// the header are ignored, the header itself gives no route, and a row after it
/// gives its IPv4 entry when it has enough columns.
pub open spec fn linux_rows(lines: Seq<Seq<Seq<char>>>, in_table: bool) -> RouteTableView
    decreases lines.len(),
{
    if lines.len() == 0 {
        empty_table()
    } else {
        let toks = lines[0];
        let rest = lines.drop_first();
        if toks.len() == 0 {
            linux_rows(rest, in_table)
        } else if !in_table {
            linux_rows(rest, is_header(toks))
        } else {
            match linux_entry(toks, IpVersion::IPv4) {
                Some(e) => table_prepend(e, linux_rows(rest, true)),
                None => linux_rows(rest, true),
            }
        }
    }
}

/// The routing table that Linux `netstat -rn` output `s` describes.
pub open spec fn linux_table(s: Seq<char>) -> RouteTableView {
    linux_rows(token_lines(s), false)
}

/// The entry of a Linux row of family `ip_version`, given by its columns.
pub fn parse_linux_line(toks: &Vec<String>, ip_version: IpVersion) -> (r: Option<RouteEntry>)
    ensures
        opt_entry(r) == linux_entry(toks.deep_view(), ip_version),
{
    let n = toks.len();
    if n < 4 {
        return None;
    }
    let e = RouteEntry {
        destination: toks[0].clone(),
        gateway: toks[1].clone(),
        genmask: Some(toks[2].clone()),
        flags: toks[3].clone(),
        interface: toks[n - 1].clone(),
        expire: None,
        ip_version,
    };
    assert(e@ =~= linux_entry(toks.deep_view(), ip_version)->Some_0);
    Some(e)
}

/// Parses Linux `netstat -rn` output into a routing table. Malformed rows are
/// left out; parsing itself never fails.
pub fn parse_linux_route_output(output: &str) -> (r: Result<RouteTable, RouteError>)
    ensures
        r matches Ok(t) && t@ == linux_table(output@),
{
    let lines = split_token_lines(output);
    let mut table = RouteTable::new();
    let mut in_table = false;
    let mut k: usize = 0;
    proof {
        assert(lines.deep_view().skip(0) =~= lines.deep_view());
        lemma_concat_empty(linux_table(output@));
    }
    while k < lines.len()
        invariant
            k <= lines.len(),
            lines.deep_view() == token_lines(output@),
            table_concat(table@, linux_rows(lines.deep_view().skip(k as int), in_table))
                == linux_table(output@),
        decreases lines.len() - k,
    {
        let ghost rest = lines.deep_view().skip(k as int);
        let toks = &lines[k];
        assert(rest[0] == toks.deep_view());
        assert(rest.drop_first() =~= lines.deep_view().skip(k + 1));
        if toks.len() == 0 {
        } else if !in_table {
            assert(toks.deep_view()[0] == toks[0]@);
            in_table = has_prefix(toks[0].as_str(), "Destination");
        } else {
            match parse_linux_line(toks, IpVersion::IPv4) {
                Some(e) => {
                    proof {
                        lemma_push_then_concat(table@, e@, linux_rows(rest.drop_first(), true));
                    }
                    table.add_route(e);
                },
                None => {},
            }
        }
        k = k + 1;
    }
    proof {
        assert(lines.deep_view().skip(k as int) =~= Seq::<Seq<Seq<char>>>::empty());
        lemma_concat_empty(table@);
    }
    Ok(table)
}

} // verus!
