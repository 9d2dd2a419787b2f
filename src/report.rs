use vstd::prelude::*;

use crate::model::{field_value, IpVersion, RouteEntry, RouteEntryView};
use crate::text::{chars_of, same_text};

verus! {

/// The length in characters of field `name` of `e`; 0 when it has no such field.
pub open spec fn field_len(e: RouteEntryView, name: Seq<char>) -> nat {
    match field_value(e, name) {
        Some(v) => v.len(),
        None => 0,
    }
}

/// The largest length of field `name` over `rs`; 0 for no routes.
pub open spec fn max_field_len(rs: Seq<RouteEntryView>, name: Seq<char>) -> nat
    decreases rs.len(),
{
    if rs.len() == 0 {
        0
    } else {
        let m = max_field_len(rs.drop_last(), name);
        let l = field_len(rs.last(), name);
        if l > m {
            l
        } else {
            m
        }
    }
}

/// The IP families whose routes a report for protocol selector `p` shows, in order.
pub open spec fn sections_for(p: Seq<char>) -> Seq<IpVersion> {
    if p == "all"@ {
        seq![IpVersion::IPv4, IpVersion::IPv6]
    } else if p == "ipv4"@ {
        seq![IpVersion::IPv4]
    } else if p == "ipv6"@ {
        seq![IpVersion::IPv6]
    } else {
        seq![]
    }
}

/// The width of column `field` when `routes` are printed one per row: the largest
/// length of that field over them, 0 when none has it.
pub fn get_max_len(routes: &Vec<RouteEntry>, field: &str) -> (r: usize)
    ensures
        r as nat == max_field_len(routes@.map_values(|e: RouteEntry| e@), field@),
{
    let ghost rs = routes@.map_values(|e: RouteEntry| e@);
    let mut m: usize = 0;
    let mut i: usize = 0;
    while i < routes.len()
        invariant
            i <= routes.len(),
            rs == routes@.map_values(|e: RouteEntry| e@),
            m as nat == max_field_len(rs.take(i as int), field@),
        decreases routes.len() - i,
    {
        assert(rs.take(i + 1).drop_last() =~= rs.take(i as int));
        assert(rs.take(i + 1).last() == routes@[i as int]@);
        let l: usize = match routes[i].get_field(field) {
            Some(v) => chars_of(v.as_str()).len(),
            None => 0,
        };
        if l > m {
            m = l;
        }
        i = i + 1;
    }
    assert(rs.take(i as int) =~= rs);
    m
}

/// The IP families a report shows for the protocol selector `protocol`: both for
/// `all`, one for `ipv4` or `ipv6`, none for anything else.
pub fn report_sections(protocol: &str) -> (r: Vec<IpVersion>)
    ensures
        r@ == sections_for(protocol@),
{
    let mut r: Vec<IpVersion> = Vec::new();
    if same_text(protocol, "all") {
        r.push(IpVersion::IPv4);
        r.push(IpVersion::IPv6);
    } else if same_text(protocol, "ipv4") {
        r.push(IpVersion::IPv4);
    } else if same_text(protocol, "ipv6") {
        r.push(IpVersion::IPv6);
    }
    assert(r@ =~= sections_for(protocol@));
    r
}

} // verus!
