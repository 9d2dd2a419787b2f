use vstd::prelude::*;

use crate::text::same_text;

verus! {

/// The IP family a route belongs to.
#[derive(Debug, Clone, Copy, PartialEq, Eq, Structural)]
pub enum IpVersion {
    IPv4,
    IPv6,
}

/// One row of the kernel routing table, as the operating system reported it.
#[derive(Debug, Clone)]
pub struct RouteEntry {
    pub destination: String,
    pub gateway: String,
    pub flags: String,
    pub interface: String,
    pub ip_version: IpVersion,
    /// The netmask column; only Linux output has one.
    pub genmask: Option<String>,
    /// The expiry column; only macOS output has one.
    pub expire: Option<String>,
}

/// The text of a route entry's fields.
pub struct RouteEntryView {
    pub destination: Seq<char>,
    pub gateway: Seq<char>,
    pub flags: Seq<char>,
    pub interface: Seq<char>,
    pub ip_version: IpVersion,
    pub genmask: Option<Seq<char>>,
    pub expire: Option<Seq<char>>,
}

pub open spec fn opt_text(o: Option<String>) -> Option<Seq<char>> {
    match o {
        Some(s) => Some(s@),
        None => None,
    }
}

impl View for RouteEntry {
    type V = RouteEntryView;

    open spec fn view(&self) -> RouteEntryView {
        RouteEntryView {
            destination: self.destination@,
            gateway: self.gateway@,
            flags: self.flags@,
            interface: self.interface@,
            ip_version: self.ip_version,
            genmask: opt_text(self.genmask),
            expire: opt_text(self.expire),
        }
    }
}

pub open spec fn opt_entry(o: Option<RouteEntry>) -> Option<RouteEntryView> {
    match o {
        Some(e) => Some(e@),
        None => None,
    }
}

/// What `get_field` gives for the field called `name`.
pub open spec fn field_value(e: RouteEntryView, name: Seq<char>) -> Option<Seq<char>> {
    if name == "destination"@ {
        Some(e.destination)
    } else if name == "gateway"@ {
        Some(e.gateway)
    } else if name == "flags"@ {
        Some(e.flags)
    } else if name == "interface"@ {
        Some(e.interface)
    } else if name == "genmask"@ {
        e.genmask
    } else if name == "expire"@ {
        e.expire
    } else {
        None
    }
}

/// The destinations that mark a default route.
pub open spec fn is_default_destination(d: Seq<char>) -> bool {
    d == "default"@ || d == "0.0.0.0"@ || d == "::/0"@
}

/// The routes of a table, split by IP family, each in the order it was added.
pub struct RouteTableView {
    pub ipv4: Seq<RouteEntryView>,
    pub ipv6: Seq<RouteEntryView>,
}

pub open spec fn empty_table() -> RouteTableView {
    RouteTableView { ipv4: Seq::empty(), ipv6: Seq::empty() }
}

/// `t` with `e` appended to the sequence of its family.
pub open spec fn table_push(t: RouteTableView, e: RouteEntryView) -> RouteTableView {
    match e.ip_version {
        IpVersion::IPv4 => RouteTableView { ipv4: t.ipv4.push(e), ipv6: t.ipv6 },
        IpVersion::IPv6 => RouteTableView { ipv4: t.ipv4, ipv6: t.ipv6.push(e) },
    }
}

/// `t` with `e` put first in the sequence of its family.
pub open spec fn table_prepend(e: RouteEntryView, t: RouteTableView) -> RouteTableView {
    match e.ip_version {
        IpVersion::IPv4 => RouteTableView { ipv4: seq![e] + t.ipv4, ipv6: t.ipv6 },
        IpVersion::IPv6 => RouteTableView { ipv4: t.ipv4, ipv6: seq![e] + t.ipv6 },
    }
}

/// The routes of `a` followed, family by family, by those of `b`.
pub open spec fn table_concat(a: RouteTableView, b: RouteTableView) -> RouteTableView {
    RouteTableView { ipv4: a.ipv4 + b.ipv4, ipv6: a.ipv6 + b.ipv6 }
}

/// The routes of family `v`.
pub open spec fn routes_of(t: RouteTableView, v: IpVersion) -> Seq<RouteEntryView> {
    match v {
        IpVersion::IPv4 => t.ipv4,
        IpVersion::IPv6 => t.ipv6,
    }
}

pub proof fn lemma_concat_empty(t: RouteTableView)
    ensures
        table_concat(t, empty_table()) == t,
        table_concat(empty_table(), t) == t,
{
    assert(t.ipv4 + Seq::empty() =~= t.ipv4);
    assert(t.ipv6 + Seq::empty() =~= t.ipv6);
    assert(Seq::empty() + t.ipv4 =~= t.ipv4);
    assert(Seq::empty() + t.ipv6 =~= t.ipv6);
}

pub proof fn lemma_push_then_concat(a: RouteTableView, e: RouteEntryView, b: RouteTableView)
    ensures
        table_concat(table_push(a, e), b) == table_concat(a, table_prepend(e, b)),
{
    assert(a.ipv4.push(e) + b.ipv4 =~= a.ipv4 + (seq![e] + b.ipv4));
    assert(a.ipv6.push(e) + b.ipv6 =~= a.ipv6 + (seq![e] + b.ipv6));
}

/// The routing table: IPv4 and IPv6 routes, each kept in the order they were added.
#[derive(Debug)]
pub struct RouteTable {
    pub ipv4_routes: Vec<RouteEntry>,
    pub ipv6_routes: Vec<RouteEntry>,
}

pub open spec fn entries_view(v: Seq<RouteEntry>) -> Seq<RouteEntryView> {
    v.map_values(|e: RouteEntry| e@)
}

impl View for RouteTable {
    type V = RouteTableView;

    open spec fn view(&self) -> RouteTableView {
        RouteTableView {
            ipv4: entries_view(self.ipv4_routes@),
            ipv6: entries_view(self.ipv6_routes@),
        }
    }
}

impl RouteEntry {
    /// The text of the field called `field`; `None` for an unknown name or an unset field.
    pub fn get_field(&self, field: &str) -> (r: Option<String>)
        ensures
            opt_text(r) == field_value(self@, field@),
    {
        if same_text(field, "destination") {
            Some(self.destination.clone())
        } else if same_text(field, "gateway") {
            Some(self.gateway.clone())
        } else if same_text(field, "flags") {
            Some(self.flags.clone())
        } else if same_text(field, "interface") {
            Some(self.interface.clone())
        } else if same_text(field, "genmask") {
            self.genmask.clone()
        } else if same_text(field, "expire") {
            self.expire.clone()
        } else {
            None
        }
    }
}

impl RouteTable {
    pub fn new() -> (r: RouteTable)
        ensures
            r@ == empty_table(),
    {
        let r = RouteTable { ipv4_routes: Vec::new(), ipv6_routes: Vec::new() };
        assert(r@.ipv4 =~= Seq::<RouteEntryView>::empty());
        assert(r@.ipv6 =~= Seq::<RouteEntryView>::empty());
        r
    }

    /// Appends `route` to the routes of its IP family.
    pub fn add_route(&mut self, route: RouteEntry)
        ensures
            final(self)@ == table_push(old(self)@, route@),
    {
        let ghost e = route@;
        match route.ip_version {
            IpVersion::IPv4 => {
                self.ipv4_routes.push(route);
                assert(entries_view(self.ipv4_routes@) =~= entries_view(old(self).ipv4_routes@).push(e));
            },
            IpVersion::IPv6 => {
                self.ipv6_routes.push(route);
                assert(entries_view(self.ipv6_routes@) =~= entries_view(old(self).ipv6_routes@).push(e));
            },
        }
    }

    /// The first route of family `ip_version`, in the order added, whose destination
    /// marks a default route.
    pub fn get_default_gateway(&self, ip_version: IpVersion) -> (r: Option<&RouteEntry>)
        ensures
            r is None <==> forall|i: int|
                0 <= i < routes_of(self@, ip_version).len() ==> !is_default_destination(
                    #[trigger] routes_of(self@, ip_version)[i].destination,
                ),
            r matches Some(e) ==> exists|i: int|
                0 <= i < routes_of(self@, ip_version).len() && routes_of(self@, ip_version)[i]
                    == e@ && is_default_destination(e@.destination) && forall|j: int|
                    0 <= j < i ==> !is_default_destination(
                        #[trigger] routes_of(self@, ip_version)[j].destination,
                    ),
    {
        let routes = match ip_version {
            IpVersion::IPv4 => &self.ipv4_routes,
            IpVersion::IPv6 => &self.ipv6_routes,
        };
        let ghost rs = routes_of(self@, ip_version);
        assert(rs == entries_view(routes@));
        let mut i: usize = 0;
        while i < routes.len()
            invariant
                i <= routes.len(),
                rs == entries_view(routes@),
                rs == routes_of(self@, ip_version),
                forall|j: int| 0 <= j < i ==> !is_default_destination(#[trigger] rs[j].destination),
            decreases routes.len() - i,
        {
            let d = routes[i].destination.as_str();
            assert(rs[i as int] == routes@[i as int]@);
            if same_text(d, "default") || same_text(d, "0.0.0.0") || same_text(d, "::/0") {
                assert(is_default_destination(rs[i as int].destination));
                return Some(&routes[i]);
            }
            i = i + 1;
        }
        None
    }
}

} // verus!
