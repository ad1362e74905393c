use vstd::prelude::*;
use crate::filter::{
    filter_interfaces, filter_routes, filtered_interfaces, filtered_routes,
    lemma_filtered_interfaces_are_static,
};
use crate::model::{
    interfaces_view, routes_view, text_is, AddrInfoView, Interface, InterfaceView, Route, RouteView,
};

verus! {

/// A generated unit document: the interface it configures and its text.
pub struct NetworkFile {
    pub ifname: String,
    pub contents: String,
}

impl View for NetworkFile {
    type V = (Seq<char>, Seq<char>);

    open spec fn view(&self) -> (Seq<char>, Seq<char>) {
        (self.ifname@, self.contents@)
    }
}

/// For each interface that survives filtering, in input order, its name and
/// its document over the retained IPv4 routes followed by the retained IPv6
/// routes.
pub open spec fn network_docs(
    interfaces: Seq<InterfaceView>,
    ipv4_routes: Seq<RouteView>,
    ipv6_routes: Seq<RouteView>,
) -> Seq<(Seq<char>, Seq<char>)> {
    let routes = filtered_routes(ipv4_routes + ipv6_routes);
    filtered_interfaces(interfaces).map_values(
        |i: InterfaceView| (i.ifname, network_doc(i, routes)),
    )
}

pub open spec fn files_view(s: Seq<NetworkFile>) -> Seq<(Seq<char>, Seq<char>)> {
    s.map_values(|f: NetworkFile| f@)
}

pub open spec fn digit_char(d: nat) -> char {
    seq!['0', '1', '2', '3', '4', '5', '6', '7', '8', '9'][d as int]
}

/// The decimal digits of `n`, without leading zeros.
pub open spec fn decimal(n: nat) -> Seq<char>
    decreases n,
{
    if n < 10 {
        seq![digit_char(n)]
    } else {
        decimal(n / 10).push(digit_char(n % 10))
    }
}

/// The match and network sections: the device is bound by its hardware
/// address, and DHCP and router advertisement are always enabled.
pub open spec fn header(mac: Seq<char>) -> Seq<char> {
    "[Match]\nMACAddress = "@ + mac + "\n\n[Network]\nDHCP = yes\nIPv6AcceptRA = yes\n"@
}

pub open spec fn address_line(a: AddrInfoView) -> Seq<char> {
    "Address = "@ + a.local + "/"@ + decimal(a.prefixlen as nat) + "\n"@
}

/// One address line for each entry of `s`, in order.
pub open spec fn address_lines(s: Seq<AddrInfoView>) -> Seq<char>
    decreases s.len(),
{
    if s.len() == 0 {
        Seq::empty()
    } else {
        address_lines(s.drop_last()) + address_line(s.last())
    }
}

/// A route section; the destination is left out for the default route.
pub open spec fn route_section(r: RouteView) -> Seq<char> {
    "\n[Route]\n"@ + (if r.dst == "default"@ {
        Seq::empty()
    } else {
        "Destination = "@ + r.dst + "\n"@
    }) + (match r.gateway {
        Some(g) => "Gateway = "@ + g + "\n"@,
        None => Seq::empty(),
    }) + "DHCP = yes\n"@
}

/// The sections of the routes of `routes` whose device is `dev`, in order.
pub open spec fn route_sections(dev: Seq<char>, routes: Seq<RouteView>) -> Seq<char>
    decreases routes.len(),
{
    if routes.len() == 0 {
        Seq::empty()
    } else if routes.last().dev == dev {
        route_sections(dev, routes.drop_last()) + route_section(routes.last())
    } else {
        route_sections(dev, routes.drop_last())
    }
}

/// The unit document of interface `i` (which has a hardware address) given
/// the retained routes.
pub open spec fn network_doc(i: InterfaceView, routes: Seq<RouteView>) -> Seq<char> {
    header(i.address.unwrap()) + address_lines(i.addr_info) + route_sections(i.ifname, routes)
}

fn digit_text(d: u8) -> (r: &'static str)
    requires
        d < 10,
    ensures
        r@ == seq![digit_char(d as nat)],
{
    let digits = "0123456789";
    proof {
        reveal_strlit("0123456789");
    }
    let r = digits.substring_char(d as usize, d as usize + 1);
    assert(r@ =~= seq![digit_char(d as nat)]);
    r
}

fn push_decimal(out: &mut String, n: u8)
    ensures
        final(out)@ == old(out)@ + decimal(n as nat),
{
    proof {
        if n >= 10 {
            assert(decimal(n as nat) == decimal((n / 10) as nat).push(digit_char((n % 10) as nat)));
            if n >= 100 {
                assert(decimal((n / 10) as nat) == decimal((n / 100) as nat).push(
                    digit_char(((n / 10) % 10) as nat),
                ));
                assert(decimal((n / 100) as nat) == seq![digit_char((n / 100) as nat)]);
            }
        }
    }
    if n >= 100 {
        out.append(digit_text(n / 100));
    }
    if n >= 10 {
        out.append(digit_text((n / 10) % 10));
    }
    out.append(digit_text(n % 10));
    proof {
        if n >= 100 {
            assert(out@ =~= old(out)@ + decimal(n as nat));
        } else if n >= 10 {
            assert(out@ =~= old(out)@ + decimal(n as nat));
        } else {
            assert(out@ =~= old(out)@ + decimal(n as nat));
        }
    }
}

/// Writes the unit document of `interface` given the retained routes.
pub fn render_network(interface: &Interface, routes: &Vec<Route>) -> (r: String)
    requires
        interface.address.is_some(),
    ensures
        r@ == network_doc(interface@, routes_view(routes@)),
{
    let mac = interface.address.as_ref().unwrap();
    let mut out = String::new();
    out.append("[Match]\nMACAddress = ");
    out.append(mac.as_str());
    out.append("\n\n[Network]\nDHCP = yes\nIPv6AcceptRA = yes\n");
    assert(out@ =~= header(interface@.address.unwrap()));
    let ghost addrs = interface@.addr_info;
    let mut k: usize = 0;
    while k < interface.addr_info.len()
        invariant
            k <= interface.addr_info.len(),
            addrs == interface@.addr_info,
            out@ == header(interface@.address.unwrap()) + address_lines(addrs.take(k as int)),
        decreases interface.addr_info.len() - k,
    {
        let a = &interface.addr_info[k];
        let ghost before = out@;
        out.append("Address = ");
        out.append(a.local.as_str());
        out.append("/");
        push_decimal(&mut out, a.prefixlen);
        out.append("\n");
        proof {
            assert(addrs.take(k + 1).drop_last() =~= addrs.take(k as int));
            assert(addrs.take(k + 1).last() == a@);
            assert(out@ =~= before + address_line(a@));
        }
        k = k + 1;
    }
    assert(addrs.take(k as int) =~= addrs);
    let ghost all = routes_view(routes@);
    let ghost top = out@;
    let mut n: usize = 0;
    while n < routes.len()
        invariant
            n <= routes.len(),
            all == routes_view(routes@),
            out@ == top + route_sections(interface@.ifname, all.take(n as int)),
        decreases routes.len() - n,
    {
        let route = &routes[n];
        proof {
            assert(all.take(n + 1).drop_last() =~= all.take(n as int));
            assert(all.take(n + 1).last() == route@);
        }
        if route.dev == interface.ifname {
            let ghost before = out@;
            out.append("\n[Route]\n");
            if !text_is(&route.dst, "default") {
                out.append("Destination = ");
                out.append(route.dst.as_str());
                out.append("\n");
            }
            match &route.gateway {
                Some(g) => {
                    out.append("Gateway = ");
                    out.append(g.as_str());
                    out.append("\n");
                },
                None => {},
            }
            out.append("DHCP = yes\n");
            assert(out@ =~= before + route_section(route@));
            assert(out@ =~= top + route_sections(interface@.ifname, all.take(n + 1)));
        }
        n = n + 1;
    }
    assert(all.take(n as int) =~= all);
    assert(out@ =~= network_doc(interface@, all));
    out
}

/// A field-for-field copy of `routes`.
pub fn copy_routes(routes: &Vec<Route>) -> (r: Vec<Route>)
    ensures
        routes_view(r@) == routes_view(routes@),
{
    let mut all: Vec<Route> = Vec::new();
    let mut n: usize = 0;
    while n < routes.len()
        invariant
            n <= routes.len(),
            all@.len() == n,
            routes_view(all@) == routes_view(routes@).take(n as int),
        decreases routes.len() - n,
    {
        let r = routes[n].duplicate();
        all.push(r);
        assert(routes_view(all@)[n as int] == routes_view(routes@)[n as int]);
        n = n + 1;
        assert(routes_view(all@) =~= routes_view(routes@).take(n as int));
    }
    assert(routes_view(routes@).take(n as int) =~= routes_view(routes@));
    all
}

/// The IPv4 routes followed by the IPv6 routes, each list in its own order.
pub fn concat_routes(ipv4_routes: &Vec<Route>, ipv6_routes: &Vec<Route>) -> (r: Vec<Route>)
    ensures
        routes_view(r@) == routes_view(ipv4_routes@) + routes_view(ipv6_routes@),
{
    let mut all = copy_routes(ipv4_routes);
    let mut rest = copy_routes(ipv6_routes);
    let ghost (front, back) = (all@, rest@);
    all.append(&mut rest);
    assert(all@ == front + back);
    assert(routes_view(all@) =~= routes_view(front) + routes_view(back));
    all
}

/// Filters the snapshot and writes one unit document for each surviving
/// interface, in input order.
pub fn network_files(
    interfaces: &Vec<Interface>,
    ipv4_routes: &Vec<Route>,
    ipv6_routes: &Vec<Route>,
) -> (r: Vec<NetworkFile>)
    ensures
        files_view(r@) == network_docs(
            interfaces_view(interfaces@),
            routes_view(ipv4_routes@),
            routes_view(ipv6_routes@),
        ),
{
    let kept = filter_interfaces(interfaces);
    let all = concat_routes(ipv4_routes, ipv6_routes);
    let routes = filter_routes(&all);
    let ghost target = network_docs(
        interfaces_view(interfaces@),
        routes_view(ipv4_routes@),
        routes_view(ipv6_routes@),
    );
    proof {
        lemma_filtered_interfaces_are_static(interfaces_view(interfaces@));
    }
    assert forall|j: int| 0 <= j < kept.len() implies (#[trigger] kept@[j]).address.is_some() by {
        assert(interfaces_view(kept@)[j] == kept@[j]@);
    }
    let mut files: Vec<NetworkFile> = Vec::new();
    let mut k: usize = 0;
    while k < kept.len()
        invariant
            k <= kept.len(),
            interfaces_view(kept@) == filtered_interfaces(interfaces_view(interfaces@)),
            routes_view(routes@) == filtered_routes(routes_view(ipv4_routes@) + routes_view(ipv6_routes@)),
            target == network_docs(
                interfaces_view(interfaces@),
                routes_view(ipv4_routes@),
                routes_view(ipv6_routes@),
            ),
            target.len() == kept.len(),
            files@.len() == k,
            files_view(files@) == target.take(k as int),
            forall|j: int| 0 <= j < kept.len() ==> (#[trigger] kept@[j]).address.is_some(),
        decreases kept.len() - k,
    {
        let interface = &kept[k];
        assert(interfaces_view(kept@)[k as int] == interface@);
        let contents = render_network(interface, &routes);
        let file = NetworkFile { ifname: interface.ifname.clone(), contents };
        files.push(file);
        let ghost kept_view = filtered_interfaces(interfaces_view(interfaces@));
        assert(kept_view[k as int] == interface@);
        assert(target[k as int] == (kept_view[k as int].ifname, network_doc(
            kept_view[k as int],
            filtered_routes(routes_view(ipv4_routes@) + routes_view(ipv6_routes@)),
        )));
        assert(files_view(files@)[k as int] == target[k as int]);
        k = k + 1;
        assert(files_view(files@) =~= target.take(k as int));
    }
    assert(target.take(k as int) =~= target);
    files
}

} // verus!
