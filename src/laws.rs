use vstd::prelude::*;
use crate::emit::{
    address_line, address_lines, header, network_doc, network_docs, route_section, route_sections,
};
use crate::filter::{
    filtered_interfaces, filtered_routes, has_dynamic, is_kept, is_link_scoped, is_loopback,
    is_static, is_transient, narrowed, static_addrs,
};
use crate::model::{
    interfaces_view, routes_view, AddrInfoView, Interface, InterfaceView, Route, RouteView,
};

verus! {

/// The addresses of `s` that are not link-local, in order.
pub open spec fn non_link(s: Seq<AddrInfoView>) -> Seq<AddrInfoView>
    decreases s.len(),
{
    if s.len() == 0 {
        Seq::empty()
    } else if is_link_scoped(s.last()) {
        non_link(s.drop_last())
    } else {
        non_link(s.drop_last()).push(s.last())
    }
}

/// The interface with its link-local addresses taken out.
pub open spec fn without_link(i: InterfaceView) -> InterfaceView {
    InterfaceView { addr_info: non_link(i.addr_info), ..i }
}

proof fn lemma_filtered_interfaces_add(a: Seq<InterfaceView>, b: Seq<InterfaceView>)
    ensures
        filtered_interfaces(a + b) == filtered_interfaces(a) + filtered_interfaces(b),
    decreases b.len(),
{
    if b.len() == 0 {
        assert(a + b =~= a);
        assert(filtered_interfaces(a) + filtered_interfaces(b) =~= filtered_interfaces(a));
    } else {
        lemma_filtered_interfaces_add(a, b.drop_last());
        assert((a + b).drop_last() =~= a + b.drop_last());
        assert((a + b).last() == b.last());
        assert(filtered_interfaces(a + b) =~= filtered_interfaces(a) + filtered_interfaces(b));
    }
}

proof fn lemma_filtered_routes_add(a: Seq<RouteView>, b: Seq<RouteView>)
    ensures
        filtered_routes(a + b) == filtered_routes(a) + filtered_routes(b),
    decreases b.len(),
{
    if b.len() == 0 {
        assert(a + b =~= a);
        assert(filtered_routes(a) + filtered_routes(b) =~= filtered_routes(a));
    } else {
        lemma_filtered_routes_add(a, b.drop_last());
        assert((a + b).drop_last() =~= a + b.drop_last());
        assert((a + b).last() == b.last());
        assert(filtered_routes(a + b) =~= filtered_routes(a) + filtered_routes(b));
    }
}

proof fn lemma_dropped_interface(before: Seq<InterfaceView>, x: InterfaceView, after: Seq<InterfaceView>)
    requires
        !is_kept(x),
    ensures
        filtered_interfaces(before + seq![x] + after) == filtered_interfaces(before + after),
{
    reveal_with_fuel(filtered_interfaces, 2);
    lemma_filtered_interfaces_add(before + seq![x], after);
    lemma_filtered_interfaces_add(before, seq![x]);
    lemma_filtered_interfaces_add(before, after);
    assert(seq![x].drop_last() =~= Seq::<InterfaceView>::empty());
    assert(filtered_interfaces(seq![x]) =~= Seq::<InterfaceView>::empty());
    assert(filtered_interfaces(before) + filtered_interfaces(seq![x]) =~= filtered_interfaces(before));
}

/// A loopback interface is left out whatever its other fields hold: adding one
/// anywhere in the input does not change what filtering yields.
pub proof fn law_loopback_excluded(
    before: Seq<InterfaceView>,
    lo: InterfaceView,
    after: Seq<InterfaceView>,
)
    requires
        is_loopback(lo),
    ensures
        filtered_interfaces(before + seq![lo] + after) == filtered_interfaces(before + after),
{
    lemma_dropped_interface(before, lo, after);
}

/// An interface without a hardware address is left out: adding one anywhere
/// in the input does not change what filtering yields.
pub proof fn law_without_mac_excluded(
    before: Seq<InterfaceView>,
    x: InterfaceView,
    after: Seq<InterfaceView>,
)
    requires
        x.address.is_none(),
    ensures
        filtered_interfaces(before + seq![x] + after) == filtered_interfaces(before + after),
{
    lemma_dropped_interface(before, x, after);
}

proof fn lemma_static_addrs_non_link(s: Seq<AddrInfoView>)
    ensures
        static_addrs(non_link(s)) == static_addrs(s),
    decreases s.len(),
{
    if s.len() > 0 {
        lemma_static_addrs_non_link(s.drop_last());
        if !is_link_scoped(s.last()) {
            let t = non_link(s.drop_last()).push(s.last());
            assert(t.drop_last() =~= non_link(s.drop_last()));
        }
    }
}

proof fn lemma_has_dynamic_last(s: Seq<AddrInfoView>)
    requires
        s.len() > 0,
    ensures
        has_dynamic(s) == (has_dynamic(s.drop_last()) || (!is_link_scoped(s.last())
            && s.last().dynamic)),
{
    if has_dynamic(s) {
        let k = choose|k: int| 0 <= k < s.len() && !is_link_scoped(#[trigger] s[k]) && s[k].dynamic;
        if k < s.len() - 1 {
            assert(s.drop_last()[k] == s[k]);
        }
    }
    if has_dynamic(s.drop_last()) {
        let k = choose|k: int|
            0 <= k < s.drop_last().len() && !is_link_scoped(#[trigger] s.drop_last()[k])
                && s.drop_last()[k].dynamic;
        assert(s[k] == s.drop_last()[k]);
    }
    if !is_link_scoped(s.last()) && s.last().dynamic {
        assert(s[s.len() - 1] == s.last());
    }
}

proof fn lemma_has_dynamic_non_link(s: Seq<AddrInfoView>)
    ensures
        has_dynamic(non_link(s)) == has_dynamic(s),
    decreases s.len(),
{
    if s.len() == 0 {
        assert(!has_dynamic(non_link(s)));
    } else {
        lemma_has_dynamic_non_link(s.drop_last());
        lemma_has_dynamic_last(s);
        if !is_link_scoped(s.last()) {
            let t = non_link(s.drop_last()).push(s.last());
            assert(t.drop_last() =~= non_link(s.drop_last()));
            lemma_has_dynamic_last(t);
        }
    }
}

/// Link-local addresses play no part in filtering: taking them out of an
/// interface changes neither whether it is kept nor what is kept of it.
pub proof fn law_link_scoped_ignored(i: InterfaceView)
    ensures
        is_kept(without_link(i)) == is_kept(i),
        narrowed(without_link(i)) == narrowed(i),
{
    lemma_static_addrs_non_link(i.addr_info);
    lemma_has_dynamic_non_link(i.addr_info);
}

/// A route that DHCP, the kernel or router advertisement installed is left
/// out: adding one anywhere in the input does not change what filtering yields.
pub proof fn law_transient_route_excluded(before: Seq<RouteView>, r: RouteView, after: Seq<RouteView>)
    requires
        is_transient(r),
    ensures
        filtered_routes(before + seq![r] + after) == filtered_routes(before + after),
{
    reveal_with_fuel(filtered_routes, 2);
    lemma_filtered_routes_add(before + seq![r], after);
    lemma_filtered_routes_add(before, seq![r]);
    lemma_filtered_routes_add(before, after);
    assert(seq![r].drop_last() =~= Seq::<RouteView>::empty());
    assert(filtered_routes(seq![r]) =~= Seq::<RouteView>::empty());
    assert(filtered_routes(before) + filtered_routes(seq![r]) =~= filtered_routes(before));
}

/// Routes of any other origin pass through unchanged and in order.
pub proof fn law_other_routes_kept(s: Seq<RouteView>)
    requires
        forall|k: int| 0 <= k < s.len() ==> !is_transient(#[trigger] s[k]),
    ensures
        filtered_routes(s) == s,
    decreases s.len(),
{
    if s.len() > 0 {
        assert(!is_transient(s[s.len() - 1]));
        law_other_routes_kept(s.drop_last());
        assert(s.drop_last().push(s.last()) =~= s);
    }
}

/// No route that filtering yields was installed by DHCP, the kernel or router
/// advertisement.
pub proof fn law_filtered_routes_not_transient(s: Seq<RouteView>)
    ensures
        forall|k: int| 0 <= k < filtered_routes(s).len() ==> !is_transient(#[trigger] filtered_routes(s)[k]),
    decreases s.len(),
{
    if s.len() > 0 {
        law_filtered_routes_not_transient(s.drop_last());
        let prev = filtered_routes(s.drop_last());
        assert forall|k: int| 0 <= k < filtered_routes(s).len() implies !is_transient(
            #[trigger] filtered_routes(s)[k],
        ) by {
            if k < prev.len() {
                assert(filtered_routes(s)[k] == prev[k]);
            }
        }
    }
}

/// The documents depend on the snapshot's contents alone, so generating them
/// twice from the same snapshot gives the same files, byte for byte.
pub proof fn law_regeneration_identical(
    interfaces: Seq<Interface>,
    ipv4_routes: Seq<Route>,
    ipv6_routes: Seq<Route>,
    interfaces_again: Seq<Interface>,
    ipv4_routes_again: Seq<Route>,
    ipv6_routes_again: Seq<Route>,
)
    requires
        interfaces_view(interfaces_again) == interfaces_view(interfaces),
        routes_view(ipv4_routes_again) == routes_view(ipv4_routes),
        routes_view(ipv6_routes_again) == routes_view(ipv6_routes),
    ensures
        network_docs(
            interfaces_view(interfaces_again),
            routes_view(ipv4_routes_again),
            routes_view(ipv6_routes_again),
        ) == network_docs(
            interfaces_view(interfaces),
            routes_view(ipv4_routes),
            routes_view(ipv6_routes),
        ),
{
}

/// For an interface with static addresses `a1`, `a2` and an IPv4 route `r1`
/// and an IPv6 route `r2` on it, the document lists `a1` before `a2` and the
/// section of `r1` before that of `r2`.
pub proof fn law_addresses_and_routes_in_order(
    i: InterfaceView,
    a1: AddrInfoView,
    a2: AddrInfoView,
    r1: RouteView,
    r2: RouteView,
)
    requires
        !is_loopback(i),
        i.address.is_some(),
        i.addr_info == seq![a1, a2],
        is_static(a1),
        is_static(a2),
        !is_transient(r1),
        !is_transient(r2),
        r1.dev == i.ifname,
        r2.dev == i.ifname,
    ensures
        network_docs(seq![i], seq![r1], seq![r2]) == seq![
            (
                i.ifname,
                header(i.address.unwrap()) + address_line(a1) + address_line(a2) + route_section(r1)
                    + route_section(r2),
            ),
        ],
{
    reveal_with_fuel(static_addrs, 3);
    reveal_with_fuel(filtered_interfaces, 2);
    reveal_with_fuel(route_sections, 3);
    reveal_with_fuel(address_lines, 3);
    let addrs = seq![a1, a2];
    assert(addrs.drop_last() =~= seq![a1]);
    assert(seq![a1].drop_last() =~= Seq::<AddrInfoView>::empty());
    assert(static_addrs(seq![a1]) =~= seq![a1]);
    assert(static_addrs(addrs) =~= addrs);
    assert(is_kept(i));
    let ifs = seq![i];
    assert(ifs.drop_last() =~= Seq::<InterfaceView>::empty());
    assert(filtered_interfaces(ifs) =~= seq![narrowed(i)]);
    let routes = seq![r1] + seq![r2];
    assert(routes =~= seq![r1, r2]);
    law_other_routes_kept(routes);
    assert(routes.drop_last() =~= seq![r1]);
    assert(seq![r1].drop_last() =~= Seq::<RouteView>::empty());
    assert(route_sections(i.ifname, routes) =~= route_section(r1) + route_section(r2));
    assert(address_lines(seq![a1]) =~= address_line(a1));
    assert(address_lines(addrs) =~= address_line(a1) + address_line(a2));
    let doc = network_doc(narrowed(i), filtered_routes(routes));
    assert(doc =~= header(i.address.unwrap()) + address_line(a1) + address_line(a2) + route_section(
        r1,
    ) + route_section(r2));
    assert(network_docs(ifs, seq![r1], seq![r2]) =~= seq![(i.ifname, doc)]);
}

} // verus!
