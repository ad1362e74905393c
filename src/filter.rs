use vstd::prelude::*;
use crate::model::{
    addrs_view, copy_opt, interfaces_view, routes_view, text_is, AddrInfo, AddrInfoView, Interface,
    InterfaceView, Route, RouteView,
};

verus! {

/// A loopback device needs no persistent configuration.
pub open spec fn is_loopback(i: InterfaceView) -> bool {
    i.link_type == "loopback"@
}

/// Link-local addresses are always derived anew, never persisted.
pub open spec fn is_link_scoped(a: AddrInfoView) -> bool {
    a.scope == "link"@
}

/// An address worth writing down: neither link-local nor dynamically assigned.
pub open spec fn is_static(a: AddrInfoView) -> bool {
    !is_link_scoped(a) && !a.dynamic
}

/// The static addresses of `s`, in input order.
pub open spec fn static_addrs(s: Seq<AddrInfoView>) -> Seq<AddrInfoView>
    decreases s.len(),
{
    if s.len() == 0 {
        Seq::empty()
    } else if is_static(s.last()) {
        static_addrs(s.drop_last()).push(s.last())
    } else {
        static_addrs(s.drop_last())
    }
}

/// Whether `s` holds a dynamically assigned address that is not link-local.
pub open spec fn has_dynamic(s: Seq<AddrInfoView>) -> bool {
    exists|k: int| 0 <= k < s.len() && !is_link_scoped(#[trigger] s[k]) && s[k].dynamic
}

/// Whether an interface survives filtering: it is not loopback, has a hardware
/// address, and has a static address or a dynamic addressing mechanism.
pub open spec fn is_kept(i: InterfaceView) -> bool {
    !is_loopback(i) && i.address.is_some() && (static_addrs(i.addr_info).len() > 0
        || has_dynamic(i.addr_info))
}

/// The interface with its address list narrowed to the static addresses.
pub open spec fn narrowed(i: InterfaceView) -> InterfaceView {
    InterfaceView { addr_info: static_addrs(i.addr_info), ..i }
}

/// The kept interfaces of `s`, narrowed, in input order.
pub open spec fn filtered_interfaces(s: Seq<InterfaceView>) -> Seq<InterfaceView>
    decreases s.len(),
{
    if s.len() == 0 {
        Seq::empty()
    } else if is_kept(s.last()) {
        filtered_interfaces(s.drop_last()).push(narrowed(s.last()))
    } else {
        filtered_interfaces(s.drop_last())
    }
}

/// Routes that DHCP, the kernel or router advertisement derive again by themselves.
pub open spec fn is_transient(r: RouteView) -> bool {
    r.protocol == "dhcp"@ || r.protocol == "kernel"@ || r.protocol == "ra"@
}

/// The routes of `s` that are not transient, in input order.
pub open spec fn filtered_routes(s: Seq<RouteView>) -> Seq<RouteView>
    decreases s.len(),
{
    if s.len() == 0 {
        Seq::empty()
    } else if is_transient(s.last()) {
        filtered_routes(s.drop_last())
    } else {
        filtered_routes(s.drop_last()).push(s.last())
    }
}

/// Every address that `static_addrs` keeps is static.
pub proof fn lemma_static_addrs_are_static(s: Seq<AddrInfoView>)
    ensures
        forall|j: int| 0 <= j < static_addrs(s).len() ==> is_static(#[trigger] static_addrs(s)[j]),
    decreases s.len(),
{
    if s.len() > 0 {
        let prev = static_addrs(s.drop_last());
        lemma_static_addrs_are_static(s.drop_last());
        assert forall|j: int| 0 <= j < static_addrs(s).len() implies is_static(
            #[trigger] static_addrs(s)[j],
        ) by {
            if j < prev.len() {
                assert(static_addrs(s)[j] == prev[j]);
            }
        }
    }
}

/// Every interface that filtering yields is a non-loopback device with a
/// hardware address, and holds static addresses only.
pub proof fn lemma_filtered_interfaces_are_static(s: Seq<InterfaceView>)
    ensures
        forall|k: int|
            0 <= k < filtered_interfaces(s).len() ==> {
                let i = #[trigger] filtered_interfaces(s)[k];
                &&& !is_loopback(i)
                &&& i.address.is_some()
                &&& forall|j: int| 0 <= j < i.addr_info.len() ==> is_static(#[trigger] i.addr_info[j])
            },
    decreases s.len(),
{
    if s.len() > 0 {
        lemma_filtered_interfaces_are_static(s.drop_last());
        lemma_static_addrs_are_static(s.last().addr_info);
    }
}

/// Keeps the interfaces that carry persistent configuration, each with only
/// its static addresses.
pub fn filter_interfaces(interfaces: &Vec<Interface>) -> (r: Vec<Interface>)
    ensures
        interfaces_view(r@) == filtered_interfaces(interfaces_view(interfaces@)),
{
    let mut filtered: Vec<Interface> = Vec::new();
    let ghost all = interfaces_view(interfaces@);
    let mut n: usize = 0;
    while n < interfaces.len()
        invariant
            n <= interfaces.len(),
            all == interfaces_view(interfaces@),
            interfaces_view(filtered@) == filtered_interfaces(all.take(n as int)),
        decreases interfaces.len() - n,
    {
        let interface = &interfaces[n];
        proof {
            assert(all.take(n + 1).drop_last() =~= all.take(n as int));
            assert(all.take(n + 1).last() == interface@);
        }
        if text_is(&interface.link_type, "loopback") || interface.address.is_none() {
            n = n + 1;
            assert(interfaces_view(filtered@) == filtered_interfaces(all.take(n as int)));
            continue;
        }
        let mut addr_infos: Vec<AddrInfo> = Vec::new();
        let mut has_dynamic_address = false;
        let ghost addrs = interface@.addr_info;
        let mut k: usize = 0;
        while k < interface.addr_info.len()
            invariant
                k <= interface.addr_info.len(),
                addrs == interface@.addr_info,
                addrs_view(addr_infos@) == static_addrs(addrs.take(k as int)),
                has_dynamic_address == has_dynamic(addrs.take(k as int)),
            decreases interface.addr_info.len() - k,
        {
            let addr_info = &interface.addr_info[k];
            proof {
                assert(addrs.take(k + 1).drop_last() =~= addrs.take(k as int));
                assert(addrs.take(k + 1).last() == addr_info@);
            }
            if text_is(&addr_info.scope, "link") {
                k = k + 1;
                assert(has_dynamic_address == has_dynamic(addrs.take(k as int)));
                continue;
            }
            if addr_info.dynamic {
                has_dynamic_address = true;
                k = k + 1;
                assert(addrs.take(k as int)[k - 1] == addr_info@);
                continue;
            }
            addr_infos.push(addr_info.duplicate());
            k = k + 1;
            assert(addrs_view(addr_infos@) =~= static_addrs(addrs.take(k as int)));
            assert(has_dynamic_address == has_dynamic(addrs.take(k as int)));
        }
        assert(addrs.take(k as int) =~= addrs);
        if addr_infos.len() > 0 || has_dynamic_address {
            let kept = Interface {
                ifname: interface.ifname.clone(),
                link_type: interface.link_type.clone(),
                address: copy_opt(&interface.address),
                addr_info: addr_infos,
            };
            filtered.push(kept);
            n = n + 1;
            assert(interfaces_view(filtered@) =~= filtered_interfaces(all.take(n as int)));
        } else {
            n = n + 1;
        }
    }
    assert(all.take(n as int) =~= all);
    filtered
}

/// Keeps the routes that DHCP, the kernel or router advertisement would not
/// derive again, unchanged and in input order.
pub fn filter_routes(routes: &Vec<Route>) -> (r: Vec<Route>)
    ensures
        routes_view(r@) == filtered_routes(routes_view(routes@)),
{
    let mut kept: Vec<Route> = Vec::new();
    let ghost all = routes_view(routes@);
    let mut n: usize = 0;
    while n < routes.len()
        invariant
            n <= routes.len(),
            all == routes_view(routes@),
            routes_view(kept@) == filtered_routes(all.take(n as int)),
        decreases routes.len() - n,
    {
        let route = &routes[n];
        proof {
            assert(all.take(n + 1).drop_last() =~= all.take(n as int));
            assert(all.take(n + 1).last() == route@);
        }
        let transient = text_is(&route.protocol, "dhcp") || text_is(&route.protocol, "kernel")
            || text_is(&route.protocol, "ra");
        if !transient {
            kept.push(route.duplicate());
            assert(routes_view(kept@) =~= filtered_routes(all.take(n + 1)));
        }
        n = n + 1;
    }
    assert(all.take(n as int) =~= all);
    kept
}

} // verus!
