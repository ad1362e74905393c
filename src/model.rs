use vstd::prelude::*;

verus! {

/// One IP address bound to an interface.
#[derive(Debug)]
pub struct AddrInfo {
    pub scope: String,
    /// True when the address came from DHCP or router advertisement.
    pub dynamic: bool,
    pub local: String,
    pub prefixlen: u8,
}

/// A network device entry of the snapshot.
#[derive(Debug)]
pub struct Interface {
    pub ifname: String,
    pub link_type: String,
    /// The hardware (MAC) address, if the device has one.
    pub address: Option<String>,
    pub addr_info: Vec<AddrInfo>,
}

/// One routing-table entry.
#[derive(Debug)]
pub struct Route {
    pub protocol: String,
    pub dev: String,
    pub dst: String,
    pub gateway: Option<String>,
}

pub ghost struct AddrInfoView {
    pub scope: Seq<char>,
    pub dynamic: bool,
    pub local: Seq<char>,
    pub prefixlen: u8,
}

pub ghost struct InterfaceView {
    pub ifname: Seq<char>,
    pub link_type: Seq<char>,
    pub address: Option<Seq<char>>,
    pub addr_info: Seq<AddrInfoView>,
}

pub ghost struct RouteView {
    pub protocol: Seq<char>,
    pub dev: Seq<char>,
    pub dst: Seq<char>,
    pub gateway: Option<Seq<char>>,
}

pub open spec fn opt_view(o: Option<String>) -> Option<Seq<char>> {
    match o {
        Some(s) => Some(s@),
        None => None,
    }
}

impl View for AddrInfo {
    type V = AddrInfoView;

    open spec fn view(&self) -> AddrInfoView {
        AddrInfoView {
            scope: self.scope@,
            dynamic: self.dynamic,
            local: self.local@,
            prefixlen: self.prefixlen,
        }
    }
}

impl View for Interface {
    type V = InterfaceView;

    open spec fn view(&self) -> InterfaceView {
        InterfaceView {
            ifname: self.ifname@,
            link_type: self.link_type@,
            address: opt_view(self.address),
            addr_info: addrs_view(self.addr_info@),
        }
    }
}

impl View for Route {
    type V = RouteView;

    open spec fn view(&self) -> RouteView {
        RouteView {
            protocol: self.protocol@,
            dev: self.dev@,
            dst: self.dst@,
            gateway: opt_view(self.gateway),
        }
    }
}

pub open spec fn addrs_view(s: Seq<AddrInfo>) -> Seq<AddrInfoView> {
    s.map_values(|a: AddrInfo| a@)
}

pub open spec fn interfaces_view(s: Seq<Interface>) -> Seq<InterfaceView> {
    s.map_values(|i: Interface| i@)
}

pub open spec fn routes_view(s: Seq<Route>) -> Seq<RouteView> {
    s.map_values(|r: Route| r@)
}

/// Whether `s` holds exactly the characters of `lit`.
pub fn text_is(s: &String, lit: &str) -> (r: bool)
    ensures
        r == (s@ == lit@),
{
    let t = lit.to_string();
    *s == t
}

/// A copy of an optional string.
pub fn copy_opt(o: &Option<String>) -> (r: Option<String>)
    ensures
        opt_view(r) == opt_view(*o),
{
    match o {
        Some(s) => Some(s.clone()),
        None => None,
    }
}

impl AddrInfo {
    /// A field-for-field copy.
    pub fn duplicate(&self) -> (r: AddrInfo)
        ensures
            r@ == self@,
    {
        AddrInfo {
            scope: self.scope.clone(),
            dynamic: self.dynamic,
            local: self.local.clone(),
            prefixlen: self.prefixlen,
        }
    }
}

impl Route {
    /// A field-for-field copy.
    pub fn duplicate(&self) -> (r: Route)
        ensures
            r@ == self@,
    {
        Route {
            protocol: self.protocol.clone(),
            dev: self.dev.clone(),
            dst: self.dst.clone(),
            gateway: copy_opt(&self.gateway),
        }
    }
}

} // verus!
