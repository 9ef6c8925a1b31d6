use vstd::prelude::*;

verus! {

/// The kind of a network interface, as far as this library distinguishes it.
#[derive(PartialEq, Eq, Structural, Clone, Copy, Debug)]
pub enum InterfaceType {
    Ethernet,
    Other,
}

/// The part of an interface's IPv4 or IPv6 configuration that this library
/// reads: whether its addresses are configured statically rather than
/// obtained automatically.
#[derive(PartialEq, Eq, Structural, Clone, Copy, Debug)]
pub struct IpConfig {
    pub is_static: bool,
}

/// One interface of a snapshot of the network state.
pub struct InterfaceRecord {
    pub name: String,
    pub iface_type: InterfaceType,
    /// `None` for interfaces without hardware address (loopback and the like).
    pub mac_address: Option<String>,
    pub ipv4: Option<IpConfig>,
    pub ipv6: Option<IpConfig>,
}

/// Bind the interface with hardware address `mac_address` to the name
/// `desired_name`.
pub struct RebindingInstruction {
    pub mac_address: String,
    pub desired_name: String,
}

/// An instruction as a pair (hardware address, desired name).
pub open spec fn instruction_view(r: RebindingInstruction) -> (Seq<char>, Seq<char>) {
    (r.mac_address@, r.desired_name@)
}

pub open spec fn instructions_view(v: Seq<RebindingInstruction>) -> Seq<(Seq<char>, Seq<char>)> {
    v.map_values(|r: RebindingInstruction| instruction_view(r))
}

pub open spec fn has_static_config(c: Option<IpConfig>) -> bool {
    match c {
        Some(c) => c.is_static,
        None => false,
    }
}

/// Whether an interface is an Ethernet device with a known hardware address.
pub open spec fn is_ethernet_with_mac(r: InterfaceRecord) -> bool {
    r.iface_type == InterfaceType::Ethernet && r.mac_address.is_some()
}

/// Whether an interface is to be pinned to its current name: an Ethernet
/// device with a known hardware address and, when `require_static` holds,
/// static addressing on IPv4 or IPv6.
pub open spec fn is_pin_candidate(r: InterfaceRecord, require_static: bool) -> bool {
    is_ethernet_with_mac(r) && (!require_static || has_static_config(r.ipv4) || has_static_config(
        r.ipv6,
    ))
}

/// The pair (hardware address, current name) of each candidate of `s`, in order.
pub open spec fn candidates_of(s: Seq<InterfaceRecord>, require_static: bool) -> Seq<
    (Seq<char>, Seq<char>),
>
    decreases s.len(),
{
    if s.len() == 0 {
        seq![]
    } else {
        let prev = candidates_of(s.drop_last(), require_static);
        let r = s.last();
        if is_pin_candidate(r, require_static) {
            prev.push((r.mac_address.unwrap()@, r.name@))
        } else {
            prev
        }
    }
}

/// Whether `pin` holds an interface with the name and type of `cur`.
pub open spec fn known_by_name(pin: Seq<InterfaceRecord>, cur: InterfaceRecord) -> bool {
    exists|j: int|
        0 <= j < pin.len() && pin[j].name@ == cur.name@ && pin[j].iface_type == cur.iface_type
}

/// Whether the pinned interface `p` carries hardware address `mac` under a
/// name other than `name`.
pub open spec fn drifted_from(p: InterfaceRecord, mac: Seq<char>, name: Seq<char>) -> bool {
    p.iface_type == InterfaceType::Ethernet && p.mac_address.is_some() && p.mac_address.unwrap()@
        == mac && p.name@ != name
}

/// One instruction (mac, pinned name) for each Ethernet interface of `pin`,
/// in order, that carries `mac` under a name other than `name`.
pub open spec fn drift_matches(pin: Seq<InterfaceRecord>, mac: Seq<char>, name: Seq<char>) -> Seq<
    (Seq<char>, Seq<char>),
>
    decreases pin.len(),
{
    if pin.len() == 0 {
        seq![]
    } else {
        let prev = drift_matches(pin.drop_last(), mac, name);
        let p = pin.last();
        if drifted_from(p, mac, name) {
            prev.push((mac, p.name@))
        } else {
            prev
        }
    }
}

/// The instructions that restore the names of `pin` on the interfaces of
/// `cur`: for each Ethernet interface of `cur` with a known hardware address
/// whose name and type `pin` does not know, the drift matches in `pin`.
pub open spec fn rebindings_of(pin: Seq<InterfaceRecord>, cur: Seq<InterfaceRecord>) -> Seq<
    (Seq<char>, Seq<char>),
>
    decreases cur.len(),
{
    if cur.len() == 0 {
        seq![]
    } else {
        let prev = rebindings_of(pin, cur.drop_last());
        let c = cur.last();
        if is_ethernet_with_mac(c) && !known_by_name(pin, c) {
            prev + drift_matches(pin, c.mac_address.unwrap()@, c.name@)
        } else {
            prev
        }
    }
}

} // verus!
