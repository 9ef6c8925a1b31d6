use vstd::prelude::*;

use crate::link::{persist_all, persist_iface_name_via_systemd_link, LinkFolder};
use crate::model::{
    candidates_of, drift_matches, drifted_from, is_ethernet_with_mac, instructions_view, known_by_name, rebindings_of, InterfaceRecord,
    InterfaceType, RebindingInstruction,
};

verus! {

/// The (mac, current name) instruction of each candidate of `ifaces`, in
/// order: Ethernet interfaces with a known hardware address and, when
/// `require_static` holds, static addressing on IPv4 or IPv6.
pub fn process_interfaces(ifaces: &Vec<InterfaceRecord>, require_static: bool) -> (r: Vec<
    RebindingInstruction,
>)
    ensures
        instructions_view(r@) == candidates_of(ifaces@, require_static),
{
    let mut out: Vec<RebindingInstruction> = Vec::new();
    let mut i: usize = 0;
    while i < ifaces.len()
        invariant
            i <= ifaces@.len(),
            instructions_view(out@) == candidates_of(ifaces@.subrange(0, i as int), require_static),
        decreases ifaces.len() - i,
    {
        let iface = &ifaces[i];
        assert(ifaces@.subrange(0, i + 1).drop_last() =~= ifaces@.subrange(0, i as int));
        if iface.iface_type == InterfaceType::Ethernet {
            if let Some(mac) = &iface.mac_address {
                let v4 = match iface.ipv4 {
                    Some(c) => c.is_static,
                    None => false,
                };
                let v6 = match iface.ipv6 {
                    Some(c) => c.is_static,
                    None => false,
                };
                if !require_static || v4 || v6 {
                    out.push(
                        RebindingInstruction {
                            mac_address: mac.clone(),
                            desired_name: iface.name.clone(),
                        },
                    );
                }
            }
        }
        assert(instructions_view(out@) =~= candidates_of(
            ifaces@.subrange(0, i + 1),
            require_static,
        ));
        i = i + 1;
    }
    assert(ifaces@.subrange(0, ifaces@.len() as int) =~= ifaces@);
    out
}

/// Whether `pin` holds an interface with the name and type of `cur`.
fn is_known_by_name(pin: &Vec<InterfaceRecord>, cur: &InterfaceRecord) -> (r: bool)
    ensures
        r == known_by_name(pin@, *cur),
{
    let mut j: usize = 0;
    while j < pin.len()
        invariant
            j <= pin@.len(),
            forall|k: int|
                0 <= k < j ==> !(pin@[k].name@ == cur.name@ && pin@[k].iface_type
                    == cur.iface_type),
        decreases pin.len() - j,
    {
        if pin[j].name == cur.name && pin[j].iface_type == cur.iface_type {
            return true;
        }
        j = j + 1;
    }
    false
}

/// Appends to `out` an instruction (mac, pinned name) for each Ethernet
/// interface of `pin` that carries `mac` under a name other than `name`.
fn push_drift_matches(
    out: &mut Vec<RebindingInstruction>,
    pin: &Vec<InterfaceRecord>,
    mac: &String,
    name: &String,
)
    ensures
        instructions_view(final(out)@) == instructions_view(old(out)@) + drift_matches(
            pin@,
            mac@,
            name@,
        ),
{
    let ghost base = instructions_view(out@);
    let mut j: usize = 0;
    while j < pin.len()
        invariant
            j <= pin@.len(),
            instructions_view(out@) == base + drift_matches(pin@.subrange(0, j as int), mac@, name@),
        decreases pin.len() - j,
    {
        let p = &pin[j];
        let ghost before = instructions_view(out@);
        assert(pin@.subrange(0, j + 1).drop_last() =~= pin@.subrange(0, j as int));
        assert(pin@.subrange(0, j + 1).last() == *p);
        if p.iface_type == InterfaceType::Ethernet {
            if let Some(pm) = &p.mac_address {
                if *pm == *mac && !(p.name == *name) {
                    out.push(
                        RebindingInstruction { mac_address: mac.clone(), desired_name: p.name.clone() },
                    );
                    assert(instructions_view(out@) =~= before.push((mac@, p.name@)));
                }
            }
        }
        assert(instructions_view(out@) =~= base + drift_matches(
            pin@.subrange(0, j + 1),
            mac@,
            name@,
        ));
        j = j + 1;
    }
    assert(pin@.subrange(0, pin@.len() as int) =~= pin@);
}

/// The rebinding instructions that restore the names of the pinned snapshot
/// `pin` on the current snapshot `cur`. An Ethernet interface of `cur` with a
/// known hardware address, whose name and type `pin` does not hold, gets one
/// instruction for each Ethernet interface of `pin` that carries its hardware
/// address under another name: the instruction binds that address to the
/// pinned name.
pub fn resolve_rebindings(pin: &Vec<InterfaceRecord>, cur: &Vec<InterfaceRecord>) -> (r: Vec<
    RebindingInstruction,
>)
    ensures
        instructions_view(r@) == rebindings_of(pin@, cur@),
{
    let mut out: Vec<RebindingInstruction> = Vec::new();
    let mut i: usize = 0;
    while i < cur.len()
        invariant
            i <= cur@.len(),
            instructions_view(out@) == rebindings_of(pin@, cur@.subrange(0, i as int)),
        decreases cur.len() - i,
    {
        let c = &cur[i];
        assert(cur@.subrange(0, i + 1).drop_last() =~= cur@.subrange(0, i as int));
        assert(cur@.subrange(0, i + 1).last() == *c);
        if c.iface_type == InterfaceType::Ethernet {
            if let Some(mac) = &c.mac_address {
                if !is_known_by_name(pin, c) {
                    push_drift_matches(&mut out, pin, mac, &c.name);
                }
            }
        }
        i = i + 1;
    }
    assert(cur@.subrange(0, cur@.len() as int) =~= cur@);
    out
}

/// No instruction for an unchanged interface: where every Ethernet interface
/// of the pinned snapshot that carries the hardware address of `c` carries
/// the name of `c` too, or where the pinned snapshot knows the name and type
/// of `c`, adding `c` to the current snapshot adds no instruction.
pub proof fn lemma_unchanged_interface_not_rebound(
    pin: Seq<InterfaceRecord>,
    cur: Seq<InterfaceRecord>,
    c: InterfaceRecord,
)
    requires
        known_by_name(pin, c) || forall|j: int|
            0 <= j < pin.len() && (#[trigger] pin[j]).iface_type == InterfaceType::Ethernet
                && pin[j].mac_address.is_some()
                && pin[j].mac_address.unwrap()@ == c.mac_address.unwrap()@ ==> pin[j].name@ == c.name@,
    ensures
        rebindings_of(pin, cur.push(c)) == rebindings_of(pin, cur),
{
    assert(cur.push(c).drop_last() =~= cur);
    if is_ethernet_with_mac(c) && !known_by_name(pin, c) {
        lemma_no_drift_matches(pin, c);
        assert(rebindings_of(pin, cur) + drift_matches(pin, c.mac_address.unwrap()@, c.name@)
            =~= rebindings_of(pin, cur));
    }
}

proof fn lemma_no_drift_matches(pin: Seq<InterfaceRecord>, c: InterfaceRecord)
    requires
        c.mac_address.is_some(),
        forall|j: int|
            0 <= j < pin.len() && (#[trigger] pin[j]).iface_type == InterfaceType::Ethernet
                && pin[j].mac_address.is_some()
                && pin[j].mac_address.unwrap()@ == c.mac_address.unwrap()@ ==> pin[j].name@ == c.name@,
    ensures
        drift_matches(pin, c.mac_address.unwrap()@, c.name@) == Seq::<(Seq<char>, Seq<char>)>::empty(),
    decreases pin.len(),
{
    if pin.len() > 0 {
        let prev = pin.drop_last();
        assert forall|j: int|
            0 <= j < prev.len() && (#[trigger] prev[j]).iface_type == InterfaceType::Ethernet
                && prev[j].mac_address.is_some()
                && prev[j].mac_address.unwrap()@ == c.mac_address.unwrap()@ implies prev[j].name@ == c.name@ by {
            assert(prev[j] == pin[j]);
        }
        lemma_no_drift_matches(prev, c);
        let p = pin.last();
        assert(p == pin[pin.len() - 1]);
        if drifted_from(p, c.mac_address.unwrap()@, c.name@) {
            assert(p.mac_address.unwrap()@ == c.mac_address.unwrap()@);
        }
    }
}

/// Carries out each instruction of `instrs` in order on `folder`; returns
/// whether any binding file was created.
pub fn persist_instructions(folder: &mut LinkFolder, instrs: &Vec<RebindingInstruction>) -> (r:
    bool)
    ensures
        (final(folder)@, r) == persist_all(old(folder)@, instructions_view(instrs@)),
{
    let mut changed = false;
    let mut i: usize = 0;
    while i < instrs.len()
        invariant
            i <= instrs@.len(),
            (folder@, changed) == persist_all(
                old(folder)@,
                instructions_view(instrs@.subrange(0, i as int)),
            ),
        decreases instrs.len() - i,
    {
        assert(instructions_view(instrs@.subrange(0, i + 1)).drop_last() =~= instructions_view(
            instrs@.subrange(0, i as int),
        ));
        let step = persist_iface_name_via_systemd_link(
            folder,
            instrs[i].mac_address.as_str(),
            instrs[i].desired_name.as_str(),
        );
        changed = changed || step;
        i = i + 1;
    }
    assert(instrs@.subrange(0, instrs@.len() as int) =~= instrs@);
    changed
}

/// The pinning pass from a prior snapshot: resolves the rebinding
/// instructions of `pin` against `cur` and writes a binding file for each,
/// leaving files already present untouched. Returns the instructions.
pub fn pin_iface_name(
    folder: &mut LinkFolder,
    pin: &Vec<InterfaceRecord>,
    cur: &Vec<InterfaceRecord>,
) -> (r: Vec<RebindingInstruction>)
    ensures
        instructions_view(r@) == rebindings_of(pin@, cur@),
        final(folder)@ == persist_all(old(folder)@, rebindings_of(pin@, cur@)).0,
{
    let instrs = resolve_rebindings(pin, cur);
    persist_instructions(folder, &instrs);
    instrs
}

} // verus!
