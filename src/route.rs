use vstd::prelude::*;

use crate::model::IpConfig;

verus! {

/// One route of an interface.
pub struct RouteEntry {
    pub destination: String,
    pub next_hop_iface: Option<String>,
    pub next_hop_addr: Option<String>,
    pub metric: Option<i64>,
    pub table_id: Option<u32>,
}

fn copy_opt_string(s: &Option<String>) -> (r: Option<String>)
    ensures
        r == *s,
{
    match s {
        Some(v) => Some(v.clone()),
        None => None,
    }
}

impl RouteEntry {
    /// A copy of this route.
    pub fn copy(&self) -> (r: RouteEntry)
        ensures
            r == *self,
    {
        RouteEntry {
            destination: self.destination.clone(),
            next_hop_iface: copy_opt_string(&self.next_hop_iface),
            next_hop_addr: copy_opt_string(&self.next_hop_addr),
            metric: self.metric,
            table_id: self.table_id,
        }
    }
}

/// A copy of the route list `v`.
pub fn copy_routes(v: &Vec<RouteEntry>) -> (r: Vec<RouteEntry>)
    ensures
        r@ == v@,
{
    let mut out: Vec<RouteEntry> = Vec::new();
    let mut i: usize = 0;
    while i < v.len()
        invariant
            i <= v@.len(),
            out@ == v@.subrange(0, i as int),
        decreases v.len() - i,
    {
        out.push(v[i].copy());
        assert(out@ =~= v@.subrange(0, i + 1));
        i = i + 1;
    }
    assert(v@.subrange(0, v@.len() as int) =~= v@);
    out
}

/// The part of an interface that is pushed to the network stack.
pub struct ApplyInterface {
    pub mtu: Option<u64>,
    pub ipv4: Option<IpConfig>,
    pub ipv6: Option<IpConfig>,
    pub routes: Option<Vec<RouteEntry>>,
}

/// A kernel interface of the merge: its merged configuration and, when it is
/// to be applied, its apply projection.
pub struct MergedInterface {
    pub name: String,
    pub merged_ipv4: Option<IpConfig>,
    pub merged_ipv6: Option<IpConfig>,
    /// `Some` exactly when the interface is to be applied.
    pub for_apply: Option<ApplyInterface>,
}

/// The changed routes of one interface.
pub struct IfaceRoutes {
    pub iface_name: String,
    pub routes: Vec<RouteEntry>,
}

/// The route part of a merge.
pub struct MergedRoutes {
    /// Whether any route changed.
    pub changed: bool,
    /// The names of the interfaces whose routes changed.
    pub route_changed_ifaces: Vec<String>,
    /// The changed routes, by interface; an interface without entry has had
    /// its routes cleared.
    pub indexed: Vec<IfaceRoutes>,
}

impl MergedRoutes {
    pub fn is_changed(&self) -> (r: bool)
        ensures
            r == self.changed,
    {
        self.changed
    }
}

/// A merge of desired and current network state.
pub struct MergedNetworkState {
    pub routes: MergedRoutes,
    pub kernel_ifaces: Vec<MergedInterface>,
}

impl MergedNetworkState {
    /// Kernel interfaces and indexed route lists are each keyed by a distinct
    /// interface name.
    pub open spec fn well_formed(&self) -> bool {
        &&& forall|i: int, j: int|
            0 <= i < j < self.kernel_ifaces@.len() ==> #[trigger] self.kernel_ifaces@[i].name@
                != #[trigger] self.kernel_ifaces@[j].name@
        &&& forall|i: int, j: int|
            0 <= i < j < self.routes.indexed@.len() ==> #[trigger] self.routes.indexed@[i].iface_name@
                != #[trigger] self.routes.indexed@[j].iface_name@
    }
}

/// The changed routes of interface `name`: its entry in `idx`, or none.
pub open spec fn routes_for(idx: Seq<IfaceRoutes>, name: Seq<char>) -> Seq<RouteEntry> {
    if exists|i: int| 0 <= i < idx.len() && #[trigger] idx[i].iface_name@ == name {
        let i = choose|i: int| 0 <= i < idx.len() && #[trigger] idx[i].iface_name@ == name;
        idx[i].routes@
    } else {
        Seq::empty()
    }
}

/// Whether `new` is `old` marked as changed, with the merged IPv4 and IPv6
/// configuration and the routes `routes` in its apply projection.
pub open spec fn routes_stored(new: MergedInterface, old: MergedInterface, routes: Seq<RouteEntry>) -> bool {
    &&& new.name == old.name
    &&& new.merged_ipv4 == old.merged_ipv4
    &&& new.merged_ipv6 == old.merged_ipv6
    &&& new.for_apply is Some
    &&& new.for_apply->0.mtu == match old.for_apply {
        Some(a) => a.mtu,
        None => None,
    }
    &&& new.for_apply->0.ipv4 == old.merged_ipv4
    &&& new.for_apply->0.ipv6 == old.merged_ipv6
    &&& new.for_apply->0.routes is Some
    &&& new.for_apply->0.routes->0@ == routes
}

/// Whether the route of some interface of `s` changed.
pub open spec fn route_changed(s: MergedRoutes, name: Seq<char>) -> bool {
    s.changed && s.route_changed_ifaces@.map_values(|n: String| n@).contains(name)
}

/// The index of the kernel interface named `name`, if any.
fn find_iface(ifaces: &Vec<MergedInterface>, name: &String) -> (r: Option<usize>)
    ensures
        match r {
            Some(i) => i < ifaces@.len() && ifaces@[i as int].name@ == name@,
            None => forall|i: int| 0 <= i < ifaces@.len() ==> ifaces@[i].name@ != name@,
        },
{
    let mut i: usize = 0;
    while i < ifaces.len()
        invariant
            i <= ifaces@.len(),
            forall|j: int| 0 <= j < i ==> ifaces@[j].name@ != name@,
        decreases ifaces.len() - i,
    {
        if ifaces[i].name == *name {
            return Some(i);
        }
        i = i + 1;
    }
    None
}

/// A copy of the changed routes of interface `name`.
fn lookup_routes(idx: &Vec<IfaceRoutes>, name: &String) -> (r: Vec<RouteEntry>)
    requires
        forall|i: int, j: int|
            0 <= i < j < idx@.len() ==> #[trigger] idx@[i].iface_name@ != #[trigger] idx@[j].iface_name@,
    ensures
        r@ == routes_for(idx@, name@),
{
    let mut i: usize = 0;
    while i < idx.len()
        invariant
            i <= idx@.len(),
            forall|j: int| 0 <= j < i ==> idx@[j].iface_name@ != name@,
            forall|a: int, b: int|
                0 <= a < b < idx@.len() ==> #[trigger] idx@[a].iface_name@ != #[trigger] idx@[b].iface_name@,
        decreases idx.len() - i,
    {
        if idx[i].iface_name == *name {
            proof {
                assert(idx@[i as int].iface_name@ == name@);
                let k = choose|k: int| 0 <= k < idx@.len() && #[trigger] idx@[k].iface_name@ == name@;
                if k != i {
                    if k < i {
                        assert(idx@[k].iface_name@ != idx@[i as int].iface_name@);
                    } else {
                        assert(idx@[i as int].iface_name@ != idx@[k].iface_name@);
                    }
                }
            }
            return copy_routes(&idx[i].routes);
        }
        i = i + 1;
    }
    Vec::new()
}

/// Folds the changed routes into the merge. Where the routes changed, each
/// kernel interface named in `route_changed_ifaces` is marked as changed and
/// its apply projection gets its merged IPv4 and IPv6 configuration and its
/// changed routes (none where it has no entry). Every other interface, the
/// route part, and the set of interfaces stay as they are.
pub fn store_route_config(merged_state: &mut MergedNetworkState)
    requires
        old(merged_state).well_formed(),
    ensures
        final(merged_state).routes == old(merged_state).routes,
        final(merged_state).kernel_ifaces@.len() == old(merged_state).kernel_ifaces@.len(),
        forall|k: int|
            0 <= k < old(merged_state).kernel_ifaces@.len() ==> {
                let o = #[trigger] old(merged_state).kernel_ifaces@[k];
                let n = final(merged_state).kernel_ifaces@[k];
                if route_changed(old(merged_state).routes, o.name@) {
                    routes_stored(n, o, routes_for(old(merged_state).routes.indexed@, o.name@))
                } else {
                    n == o
                }
            },
{
    if !merged_state.routes.is_changed() {
        return;
    }
    let ghost orig = merged_state.kernel_ifaces@;
    let ghost names = merged_state.routes.route_changed_ifaces@.map_values(|n: String| n@);
    let mut i: usize = 0;
    while i < merged_state.routes.route_changed_ifaces.len()
        invariant
            merged_state.routes == old(merged_state).routes,
            merged_state.routes.changed,
            names == merged_state.routes.route_changed_ifaces@.map_values(|n: String| n@),
            old(merged_state).well_formed(),
            orig == old(merged_state).kernel_ifaces@,
            i <= names.len(),
            merged_state.kernel_ifaces@.len() == orig.len(),
            forall|k: int|
                0 <= k < orig.len() ==> (merged_state.kernel_ifaces@[k].name == orig[k].name),
            forall|k: int|
                0 <= k < orig.len() ==> {
                    let o = #[trigger] orig[k];
                    let n = merged_state.kernel_ifaces@[k];
                    if names.subrange(0, i as int).contains(o.name@) {
                        routes_stored(n, o, routes_for(old(merged_state).routes.indexed@, o.name@))
                    } else {
                        n == o
                    }
                },
        decreases names.len() - i,
    {
        let ghost before = merged_state.kernel_ifaces@;
        let name = &merged_state.routes.route_changed_ifaces[i];
        let rts = lookup_routes(&merged_state.routes.indexed, name);
        let found = find_iface(&merged_state.kernel_ifaces, name);
        if let Some(j) = found {
            let cur = &merged_state.kernel_ifaces[j];
            let mtu = match &cur.for_apply {
                Some(a) => a.mtu,
                None => None,
            };
            let updated = MergedInterface {
                name: cur.name.clone(),
                merged_ipv4: cur.merged_ipv4,
                merged_ipv6: cur.merged_ipv6,
                for_apply: Some(
                    ApplyInterface {
                        mtu,
                        ipv4: cur.merged_ipv4,
                        ipv6: cur.merged_ipv6,
                        routes: Some(rts),
                    },
                ),
            };
            merged_state.kernel_ifaces.set(j, updated);
        }
        proof {
            let pre = names.subrange(0, i as int);
            let post = names.subrange(0, i + 1);
            assert(post =~= pre.push(names[i as int]));
            assert(names[i as int] == name@);
            assert forall|k: int| 0 <= k < orig.len() implies {
                let o = #[trigger] orig[k];
                let n = merged_state.kernel_ifaces@[k];
                if post.contains(o.name@) {
                    routes_stored(n, o, routes_for(old(merged_state).routes.indexed@, o.name@))
                } else {
                    n == o
                }
            } by {
                let o = orig[k];
                assert(post.contains(o.name@) <==> (pre.contains(o.name@) || o.name@ == name@)) by {
                    if pre.contains(o.name@) {
                        let t = choose|t: int| 0 <= t < pre.len() && pre[t] == o.name@;
                        assert(post[t] == o.name@);
                    }
                    if post.contains(o.name@) && o.name@ != name@ {
                        let t = choose|t: int| 0 <= t < post.len() && post[t] == o.name@;
                        assert(pre[t] == o.name@);
                    }
                    if o.name@ == name@ {
                        assert(post[i as int] == o.name@);
                    }
                }
                if let Some(j) = found {
                    if k != j {
                        assert(orig[k].name@ != orig[j as int].name@);
                    } else {
                        assert(before[k].name == o.name);
                    }
                } else {
                    assert(before[k].name == o.name);
                    assert(before[k].name@ != name@);
                }
            }
        }
        i = i + 1;
    }
    proof {
        assert(names.subrange(0, names.len() as int) =~= names);
    }
}

} // verus!
