use nmstatectl::model::IpConfig;
use nmstatectl::route::{
    store_route_config, ApplyInterface, IfaceRoutes, MergedInterface, MergedNetworkState, MergedRoutes,
    RouteEntry,
};

fn route(dest: &str) -> RouteEntry {
    RouteEntry {
        destination: dest.to_string(),
        next_hop_iface: Some("eth0".to_string()),
        next_hop_addr: Some("192.0.2.1".to_string()),
        metric: Some(100),
        table_id: None,
    }
}

fn iface(name: &str, applied: bool) -> MergedInterface {
    MergedInterface {
        name: name.to_string(),
        merged_ipv4: Some(IpConfig { is_static: true }),
        merged_ipv6: Some(IpConfig { is_static: false }),
        for_apply: if applied {
            Some(ApplyInterface { mtu: Some(1500), ipv4: None, ipv6: None, routes: None })
        } else {
            None
        },
    }
}

fn state(changed: bool, route_ifaces: &[&str], indexed: Vec<IfaceRoutes>) -> MergedNetworkState {
    MergedNetworkState {
        routes: MergedRoutes {
            changed,
            route_changed_ifaces: route_ifaces.iter().map(|s| s.to_string()).collect(),
            indexed,
        },
        kernel_ifaces: vec![iface("eth0", true), iface("eth1", false)],
    }
}

#[test]
fn route_merge_touches_only_changed_interfaces() {
    let mut s = state(
        true,
        &["eth0"],
        vec![IfaceRoutes { iface_name: "eth0".to_string(), routes: vec![route("198.51.100.0/24")] }],
    );
    store_route_config(&mut s);
    let a = s.kernel_ifaces[0].for_apply.as_ref().unwrap();
    assert_eq!(a.mtu, Some(1500));
    assert_eq!(a.ipv4, Some(IpConfig { is_static: true }));
    assert_eq!(a.ipv6, Some(IpConfig { is_static: false }));
    let rts = a.routes.as_ref().unwrap();
    assert_eq!(rts.len(), 1);
    assert_eq!(rts[0].destination, "198.51.100.0/24");
    assert_eq!(rts[0].metric, Some(100));
    assert!(s.kernel_ifaces[1].for_apply.is_none());
    assert_eq!(s.routes.indexed[0].routes.len(), 1);
}

#[test]
fn route_merge_marks_unchanged_interface_and_clears_missing_routes() {
    let mut s = state(true, &["eth1", "eth9"], vec![]);
    store_route_config(&mut s);
    let a = s.kernel_ifaces[1].for_apply.as_ref().unwrap();
    assert_eq!(a.mtu, None);
    assert_eq!(a.ipv4, Some(IpConfig { is_static: true }));
    assert_eq!(a.routes.as_ref().unwrap().len(), 0);
    assert_eq!(s.kernel_ifaces.len(), 2);
    assert!(s.kernel_ifaces[0].for_apply.as_ref().unwrap().routes.is_none());
}

#[test]
fn route_merge_without_route_change_is_a_no_op() {
    let mut s = state(false, &["eth0", "eth1"], vec![]);
    store_route_config(&mut s);
    assert!(s.kernel_ifaces[0].for_apply.as_ref().unwrap().routes.is_none());
    assert!(s.kernel_ifaces[1].for_apply.is_none());
}
