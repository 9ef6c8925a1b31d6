use nmstatectl::identity::{pin_iface_name, process_interfaces, resolve_rebindings};
use nmstatectl::link::LinkFolder;
use nmstatectl::model::{InterfaceRecord, InterfaceType, IpConfig};

fn eth(name: &str, mac: Option<&str>, v4_static: Option<bool>, v6_static: Option<bool>) -> InterfaceRecord {
    InterfaceRecord {
        name: name.to_string(),
        iface_type: InterfaceType::Ethernet,
        mac_address: mac.map(|m| m.to_string()),
        ipv4: v4_static.map(|s| IpConfig { is_static: s }),
        ipv6: v6_static.map(|s| IpConfig { is_static: s }),
    }
}

fn pairs(v: &[nmstatectl::model::RebindingInstruction]) -> Vec<(String, String)> {
    v.iter().map(|r| (r.mac_address.clone(), r.desired_name.clone())).collect()
}

#[test]
fn mac_drift_is_corrected_to_pinned_name() {
    let pin = vec![eth("eth0", Some("AA:BB"), None, None)];
    let cur = vec![eth("eth1", Some("AA:BB"), None, None)];
    let r = resolve_rebindings(&pin, &cur);
    assert_eq!(pairs(&r), vec![("AA:BB".to_string(), "eth0".to_string())]);
}

#[test]
fn unchanged_name_gives_no_instruction() {
    let pin = vec![eth("eth0", Some("AA:BB"), None, None)];
    let cur = vec![eth("eth0", Some("AA:BB"), None, None)];
    assert!(resolve_rebindings(&pin, &cur).is_empty());
}

#[test]
fn name_known_in_pin_snapshot_is_skipped() {
    // eth1 exists in the pinned state, so its drift is not corrected.
    let pin = vec![eth("eth0", Some("AA:BB"), None, None), eth("eth1", Some("CC:DD"), None, None)];
    let cur = vec![eth("eth1", Some("AA:BB"), None, None)];
    assert!(resolve_rebindings(&pin, &cur).is_empty());
}

#[test]
fn interfaces_without_mac_or_not_ethernet_are_ignored() {
    let pin = vec![eth("eth0", Some("AA:BB"), None, None)];
    let mut other = eth("bond0", Some("AA:BB"), None, None);
    other.iface_type = InterfaceType::Other;
    let cur = vec![eth("eth1", None, None, None), other];
    assert!(resolve_rebindings(&pin, &cur).is_empty());
}

#[test]
fn duplicate_pinned_macs_each_emit_an_instruction() {
    let pin = vec![eth("eth0", Some("AA:BB"), None, None), eth("eth2", Some("AA:BB"), None, None)];
    let cur = vec![eth("eth1", Some("AA:BB"), None, None)];
    assert_eq!(
        pairs(&resolve_rebindings(&pin, &cur)),
        vec![
            ("AA:BB".to_string(), "eth0".to_string()),
            ("AA:BB".to_string(), "eth2".to_string())
        ]
    );
}

#[test]
fn static_filter_selects_candidates() {
    let ifaces = vec![
        eth("eth0", Some("01"), Some(true), None),
        eth("eth1", Some("02"), Some(false), Some(false)),
        eth("eth2", Some("03"), None, Some(true)),
        eth("eth3", None, Some(true), None),
        eth("eth4", Some("05"), None, None),
    ];
    assert_eq!(
        pairs(&process_interfaces(&ifaces, true)),
        vec![("01".to_string(), "eth0".to_string()), ("03".to_string(), "eth2".to_string())]
    );
    assert_eq!(process_interfaces(&ifaces, false).len(), 4);
}

#[test]
fn pin_pass_writes_binding_for_drifted_nic() {
    let pin = vec![eth("eth0", Some("AA:BB"), None, None)];
    let cur = vec![eth("eth1", Some("AA:BB"), None, None)];
    let mut folder = LinkFolder::new(vec![]);
    let r = pin_iface_name(&mut folder, &pin, &cur);
    assert_eq!(r.len(), 1);
    assert_eq!(folder.created.len(), 1);
    assert_eq!(folder.created[0].name, "98-nmstate-eth0.link");
    assert_eq!(
        folder.created[0].content,
        "# Generated by nmstate\n[Match]\nMACAddress=AA:BB\n\n[Link]\nName=eth0\n"
    );
}
