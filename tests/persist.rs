use nmstatectl::link::LinkFolder;
use nmstatectl::model::{InterfaceRecord, InterfaceType, IpConfig};
use nmstatectl::persist::{
    inspect, ncl_pin_nic_names, needs_snapshot, pin_needs_snapshot, run_persist_immediately, PersistAction, PersistOutcome,
};

fn eth(name: &str, mac: &str, v4_static: bool) -> InterfaceRecord {
    InterfaceRecord {
        name: name.to_string(),
        iface_type: InterfaceType::Ethernet,
        mac_address: Some(mac.to_string()),
        ipv4: Some(IpConfig { is_static: v4_static }),
        ipv6: Some(IpConfig { is_static: false }),
    }
}

#[test]
fn save_twice_writes_nothing_the_second_time() {
    let ifaces = vec![eth("eth0", "AA:BB", true), eth("eth1", "CC:DD", true)];
    let mut folder = LinkFolder::new(vec![]);
    let r = run_persist_immediately(&mut folder, PersistAction::Save, &ifaces);
    assert!(matches!(r, PersistOutcome::Persisted(true)));
    let names: Vec<&str> = folder.created.iter().map(|f| f.name.as_str()).collect();
    assert_eq!(names, vec!["98-nmstate-eth0.link", "98-nmstate-eth1.link", ".nmstate-persist.stamp"]);
    assert_eq!(folder.created[2].content, "");
    let r2 = run_persist_immediately(&mut folder, PersistAction::Save, &ifaces);
    assert!(matches!(r2, PersistOutcome::AlreadyDone));
    assert_eq!(folder.created.len(), 3);
}

#[test]
fn save_writes_stamp_even_without_changes() {
    let ifaces = vec![eth("eth0", "AA:BB", true)];
    let mut folder = LinkFolder::new(vec!["98-nmstate-eth0.link".to_string()]);
    let r = run_persist_immediately(&mut folder, PersistAction::Save, &ifaces);
    assert!(matches!(r, PersistOutcome::Persisted(false)));
    assert_eq!(folder.created.len(), 1);
    assert_eq!(folder.created[0].name, ".nmstate-persist.stamp");
}

#[test]
fn dry_run_writes_nothing() {
    let ifaces = vec![eth("eth0", "AA:BB", true), eth("eth1", "CC:DD", false)];
    let mut folder = LinkFolder::new(vec![]);
    match run_persist_immediately(&mut folder, PersistAction::DryRun, &ifaces) {
        PersistOutcome::WouldPersist(v) => {
            assert_eq!(v.len(), 1);
            assert_eq!(v[0].desired_name, "eth0");
            assert_eq!(v[0].mac_address, "AA:BB");
        }
        _ => panic!("expected a dry-run report"),
    }
    assert!(folder.created.is_empty());
}

#[test]
fn automatic_addressing_is_excluded_from_save_and_inspect() {
    let ifaces = vec![eth("eth0", "AA:BB", false)];
    let mut folder = LinkFolder::new(vec![]);
    let r = run_persist_immediately(&mut folder, PersistAction::Save, &ifaces);
    assert!(matches!(r, PersistOutcome::Persisted(false)));
    let names: Vec<&str> = folder.created.iter().map(|f| f.name.as_str()).collect();
    assert_eq!(names, vec![".nmstate-persist.stamp"]);
    let rep = inspect(&folder, &ifaces);
    assert!(rep.stamp_present);
    assert!(rep.candidates.is_empty());
}

#[test]
fn inspect_reports_binding_files_and_candidates() {
    let folder = LinkFolder::new(vec![
        ".nmstate-persist.stamp".to_string(),
        "98-nmstate-eth0.link".to_string(),
        "99-default.link".to_string(),
        "98-nmstate-eth1.network".to_string(),
        "98-nmstate-eth2.link".to_string(),
    ]);
    let ifaces = vec![eth("eth0", "AA:BB", true), eth("eth1", "CC:DD", false)];
    let rep = inspect(&folder, &ifaces);
    assert!(rep.stamp_present);
    assert_eq!(rep.persisted_files, vec!["98-nmstate-eth0.link", "98-nmstate-eth2.link"]);
    assert_eq!(rep.candidates.len(), 1);
    assert_eq!(rep.candidates[0].desired_name, "eth0");
}

#[test]
fn inspect_without_stamp_reports_nothing() {
    let folder = LinkFolder::new(vec!["98-nmstate-eth0.link".to_string()]);
    let rep = inspect(&folder, &vec![eth("eth0", "AA:BB", true)]);
    assert!(!rep.stamp_present);
    assert!(rep.persisted_files.is_empty());
    assert!(rep.candidates.is_empty());
}

#[test]
fn snapshot_needed_only_when_the_pass_proceeds() {
    let empty = LinkFolder::new(vec![]);
    let stamped = LinkFolder::new(vec![".nmstate-persist.stamp".to_string()]);
    assert!(needs_snapshot(&empty, PersistAction::Save));
    assert!(needs_snapshot(&empty, PersistAction::DryRun));
    assert!(!needs_snapshot(&empty, PersistAction::Inspect));
    assert!(!needs_snapshot(&stamped, PersistAction::Save));
    assert!(needs_snapshot(&stamped, PersistAction::Inspect));
}

#[test]
fn pin_pass_ignores_addressing_and_uses_its_own_stamp() {
    let ifaces = vec![eth("eth0", "AA:BB", false)];
    let mut folder = LinkFolder::new(vec![".nmstate-persist.stamp".to_string()]);
    assert!(pin_needs_snapshot(&folder));
    let r = ncl_pin_nic_names(&mut folder, false, &ifaces);
    assert!(matches!(r, PersistOutcome::Persisted(true)));
    let names: Vec<&str> = folder.created.iter().map(|f| f.name.as_str()).collect();
    assert_eq!(names, vec!["98-nmstate-eth0.link", ".nmstate-pinned.stamp"]);
    assert!(!pin_needs_snapshot(&folder));
    assert!(matches!(ncl_pin_nic_names(&mut folder, false, &ifaces), PersistOutcome::AlreadyDone));
}
