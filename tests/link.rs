use nmstatectl::link::{link_file_content, link_file_name, persist_iface_name_via_systemd_link, LinkFolder};

#[test]
fn binding_file_name_and_content() {
    assert_eq!(link_file_name("eth0"), "98-nmstate-eth0.link");
    assert_eq!(
        link_file_content("00:11:22:33:44:55", "eth0"),
        "# Generated by nmstate\n[Match]\nMACAddress=00:11:22:33:44:55\n\n[Link]\nName=eth0\n"
    );
}

#[test]
fn binding_file_never_overwritten() {
    let mut folder = LinkFolder::new(vec![]);
    assert!(persist_iface_name_via_systemd_link(&mut folder, "AA:BB", "eth0"));
    assert!(!persist_iface_name_via_systemd_link(&mut folder, "CC:DD", "eth0"));
    assert_eq!(folder.created.len(), 1);
    assert_eq!(
        folder.created[0].content,
        "# Generated by nmstate\n[Match]\nMACAddress=AA:BB\n\n[Link]\nName=eth0\n"
    );
}

#[test]
fn existing_binding_file_on_disk_is_kept() {
    let mut folder = LinkFolder::new(vec!["98-nmstate-eth0.link".to_string()]);
    assert!(!persist_iface_name_via_systemd_link(&mut folder, "AA:BB", "eth0"));
    assert!(folder.created.is_empty());
    assert_eq!(folder.names.len(), 1);
}
