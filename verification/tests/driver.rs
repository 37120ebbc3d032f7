use zen_render_mesh::config::MeshletBackend;
use zen_render_mesh::driver::{
    keys_equal, MeshletDriverBlacklist, MeshletDriverBlacklistEntry, MeshletDriverKey,
};

#[test]
fn driver_stable_id_is_unambiguous_when_driver_strings_contain_separators() {
    let first = MeshletDriverKey {
        vendor: 1,
        device: 2,
        driver: "alpha:beta".into(),
        driver_info: "gamma".into(),
    };
    let second = MeshletDriverKey {
        vendor: 1,
        device: 2,
        driver: "alpha".into(),
        driver_info: "beta:gamma".into(),
    };
    assert_ne!(first, second);
    assert!(!keys_equal(&first, &second));
    assert_ne!(first.stable_id(), second.stable_id());
}

#[test]
fn stable_id_spells_vendor_device_and_length_prefixed_strings() {
    let key = MeshletDriverKey {
        vendor: 0x10de,
        device: 0x2684,
        driver: "NVIDIA".into(),
        driver_info: "550.1".into(),
    };
    assert_eq!(key.stable_id(), "000010de:00002684:6:NVIDIA:5:550.1");
}

#[test]
fn blacklist_reports_the_first_matching_reason() {
    let key = MeshletDriverKey {
        vendor: 1,
        device: 2,
        driver: "d".into(),
        driver_info: "i".into(),
    };
    let empty = MeshletDriverBlacklist::default();
    assert_eq!(empty.reason_for(&key, MeshletBackend::TaskMesh), None);
    let list = MeshletDriverBlacklist {
        entries: vec![
            MeshletDriverBlacklistEntry {
                key: key.clone(),
                backend: MeshletBackend::MeshOnly,
                reason: "mesh hang".into(),
            },
            MeshletDriverBlacklistEntry {
                key: key.clone(),
                backend: MeshletBackend::TaskMesh,
                reason: "first".into(),
            },
            MeshletDriverBlacklistEntry {
                key: key.clone(),
                backend: MeshletBackend::TaskMesh,
                reason: "second".into(),
            },
        ],
    };
    assert_eq!(list.reason_for(&key, MeshletBackend::TaskMesh), Some("first"));
    assert_eq!(list.reason_for(&key, MeshletBackend::MeshOnly), Some("mesh hang"));
    assert_eq!(list.reason_for(&key, MeshletBackend::IndexedIndirect), None);
}
