use shared_memory_backend::events::WsEvent;
use shared_memory_backend::registry::{DeviceStatus, Registry, RegistryError, Role};

fn fresh_registry() -> Registry {
    Registry::new()
}

fn guest_role(max_memory_mb: i64) -> Role {
    Role {
        id: "role-guest".to_string(),
        name: "Guest".to_string(),
        max_memory_mb,
        can_pull_models: false,
        trust_level: 1,
        created_at: "2024-01-01T00:00:00+00:00".to_string(),
    }
}

#[test]
fn register_new_device_is_pending_and_announced() {
    let mut reg = fresh_registry();
    let (device, events) = reg.register_device(
        "laptop".to_string(),
        "192.168.1.10".to_string(),
        None,
        "mdns",
        "id-1".to_string(),
        "2024-01-01T00:00:00+00:00".to_string(),
    );
    assert_eq!(device.id, "id-1");
    assert_eq!(device.status, "pending");
    assert_eq!(device.role_id, None);
    assert_eq!(device.allocated_memory_mb, 0);
    assert_eq!(device.rpc_port, 8181);
    assert_eq!(events.len(), 1);
    assert!(matches!(
        &events[0],
        WsEvent::DevicePendingApproval { device_id, .. } if device_id == "id-1"
    ));
}

#[test]
fn register_twice_returns_same_device_without_new_events() {
    let mut reg = fresh_registry();
    let (first, _) = reg.register_device(
        "laptop".to_string(),
        "192.168.1.10".to_string(),
        None,
        "mdns",
        "id-1".to_string(),
        "2024-01-01T00:00:00+00:00".to_string(),
    );
    let (second, events) = reg.register_device(
        "laptop-again".to_string(),
        "192.168.1.10".to_string(),
        None,
        "mdns",
        "id-2".to_string(),
        "2024-01-01T00:00:05+00:00".to_string(),
    );
    assert_eq!(second.id, first.id);
    assert!(events.is_empty());
    // last-seen strictly increases with the later timestamp
    assert_eq!(second.last_seen.as_deref(), Some("2024-01-01T00:00:05+00:00"));
    assert!(second.last_seen.as_deref().unwrap() > first.last_seen.as_deref().unwrap());
    assert_eq!(reg.list_devices().len(), 1);
}

#[test]
fn trusted_network_auto_approves_with_default_role() {
    let mut reg = fresh_registry();
    reg.set_setting("trust_local_network", "true");
    reg.set_setting("default_role", "role-user");
    let (device, events) = reg.register_device(
        "laptop".to_string(),
        "192.168.1.11".to_string(),
        None,
        "mdns",
        "id-1".to_string(),
        "2024-01-01T00:00:00+00:00".to_string(),
    );
    assert_eq!(device.status, "approved");
    assert_eq!(device.role_id.as_deref(), Some("role-user"));
    assert_eq!(events.len(), 1);
    assert!(matches!(&events[0], WsEvent::DeviceApproved { .. }));
}

#[test]
fn approve_then_deny_ends_denied_with_one_event_each() {
    let mut reg = fresh_registry();
    let _ = reg.register_device(
        "laptop".to_string(),
        "192.168.1.10".to_string(),
        None,
        "manual",
        "id-1".to_string(),
        "2024-01-01T00:00:00+00:00".to_string(),
    );
    let (approved, approve_events) = reg.approve_device("id-1", None).unwrap();
    assert_eq!(approved.status, "approved");
    assert_eq!(approved.role_id.as_deref(), Some("role-guest"));
    assert_eq!(approve_events.len(), 1);
    assert!(matches!(&approve_events[0], WsEvent::DeviceApproved { .. }));

    let deny_events = reg.deny_device("id-1");
    assert_eq!(deny_events.len(), 1);
    assert!(matches!(
        &deny_events[0],
        WsEvent::DeviceDenied { device_id } if device_id == "id-1"
    ));
    assert_eq!(reg.get_device("id-1").unwrap().status, "denied");
}

#[test]
fn approve_unknown_device_is_not_found() {
    let mut reg = fresh_registry();
    assert!(matches!(reg.approve_device("nope", None), Err(RegistryError::NotFound)));
}

#[test]
fn allocation_over_role_cap_is_refused_and_leaves_no_trace() {
    let mut reg = fresh_registry();
    reg.upsert_role(guest_role(2048));
    let _ = reg.register_device(
        "laptop".to_string(),
        "192.168.1.10".to_string(),
        None,
        "manual",
        "id-1".to_string(),
        "2024-01-01T00:00:00+00:00".to_string(),
    );
    let _ = reg.approve_device("id-1", None).unwrap();

    let r = reg.allocate_memory(
        "id-1",
        3000,
        "alloc-1".to_string(),
        "2024-01-01T00:01:00+00:00".to_string(),
    );
    assert!(matches!(r, Err(RegistryError::QuotaExceeded)));
    let device = reg.get_device("id-1").unwrap();
    assert_eq!(device.allocated_memory_mb, 0);
    assert!(reg.allocations.is_empty());
}

#[test]
fn allocation_within_cap_updates_device_and_records() {
    let mut reg = fresh_registry();
    reg.upsert_role(guest_role(4096));
    let _ = reg.register_device(
        "laptop".to_string(),
        "192.168.1.10".to_string(),
        None,
        "manual",
        "id-1".to_string(),
        "2024-01-01T00:00:00+00:00".to_string(),
    );
    let _ = reg.approve_device("id-1", None).unwrap();

    let events = reg
        .allocate_memory(
            "id-1",
            1024,
            "alloc-1".to_string(),
            "2024-01-01T00:01:00+00:00".to_string(),
        )
        .unwrap();
    assert_eq!(events.len(), 1);
    assert!(matches!(
        &events[0],
        WsEvent::MemoryAllocated { device_id, memory_mb } if device_id == "id-1" && *memory_mb == 1024
    ));
    assert_eq!(reg.get_device("id-1").unwrap().allocated_memory_mb, 1024);
    assert_eq!(reg.allocations.len(), 1);
    assert_eq!(reg.allocations[0].provider, "system_ram");
    assert_eq!(reg.allocations[0].revoked_at, None);

    // a second grant replaces the first: the old record is revoked
    let _ = reg
        .allocate_memory(
            "id-1",
            2048,
            "alloc-2".to_string(),
            "2024-01-01T00:02:00+00:00".to_string(),
        )
        .unwrap();
    assert_eq!(reg.get_device("id-1").unwrap().allocated_memory_mb, 2048);
    assert_eq!(reg.allocations.len(), 2);
    assert_eq!(
        reg.allocations[0].revoked_at.as_deref(),
        Some("2024-01-01T00:02:00+00:00")
    );
    assert_eq!(reg.allocations[1].revoked_at, None);
    assert_eq!(reg.allocations[1].memory_mb, 2048);
}

#[test]
fn allocation_requires_approval() {
    let mut reg = fresh_registry();
    let _ = reg.register_device(
        "laptop".to_string(),
        "192.168.1.10".to_string(),
        None,
        "manual",
        "id-1".to_string(),
        "2024-01-01T00:00:00+00:00".to_string(),
    );
    let r = reg.allocate_memory(
        "id-1",
        100,
        "alloc-1".to_string(),
        "2024-01-01T00:01:00+00:00".to_string(),
    );
    assert!(matches!(r, Err(RegistryError::NotApproved)));
    let r2 = reg.allocate_memory(
        "missing",
        100,
        "alloc-2".to_string(),
        "2024-01-01T00:01:00+00:00".to_string(),
    );
    assert!(matches!(r2, Err(RegistryError::NotFound)));
}

#[test]
fn settings_allow_list_is_closed() {
    let mut reg = fresh_registry();
    assert!(reg.update_setting("backend_url", "http://host:1234").is_ok());
    assert!(reg.update_setting("default_role", "role-user").is_ok());
    assert!(matches!(
        reg.update_setting("shell", "/bin/sh"),
        Err(RegistryError::UnknownSettingKey)
    ));
    assert_eq!(reg.get_setting("backend_url").as_deref(), Some("http://host:1234"));
    assert_eq!(reg.get_setting("shell"), None);
}

#[test]
fn built_in_roles_are_seeded() {
    let reg = fresh_registry();
    assert_eq!(reg.list_roles().len(), 3);
    let admin = reg.get_role("role-admin").unwrap();
    assert_eq!(admin.name, "Admin");
    assert_eq!(admin.max_memory_mb, 1_048_576);
    assert!(admin.can_pull_models);
    assert_eq!(admin.trust_level, 100);
    let user = reg.get_role("role-user").unwrap();
    assert_eq!(user.max_memory_mb, 32_768);
    let guest = reg.get_role("role-guest").unwrap();
    assert_eq!(guest.max_memory_mb, 8192);
    assert!(!guest.can_pull_models);
    assert_eq!(guest.trust_level, 10);
}

#[test]
fn built_in_roles_cannot_be_deleted() {
    let mut reg = fresh_registry();
    assert!(matches!(reg.delete_role("role-guest"), Err(RegistryError::BuiltInRole)));
    assert!(matches!(reg.delete_role("role-admin"), Err(RegistryError::BuiltInRole)));
    assert!(matches!(reg.delete_role("role-user"), Err(RegistryError::BuiltInRole)));
    assert_eq!(reg.list_roles().len(), 3);
    assert!(reg.delete_role("role-custom").is_ok());
}

#[test]
fn upsert_role_update_keeps_creation_time() {
    let mut reg = fresh_registry();
    let custom = Role {
        id: "role-lab".to_string(),
        name: "Lab".to_string(),
        max_memory_mb: 2048,
        can_pull_models: true,
        trust_level: 5,
        created_at: "2024-01-01T00:00:00+00:00".to_string(),
    };
    reg.upsert_role(custom);
    let updated = Role {
        id: "role-lab".to_string(),
        name: "Lab".to_string(),
        max_memory_mb: 8192,
        can_pull_models: true,
        trust_level: 5,
        created_at: "2030-12-31T00:00:00+00:00".to_string(),
    };
    reg.upsert_role(updated);
    let stored = reg.get_role("role-lab").unwrap();
    assert_eq!(stored.max_memory_mb, 8192);
    assert_eq!(stored.created_at, "2024-01-01T00:00:00+00:00");
}

#[test]
fn allocation_fails_for_a_dangling_role() {
    let mut reg = fresh_registry();
    let _ = reg.register_device(
        "laptop".to_string(),
        "192.168.1.10".to_string(),
        None,
        "manual",
        "id-1".to_string(),
        "2024-01-01T00:00:00+00:00".to_string(),
    );
    let _ = reg.approve_device("id-1", Some("role-vanished")).unwrap();
    let r = reg.allocate_memory(
        "id-1",
        100,
        "alloc-1".to_string(),
        "2024-01-01T00:01:00+00:00".to_string(),
    );
    assert!(matches!(r, Err(RegistryError::NoRole)));
    assert_eq!(reg.get_device("id-1").unwrap().allocated_memory_mb, 0);
    assert!(reg.allocations.is_empty());
}

#[test]
fn allocation_fails_without_a_role() {
    // a role-less approved record, as an older store could hold it
    let mut reg = fresh_registry();
    let (device, _) = reg.register_device(
        "laptop".to_string(),
        "192.168.1.10".to_string(),
        None,
        "manual",
        "id-1".to_string(),
        "2024-01-01T00:00:00+00:00".to_string(),
    );
    assert_eq!(device.role_id, None);
    let mut stored = reg.devices.remove(0);
    stored.status = "approved".to_string();
    reg.devices.insert(0, stored);
    let r = reg.allocate_memory(
        "id-1",
        100,
        "alloc-1".to_string(),
        "2024-01-01T00:01:00+00:00".to_string(),
    );
    assert!(matches!(r, Err(RegistryError::NoRole)));
    assert!(reg.allocations.is_empty());
}

#[test]
fn delete_device_removes_the_record() {
    let mut reg = fresh_registry();
    let _ = reg.register_device(
        "laptop".to_string(),
        "192.168.1.10".to_string(),
        None,
        "manual",
        "id-1".to_string(),
        "2024-01-01T00:00:00+00:00".to_string(),
    );
    reg.delete_device("id-1");
    assert!(reg.get_device("id-1").is_none());
    assert!(reg.list_devices().is_empty());
}

#[test]
fn probe_results_are_persisted() {
    let mut reg = fresh_registry();
    let _ = reg.register_device(
        "laptop".to_string(),
        "192.168.1.10".to_string(),
        None,
        "manual",
        "id-1".to_string(),
        "2024-01-01T00:00:00+00:00".to_string(),
    );
    reg.update_device_rpc_status("id-1", "ready");
    reg.update_device_memory_stats("id-1", 16000, 9000);
    let d = reg.get_device("id-1").unwrap();
    assert_eq!(d.rpc_status, "ready");
    assert_eq!(d.memory_total_mb, 16000);
    assert_eq!(d.memory_free_mb, 9000);
}

#[test]
fn device_status_names() {
    assert_eq!(DeviceStatus::Pending.as_str(), "pending");
    assert_eq!(DeviceStatus::Approved.as_str(), "approved");
    assert_eq!(DeviceStatus::Denied.as_str(), "denied");
    assert_eq!(DeviceStatus::Suspended.as_str(), "suspended");
    assert_eq!(DeviceStatus::Offline.as_str(), "offline");
}

#[test]
fn register_discovered_draws_fresh_identity() {
    let mut reg = fresh_registry();
    let (device, events) = reg.register_discovered(
        "laptop".to_string(),
        "192.168.1.10".to_string(),
        Some("aa:bb:cc:dd:ee:ff".to_string()),
        "mdns",
    );
    assert_eq!(device.id.len(), 36);
    assert_eq!(device.status, "pending");
    assert_eq!(events.len(), 1);
    let (again, again_events) = reg.register_discovered(
        "laptop".to_string(),
        "192.168.1.10".to_string(),
        None,
        "mdns",
    );
    assert_eq!(again.id, device.id);
    assert!(again_events.is_empty());
}
