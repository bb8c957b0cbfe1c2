use shared_memory_backend::events::{discovery_event, DiscoveredDevice, WsEvent};
use shared_memory_backend::memory::{
    aggregate_snapshot, attribute_allocations, detect_providers, extract_pages, parse_kb,
    sum_free, AppleProvider, GpuKind, MemorySnapshot, NvidiaProvider, Provider,
    SystemRamProvider,
};

fn snapshot(id: &str, total: u64, used: u64) -> MemorySnapshot {
    MemorySnapshot {
        provider_id: id.to_string(),
        name: id.to_string(),
        kind: GpuKind::SystemRam,
        total_mb: total,
        used_mb: used,
        free_mb: total.saturating_sub(used),
        allocated_mb: 0,
    }
}

#[test]
fn aggregation_reads_each_provider() {
    let providers = vec![
        Provider::Nvidia(NvidiaProvider {
            name: "RTX".to_string(),
            total_mb: 8192,
            used_mb: 1000,
        }),
        Provider::SystemRam(SystemRamProvider { total_mb: 16384, used_mb: 20000 }),
    ];
    let snaps = aggregate_snapshot(&providers);
    assert_eq!(snaps.len(), 2);
    assert_eq!(snaps[0].provider_id, "nvidia");
    assert_eq!(snaps[0].name, "RTX");
    assert_eq!(snaps[0].kind, GpuKind::Nvidia);
    assert_eq!(snaps[0].free_mb, 7192);
    assert_eq!(snaps[1].provider_id, "system_ram");
    assert_eq!(snaps[1].name, "System RAM");
    // a reading beyond the total floors free memory at zero
    assert_eq!(snaps[1].free_mb, 0);
    assert_eq!(sum_free(&snaps), 7192);
}

#[test]
fn attribution_is_proportional_with_the_residue_on_the_last() {
    let mut snaps = vec![snapshot("a", 3000, 0), snapshot("b", 1000, 0)];
    attribute_allocations(&mut snaps, 1000);
    // grand total 4000: provider a gets 1000*3000/4000 = 750, b absorbs 250
    assert_eq!(snaps[0].allocated_mb, 750);
    assert_eq!(snaps[1].allocated_mb, 250);
    assert!(snaps.iter().all(|s| s.allocated_mb <= s.total_mb));
}

#[test]
fn attribution_caps_each_provider_at_its_total() {
    let mut snaps = vec![snapshot("a", 100, 0), snapshot("b", 100, 0)];
    attribute_allocations(&mut snaps, 1000);
    assert_eq!(snaps[0].allocated_mb, 100);
    assert_eq!(snaps[1].allocated_mb, 100);
}

#[test]
fn attribution_without_allocations_changes_nothing() {
    let mut snaps = vec![snapshot("a", 100, 0)];
    attribute_allocations(&mut snaps, 0);
    assert_eq!(snaps[0].allocated_mb, 0);
    let mut empty: Vec<MemorySnapshot> = vec![];
    attribute_allocations(&mut empty, 50);
    assert!(empty.is_empty());
}

#[test]
fn kernel_memory_lines_parse() {
    assert_eq!(parse_kb("MemTotal:       16384256 kB"), 16384256);
    assert_eq!(parse_kb("MemAvailable:   8192 kB"), 8192);
    assert_eq!(parse_kb("garbage"), 0);
    assert_eq!(parse_kb("MemTotal: notanumber kB"), 0);
}

#[test]
fn statistics_page_lines_parse() {
    assert_eq!(extract_pages("Pages wired down:               123456."), 123456);
    assert_eq!(extract_pages("Pages active:  1,234,567."), 1234567);
    assert_eq!(extract_pages("no colon here"), 0);
    assert_eq!(extract_pages("Pages active: x12."), 0);
}

#[test]
fn provider_composition_orders_kinds_and_excludes_ram_on_apple_silicon() {
    let nvidia = NvidiaProvider { name: "RTX".to_string(), total_mb: 8192, used_mb: 0 };
    let ram = SystemRamProvider { total_mb: 16384, used_mb: 0 };
    let composed = detect_providers(Some(nvidia), None, None, None, ram);
    assert_eq!(composed.len(), 2);
    assert!(matches!(&composed[0], Provider::Nvidia(_)));
    assert!(matches!(&composed[1], Provider::SystemRam(_)));

    // Apple-Silicon unified memory already covers system RAM
    let apple = AppleProvider {
        name: "Apple Silicon Unified Memory".to_string(),
        total_mb: 32768,
        used_mb: 0,
    };
    let ram = SystemRamProvider { total_mb: 32768, used_mb: 0 };
    let composed = detect_providers(None, None, Some(apple), None, ram);
    assert_eq!(composed.len(), 1);
    assert!(matches!(&composed[0], Provider::Apple(_)));
}

#[test]
fn own_advertisements_are_skipped() {
    let own = DiscoveredDevice {
        name: "host".to_string(),
        ip: "192.168.1.5".to_string(),
        port: 8080,
        hostname: "host.local.".to_string(),
    };
    assert!(discovery_event("192.168.1.5", &own).is_none());
    let other = DiscoveredDevice { ip: "192.168.1.9".to_string(), ..own };
    match discovery_event("192.168.1.5", &other) {
        Some(WsEvent::DeviceDiscovered { ip, method, .. }) => {
            assert_eq!(ip, "192.168.1.9");
            assert_eq!(method, "mdns");
        },
        _ => panic!("expected a discovery event"),
    }
}
