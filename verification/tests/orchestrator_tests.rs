use shared_memory_backend::orchestrator::{
    device_probe_update, model_check, plan_start_inference, remote_memory_totals,
    split_device_ids, OrchestratorError,
};
use shared_memory_backend::planner::FitStatus;
use shared_memory_backend::registry::Registry;

fn registry_with_peers() -> Registry {
    let mut reg = Registry::new();
    for (id, ip, free) in [
        ("id-1", "192.168.1.10", 6000i64),
        ("id-2", "192.168.1.11", 6000),
        ("id-3", "192.168.1.12", 0),
    ] {
        let _ = reg.register_device(
            "peer".to_string(),
            ip.to_string(),
            None,
            "manual",
            id.to_string(),
            "2024-01-01T00:00:00+00:00".to_string(),
        );
        let _ = reg.approve_device(id, None).unwrap();
        reg.update_device_memory_stats(id, free + 2000, free);
    }
    reg
}

#[test]
fn start_plan_resolves_endpoints_in_request_order() {
    let reg = registry_with_peers();
    let endpoints = plan_start_inference(
        &reg,
        "/models/m.gguf",
        &vec!["id-2".to_string(), "id-1".to_string()],
    )
    .unwrap();
    assert_eq!(endpoints, vec!["192.168.1.11:8181".to_string(), "192.168.1.10:8181".to_string()]);
}

#[test]
fn start_plan_rejects_bad_input() {
    let reg = registry_with_peers();
    assert!(matches!(
        plan_start_inference(&reg, "./m.gguf", &vec![]),
        Err(OrchestratorError::InvalidModelPath { .. })
    ));
    let too_many: Vec<String> = (0..21).map(|i| format!("id-{i}")).collect();
    assert!(matches!(
        plan_start_inference(&reg, "/models/m.gguf", &too_many),
        Err(OrchestratorError::TooManyDevices)
    ));
    match plan_start_inference(&reg, "/models/m.gguf", &vec!["missing".to_string()]) {
        Err(OrchestratorError::DeviceNotFound { device_id }) => assert_eq!(device_id, "missing"),
        _ => panic!("expected a not-found error"),
    }
}

#[test]
fn device_id_lists_are_trimmed_and_filtered() {
    assert_eq!(
        split_device_ids(" a, b ,,c,  "),
        vec!["a".to_string(), "b".to_string(), "c".to_string()]
    );
    assert!(split_device_ids("").is_empty());
    assert!(split_device_ids(" , ,").is_empty());
    assert_eq!(split_device_ids("solo"), vec!["solo".to_string()]);
}

#[test]
fn model_check_pools_local_and_recorded_peer_memory() {
    let reg = registry_with_peers();
    // peers id-1 and id-2 contribute 6000 each; id-3 reports no free memory
    let a = model_check(
        &reg,
        "/models/m.gguf",
        &vec!["id-1".to_string(), "id-2".to_string(), "id-3".to_string()],
        4000,
        10_000,
    )
    .unwrap();
    assert_eq!(a.cluster_free_mb, 12_000);
    assert_eq!(a.total_available_mb, 16_000);
    assert_eq!(a.fit_status, FitStatus::FitsDistributed);
    assert_eq!(a.recommended_n_gpu_layers, 12);
}

#[test]
fn probe_updates_prefer_live_data() {
    let (status, total, free) = device_probe_update(true, "offline", Some((16000, 9000)), 1, 2);
    assert_eq!(status, "ready");
    assert_eq!((total, free), (16000, 9000));

    let (status, total, free) = device_probe_update(false, "error", None, 1, 2);
    assert_eq!(status, "error");
    assert_eq!((total, free), (1, 2));

    // a fetch that failed falls back to the last known values
    let (status, total, free) = device_probe_update(true, "offline", None, 1, 2);
    assert_eq!(status, "ready");
    assert_eq!((total, free), (1, 2));
}

#[test]
fn remote_memory_sums_provider_reports() {
    assert_eq!(remote_memory_totals(&vec![]), None);
    assert_eq!(remote_memory_totals(&vec![(0, 0)]), None);
    assert_eq!(
        remote_memory_totals(&vec![(16000, 9000), (8000, 1000)]),
        Some((24000, 10000))
    );
}
