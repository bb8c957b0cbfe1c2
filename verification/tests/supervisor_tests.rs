use shared_memory_backend::events::WsEvent;
use shared_memory_backend::supervisor::{
    build_inference_args, LlamaCppManager, SpawnOutcome, SupervisorError,
};

#[test]
fn fresh_supervisor_defaults() {
    let m = LlamaCppManager::new();
    assert_eq!(m.rpc_port, 8181);
    assert_eq!(m.inference_port, 8282);
    assert!(!m.rpc_running);
    assert!(!m.inference_running);
    assert!(m.current_session.is_none());
}

#[test]
fn agent_start_succeeds_only_when_the_child_survives() {
    let mut m = LlamaCppManager::new();
    assert_eq!(m.begin_start_rpc_server(false), Err(SupervisorError::BinaryNotFound));
    assert_eq!(m.begin_start_rpc_server(true), Ok(true));

    // the child died within the grace period: immediate-exit, no ready event
    let r = m.finish_start_rpc_server(SpawnOutcome::ExitedEarly { exit_code: Some(1) });
    assert!(matches!(r, Err(SupervisorError::ImmediateExit { exit_code: Some(1) })));
    assert!(!m.rpc_running);

    // the child survived: success and exactly one ready event
    let events = m.finish_start_rpc_server(SpawnOutcome::Alive).unwrap();
    assert!(m.rpc_running);
    assert_eq!(events.len(), 1);
    assert!(matches!(&events[0], WsEvent::RpcServerReady { port: 8181 }));

    // already running: starting again is a no-op
    assert_eq!(m.begin_start_rpc_server(true), Ok(false));
}

#[test]
fn agent_stop_reports_offline_once() {
    let mut m = LlamaCppManager::new();
    let _ = m.finish_start_rpc_server(SpawnOutcome::Alive).unwrap();
    let events = m.stop_rpc_server();
    assert_eq!(events.len(), 1);
    assert!(matches!(&events[0], WsEvent::RpcServerOffline));
    assert!(m.stop_rpc_server().is_empty());
}

#[test]
fn engine_start_records_a_session_and_engine_runs_iff_session_exists() {
    let mut m = LlamaCppManager::new();
    assert!(m.inference_running == m.current_session.is_some());

    let stopped = m.begin_start_inference("/models/m.gguf", true).unwrap();
    assert!(stopped.is_empty());

    let (session, events) = m
        .finish_start_inference(
            "/models/m.gguf",
            vec!["192.168.1.10:8181".to_string()],
            "session-1".to_string(),
            "2024-01-01T00:00:00+00:00".to_string(),
            true,
        )
        .unwrap();
    assert_eq!(session.id, "session-1");
    assert_eq!(session.model_path, "/models/m.gguf");
    assert_eq!(session.status, "starting");
    assert_eq!(session.rpc_devices, vec!["192.168.1.10:8181".to_string()]);
    assert!(m.inference_running && m.current_session.is_some());
    assert_eq!(events.len(), 1);
    assert!(matches!(
        &events[0],
        WsEvent::InferenceStarted { session_id, .. } if session_id == "session-1"
    ));

    // starting anew first stops the old session
    let stopped = m.begin_start_inference("/models/other.gguf", true).unwrap();
    assert_eq!(stopped.len(), 1);
    assert!(matches!(
        &stopped[0],
        WsEvent::InferenceStopped { session_id } if session_id == "session-1"
    ));
    assert!(!m.inference_running && m.current_session.is_none());
}

#[test]
fn engine_start_validates_path_and_binary() {
    let mut m = LlamaCppManager::new();
    assert!(matches!(
        m.begin_start_inference("./model.gguf", true),
        Err(SupervisorError::InvalidModelPath { .. })
    ));
    assert!(matches!(
        m.begin_start_inference("/models/m.gguf", false),
        Err(SupervisorError::BinaryNotFound)
    ));
    let mut m2 = LlamaCppManager::new();
    assert_eq!(
        m2.finish_start_inference(
            "/models/m.gguf",
            vec![],
            "session-1".to_string(),
            "t".to_string(),
            false,
        )
        .err()
        .unwrap(),
        SupervisorError::SpawnFailed
    );
}

#[test]
fn reaping_clears_state_and_emits_offline_events() {
    let mut m = LlamaCppManager::new();
    let _ = m.finish_start_rpc_server(SpawnOutcome::Alive).unwrap();
    let _ = m.begin_start_inference("/models/m.gguf", true).unwrap();
    let _ = m
        .finish_start_inference(
            "/models/m.gguf",
            vec![],
            "session-1".to_string(),
            "t".to_string(),
            true,
        )
        .unwrap();

    let events = m.reap(true, true);
    assert!(!m.rpc_running && !m.inference_running && m.current_session.is_none());
    assert_eq!(events.len(), 2);
    assert!(matches!(&events[0], WsEvent::RpcServerOffline));
    assert!(matches!(
        &events[1],
        WsEvent::InferenceStopped { session_id } if session_id == "session-1"
    ));

    // nothing running: reaping is quiet
    assert!(m.reap(true, true).is_empty());
}

#[test]
fn status_reflects_the_post_reap_view() {
    let mut m = LlamaCppManager::new();
    let _ = m.finish_start_rpc_server(SpawnOutcome::Alive).unwrap();
    let (status, events) = m.get_status(true, false, true, false);
    assert!(!status.rpc_server_running);
    assert!(!status.inference_running);
    assert!(status.rpc_server_bin);
    assert!(!status.inference_server_bin);
    assert_eq!(status.rpc_port, 8181);
    assert_eq!(status.inference_port, 8282);
    assert_eq!(events.len(), 1);
    assert!(matches!(&events[0], WsEvent::RpcServerOffline));
}

#[test]
fn engine_base_url_uses_the_engine_port() {
    let m = LlamaCppManager::new();
    assert_eq!(m.inference_base_url(), "http://127.0.0.1:8282");
}

#[test]
fn engine_arguments_map_the_gpu_layer_sentinel() {
    let all = build_inference_args("/m/a.gguf", 8282, 4096, -1, &vec![]);
    assert_eq!(
        all,
        vec![
            "-m", "/m/a.gguf", "--port", "8282", "--host", "0.0.0.0", "--ctx-size", "4096",
            "--n-gpu-layers", "999",
        ]
        .into_iter()
        .map(String::from)
        .collect::<Vec<_>>()
    );

    let cpu_only = build_inference_args("/m/a.gguf", 8282, 2048, 0, &vec![]);
    assert!(!cpu_only.iter().any(|a| a == "--n-gpu-layers"));

    let some = build_inference_args(
        "/m/a.gguf",
        8282,
        2048,
        12,
        &vec!["10.0.0.1:8181".to_string(), "10.0.0.2:8181".to_string()],
    );
    assert!(some.windows(2).any(|w| w[0] == "--n-gpu-layers" && w[1] == "12"));
    assert!(some
        .windows(2)
        .any(|w| w[0] == "--rpc" && w[1] == "10.0.0.1:8181,10.0.0.2:8181"));
}

#[test]
fn agent_arguments_bind_every_interface() {
    let m = LlamaCppManager::new();
    assert_eq!(
        m.start_rpc_args(),
        vec!["--host", "0.0.0.0", "--port", "8181"]
            .into_iter()
            .map(String::from)
            .collect::<Vec<_>>()
    );
}
