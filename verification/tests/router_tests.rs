use shared_memory_backend::registry::Registry;
use shared_memory_backend::router::{
    empty_models_body, get_backend_config, plan_backend_models_fetch, route_chat_completions,
    route_models, set_backend_config, BackendConfig, ChatRoute, ModelsRoute, RouterError,
};

#[test]
fn local_backend_with_engine_down_returns_unavailable() {
    let r = route_chat_completions("llamacpp", false, 8282, "", None);
    match r {
        ChatRoute::Unavailable { status, .. } => assert_eq!(status, 503),
        _ => panic!("expected an unavailable route"),
    }
    // the model list stays friendly instead
    assert!(matches!(
        route_models("llamacpp", false, 8282, "", None),
        ModelsRoute::EmptyList
    ));
    assert_eq!(empty_models_body(), "{\"object\":\"list\",\"data\":[]}");
}

#[test]
fn local_backend_with_engine_up_proxies_to_the_engine() {
    match route_chat_completions("llamacpp", true, 8282, "", None) {
        ChatRoute::Proxy { url, bearer } => {
            assert_eq!(url, "http://127.0.0.1:8282/v1/chat/completions");
            assert_eq!(bearer, None);
        },
        _ => panic!("expected a proxy route"),
    }
    match route_models("llamacpp", true, 8282, "", None) {
        ModelsRoute::Proxy { url, .. } => assert_eq!(url, "http://127.0.0.1:8282/v1/models"),
        _ => panic!("expected a proxy route"),
    }
}

#[test]
fn external_backend_requires_a_url() {
    assert!(matches!(
        route_chat_completions("openai", true, 8282, "", None),
        ChatRoute::Unavailable { status: 503, .. }
    ));
    assert!(matches!(
        route_models("openai", true, 8282, "", None),
        ModelsRoute::EmptyList
    ));
}

#[test]
fn external_backend_trims_slashes_and_filters_the_key() {
    match route_chat_completions(
        "openai",
        false,
        8282,
        "https://api.example.com///",
        Some("backend-key-1".to_string()),
    ) {
        ChatRoute::Proxy { url, bearer } => {
            assert_eq!(url, "https://api.example.com/v1/chat/completions");
            assert_eq!(bearer.as_deref(), Some("backend-key-1"));
        },
        _ => panic!("expected a proxy route"),
    }
    match route_chat_completions("openai", false, 8282, "https://api.example.com", Some(String::new()))
    {
        ChatRoute::Proxy { bearer, .. } => assert_eq!(bearer, None),
        _ => panic!("expected a proxy route"),
    }
}

#[test]
fn models_fetch_plan_validates_the_url() {
    assert_eq!(
        plan_backend_models_fetch("openai", "   ", None).err().unwrap(),
        RouterError::UrlRequired
    );
    assert_eq!(
        plan_backend_models_fetch("openai", "ftp://host", None).err().unwrap(),
        RouterError::BadScheme
    );
    let t = plan_backend_models_fetch("ollama", " http://host:11434/ ", None).unwrap();
    assert!(t.ollama_shape);
    assert_eq!(t.url, "http://host:11434/api/tags");
    assert_eq!(t.bearer, None);
    let t = plan_backend_models_fetch("vllm", "http://host:8000", Some("k".to_string())).unwrap();
    assert!(!t.ollama_shape);
    assert_eq!(t.url, "http://host:8000/v1/models");
    assert_eq!(t.bearer.as_deref(), Some("k"));
}

#[test]
fn backend_config_never_echoes_the_key() {
    let mut reg = Registry::new();
    set_backend_config(
        &mut reg,
        BackendConfig {
            backend_type: "openai".to_string(),
            url: "https://api.example.com".to_string(),
            model: "gpt-x".to_string(),
            api_key: Some("backend-key-1".to_string()),
            api_key_set: None,
        },
    );
    let cfg = get_backend_config(&reg);
    assert_eq!(cfg.backend_type, "openai");
    assert_eq!(cfg.url, "https://api.example.com");
    assert_eq!(cfg.model, "gpt-x");
    assert_eq!(cfg.api_key, None);
    assert_eq!(cfg.api_key_set, Some(true));

    // the masking placeholder and the empty string keep the stored key
    set_backend_config(
        &mut reg,
        BackendConfig {
            backend_type: "openai".to_string(),
            url: "https://api.example.com".to_string(),
            model: "gpt-x".to_string(),
            api_key: Some("****".to_string()),
            api_key_set: None,
        },
    );
    assert_eq!(reg.get_setting("backend_api_key").as_deref(), Some("backend-key-1"));
    set_backend_config(
        &mut reg,
        BackendConfig {
            backend_type: "openai".to_string(),
            url: "https://api.example.com".to_string(),
            model: "gpt-x".to_string(),
            api_key: Some(String::new()),
            api_key_set: None,
        },
    );
    assert_eq!(reg.get_setting("backend_api_key").as_deref(), Some("backend-key-1"));
}

#[test]
fn default_backend_config_is_the_local_engine() {
    let cfg = BackendConfig::default();
    assert_eq!(cfg.backend_type, "llamacpp");
    assert_eq!(cfg.url, "");
    assert_eq!(cfg.model, "");
    assert_eq!(cfg.api_key, None);
    assert_eq!(cfg.api_key_set, Some(false));
    // an unconfigured registry reads back the same defaults
    let reg = Registry::new();
    let read = get_backend_config(&reg);
    assert_eq!(read.backend_type, "llamacpp");
    assert_eq!(read.api_key_set, Some(false));
}
