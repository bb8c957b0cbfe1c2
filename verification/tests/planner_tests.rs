use shared_memory_backend::planner::{
    analyze_model, estimate_layers, validate_model_path, FitStatus, PlannerError,
};
use shared_memory_backend::u64_to_string;
use shared_memory_backend::text::i64_to_string;

#[test]
fn empty_path_is_rejected() {
    assert_eq!(validate_model_path(""), Err(PlannerError::EmptyPath));
}

#[test]
fn relative_path_is_rejected() {
    assert_eq!(validate_model_path("./model.gguf"), Err(PlannerError::NotAbsolute));
}

#[test]
fn traversal_is_rejected() {
    assert_eq!(
        validate_model_path("/home/u/../etc/model.gguf"),
        Err(PlannerError::PathTraversal)
    );
}

#[test]
fn protected_prefix_is_rejected() {
    assert_eq!(validate_model_path("/etc/passwd"), Err(PlannerError::BadExtension));
    assert_eq!(validate_model_path("/etc/model.gguf"), Err(PlannerError::ProtectedPath));
    assert_eq!(validate_model_path("/usr/bin/model.gguf"), Err(PlannerError::ProtectedPath));
}

#[test]
fn uppercase_extension_is_valid() {
    assert_eq!(validate_model_path("/models/mini.GGUF"), Ok(()));
}

#[test]
fn wrong_extension_is_rejected() {
    assert_eq!(validate_model_path("/models/mini.bin"), Err(PlannerError::BadExtension));
}

#[test]
fn layer_estimate_table() {
    assert_eq!(estimate_layers(0), 22);
    assert_eq!(estimate_layers(2047), 22);
    assert_eq!(estimate_layers(2048), 32);
    assert_eq!(estimate_layers(5119), 32);
    assert_eq!(estimate_layers(5120), 40);
    assert_eq!(estimate_layers(9215), 40);
    assert_eq!(estimate_layers(9216), 48);
    assert_eq!(estimate_layers(20479), 48);
    assert_eq!(estimate_layers(20480), 64);
    assert_eq!(estimate_layers(40959), 64);
    assert_eq!(estimate_layers(40960), 80);
}

#[test]
fn fit_all_local() {
    let a = analyze_model("/models/m.gguf", 2500, 8000, &vec![]).unwrap();
    assert_eq!(a.fit_status, FitStatus::FitsLocally);
    assert_eq!(a.estimated_layers, 32);
    assert_eq!(a.recommended_n_gpu_layers, -1);
    assert_eq!(a.recommended_ctx_size, 16384);
    assert!(a.warnings.is_empty());
    assert_eq!(a.model_size_mb, 2500);
    assert_eq!(a.local_free_mb, 8000);
    assert_eq!(a.cluster_free_mb, 0);
    assert_eq!(a.total_available_mb, 8000);
}

#[test]
fn fit_distributed() {
    let a = analyze_model("/models/m.gguf", 10_000, 4000, &vec![6000, 6000]).unwrap();
    assert_eq!(a.cluster_free_mb, 12_000);
    assert_eq!(a.total_available_mb, 16_000);
    assert_eq!(a.fit_status, FitStatus::FitsDistributed);
    assert_eq!(a.estimated_layers, 48);
    // round(48 * 4000 / 16000) = 12
    assert_eq!(a.recommended_n_gpu_layers, 12);
    // 6000 MB remain after the model: the context table gives its top tier
    assert_eq!(a.recommended_ctx_size, 16384);
    assert!(a.warnings.is_empty());
}

#[test]
fn fit_too_large() {
    let a = analyze_model("/models/m.gguf", 90_000, 8000, &vec![8000]).unwrap();
    assert_eq!(a.fit_status, FitStatus::TooLarge);
    assert_eq!(a.recommended_n_gpu_layers, 0);
    assert_eq!(a.recommended_ctx_size, 2048);
    assert_eq!(a.warnings.len(), 1);
    assert_eq!(
        a.warnings[0],
        "Model needs ~88 GB but only 16 GB available across cluster"
    );
}

#[test]
fn fit_partial_gpu_without_peers_warns_to_add_devices() {
    // usable_local = 7200 < 8000 <= total 8000, no cluster
    let a = analyze_model("/models/m.gguf", 8000, 8000, &vec![]).unwrap();
    assert_eq!(a.fit_status, FitStatus::PartialGpu);
    assert_eq!(a.warnings.len(), 1);
    assert_eq!(
        a.warnings[0],
        "Add cluster devices to offload layers and fit this model"
    );
    // local >= size, so every layer fits locally in the partial plan
    assert_eq!(a.recommended_n_gpu_layers, a.estimated_layers as i32);
}

#[test]
fn fit_partial_gpu_with_peers_warns_tight() {
    // size 9800: usable_local = 4500, usable_total = 9000 < 9800 <= 10000
    let a = analyze_model("/models/m.gguf", 9800, 5000, &vec![5000]).unwrap();
    assert_eq!(a.fit_status, FitStatus::PartialGpu);
    assert_eq!(a.warnings.len(), 1);
    assert_eq!(a.warnings[0], "Model may not fit - very tight on memory");
    // round(48 * 5000 / 9800) = round(24.49) = 24
    assert_eq!(a.estimated_layers, 48);
    assert_eq!(a.recommended_n_gpu_layers, 24);
}

#[test]
fn missing_or_empty_model_file() {
    assert_eq!(
        analyze_model("/models/m.gguf", 0, 8000, &vec![]).err().unwrap(),
        PlannerError::NotFoundOrEmpty
    );
}

#[test]
fn invalid_path_beats_size_check() {
    assert_eq!(
        analyze_model("", 0, 8000, &vec![]).err().unwrap(),
        PlannerError::EmptyPath
    );
}

#[test]
fn ctx_size_boundaries() {
    // remaining = total - size
    let cases = [
        (1023u64, 2048u32),
        (1024, 4096),
        (2047, 4096),
        (2048, 8192),
        (4095, 8192),
        (4096, 16384),
    ];
    for (remaining, ctx) in cases {
        // size 50000 forces a too-large verdict but the ctx rule still applies
        let size = 50_000u64;
        let a = analyze_model("/models/m.gguf", size, size + remaining, &vec![]).unwrap();
        assert_eq!(a.recommended_ctx_size, ctx, "remaining={remaining}");
    }
}

#[test]
fn error_messages_never_echo_the_path() {
    assert_eq!(PlannerError::EmptyPath.message(), "Model path cannot be empty");
    assert_eq!(PlannerError::NotAbsolute.message(), "Model path must be an absolute path");
    assert_eq!(PlannerError::PathTraversal.message(), "Model path must not contain '..'");
    assert_eq!(PlannerError::BadExtension.message(), "Model path must point to a .gguf file");
    assert_eq!(PlannerError::ProtectedPath.message(), "Model path is not in an allowed location");
    assert_eq!(PlannerError::NotFoundOrEmpty.message(), "Model file not found or is empty");
}

#[test]
fn decimal_formatting() {
    assert_eq!(u64_to_string(0), "0");
    assert_eq!(u64_to_string(8181), "8181");
    assert_eq!(u64_to_string(u64::MAX), format!("{}", u64::MAX));
    assert_eq!(i64_to_string(-42), "-42");
    assert_eq!(i64_to_string(i64::MIN), format!("{}", i64::MIN));
    assert_eq!(i64_to_string(7), "7");
}
