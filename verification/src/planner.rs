//! Model-fit planner: decides how a model file is split across local and
//! peer memory and computes the engine launch parameters.
//!
//! The planner is a pure computation over the model size in MB, the local
//! free memory and the list of peer free memories.  Reading the model file's
//! size is the caller's business; everything decided from it is here.

use vstd::prelude::*;
use vstd::string::*;

use crate::nums::{lemma_round_div_bounds, round_div, sum_u64, sum_vec_u64};
use crate::text::{dec_str, has_dot_dot, is_prefix, str_has_dot_dot, str_starts_with};
use crate::u64_to_string;

verus! {

/// How well a model fits into the available cluster memory.
#[derive(Debug, Clone, PartialEq, Eq, Structural)]
pub enum FitStatus {
    FitsLocally,
    FitsDistributed,
    PartialGpu,
    TooLarge,
}

/// Why the planner rejected its input.
#[derive(Debug, Clone, Copy, PartialEq, Eq, Structural)]
pub enum PlannerError {
    /// The model path is empty.
    EmptyPath,
    /// The model path is not absolute.
    NotAbsolute,
    /// The model path contains "..".
    PathTraversal,
    /// The model path does not end in ".gguf".
    BadExtension,
    /// The model path points into a protected system directory.
    ProtectedPath,
    /// The model file does not exist or is empty.
    NotFoundOrEmpty,
}

impl PlannerError {
    /// Message for the caller: a fixed string per reason, so the offending
    /// path is never echoed.
    pub fn message(&self) -> (r: &'static str)
        ensures
            r@ == match self {
                PlannerError::EmptyPath => "Model path cannot be empty"@,
                PlannerError::NotAbsolute => "Model path must be an absolute path"@,
                PlannerError::PathTraversal => "Model path must not contain '..'"@,
                PlannerError::BadExtension => "Model path must point to a .gguf file"@,
                PlannerError::ProtectedPath => "Model path is not in an allowed location"@,
                PlannerError::NotFoundOrEmpty => "Model file not found or is empty"@,
            },
    {
        match self {
            PlannerError::EmptyPath => "Model path cannot be empty",
            PlannerError::NotAbsolute => "Model path must be an absolute path",
            PlannerError::PathTraversal => "Model path must not contain '..'",
            PlannerError::BadExtension => "Model path must point to a .gguf file",
            PlannerError::ProtectedPath => "Model path is not in an allowed location",
            PlannerError::NotFoundOrEmpty => "Model file not found or is empty",
        }
    }
}

/// Analysis of how a model will run across local + cluster memory.
#[derive(Debug, Clone)]
pub struct ModelAnalysis {
    pub model_size_mb: u64,
    pub estimated_layers: u32,
    pub local_free_mb: u64,
    pub cluster_free_mb: u64,
    pub total_available_mb: u64,
    pub fit_status: FitStatus,
    /// Recommended GPU layer count for the engine.
    /// -1 means "all layers on GPU", 0 means "CPU only".
    pub recommended_n_gpu_layers: i32,
    pub recommended_ctx_size: u32,
    pub warnings: Vec<String>,
}

// ─── Model path validation ───────────────────────────────────────────────────

/// The path ends in the extension ".gguf", case-insensitively.
pub open spec fn ends_in_gguf(s: Seq<char>) -> bool {
    &&& s.len() >= 5
    &&& s[s.len() - 5] == '.'
    &&& (s[s.len() - 4] == 'g' || s[s.len() - 4] == 'G')
    &&& (s[s.len() - 3] == 'g' || s[s.len() - 3] == 'G')
    &&& (s[s.len() - 2] == 'u' || s[s.len() - 2] == 'U')
    &&& (s[s.len() - 1] == 'f' || s[s.len() - 1] == 'F')
}

/// The path begins with one of the protected system directories.
pub open spec fn has_protected_prefix(s: Seq<char>) -> bool {
    ||| is_prefix("/etc/"@, s)
    ||| is_prefix("/proc/"@, s)
    ||| is_prefix("/sys/"@, s)
    ||| is_prefix("/dev/"@, s)
    ||| is_prefix("/boot/"@, s)
    ||| is_prefix("/var/run/"@, s)
    ||| is_prefix("/run/"@, s)
    ||| is_prefix("/bin/"@, s)
    ||| is_prefix("/sbin/"@, s)
    ||| is_prefix("/usr/bin/"@, s)
    ||| is_prefix("/usr/sbin/"@, s)
}

/// A model path is safe to load: absolute, no traversal, a ".gguf" file,
/// and outside the protected system directories.
pub open spec fn valid_model_path(s: Seq<char>) -> bool {
    &&& s.len() > 0
    &&& s[0] == '/'
    &&& !has_dot_dot(s)
    &&& ends_in_gguf(s)
    &&& !has_protected_prefix(s)
}

/// Validate that a model path is safe to load:
/// - must not be empty,
/// - must be absolute,
/// - must not contain path traversal ("..")
/// - must end in ".gguf" (case-insensitive),
/// - must not point at protected system directories.
pub fn validate_model_path(path: &str) -> (r: Result<(), PlannerError>)
    ensures
        r is Ok <==> valid_model_path(path@),
        r == Err::<(), PlannerError>(PlannerError::EmptyPath) <==> path@.len() == 0,
        r == Err::<(), PlannerError>(PlannerError::NotAbsolute) <==> (path@.len() > 0 && path@[0]
            != '/'),
        r == Err::<(), PlannerError>(PlannerError::PathTraversal) <==> (path@.len() > 0 && path@[0]
            == '/' && has_dot_dot(path@)),
        r == Err::<(), PlannerError>(PlannerError::BadExtension) <==> (path@.len() > 0 && path@[0]
            == '/' && !has_dot_dot(path@) && !ends_in_gguf(path@)),
        r == Err::<(), PlannerError>(PlannerError::ProtectedPath) <==> (path@.len() > 0 && path@[0]
            == '/' && !has_dot_dot(path@) && ends_in_gguf(path@) && has_protected_prefix(path@)),
{
    let len = path.unicode_len();
    if len == 0 {
        return Err(PlannerError::EmptyPath);
    }
    if path.get_char(0) != '/' {
        return Err(PlannerError::NotAbsolute);
    }
    if str_has_dot_dot(path) {
        return Err(PlannerError::PathTraversal);
    }
    if len < 5 {
        return Err(PlannerError::BadExtension);
    }
    let c_dot = path.get_char(len - 5);
    let c_g1 = path.get_char(len - 4);
    let c_g2 = path.get_char(len - 3);
    let c_u = path.get_char(len - 2);
    let c_f = path.get_char(len - 1);
    if !(c_dot == '.' && (c_g1 == 'g' || c_g1 == 'G') && (c_g2 == 'g' || c_g2 == 'G') && (c_u == 'u'
        || c_u == 'U') && (c_f == 'f' || c_f == 'F')) {
        return Err(PlannerError::BadExtension);
    }
    if str_starts_with(path, "/etc/") || str_starts_with(path, "/proc/") || str_starts_with(
        path,
        "/sys/",
    ) || str_starts_with(path, "/dev/") || str_starts_with(path, "/boot/") || str_starts_with(
        path,
        "/var/run/",
    ) || str_starts_with(path, "/run/") || str_starts_with(path, "/bin/") || str_starts_with(
        path,
        "/sbin/",
    ) || str_starts_with(path, "/usr/bin/") || str_starts_with(path, "/usr/sbin/") {
        return Err(PlannerError::ProtectedPath);
    }
    Ok(())
}

// ─── Heuristics ──────────────────────────────────────────────────────────────

/// Layer-count estimate from the model file size in MB.
pub open spec fn spec_estimate_layers(model_size_mb: u64) -> u32 {
    if model_size_mb <= 2047 {
        22
    } else if model_size_mb <= 5119 {
        32
    } else if model_size_mb <= 9215 {
        40
    } else if model_size_mb <= 20479 {
        48
    } else if model_size_mb <= 40959 {
        64
    } else {
        80
    }
}

/// Estimate the engine layer count from the model file size (MB).
/// Approximate heuristics for common model families.
pub fn estimate_layers(model_size_mb: u64) -> (r: u32)
    ensures
        r == spec_estimate_layers(model_size_mb),
{
    if model_size_mb <= 2047 {
        22
    } else if model_size_mb <= 5119 {
        32
    } else if model_size_mb <= 9215 {
        40
    } else if model_size_mb <= 20479 {
        48
    } else if model_size_mb <= 40959 {
        64
    } else {
        80
    }
}

/// Context-size recommendation from the memory remaining after the model.
pub open spec fn spec_ctx_size(remaining_mb: int) -> u32 {
    if remaining_mb <= 1023 {
        2048
    } else if remaining_mb <= 2047 {
        4096
    } else if remaining_mb <= 4095 {
        8192
    } else {
        16384
    }
}

/// Memory usable after leaving 10% headroom.
pub open spec fn usable(mb: int) -> int {
    mb * 9 / 10
}

/// The fit verdict, decided in order over the usable local and total memory.
pub open spec fn spec_fit_status(size: int, local: int, cluster: int) -> FitStatus {
    if size <= usable(local) {
        FitStatus::FitsLocally
    } else if size <= usable(local + cluster) && cluster > 0 {
        FitStatus::FitsDistributed
    } else if size <= local + cluster {
        FitStatus::PartialGpu
    } else {
        FitStatus::TooLarge
    }
}

/// Recommended GPU layer count: -1 for all layers, 0 for CPU only,
/// otherwise the share of layers the local memory can hold.
pub open spec fn spec_gpu_layers(size: int, local: int, cluster: int, layers: int) -> int {
    match spec_fit_status(size, local, cluster) {
        FitStatus::FitsLocally => -1,
        FitStatus::FitsDistributed => round_div(layers * local, local + cluster),
        FitStatus::PartialGpu => if local >= size {
            layers
        } else {
            round_div(layers * local, size)
        },
        FitStatus::TooLarge => 0,
    }
}

/// The warning attached to a too-large verdict, reporting rounded-up GB.
pub open spec fn too_large_warning(size: int, total: int) -> Seq<char> {
    "Model needs ~"@ + dec_str(((size + 511) / 1024) as nat) + " GB but only "@ + dec_str(
        ((total + 511) / 1024) as nat,
    ) + " GB available across cluster"@
}

/// The warnings the analysis carries, by verdict.
pub open spec fn spec_warnings(size: int, local: int, cluster: int) -> Seq<Seq<char>> {
    match spec_fit_status(size, local, cluster) {
        FitStatus::PartialGpu => if cluster == 0 {
            seq!["Add cluster devices to offload layers and fit this model"@]
        } else {
            seq!["Model may not fit - very tight on memory"@]
        },
        FitStatus::TooLarge => seq![too_large_warning(size, local + cluster)],
        _ => Seq::empty(),
    }
}

/// The full analysis as a function of the inputs alone.
pub open spec fn analysis_matches(
    a: ModelAnalysis,
    size: u64,
    local: u64,
    peers: Seq<u64>,
) -> bool {
    let cluster = sum_u64(peers);
    &&& a.model_size_mb == size
    &&& a.estimated_layers == spec_estimate_layers(size)
    &&& a.local_free_mb == local
    &&& a.cluster_free_mb == cluster
    &&& a.total_available_mb == local + cluster
    &&& a.fit_status == spec_fit_status(size as int, local as int, cluster)
    &&& a.recommended_n_gpu_layers == spec_gpu_layers(
        size as int,
        local as int,
        cluster,
        spec_estimate_layers(size) as int,
    )
    &&& a.recommended_ctx_size == spec_ctx_size(local + cluster - size)
    &&& a.warnings@.map_values(|w: String| w@) == spec_warnings(size as int, local as int, cluster)
}

// ─── Analysis ────────────────────────────────────────────────────────────────

/// Floor of `mb * 9 / 10` without overflow.
fn usable_mb(mb: u64) -> (r: u64)
    ensures
        r == usable(mb as int),
{
    let wide: u128 = (mb as u128) * 9 / 10;
    proof {
        assert((mb as int) * 9 / 10 <= mb as int) by (nonlinear_arith);
        assert((mb as int) * 9 / 10 >= 0) by (nonlinear_arith);
    }
    wide as u64
}

/// Round-up conversion of MB to GB without overflow.
fn mb_to_gb_round_up(mb: u64) -> (r: u64)
    ensures
        r == (mb + 511) / 1024,
{
    let q = mb / 1024;
    let rem = mb % 1024;
    proof {
        assert(mb == 1024 * (mb as int / 1024) + mb as int % 1024);
        assert((mb + 511) / 1024 == mb as int / 1024 + (mb as int % 1024 + 511) / 1024)
            by (nonlinear_arith)
            requires
                mb >= 0,
        ;
    }
    q + (rem + 511) / 1024
}

/// Round-to-nearest of `layers * num / den`, for `num <= den` and `den >= 1`.
fn scale_layers(layers: u32, num: u64, den: u64) -> (r: i32)
    requires
        den >= 1,
        num <= den,
        layers <= 0x7fff_ffff,
    ensures
        r == round_div(layers as int * num as int, den as int),
        0 <= r <= layers,
{
    proof {
        assert(layers as int * num as int <= 0xffff_ffff * 0xffff_ffff_ffff_ffff)
            by (nonlinear_arith)
            requires
                layers <= 0xffff_ffffu32,
                num <= 0xffff_ffff_ffff_ffffu64,
        ;
    }
    let a: u128 = (layers as u128) * (num as u128);
    let b: u128 = den as u128;
    proof {
        assert(layers as int * num as int <= layers as int * den as int) by (nonlinear_arith)
            requires
                num <= den,
                layers >= 0,
        ;
        lemma_round_div_bounds(layers as int * num as int, den as int, layers as int);
    }
    let v: u128 = (2 * a + b) / (2 * b);
    v as i32
}

/// Analyse how well a model fits into local + cluster memory.
///
/// - `model_path`      – absolute path to the ".gguf" file,
/// - `model_size_mb`   – size of that file in MB, as read by the caller
///                       (0 when the file is missing or empty),
/// - `local_free_mb`   – free memory on this machine,
/// - `device_free_mbs` – free memory per approved cluster device.
///
/// The analysis is a pure function of these inputs.
pub fn analyze_model(
    model_path: &str,
    model_size_mb: u64,
    local_free_mb: u64,
    device_free_mbs: &Vec<u64>,
) -> (r: Result<ModelAnalysis, PlannerError>)
    requires
        local_free_mb + sum_u64(device_free_mbs@) <= u64::MAX,
    ensures
        r is Ok <==> (valid_model_path(model_path@) && model_size_mb > 0),
        r matches Ok(a) ==> analysis_matches(a, model_size_mb, local_free_mb, device_free_mbs@),
        r == Err::<ModelAnalysis, PlannerError>(PlannerError::NotFoundOrEmpty) <==> (
        valid_model_path(model_path@) && model_size_mb == 0),
        r matches Err(e) ==> (e != PlannerError::NotFoundOrEmpty ==> validate_spec_err(
            model_path@,
            e,
        )),
{
    if let Err(e) = validate_model_path(model_path) {
        return Err(e);
    }
    if model_size_mb == 0 {
        // The path is never echoed back: avoid path disclosure.
        return Err(PlannerError::NotFoundOrEmpty);
    }
    proof {
        crate::nums::lemma_sum_nonneg(device_free_mbs@);
    }
    let estimated_layers = estimate_layers(model_size_mb);
    let cluster_free_mb = sum_vec_u64(device_free_mbs);
    let total_available_mb = local_free_mb + cluster_free_mb;

    let mut warnings: Vec<String> = Vec::new();

    // Leave 10% headroom when computing "usable" memory.
    let usable_local = usable_mb(local_free_mb);
    let usable_total = usable_mb(total_available_mb);

    let ghost size = model_size_mb as int;
    let ghost local = local_free_mb as int;
    let ghost cluster = cluster_free_mb as int;

    let fit_status: FitStatus;
    let recommended_n_gpu_layers: i32;
    if model_size_mb <= usable_local {
        fit_status = FitStatus::FitsLocally;
        recommended_n_gpu_layers = -1;
    } else if model_size_mb <= usable_total && cluster_free_mb > 0 {
        fit_status = FitStatus::FitsDistributed;
        // The local machine handles a proportional fraction of the layers.
        recommended_n_gpu_layers = scale_layers(
            estimated_layers,
            local_free_mb,
            total_available_mb,
        );
    } else if model_size_mb <= total_available_mb {
        if cluster_free_mb == 0 {
            warnings.push(String::from_str("Add cluster devices to offload layers and fit this model"));
        } else {
            warnings.push(String::from_str("Model may not fit - very tight on memory"));
        }
        fit_status = FitStatus::PartialGpu;
        // Put as many layers as the local memory can hold.
        if local_free_mb >= model_size_mb {
            recommended_n_gpu_layers = estimated_layers as i32;
        } else {
            recommended_n_gpu_layers = scale_layers(estimated_layers, local_free_mb, model_size_mb);
        }
    } else {
        let needed_gb = mb_to_gb_round_up(model_size_mb);
        let avail_gb = mb_to_gb_round_up(total_available_mb);
        let mut w = String::from_str("Model needs ~");
        w.append(u64_to_string(needed_gb).as_str());
        w.append(" GB but only ");
        w.append(u64_to_string(avail_gb).as_str());
        w.append(" GB available across cluster");
        proof {
            assert(w@ =~= too_large_warning(size, local + cluster));
        }
        warnings.push(w);
        fit_status = FitStatus::TooLarge;
        recommended_n_gpu_layers = 0;
    }

    // Context size from the memory remaining once the model is resident.
    let remaining_mb = if total_available_mb >= model_size_mb {
        total_available_mb - model_size_mb
    } else {
        0
    };
    let recommended_ctx_size: u32 = if remaining_mb <= 1023 {
        2048
    } else if remaining_mb <= 2047 {
        4096
    } else if remaining_mb <= 4095 {
        8192
    } else {
        16384
    };

    proof {
        assert(warnings@.map_values(|w: String| w@) =~= spec_warnings(size, local, cluster));
    }

    Ok(
        ModelAnalysis {
            model_size_mb,
            estimated_layers,
            local_free_mb,
            cluster_free_mb,
            total_available_mb,
            fit_status,
            recommended_n_gpu_layers,
            recommended_ctx_size,
            warnings,
        },
    )
}

/// The error that `validate_model_path` owes on this input.
pub open spec fn validate_spec_err(s: Seq<char>, e: PlannerError) -> bool {
    match e {
        PlannerError::EmptyPath => s.len() == 0,
        PlannerError::NotAbsolute => s.len() > 0 && s[0] != '/',
        PlannerError::PathTraversal => s.len() > 0 && s[0] == '/' && has_dot_dot(s),
        PlannerError::BadExtension => s.len() > 0 && s[0] == '/' && !has_dot_dot(s)
            && !ends_in_gguf(s),
        PlannerError::ProtectedPath => s.len() > 0 && s[0] == '/' && !has_dot_dot(s) && ends_in_gguf(
            s,
        ) && has_protected_prefix(s),
        PlannerError::NotFoundOrEmpty => false,
    }
}

// ─── Stated laws ─────────────────────────────────────────────────────────────

/// The planner is pure: two analyses of the same inputs agree on every
/// field, the warning texts included.
pub proof fn lemma_planner_pure(
    a1: ModelAnalysis,
    a2: ModelAnalysis,
    size: u64,
    local: u64,
    peers: Seq<u64>,
)
    requires
        analysis_matches(a1, size, local, peers),
        analysis_matches(a2, size, local, peers),
    ensures
        a1.model_size_mb == a2.model_size_mb,
        a1.estimated_layers == a2.estimated_layers,
        a1.local_free_mb == a2.local_free_mb,
        a1.cluster_free_mb == a2.cluster_free_mb,
        a1.total_available_mb == a2.total_available_mb,
        a1.fit_status == a2.fit_status,
        a1.recommended_n_gpu_layers == a2.recommended_n_gpu_layers,
        a1.recommended_ctx_size == a2.recommended_ctx_size,
        a1.warnings@.map_values(|w: String| w@) == a2.warnings@.map_values(|w: String| w@),
{
}

/// The recommended GPU layer count is -1 or lies in [0, estimated layers].
pub proof fn lemma_gpu_layers_in_range(size: int, local: int, cluster: int, layers: int)
    requires
        size >= 1,
        local >= 0,
        cluster >= 0,
        layers >= 0,
    ensures
        spec_gpu_layers(size, local, cluster, layers) == -1 || (0 <= spec_gpu_layers(
            size,
            local,
            cluster,
            layers,
        ) <= layers),
{
    let st = spec_fit_status(size, local, cluster);
    if st == FitStatus::FitsDistributed {
        assert(layers * local <= layers * (local + cluster)) by (nonlinear_arith)
            requires
                layers >= 0,
                cluster >= 0,
        ;
        lemma_round_div_bounds(layers * local, local + cluster, layers);
    } else if st == FitStatus::PartialGpu {
        if local < size {
            assert(layers * local <= layers * size) by (nonlinear_arith)
                requires
                    layers >= 0,
                    local <= size,
            ;
            lemma_round_div_bounds(layers * local, size, layers);
        }
    }
}

/// A model that fits locally gets every layer on the local GPU.
pub proof fn lemma_fits_locally_all_layers(size: int, local: int, cluster: int, layers: int)
    requires
        spec_fit_status(size, local, cluster) == FitStatus::FitsLocally,
    ensures
        spec_gpu_layers(size, local, cluster, layers) == -1,
{
}

/// A model too large for the whole pool runs on the CPU, with a warning.
pub proof fn lemma_too_large_cpu_only(size: int, local: int, cluster: int, layers: int)
    requires
        spec_fit_status(size, local, cluster) == FitStatus::TooLarge,
    ensures
        spec_gpu_layers(size, local, cluster, layers) == 0,
        spec_warnings(size, local, cluster).len() > 0,
{
}

} // verus!
