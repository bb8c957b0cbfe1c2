//! Cluster orchestrator: turns a start-inference request into the exact
//! peer endpoints and engine parameters, and assembles the inputs of a
//! model check.

use vstd::prelude::*;
use vstd::string::*;

use crate::nums::sum_u64;
use crate::planner::{analyze_model, analysis_matches, valid_model_path, validate_model_path, validate_spec_err, ModelAnalysis, PlannerError};
use crate::registry::Registry;
use crate::text::{first_comma, i64_to_string, int_str, str_trim, trim_spaces};

verus! {

/// Body of a start-inference request.
#[derive(Debug)]
pub struct StartInferenceRequest {
    pub model_path: String,
    /// Devices whose agents should be included.
    pub device_ids: Vec<String>,
    /// Layers to put on the GPU: -1 for all (the default), 0 for CPU only.
    pub n_gpu_layers: Option<i32>,
    /// Context window in tokens (default 4096).
    pub ctx_size: Option<u32>,
}

/// Query of a model check.
#[derive(Debug)]
pub struct ModelCheckParams {
    pub path: String,
    /// Comma-separated device identifiers to include in the memory pool.
    pub device_ids: Option<String>,
}

/// Why a start-inference request was refused before anything ran.
#[derive(Debug)]
pub enum OrchestratorError {
    /// The model path was rejected.
    InvalidModelPath { reason: PlannerError },
    /// More devices than the request cap allows.
    TooManyDevices,
    /// No device is stored under this identifier.
    DeviceNotFound { device_id: String },
}

/// At most this many peers may be named in one request.
pub const MAX_REQUEST_DEVICES: usize = 20;

/// The endpoint string of a device: its address and agent port.
pub open spec fn endpoint_of(ip: Seq<char>, rpc_port: int) -> Seq<char> {
    ip + ":"@ + int_str(rpc_port)
}

/// Resolve the peers of a start-inference request into endpoint strings.
///
/// The path must be valid, at most the request cap of devices may be named,
/// and every named device must be stored; the endpoints come back in
/// request order.
pub fn plan_start_inference(reg: &Registry, model_path: &str, device_ids: &Vec<String>) -> (r:
    Result<Vec<String>, OrchestratorError>)
    requires
        reg.wf(),
    ensures
        r matches Err(e) ==> match e {
            OrchestratorError::InvalidModelPath { reason } => validate_spec_err(
                model_path@,
                reason,
            ),
            OrchestratorError::TooManyDevices => valid_model_path(model_path@)
                && device_ids@.len() > MAX_REQUEST_DEVICES,
            OrchestratorError::DeviceNotFound { device_id } => valid_model_path(model_path@)
                && device_ids@.len() <= MAX_REQUEST_DEVICES && (exists|i: int|
                0 <= i < device_ids@.len() && (#[trigger] device_ids@[i])@ == device_id@)
                && !reg.has_device(device_id@),
        },
        r is Ok <==> (valid_model_path(model_path@) && device_ids@.len() <= MAX_REQUEST_DEVICES && (
        forall|i: int| 0 <= i < device_ids@.len() ==> reg.has_device((#[trigger] device_ids@[i])@))),
        r matches Ok(endpoints) ==> ({
            &&& endpoints@.len() == device_ids@.len()
            &&& forall|i: int|
                0 <= i < device_ids@.len() ==> (#[trigger] endpoints@[i])@ == endpoint_of(
                    reg.device_at(device_ids@[i]@).ip@,
                    reg.device_at(device_ids@[i]@).rpc_port as int,
                )
        }),
{
    if let Err(e) = validate_model_path(model_path) {
        return Err(OrchestratorError::InvalidModelPath { reason: e });
    }
    if device_ids.len() > MAX_REQUEST_DEVICES {
        return Err(OrchestratorError::TooManyDevices);
    }
    let mut endpoints: Vec<String> = Vec::new();
    let mut i: usize = 0;
    while i < device_ids.len()
        invariant
            reg.wf(),
            valid_model_path(model_path@),
            device_ids@.len() <= MAX_REQUEST_DEVICES,
            i <= device_ids@.len(),
            endpoints@.len() == i,
            forall|k: int| 0 <= k < i ==> reg.has_device((#[trigger] device_ids@[k])@),
            forall|k: int|
                0 <= k < i ==> (#[trigger] endpoints@[k])@ == endpoint_of(
                    reg.device_at(device_ids@[k]@).ip@,
                    reg.device_at(device_ids@[k]@).rpc_port as int,
                ),
        decreases device_ids@.len() - i,
    {
        match reg.get_device(device_ids[i].as_str()) {
            Some(device) => {
                let mut ep = device.ip.clone();
                ep.append(":");
                ep.append(i64_to_string(device.rpc_port).as_str());
                proof {
                    assert(ep@ =~= endpoint_of(device.ip@, device.rpc_port as int));
                }
                let ghost pre = endpoints@;
                endpoints.push(ep);
                proof {
                    assert(endpoints@ =~= pre.push(ep));
                    assert((endpoints@[i as int])@ == endpoint_of(
                        reg.device_at(device_ids@[i as int]@).ip@,
                        reg.device_at(device_ids@[i as int]@).rpc_port as int,
                    ));
                }
            },
            None => {
                let missing = device_ids[i].clone();
                proof {
                    assert(exists|k: int|
                        0 <= k < device_ids@.len() && (#[trigger] device_ids@[k])@ == missing@) by {
                        assert((device_ids@[i as int])@ == missing@);
                    }
                }
                return Err(OrchestratorError::DeviceNotFound { device_id: missing });
            },
        }
        i += 1;
    }
    Ok(endpoints)
}

// ─── Model check ─────────────────────────────────────────────────────────────

/// The trimmed, non-empty segments of a comma-separated identifier list.
pub open spec fn spec_device_ids(s: Seq<char>) -> Seq<Seq<char>>
    decreases s.len(),
{
    let i = first_comma(s);
    if !(0 <= i < s.len()) {
        let t = trim_spaces(s);
        if t.len() > 0 {
            seq![t]
        } else {
            Seq::empty()
        }
    } else {
        let t = trim_spaces(s.subrange(0, i));
        let rest = spec_device_ids(s.subrange(i + 1, s.len() as int));
        if t.len() > 0 {
            seq![t] + rest
        } else {
            rest
        }
    }
}

/// Split a comma-separated identifier list, trimming each entry and
/// dropping empty ones.
pub fn split_device_ids(s: &str) -> (r: Vec<String>)
    ensures
        r@.map_values(|t: String| t@) == spec_device_ids(s@),
    decreases s@.len(),
{
    let len = s.unicode_len();
    let mut i: usize = 0;
    while i < len && s.get_char(i) != ','
        invariant
            i <= len,
            len == s@.len(),
            forall|j: int| 0 <= j < i ==> s@[j] != ',',
        decreases len - i,
    {
        i += 1;
    }
    proof {
        crate::text::lemma_first_comma(s@, i as int);
    }
    if i == len {
        let t = str_trim(s);
        let mut out: Vec<String> = Vec::new();
        if t.as_str().unicode_len() > 0 {
            out.push(t);
        }
        proof {
            assert(out@.map_values(|t2: String| t2@) =~= spec_device_ids(s@));
        }
        out
    } else {
        let head = str_trim(s.substring_char(0, i));
        let mut rest = split_device_ids(s.substring_char(i + 1, len));
        if head.as_str().unicode_len() > 0 {
            rest.insert(0, head);
            proof {
                assert(rest@.map_values(|t2: String| t2@) =~= spec_device_ids(s@));
            }
            rest
        } else {
            rest
        }
    }
}

/// The free memory that the registry records for a stored device, when the
/// record reports any.
pub open spec fn device_free_of(reg: Registry, id: Seq<char>) -> Seq<u64> {
    if reg.has_device(id) {
        if reg.device_at(id).memory_free_mb > 0 {
            seq![reg.device_at(id).memory_free_mb as u64]
        } else {
            Seq::empty()
        }
    } else {
        Seq::empty()
    }
}

/// The peer memory pool of a model check: the recorded free memory of the
/// first `MAX_REQUEST_DEVICES` named devices, skipping unknown devices and
/// those without a positive record.
pub open spec fn spec_peer_frees(reg: Registry, ids: Seq<Seq<char>>) -> Seq<u64>
    decreases ids.len(),
{
    if ids.len() == 0 {
        Seq::empty()
    } else {
        spec_peer_frees(reg, ids.drop_last()) + device_free_of(reg, ids.last())
    }
}

/// Capped identifier list of a model check.
pub open spec fn capped_ids(ids: Seq<Seq<char>>) -> Seq<Seq<char>> {
    if ids.len() > MAX_REQUEST_DEVICES {
        ids.subrange(0, MAX_REQUEST_DEVICES as int)
    } else {
        ids
    }
}

/// Collect the peer memory pool for these device identifiers, at most the
/// request cap of them.
pub fn peer_free_mbs(reg: &Registry, ids: &Vec<String>) -> (r: Vec<u64>)
    requires
        reg.wf(),
    ensures
        r@ == spec_peer_frees(*reg, capped_ids(ids@.map_values(|t: String| t@))),
{
    let count = if ids.len() > MAX_REQUEST_DEVICES {
        MAX_REQUEST_DEVICES
    } else {
        ids.len()
    };
    let ghost views = capped_ids(ids@.map_values(|t: String| t@));
    proof {
        assert(views.len() == count);
        assert forall|k: int| 0 <= k < count implies #[trigger] views[k] == ids@[k]@ by {
            assert(ids@.map_values(|t: String| t@)[k] == ids@[k]@);
        }
    }
    let mut out: Vec<u64> = Vec::new();
    let mut i: usize = 0;
    while i < count
        invariant
            reg.wf(),
            i <= count,
            count <= ids@.len(),
            views.len() == count,
            forall|k: int| 0 <= k < count ==> #[trigger] views[k] == ids@[k]@,
            out@ == spec_peer_frees(*reg, views.subrange(0, i as int)),
        decreases count - i,
    {
        match reg.get_device(ids[i].as_str()) {
            Some(device) => {
                if device.memory_free_mb > 0 {
                    out.push(device.memory_free_mb as u64);
                }
                proof {
                    let p = views.subrange(0, i + 1);
                    assert(p.drop_last() =~= views.subrange(0, i as int));
                    assert(p.last() == ids@[i as int]@);
                    assert(device == reg.device_at(ids@[i as int]@));
                    assert(out@ =~= spec_peer_frees(*reg, p));
                }
            },
            None => {
                proof {
                    let p = views.subrange(0, i + 1);
                    assert(p.drop_last() =~= views.subrange(0, i as int));
                    assert(p.last() == ids@[i as int]@);
                    assert(out@ =~= spec_peer_frees(*reg, p));
                }
            },
        }
        i += 1;
    }
    proof {
        assert(views.subrange(0, count as int) =~= views);
    }
    out
}

/// What a reachability probe leaves on a device's record: a reachable
/// agent reads "ready" and takes the freshly fetched memory totals; an
/// unreachable one keeps the previous reachability and totals.
pub fn device_probe_update(
    reachable: bool,
    prev_status: &str,
    fetched: Option<(i64, i64)>,
    prev_total_mb: i64,
    prev_free_mb: i64,
) -> (r: (String, i64, i64))
    ensures
        r.0@ == if reachable {
            "ready"@
        } else {
            prev_status@
        },
        (r.1, r.2) == (match fetched {
            Some((t, f)) => if reachable {
                (t, f)
            } else {
                (prev_total_mb, prev_free_mb)
            },
            None => (prev_total_mb, prev_free_mb),
        }),
{
    let status = if reachable {
        String::from_str("ready")
    } else {
        String::from_str(prev_status)
    };
    match fetched {
        Some((t, f)) => if reachable {
            (status, t, f)
        } else {
            (status, prev_total_mb, prev_free_mb)
        },
        None => (status, prev_total_mb, prev_free_mb),
    }
}

/// Sum of the first elements of the reported pairs.
pub open spec fn sum_fst(s: Seq<(i64, i64)>) -> int
    decreases s.len(),
{
    if s.len() == 0 {
        0
    } else {
        sum_fst(s.drop_last()) + s.last().0
    }
}

/// Sum of the second elements of the reported pairs.
pub open spec fn sum_snd(s: Seq<(i64, i64)>) -> int
    decreases s.len(),
{
    if s.len() == 0 {
        0
    } else {
        sum_snd(s.drop_last()) + s.last().1
    }
}

/// Fold a remote device's per-provider (total, free) reports into one
/// (total, free) pair; nothing is reported for an empty or zero-total
/// answer.
pub fn remote_memory_totals(providers: &Vec<(i64, i64)>) -> (r: Option<(i64, i64)>)
    requires
        i64::MIN <= sum_fst(providers@) <= i64::MAX,
        i64::MIN <= sum_snd(providers@) <= i64::MAX,
    ensures
        r is Some <==> (providers@.len() > 0 && sum_fst(providers@) != 0),
        r matches Some((t, f)) ==> t == sum_fst(providers@) && f == sum_snd(providers@),
{
    if providers.len() == 0 {
        return None;
    }
    let mut total: i128 = 0;
    let mut free: i128 = 0;
    let mut i: usize = 0;
    while i < providers.len()
        invariant
            i <= providers@.len(),
            total == sum_fst(providers@.subrange(0, i as int)),
            free == sum_snd(providers@.subrange(0, i as int)),
        decreases providers@.len() - i,
    {
        proof {
            let p = providers@.subrange(0, i + 1);
            assert(p.drop_last() =~= providers@.subrange(0, i as int));
            assert(p.last() == providers@[i as int]);
            lemma_sum_pair_abs(providers@, i as int);
            lemma_sum_pair_abs(providers@, i + 1);
            assert((i + 1) * 0x8000_0000_0000_0000 <= 0x1_0000_0000_0000_0000
                * 0x8000_0000_0000_0000) by (nonlinear_arith)
                requires
                    0 <= i + 1 <= 0x1_0000_0000_0000_0000,
            ;
        }
        total = total + (providers[i].0 as i128);
        free = free + (providers[i].1 as i128);
        i += 1;
    }
    proof {
        assert(providers@.subrange(0, providers@.len() as int) =~= providers@);
    }
    if total == 0 {
        None
    } else {
        Some((total as i64, free as i64))
    }
}

/// A partial pair sum is bounded by the element count times the element
/// bound.
proof fn lemma_sum_pair_abs(s: Seq<(i64, i64)>, n: int)
    requires
        0 <= n <= s.len(),
    ensures
        -(n * 0x8000_0000_0000_0000) <= sum_fst(s.subrange(0, n)),
        sum_fst(s.subrange(0, n)) <= n * 0x8000_0000_0000_0000,
        -(n * 0x8000_0000_0000_0000) <= sum_snd(s.subrange(0, n)),
        sum_snd(s.subrange(0, n)) <= n * 0x8000_0000_0000_0000,
    decreases n,
{
    if n == 0 {
        assert(s.subrange(0, 0) =~= Seq::<(i64, i64)>::empty());
    } else {
        lemma_sum_pair_abs(s, n - 1);
        let p = s.subrange(0, n);
        assert(p.drop_last() =~= s.subrange(0, n - 1));
        assert(p.last() == s[n - 1]);
        assert(n * 0x8000_0000_0000_0000 == (n - 1) * 0x8000_0000_0000_0000
            + 0x8000_0000_0000_0000) by (nonlinear_arith);
    }
}

/// Run the model check: analyse the named model against the local free
/// memory and the recorded free memory of the named peers.
pub fn model_check(
    reg: &Registry,
    path: &str,
    ids: &Vec<String>,
    local_free_mb: u64,
    model_size_mb: u64,
) -> (r: Result<ModelAnalysis, PlannerError>)
    requires
        reg.wf(),
        local_free_mb + sum_u64(
            spec_peer_frees(*reg, capped_ids(ids@.map_values(|t: String| t@))),
        ) <= u64::MAX,
    ensures
        ({
            let peers = spec_peer_frees(*reg, capped_ids(ids@.map_values(|t: String| t@)));
            &&& (r is Ok <==> (valid_model_path(path@) && model_size_mb > 0))
            &&& (r matches Ok(a) ==> analysis_matches(a, model_size_mb, local_free_mb, peers))
            &&& (r == Err::<ModelAnalysis, PlannerError>(PlannerError::NotFoundOrEmpty) <==> (
            valid_model_path(path@) && model_size_mb == 0))
            &&& (r matches Err(e) ==> (e != PlannerError::NotFoundOrEmpty ==> validate_spec_err(
                path@,
                e,
            )))
        }),
{
    let peers = peer_free_mbs(reg, ids);
    analyze_model(path, model_size_mb, local_free_mb, &peers)
}

} // verus!
