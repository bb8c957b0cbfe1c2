//! Process supervisor: the lifecycle decisions for the two external
//! inference binaries (the agent contributing this machine's memory, and the
//! engine running inference).
//!
//! The supervisor here is the decision core: spawning, killing and waiting
//! happen in the surrounding application, which reports each observation
//! (spawned, exited, still alive) back into these transitions.

use vstd::prelude::*;
use vstd::string::*;

use crate::events::WsEvent;
use crate::planner::{validate_model_path, validate_spec_err, valid_model_path, PlannerError};
use crate::text::{clone_string_vec, dec_str};
use crate::u64_to_string;

verus! {

/// Transient record of a running inference.
#[derive(Debug)]
pub struct InferenceSessionInfo {
    pub id: String,
    pub model_path: String,
    /// starting | running | stopped | error
    pub status: String,
    /// Peer endpoints in use, as "ip:port" strings.
    pub rpc_devices: Vec<String>,
    pub started_at: String,
}

/// Snapshot of the supervisor, as shown to external observers.
#[derive(Debug)]
pub struct LlamaCppStatus {
    pub rpc_server_running: bool,
    pub inference_running: bool,
    pub rpc_server_bin: bool,
    pub inference_server_bin: bool,
    pub rpc_port: u16,
    pub inference_port: u16,
    pub current_session: Option<InferenceSessionInfo>,
}

/// Why a start request failed.
#[derive(Debug, Clone, Copy, PartialEq, Eq, Structural)]
pub enum SupervisorError {
    /// The binary is neither on the search path nor in the user directory.
    BinaryNotFound,
    /// Spawning the child failed outright.
    SpawnFailed,
    /// The child exited within the grace period after spawning; the port is
    /// likely in use or the binary is misconfigured.
    ImmediateExit { exit_code: Option<i64> },
    /// The model path was rejected.
    InvalidModelPath { reason: PlannerError },
}

/// What the application observed of a freshly spawned child.
#[derive(Debug, Clone, Copy, PartialEq, Eq, Structural)]
pub enum SpawnOutcome {
    /// The spawn call itself failed.
    SpawnFailed,
    /// The child exited within the grace period.
    ExitedEarly { exit_code: Option<i64> },
    /// The child was still alive after the grace period.
    Alive,
}

/// At most one inference session exists at a time, and the engine is
/// recorded as running exactly while a session is held.  Every supervisor
/// transition preserves this, as their contracts state.
pub proof fn lemma_engine_runs_iff_session(m: LlamaCppManager)
    requires
        m.wf(),
    ensures
        m.inference_running <==> m.current_session is Some,
{
}

/// The two session records agree: same identity and parameters, with the
/// endpoint lists compared element by element.
pub open spec fn session_like(a: InferenceSessionInfo, b: InferenceSessionInfo) -> bool {
    &&& a.id == b.id
    &&& a.model_path == b.model_path
    &&& a.status == b.status
    &&& a.rpc_devices@ == b.rpc_devices@
    &&& a.started_at == b.started_at
}

/// The two optional session records agree.
pub open spec fn opt_session_like(
    a: Option<InferenceSessionInfo>,
    b: Option<InferenceSessionInfo>,
) -> bool {
    match (a, b) {
        (Option::None, Option::None) => true,
        (Option::Some(x), Option::Some(y)) => session_like(x, y),
        _ => false,
    }
}

/// Clone of a session record.
pub fn clone_session(s: &InferenceSessionInfo) -> (r: InferenceSessionInfo)
    ensures
        session_like(r, *s),
{
    InferenceSessionInfo {
        id: s.id.clone(),
        model_path: s.model_path.clone(),
        status: s.status.clone(),
        rpc_devices: clone_string_vec(&s.rpc_devices),
        started_at: s.started_at.clone(),
    }
}

/// The comma-joined view of a list of endpoint strings.
pub open spec fn join_comma(s: Seq<Seq<char>>) -> Seq<char>
    decreases s.len(),
{
    if s.len() == 0 {
        Seq::empty()
    } else if s.len() == 1 {
        s[0]
    } else {
        join_comma(s.drop_last()) + ","@ + s.last()
    }
}

/// Join endpoint strings with commas.
pub fn join_comma_exec(v: &Vec<String>) -> (r: String)
    ensures
        r@ == join_comma(v@.map_values(|s: String| s@)),
{
    let mut out = String::new();
    let mut i: usize = 0;
    while i < v.len()
        invariant
            i <= v@.len(),
            out@ == join_comma(v@.subrange(0, i as int).map_values(|s: String| s@)),
        decreases v@.len() - i,
    {
        if i > 0 {
            out.append(",");
        }
        out.append(v[i].as_str());
        proof {
            let m = v@.subrange(0, i + 1).map_values(|s: String| s@);
            assert(m.drop_last() =~= v@.subrange(0, i as int).map_values(|s: String| s@));
            assert(m.last() == v@[i as int]@);
            if i == 0 {
                assert(m =~= seq![v@[0]@]);
            }
        }
        i += 1;
    }
    proof {
        assert(v@.subrange(0, v@.len() as int) =~= v@);
    }
    out
}

/// The argument list handed to the engine binary.
///
/// The GPU layer mapping: -1 stands for "all layers" and is passed as a
/// sentinel the engine reads as every layer; 0 omits the flag (the engine
/// defaults to CPU only); a positive count is passed through.
pub open spec fn spec_inference_args(
    model_path: Seq<char>,
    port: u16,
    ctx_size: u32,
    n_gpu_layers: i32,
    rpc_addresses: Seq<Seq<char>>,
) -> Seq<Seq<char>> {
    let base = seq![
        "-m"@,
        model_path,
        "--port"@,
        dec_str(port as nat),
        "--host"@,
        "0.0.0.0"@,
        "--ctx-size"@,
        dec_str(ctx_size as nat),
    ];
    let with_layers = if n_gpu_layers == -1 {
        base + seq!["--n-gpu-layers"@, "999"@]
    } else if n_gpu_layers > 0 {
        base + seq!["--n-gpu-layers"@, dec_str(n_gpu_layers as nat)]
    } else {
        base
    };
    if rpc_addresses.len() > 0 {
        with_layers + seq!["--rpc"@, join_comma(rpc_addresses)]
    } else {
        with_layers
    }
}

/// Build the engine's launch arguments.
pub fn build_inference_args(
    model_path: &str,
    port: u16,
    ctx_size: u32,
    n_gpu_layers: i32,
    rpc_addresses: &Vec<String>,
) -> (r: Vec<String>)
    ensures
        r@.map_values(|s: String| s@) == spec_inference_args(
            model_path@,
            port,
            ctx_size,
            n_gpu_layers,
            rpc_addresses@.map_values(|s: String| s@),
        ),
{
    let mut args: Vec<String> = Vec::new();
    args.push(String::from_str("-m"));
    args.push(String::from_str(model_path));
    args.push(String::from_str("--port"));
    args.push(u64_to_string(port as u64));
    args.push(String::from_str("--host"));
    args.push(String::from_str("0.0.0.0"));
    args.push(String::from_str("--ctx-size"));
    args.push(u64_to_string(ctx_size as u64));
    if n_gpu_layers == -1 {
        args.push(String::from_str("--n-gpu-layers"));
        args.push(String::from_str("999"));
    } else if n_gpu_layers > 0 {
        args.push(String::from_str("--n-gpu-layers"));
        args.push(u64_to_string(n_gpu_layers as u64));
    }
    if rpc_addresses.len() > 0 {
        args.push(String::from_str("--rpc"));
        args.push(join_comma_exec(rpc_addresses));
    }
    proof {
        assert(args@.map_values(|s: String| s@) =~= spec_inference_args(
            model_path@,
            port,
            ctx_size,
            n_gpu_layers,
            rpc_addresses@.map_values(|s: String| s@),
        ));
    }
    args
}

/// The argument list handed to the agent binary.
pub open spec fn spec_rpc_args(port: u16) -> Seq<Seq<char>> {
    seq!["--host"@, "0.0.0.0"@, "--port"@, dec_str(port as nat)]
}

// ─── The supervisor ──────────────────────────────────────────────────────────

/// Supervisor state for the two external binaries.  The application holds
/// the actual child handles and mirrors them here: a running flag is true
/// exactly while a handle is held.
#[derive(Debug)]
pub struct LlamaCppManager {
    pub rpc_port: u16,
    pub inference_port: u16,
    pub rpc_running: bool,
    pub inference_running: bool,
    pub current_session: Option<InferenceSessionInfo>,
}

impl LlamaCppManager {
    /// The engine runs exactly while a session is recorded; there is at
    /// most one session.
    pub open spec fn wf(&self) -> bool {
        self.inference_running <==> self.current_session is Some
    }

    /// A fresh supervisor on the default ports, with nothing running.
    pub fn new() -> (r: LlamaCppManager)
        ensures
            r.wf(),
            r.rpc_port == 8181,
            r.inference_port == 8282,
            !r.rpc_running,
            !r.inference_running,
            r.current_session is None,
    {
        LlamaCppManager {
            rpc_port: 8181,
            inference_port: 8282,
            rpc_running: false,
            inference_running: false,
            current_session: None,
        }
    }

    /// The launch arguments for the agent, bound to every interface on the
    /// agent port.
    pub fn start_rpc_args(&self) -> (r: Vec<String>)
        ensures
            r@.map_values(|s: String| s@) == spec_rpc_args(self.rpc_port),
    {
        let mut args: Vec<String> = Vec::new();
        args.push(String::from_str("--host"));
        args.push(String::from_str("0.0.0.0"));
        args.push(String::from_str("--port"));
        args.push(u64_to_string(self.rpc_port as u64));
        proof {
            assert(args@.map_values(|s: String| s@) =~= spec_rpc_args(self.rpc_port));
        }
        args
    }

    /// First half of starting the agent: whether to spawn at all.
    ///
    /// Returns `Ok(false)` when the agent is already running (a no-op) and
    /// `Ok(true)` when the caller should reclaim the port and spawn.
    pub fn begin_start_rpc_server(&self, binary_found: bool) -> (r: Result<bool, SupervisorError>)
        ensures
            r == if !binary_found {
                Err::<bool, SupervisorError>(SupervisorError::BinaryNotFound)
            } else if self.rpc_running {
                Ok::<bool, SupervisorError>(false)
            } else {
                Ok::<bool, SupervisorError>(true)
            },
    {
        if !binary_found {
            Err(SupervisorError::BinaryNotFound)
        } else if self.rpc_running {
            Ok(false)
        } else {
            Ok(true)
        }
    }

    /// Second half of starting the agent: fold in what became of the spawn.
    ///
    /// The start succeeds exactly when the child was still alive after the
    /// grace period, and only then is the ready event produced.
    pub fn finish_start_rpc_server(&mut self, outcome: SpawnOutcome) -> (r: Result<
        Vec<WsEvent>,
        SupervisorError,
    >)
        requires
            old(self).wf(),
        ensures
            final(self).wf(),
            final(self).rpc_port == old(self).rpc_port,
            final(self).inference_port == old(self).inference_port,
            final(self).inference_running == old(self).inference_running,
            final(self).current_session == old(self).current_session,
            match outcome {
                SpawnOutcome::SpawnFailed => r == Err::<Vec<WsEvent>, SupervisorError>(
                    SupervisorError::SpawnFailed,
                ) && final(self).rpc_running == old(self).rpc_running,
                SpawnOutcome::ExitedEarly { exit_code } => r == Err::<Vec<WsEvent>, SupervisorError>(
                    SupervisorError::ImmediateExit { exit_code },
                ) && !final(self).rpc_running,
                SpawnOutcome::Alive => {
                    &&& final(self).rpc_running
                    &&& r matches Ok(evs)
                    &&& r matches Ok(evs) ==> (evs@.len() == 1 && (evs@[0] matches
                        WsEvent::RpcServerReady { port } && port == old(self).rpc_port as i64))
                },
            },
    {
        match outcome {
            SpawnOutcome::SpawnFailed => Err(SupervisorError::SpawnFailed),
            SpawnOutcome::ExitedEarly { exit_code } => {
                self.rpc_running = false;
                Err(SupervisorError::ImmediateExit { exit_code })
            },
            SpawnOutcome::Alive => {
                self.rpc_running = true;
                let mut evs: Vec<WsEvent> = Vec::new();
                evs.push(WsEvent::RpcServerReady { port: self.rpc_port as i64 });
                Ok(evs)
            },
        }
    }

    /// Stop the agent: clear the handle flag and report it offline, a no-op
    /// when nothing runs.
    pub fn stop_rpc_server(&mut self) -> (evs: Vec<WsEvent>)
        requires
            old(self).wf(),
        ensures
            final(self).wf(),
            final(self).rpc_port == old(self).rpc_port,
            final(self).inference_port == old(self).inference_port,
            final(self).inference_running == old(self).inference_running,
            final(self).current_session == old(self).current_session,
            !final(self).rpc_running,
            if old(self).rpc_running {
                evs@.len() == 1 && evs@[0] is RpcServerOffline
            } else {
                evs@.len() == 0
            },
    {
        let mut evs: Vec<WsEvent> = Vec::new();
        if self.rpc_running {
            self.rpc_running = false;
            evs.push(WsEvent::RpcServerOffline);
        }
        evs
    }

    /// Reap: fold in the liveness observations for both children.  A child
    /// seen exited has its handle flag cleared, its session cleared, and the
    /// matching offline or stopped event produced.
    pub fn reap(&mut self, rpc_exited: bool, inference_exited: bool) -> (evs: Vec<WsEvent>)
        requires
            old(self).wf(),
        ensures
            final(self).wf(),
            final(self).rpc_port == old(self).rpc_port,
            final(self).inference_port == old(self).inference_port,
            final(self).rpc_running == (old(self).rpc_running && !rpc_exited),
            final(self).inference_running == (old(self).inference_running && !inference_exited),
            final(self).current_session == if old(self).inference_running && inference_exited {
                None::<InferenceSessionInfo>
            } else {
                old(self).current_session
            },
            ({
                let reap_rpc = old(self).rpc_running && rpc_exited;
                let reap_inf = old(self).inference_running && inference_exited;
                &&& evs@.len() == (if reap_rpc {
                    1int
                } else {
                    0int
                }) + (if reap_inf {
                    1int
                } else {
                    0int
                })
                &&& reap_rpc ==> evs@[0] is RpcServerOffline
                &&& reap_inf ==> (evs@.last() matches WsEvent::InferenceStopped { session_id }
                    && (old(self).current_session matches Some(s) && s.id == session_id))
            }),
    {
        let mut evs: Vec<WsEvent> = Vec::new();
        if self.rpc_running && rpc_exited {
            self.rpc_running = false;
            evs.push(WsEvent::RpcServerOffline);
        }
        if self.inference_running && inference_exited {
            self.inference_running = false;
            let session = self.current_session.take();
            if let Some(s) = session {
                evs.push(WsEvent::InferenceStopped { session_id: s.id });
            }
        }
        evs
    }

    /// First half of starting the engine: validate, and tear down whatever
    /// engine still runs.  The caller kills the old child on a stopped
    /// event, then spawns with the built arguments.
    pub fn begin_start_inference(&mut self, model_path: &str, binary_found: bool) -> (r: Result<
        Vec<WsEvent>,
        SupervisorError,
    >)
        requires
            old(self).wf(),
        ensures
            final(self).wf(),
            final(self).rpc_port == old(self).rpc_port,
            final(self).inference_port == old(self).inference_port,
            final(self).rpc_running == old(self).rpc_running,
            !valid_model_path(model_path@) ==> (r matches Err(e) && (e matches
                SupervisorError::InvalidModelPath { reason } && validate_spec_err(
                model_path@,
                reason,
            )) && *final(self) == *old(self)),
            valid_model_path(model_path@) && !binary_found ==> r == Err::<
                Vec<WsEvent>,
                SupervisorError,
            >(SupervisorError::BinaryNotFound) && *final(self) == *old(self),
            valid_model_path(model_path@) && binary_found ==> ({
                &&& !final(self).inference_running
                &&& final(self).current_session is None
                &&& r matches Ok(evs)
                &&& r matches Ok(evs) ==> if old(self).inference_running {
                    evs@.len() == 1 && (evs@[0] matches WsEvent::InferenceStopped { session_id }
                        && (old(self).current_session matches Some(s) && s.id == session_id))
                } else {
                    evs@.len() == 0
                }
            }),
    {
        if let Err(e) = validate_model_path(model_path) {
            return Err(SupervisorError::InvalidModelPath { reason: e });
        }
        if !binary_found {
            return Err(SupervisorError::BinaryNotFound);
        }
        let mut evs: Vec<WsEvent> = Vec::new();
        self.inference_running = false;
        let session = self.current_session.take();
        if let Some(s) = session {
            evs.push(WsEvent::InferenceStopped { session_id: s.id });
        }
        Ok(evs)
    }

    /// Second half of starting the engine: record the new session once the
    /// child is spawned, or report the spawn failure.
    ///
    /// `session_id` and `started_at` are the fresh identifier and timestamp
    /// drawn by the caller.
    pub fn finish_start_inference(
        &mut self,
        model_path: &str,
        rpc_addresses: Vec<String>,
        session_id: String,
        started_at: String,
        spawn_ok: bool,
    ) -> (r: Result<(InferenceSessionInfo, Vec<WsEvent>), SupervisorError>)
        requires
            old(self).wf(),
        ensures
            final(self).wf(),
            final(self).rpc_port == old(self).rpc_port,
            final(self).inference_port == old(self).inference_port,
            final(self).rpc_running == old(self).rpc_running,
            !spawn_ok ==> r == Err::<(InferenceSessionInfo, Vec<WsEvent>), SupervisorError>(
                SupervisorError::SpawnFailed,
            ) && *final(self) == *old(self),
            spawn_ok ==> ({
                &&& final(self).inference_running
                &&& r matches Ok((session, evs))
                &&& r matches Ok((session, evs)) ==> {
                    &&& (final(self).current_session matches Some(st) && session_like(st, session))
                    &&& session.id == session_id
                    &&& session.model_path@ == model_path@
                    &&& session.status@ == "starting"@
                    &&& session.rpc_devices@ == rpc_addresses@
                    &&& session.started_at == started_at
                    &&& evs@.len() == 1
                    &&& (evs@[0] matches WsEvent::InferenceStarted { session_id: sid, model, devices }
                        && sid == session_id && model@ == model_path@ && devices@ == rpc_addresses@)
                }
            }),
    {
        if !spawn_ok {
            return Err(SupervisorError::SpawnFailed);
        }
        let session = InferenceSessionInfo {
            id: session_id.clone(),
            model_path: String::from_str(model_path),
            status: String::from_str("starting"),
            rpc_devices: rpc_addresses,
            started_at,
        };
        let ret = clone_session(&session);
        let devices = clone_string_vec(&session.rpc_devices);
        self.inference_running = true;
        self.current_session = Some(session);
        let mut evs: Vec<WsEvent> = Vec::new();
        evs.push(
            WsEvent::InferenceStarted {
                session_id,
                model: String::from_str(model_path),
                devices,
            },
        );
        Ok((ret, evs))
    }

    /// Stop the engine: clear the handle flag and the session, reporting
    /// the stopped session if one was recorded.
    pub fn stop_inference(&mut self) -> (evs: Vec<WsEvent>)
        requires
            old(self).wf(),
        ensures
            final(self).wf(),
            final(self).rpc_port == old(self).rpc_port,
            final(self).inference_port == old(self).inference_port,
            final(self).rpc_running == old(self).rpc_running,
            !final(self).inference_running,
            final(self).current_session is None,
            if old(self).inference_running {
                evs@.len() == 1 && (evs@[0] matches WsEvent::InferenceStopped { session_id }
                    && (old(self).current_session matches Some(s) && s.id == session_id))
            } else {
                evs@.len() == 0
            },
    {
        let mut evs: Vec<WsEvent> = Vec::new();
        self.inference_running = false;
        let session = self.current_session.take();
        if let Some(s) = session {
            evs.push(WsEvent::InferenceStopped { session_id: s.id });
        }
        evs
    }

    /// The recorded session, if any.
    pub fn get_current_session(&self) -> (r: Option<InferenceSessionInfo>)
        ensures
            opt_session_like(r, self.current_session),
    {
        match &self.current_session {
            Some(s) => Some(clone_session(s)),
            None => None,
        }
    }

    /// Base URL of the engine's HTTP endpoint.
    pub fn inference_base_url(&self) -> (r: String)
        ensures
            r@ == "http://127.0.0.1:"@ + dec_str(self.inference_port as nat),
    {
        let mut url = String::from_str("http://127.0.0.1:");
        url.append(u64_to_string(self.inference_port as u64).as_str());
        url
    }

    /// Status snapshot from the current flags and the binary probes the
    /// caller made.
    pub fn get_status_sync(&self, rpc_server_bin: bool, inference_server_bin: bool) -> (r:
        LlamaCppStatus)
        ensures
            r.rpc_server_running == self.rpc_running,
            r.inference_running == self.inference_running,
            r.rpc_server_bin == rpc_server_bin,
            r.inference_server_bin == inference_server_bin,
            r.rpc_port == self.rpc_port,
            r.inference_port == self.inference_port,
            opt_session_like(r.current_session, self.current_session),
    {
        LlamaCppStatus {
            rpc_server_running: self.rpc_running,
            inference_running: self.inference_running,
            rpc_server_bin,
            inference_server_bin,
            rpc_port: self.rpc_port,
            inference_port: self.inference_port,
            current_session: self.get_current_session(),
        }
    }

    /// Reap both children, then snapshot: the published status always shows
    /// a consistent post-reap view.
    pub fn get_status(
        &mut self,
        rpc_exited: bool,
        inference_exited: bool,
        rpc_server_bin: bool,
        inference_server_bin: bool,
    ) -> (r: (LlamaCppStatus, Vec<WsEvent>))
        requires
            old(self).wf(),
        ensures
            final(self).wf(),
            r.0.rpc_server_running == final(self).rpc_running,
            r.0.inference_running == final(self).inference_running,
            r.0.rpc_server_bin == rpc_server_bin,
            r.0.inference_server_bin == inference_server_bin,
            r.0.rpc_port == old(self).rpc_port,
            r.0.inference_port == old(self).inference_port,
            opt_session_like(r.0.current_session, final(self).current_session),
            final(self).rpc_running == (old(self).rpc_running && !rpc_exited),
            final(self).inference_running == (old(self).inference_running && !inference_exited),
            final(self).current_session == if old(self).inference_running && inference_exited {
                None::<InferenceSessionInfo>
            } else {
                old(self).current_session
            },
            ({
                let reap_rpc = old(self).rpc_running && rpc_exited;
                let reap_inf = old(self).inference_running && inference_exited;
                &&& r.1@.len() == (if reap_rpc {
                    1int
                } else {
                    0int
                }) + (if reap_inf {
                    1int
                } else {
                    0int
                })
                &&& reap_rpc ==> r.1@[0] is RpcServerOffline
                &&& reap_inf ==> (r.1@.last() matches WsEvent::InferenceStopped { session_id }
                    && (old(self).current_session matches Some(s) && s.id == session_id))
            }),
    {
        let evs = self.reap(rpc_exited, inference_exited);
        let status = self.get_status_sync(rpc_server_bin, inference_server_bin);
        (status, evs)
    }
}

} // verus!
