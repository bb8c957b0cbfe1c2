//! Domain events broadcast to subscribers, and the decision applied to
//! freshly discovered peers.

use vstd::prelude::*;
use vstd::string::*;

use crate::memory::MemorySnapshot;

verus! {

/// All events sent to connected subscribers.
#[derive(Debug, Clone)]
pub enum WsEvent {
    /// A new device was discovered on the local network.
    DeviceDiscovered { ip: String, name: String, hostname: String, method: String },
    /// A device is waiting for manual approval.
    DevicePendingApproval { device_id: String, name: String, ip: String, discovery_method: String },
    /// A device was approved.
    DeviceApproved { device_id: String, name: String, ip: String },
    /// A device was denied.
    DeviceDenied { device_id: String },
    /// A device went offline (discovery removal).
    DeviceOffline { name: String },
    /// Memory was allocated to a device.
    MemoryAllocated { device_id: String, memory_mb: i64 },
    /// Periodic memory stats update.
    MemoryStats { snapshots: Vec<MemorySnapshot> },
    /// Ollama status changed.
    OllamaStatus { running: bool, host: String },
    /// Generic error notification.
    Error { message: String },
    /// The local agent process started successfully.
    RpcServerReady { port: i64 },
    /// The local agent process stopped or crashed.
    RpcServerOffline,
    /// A remote device's agent is now reachable.
    RpcDeviceReady { device_id: String, memory_total_mb: i64, memory_free_mb: i64 },
    /// A remote device's agent went offline.
    RpcDeviceOffline { device_id: String },
    /// The inference engine process started.
    InferenceStarted { session_id: String, model: String, devices: Vec<String> },
    /// The inference engine process stopped.
    InferenceStopped { session_id: String },
    /// Layer assignment across devices (informational).
    LayerAssignment { assignments: Vec<LayerAssignment> },
}

#[derive(Debug, Clone)]
pub struct LayerAssignment {
    pub device_id: String,
    /// A layer range such as "0-15".
    pub layers: String,
}

/// Discovered device info from the local-network browser.
#[derive(Debug, Clone)]
pub struct DiscoveredDevice {
    pub name: String,
    pub ip: String,
    pub port: u16,
    pub hostname: String,
}

fn clone_assignments(v: &Vec<LayerAssignment>) -> (r: Vec<LayerAssignment>)
    ensures
        r@ == v@,
{
    let mut out: Vec<LayerAssignment> = Vec::new();
    let mut i: usize = 0;
    while i < v.len()
        invariant
            i <= v@.len(),
            out@ == v@.subrange(0, i as int),
        decreases v@.len() - i,
    {
        out.push(LayerAssignment { device_id: v[i].device_id.clone(), layers: v[i].layers.clone() });
        proof {
            assert(out@ =~= v@.subrange(0, i + 1));
        }
        i += 1;
    }
    proof {
        assert(v@.subrange(0, v@.len() as int) =~= v@);
    }
    out
}

/// The two events agree: same variant, same payload, with lists compared
/// element by element.
pub open spec fn event_like(a: WsEvent, b: WsEvent) -> bool {
    match (a, b) {
        (
            WsEvent::DeviceDiscovered { ip: i1, name: n1, hostname: h1, method: m1 },
            WsEvent::DeviceDiscovered { ip: i2, name: n2, hostname: h2, method: m2 },
        ) => i1 == i2 && n1 == n2 && h1 == h2 && m1 == m2,
        (
            WsEvent::DevicePendingApproval { device_id: d1, name: n1, ip: i1, discovery_method: m1 },
            WsEvent::DevicePendingApproval { device_id: d2, name: n2, ip: i2, discovery_method: m2 },
        ) => d1 == d2 && n1 == n2 && i1 == i2 && m1 == m2,
        (
            WsEvent::DeviceApproved { device_id: d1, name: n1, ip: i1 },
            WsEvent::DeviceApproved { device_id: d2, name: n2, ip: i2 },
        ) => d1 == d2 && n1 == n2 && i1 == i2,
        (
            WsEvent::DeviceDenied { device_id: d1 },
            WsEvent::DeviceDenied { device_id: d2 },
        ) => d1 == d2,
        (WsEvent::DeviceOffline { name: n1 }, WsEvent::DeviceOffline { name: n2 }) => n1 == n2,
        (
            WsEvent::MemoryAllocated { device_id: d1, memory_mb: m1 },
            WsEvent::MemoryAllocated { device_id: d2, memory_mb: m2 },
        ) => d1 == d2 && m1 == m2,
        (
            WsEvent::MemoryStats { snapshots: s1 },
            WsEvent::MemoryStats { snapshots: s2 },
        ) => s1@ == s2@,
        (
            WsEvent::OllamaStatus { running: r1, host: h1 },
            WsEvent::OllamaStatus { running: r2, host: h2 },
        ) => r1 == r2 && h1 == h2,
        (WsEvent::Error { message: m1 }, WsEvent::Error { message: m2 }) => m1 == m2,
        (WsEvent::RpcServerReady { port: p1 }, WsEvent::RpcServerReady { port: p2 }) => p1 == p2,
        (WsEvent::RpcServerOffline, WsEvent::RpcServerOffline) => true,
        (
            WsEvent::RpcDeviceReady { device_id: d1, memory_total_mb: t1, memory_free_mb: f1 },
            WsEvent::RpcDeviceReady { device_id: d2, memory_total_mb: t2, memory_free_mb: f2 },
        ) => d1 == d2 && t1 == t2 && f1 == f2,
        (
            WsEvent::RpcDeviceOffline { device_id: d1 },
            WsEvent::RpcDeviceOffline { device_id: d2 },
        ) => d1 == d2,
        (
            WsEvent::InferenceStarted { session_id: s1, model: m1, devices: v1 },
            WsEvent::InferenceStarted { session_id: s2, model: m2, devices: v2 },
        ) => s1 == s2 && m1 == m2 && v1@ == v2@,
        (
            WsEvent::InferenceStopped { session_id: s1 },
            WsEvent::InferenceStopped { session_id: s2 },
        ) => s1 == s2,
        (
            WsEvent::LayerAssignment { assignments: a1 },
            WsEvent::LayerAssignment { assignments: a2 },
        ) => a1@ == a2@,
        _ => false,
    }
}

/// Clone of an event: the same event, with its lists carried over element
/// by element.
pub fn clone_event(e: &WsEvent) -> (r: WsEvent)
    ensures
        event_like(r, *e),
{
    match e {
        WsEvent::DeviceDiscovered { ip, name, hostname, method } => WsEvent::DeviceDiscovered {
            ip: ip.clone(),
            name: name.clone(),
            hostname: hostname.clone(),
            method: method.clone(),
        },
        WsEvent::DevicePendingApproval { device_id, name, ip, discovery_method } => WsEvent::DevicePendingApproval {
            device_id: device_id.clone(),
            name: name.clone(),
            ip: ip.clone(),
            discovery_method: discovery_method.clone(),
        },
        WsEvent::DeviceApproved { device_id, name, ip } => WsEvent::DeviceApproved {
            device_id: device_id.clone(),
            name: name.clone(),
            ip: ip.clone(),
        },
        WsEvent::DeviceDenied { device_id } => WsEvent::DeviceDenied {
            device_id: device_id.clone(),
        },
        WsEvent::DeviceOffline { name } => WsEvent::DeviceOffline { name: name.clone() },
        WsEvent::MemoryAllocated { device_id, memory_mb } => WsEvent::MemoryAllocated {
            device_id: device_id.clone(),
            memory_mb: *memory_mb,
        },
        WsEvent::MemoryStats { snapshots } => WsEvent::MemoryStats {
            snapshots: crate::memory::clone_snapshots(snapshots),
        },
        WsEvent::OllamaStatus { running, host } => WsEvent::OllamaStatus {
            running: *running,
            host: host.clone(),
        },
        WsEvent::Error { message } => WsEvent::Error { message: message.clone() },
        WsEvent::RpcServerReady { port } => WsEvent::RpcServerReady { port: *port },
        WsEvent::RpcServerOffline => WsEvent::RpcServerOffline,
        WsEvent::RpcDeviceReady { device_id, memory_total_mb, memory_free_mb } => WsEvent::RpcDeviceReady {
            device_id: device_id.clone(),
            memory_total_mb: *memory_total_mb,
            memory_free_mb: *memory_free_mb,
        },
        WsEvent::RpcDeviceOffline { device_id } => WsEvent::RpcDeviceOffline {
            device_id: device_id.clone(),
        },
        WsEvent::InferenceStarted { session_id, model, devices } => WsEvent::InferenceStarted {
            session_id: session_id.clone(),
            model: model.clone(),
            devices: crate::text::clone_string_vec(devices),
        },
        WsEvent::InferenceStopped { session_id } => WsEvent::InferenceStopped {
            session_id: session_id.clone(),
        },
        WsEvent::LayerAssignment { assignments } => WsEvent::LayerAssignment {
            assignments: clone_assignments(assignments),
        },
    }
}

/// The event a discovery sighting produces: our own advertisement is
/// skipped, anything else becomes a discovery event.
pub fn discovery_event(own_ip: &str, d: &DiscoveredDevice) -> (r: Option<WsEvent>)
    ensures
        r is Some <==> d.ip@ != own_ip@,
        r matches Some(e) ==> (e matches WsEvent::DeviceDiscovered { ip, name, hostname, method }
            && ip == d.ip && name == d.name && hostname == d.hostname && method@ == "mdns"@),
{
    if crate::text::str_eq(d.ip.as_str(), own_ip) {
        None
    } else {
        Some(
            WsEvent::DeviceDiscovered {
                ip: d.ip.clone(),
                name: d.name.clone(),
                hostname: d.hostname.clone(),
                method: String::from_str("mdns"),
            },
        )
    }
}

} // verus!
