//! Device registry: the persistent table of peer devices, their approval
//! state machine, role-bounded memory allocation, and the settings and role
//! stores they depend on.
//!
//! State is updated first and the events describing the update are handed
//! back to the caller, so persistence always precedes emission.

use vstd::prelude::*;
use vstd::string::*;

use crate::events::WsEvent;
use crate::text::str_eq;

verus! {

// ─── Records ─────────────────────────────────────────────────────────────────

/// Persistent record of a peer device.
#[derive(Debug)]
pub struct Device {
    pub id: String,
    pub name: String,
    pub ip: String,
    pub mac: Option<String>,
    pub hostname: Option<String>,
    pub platform: Option<String>,
    pub role_id: Option<String>,
    /// pending | approved | denied | suspended | offline
    pub status: String,
    /// mdns | manual
    pub discovery_method: String,
    pub allocated_memory_mb: i64,
    pub last_seen: Option<String>,
    pub first_seen: String,
    pub created_at: String,
    pub rpc_port: i64,
    /// offline | connecting | ready | error
    pub rpc_status: String,
    pub memory_total_mb: i64,
    pub memory_free_mb: i64,
}

/// Quota template a device may reference.
#[derive(Debug)]
pub struct Role {
    pub id: String,
    pub name: String,
    pub max_memory_mb: i64,
    pub can_pull_models: bool,
    pub trust_level: i64,
    pub created_at: String,
}

/// Append-only audit record of a granted memory reservation.
#[derive(Debug)]
pub struct Allocation {
    pub id: String,
    pub device_id: String,
    pub memory_mb: i64,
    pub provider: String,
    pub granted_at: String,
    pub revoked_at: Option<String>,
}

/// String-keyed configuration entry.
#[derive(Debug)]
pub struct Setting {
    pub key: String,
    pub value: String,
}

/// Body of a manual device-add request.
#[derive(Debug)]
pub struct AddDeviceRequest {
    pub name: String,
    pub ip: String,
    pub mac: Option<String>,
}

/// Body of a device-approval request.
#[derive(Debug)]
pub struct ApproveDeviceRequest {
    pub role_id: Option<String>,
}

/// Body of a memory-allocation request.
#[derive(Debug)]
pub struct AllocateMemoryRequest {
    pub memory_mb: i64,
}

/// Body of a role create or update request.
#[derive(Debug)]
pub struct UpsertRoleRequest {
    pub name: String,
    pub max_memory_mb: i64,
    pub can_pull_models: bool,
    pub trust_level: i64,
}

/// Body of a settings write.
#[derive(Debug)]
pub struct UpdateSettingRequest {
    pub value: String,
}

/// Possible device states.
#[derive(Debug, Clone, PartialEq, Eq, Structural)]
pub enum DeviceStatus {
    Pending,
    Approved,
    Denied,
    Suspended,
    Offline,
}

impl DeviceStatus {
    /// The string stored for this status.
    pub fn as_str(&self) -> (r: &'static str)
        ensures
            r@ == match self {
                DeviceStatus::Pending => "pending"@,
                DeviceStatus::Approved => "approved"@,
                DeviceStatus::Denied => "denied"@,
                DeviceStatus::Suspended => "suspended"@,
                DeviceStatus::Offline => "offline"@,
            },
    {
        match self {
            DeviceStatus::Pending => "pending",
            DeviceStatus::Approved => "approved",
            DeviceStatus::Denied => "denied",
            DeviceStatus::Suspended => "suspended",
            DeviceStatus::Offline => "offline",
        }
    }
}

/// Why a registry operation was refused.
#[derive(Debug, Clone, Copy, PartialEq, Eq, Structural)]
pub enum RegistryError {
    /// No device or role under the given identifier.
    NotFound,
    /// The device must be approved first.
    NotApproved,
    /// The device references no stored role, so no cap could apply.
    NoRole,
    /// The requested memory exceeds the role's cap.
    QuotaExceeded,
    /// Built-in roles cannot be deleted.
    BuiltInRole,
    /// The settings key is not writable.
    UnknownSettingKey,
}

// ─── Fresh identifiers and timestamps ────────────────────────────────────────

/// Relies on uuid::Uuid::new_v4 and its Display impl: a fresh random
/// identifier, rendered in the 36-character hyphenated form.
#[verifier::external_body]
fn new_uuid() -> (r: String)
    ensures
        r@.len() == 36,
{
    uuid::Uuid::new_v4().to_string()
}

/// Relies on chrono::Utc::now().to_rfc3339: the current UTC time in
/// RFC 3339 form.  What it holds depends on the clock at the call.
#[verifier::external_body]
fn now_rfc3339() -> String {
    chrono::Utc::now().to_rfc3339()
}

// ─── Value helpers ───────────────────────────────────────────────────────────

/// The stored value under a settings key, if any.
pub open spec fn setting_lookup(settings: Seq<Setting>, key: Seq<char>) -> Option<Seq<char>> {
    if exists|j: int| 0 <= j < settings.len() && (#[trigger] settings[j]).key@ == key {
        let j = choose|j: int| 0 <= j < settings.len() && (#[trigger] settings[j]).key@ == key;
        Some(settings[j].value@)
    } else {
        None
    }
}

/// Replacing or appending one settings entry changes that key alone.
proof fn lemma_settings_framing(
    olds: Seq<Setting>,
    news: Seq<Setting>,
    j: int,
    e: Setting,
    key: Seq<char>,
)
    requires
        forall|i1: int, i2: int|
            0 <= i1 < i2 < olds.len() ==> (#[trigger] olds[i1]).key@ != (#[trigger] olds[i2]).key@,
        0 <= j <= olds.len(),
        e.key@ == key,
        j < olds.len() ==> olds[j].key@ == key && news == olds.update(j, e),
        j == olds.len() ==> (forall|i: int| 0 <= i < olds.len() ==> (#[trigger] olds[i]).key@ != key)
            && news == olds.push(e),
    ensures
        forall|i1: int, i2: int|
            0 <= i1 < i2 < news.len() ==> (#[trigger] news[i1]).key@ != (#[trigger] news[i2]).key@,
        setting_lookup(news, key) == Some(e.value@),
        forall|k: Seq<char>|
            k != key ==> #[trigger] setting_lookup(news, k) == setting_lookup(olds, k),
{
    assert forall|i1: int, i2: int|
        0 <= i1 < i2 < news.len() implies (#[trigger] news[i1]).key@ != (#[trigger] news[i2]).key@ by {
        if j < olds.len() {
            if i1 != j && i2 != j {
                assert(news[i1] == olds[i1] && news[i2] == olds[i2]);
            } else if i1 == j {
                assert(news[i2] == olds[i2] && olds[j].key@ == key);
            } else {
                assert(news[i1] == olds[i1] && olds[j].key@ == key);
            }
        } else {
            if i2 < olds.len() {
                assert(news[i1] == olds[i1] && news[i2] == olds[i2]);
            } else {
                assert(news[i1] == olds[i1] && news[i2] == e);
            }
        }
    }
    assert(0 <= j < news.len() && news[j].key@ == key);
    let w = choose|i: int| 0 <= i < news.len() && (#[trigger] news[i]).key@ == key;
    assert(w == j);
    assert(setting_lookup(news, key) == Some(e.value@));
    assert forall|k: Seq<char>| k != key implies #[trigger] setting_lookup(news, k)
        == setting_lookup(olds, k) by {
        if exists|i: int| 0 <= i < news.len() && (#[trigger] news[i]).key@ == k {
            let wn = choose|i: int| 0 <= i < news.len() && (#[trigger] news[i]).key@ == k;
            assert(wn != j);
            assert(news[wn] == olds[wn]);
            assert(0 <= wn < olds.len() && olds[wn].key@ == k);
            let wo = choose|i: int| 0 <= i < olds.len() && (#[trigger] olds[i]).key@ == k;
            assert(wo == wn);
            assert(setting_lookup(olds, k) == Some(olds[wn].value@));
        } else {
            assert forall|i: int| 0 <= i < olds.len() implies (#[trigger] olds[i]).key@ != k by {
                if j < olds.len() && i == j {
                    assert(olds[j].key@ == key);
                } else {
                    assert(olds[i] == news[i]);
                }
            }
        }
    }
}

/// Well-formedness only watches identifiers and addresses: a change that
/// keeps them keeps well-formedness.
proof fn lemma_wf_same_keys(a: Registry, b: Registry)
    requires
        a.wf(),
        b.devices@.len() == a.devices@.len(),
        forall|i: int|
            0 <= i < a.devices@.len() ==> (#[trigger] b.devices@[i]).id@ == a.devices@[i].id@
                && b.devices@[i].ip@ == a.devices@[i].ip@,
        b.roles@ == a.roles@,
        b.settings@ == a.settings@,
    ensures
        b.wf(),
{
}

/// The quota invariant only watches role references, allocated memory and
/// the roles themselves.
proof fn lemma_quota_same(a: Registry, b: Registry)
    requires
        a.quota_ok(),
        b.devices@.len() == a.devices@.len(),
        forall|i: int|
            0 <= i < a.devices@.len() ==> opt_view((#[trigger] b.devices@[i]).role_id) == opt_view(
                a.devices@[i].role_id,
            ) && b.devices@[i].allocated_memory_mb == a.devices@[i].allocated_memory_mb,
        b.roles@ == a.roles@,
    ensures
        b.quota_ok(),
{
    assert forall|i: int, j: int|
        #![trigger b.devices@[i], b.roles@[j]]
        0 <= i < b.devices@.len() && 0 <= j < b.roles@.len() && opt_view(
            b.devices@[i].role_id,
        ) == Some(b.roles@[j].id@) implies b.devices@[i].allocated_memory_mb
        <= b.roles@[j].max_memory_mb by {
        assert(opt_view(a.devices@[i].role_id) == Some(a.roles@[j].id@));
        assert(a.devices@[i].allocated_memory_mb <= a.roles@[j].max_memory_mb);
    }
}

/// Under unique settings keys, "the key is stored with this value" is
/// exactly what the lookup returns.
proof fn lemma_setting_is_iff(r: Registry, key: Seq<char>, val: Seq<char>)
    requires
        r.wf(),
    ensures
        r.setting_is(key, val) <==> setting_lookup(r.settings@, key) == Some(val),
{
    if r.setting_is(key, val) {
        let j = choose|j: int|
            0 <= j < r.settings@.len() && (#[trigger] r.settings@[j]).key@ == key
                && r.settings@[j].value@ == val;
        let w = choose|i: int| 0 <= i < r.settings@.len() && (#[trigger] r.settings@[i]).key@ == key;
        assert(0 <= w < r.settings@.len() && r.settings@[w].key@ == key);
        assert(w == j);
    }
    if setting_lookup(r.settings@, key) == Some(val) {
        let w = choose|i: int| 0 <= i < r.settings@.len() && (#[trigger] r.settings@[i]).key@ == key;
        assert(0 <= w < r.settings@.len() && r.settings@[w].key@ == key && r.settings@[w].value@
            == val);
    }
}

/// View of an optional string.
pub open spec fn opt_view(o: Option<String>) -> Option<Seq<char>> {
    match o {
        Some(s) => Some(s@),
        None => None,
    }
}

fn clone_opt_string(o: &Option<String>) -> (r: Option<String>)
    ensures
        r == *o,
{
    match o {
        Some(s) => Some(s.clone()),
        None => None,
    }
}

/// Clone of a device record, equal to the original.
pub fn clone_device(d: &Device) -> (r: Device)
    ensures
        r == *d,
{
    Device {
        id: d.id.clone(),
        name: d.name.clone(),
        ip: d.ip.clone(),
        mac: clone_opt_string(&d.mac),
        hostname: clone_opt_string(&d.hostname),
        platform: clone_opt_string(&d.platform),
        role_id: clone_opt_string(&d.role_id),
        status: d.status.clone(),
        discovery_method: d.discovery_method.clone(),
        allocated_memory_mb: d.allocated_memory_mb,
        last_seen: clone_opt_string(&d.last_seen),
        first_seen: d.first_seen.clone(),
        created_at: d.created_at.clone(),
        rpc_port: d.rpc_port,
        rpc_status: d.rpc_status.clone(),
        memory_total_mb: d.memory_total_mb,
        memory_free_mb: d.memory_free_mb,
    }
}

/// Clone of a role record, equal to the original.
pub fn clone_role(r: &Role) -> (c: Role)
    ensures
        c == *r,
{
    Role {
        id: r.id.clone(),
        name: r.name.clone(),
        max_memory_mb: r.max_memory_mb,
        can_pull_models: r.can_pull_models,
        trust_level: r.trust_level,
        created_at: r.created_at.clone(),
    }
}

/// A device record with only its last-seen timestamp replaced.
pub open spec fn touch_last_seen(d: Device, now: String) -> Device {
    Device {
        id: d.id,
        name: d.name,
        ip: d.ip,
        mac: d.mac,
        hostname: d.hostname,
        platform: d.platform,
        role_id: d.role_id,
        status: d.status,
        discovery_method: d.discovery_method,
        allocated_memory_mb: d.allocated_memory_mb,
        last_seen: Some(now),
        first_seen: d.first_seen,
        created_at: d.created_at,
        rpc_port: d.rpc_port,
        rpc_status: d.rpc_status,
        memory_total_mb: d.memory_total_mb,
        memory_free_mb: d.memory_free_mb,
    }
}

// ─── Registry ────────────────────────────────────────────────────────────────

/// The registry: devices, roles, allocations and settings.
///
/// The store behind it persists each write before the matching event is
/// handed out; in this model the state change and the returned events are
/// produced together, state first.
#[derive(Debug)]
pub struct Registry {
    pub devices: Vec<Device>,
    pub roles: Vec<Role>,
    pub allocations: Vec<Allocation>,
    pub settings: Vec<Setting>,
}

impl Registry {
    /// Identifiers and addresses are unique across the stored records.
    pub open spec fn wf(&self) -> bool {
        &&& forall|i: int, j: int|
            0 <= i < j < self.devices@.len() ==> #[trigger] self.devices@[i].id@ != #[trigger] self.devices@[j].id@
        &&& forall|i: int, j: int|
            0 <= i < j < self.devices@.len() ==> #[trigger] self.devices@[i].ip@ != #[trigger] self.devices@[j].ip@
        &&& forall|i: int, j: int|
            0 <= i < j < self.roles@.len() ==> #[trigger] self.roles@[i].id@ != #[trigger] self.roles@[j].id@
        &&& forall|i: int, j: int|
            0 <= i < j < self.settings@.len() ==> #[trigger] self.settings@[i].key@ != #[trigger] self.settings@[j].key@
    }

    /// Every device that references a stored role respects its memory cap.
    pub open spec fn quota_ok(&self) -> bool {
        forall|i: int, j: int|
            #![trigger self.devices@[i], self.roles@[j]]
            0 <= i < self.devices@.len() && 0 <= j < self.roles@.len() && opt_view(
                self.devices@[i].role_id,
            ) == Some(self.roles@[j].id@) ==> self.devices@[i].allocated_memory_mb
                <= self.roles@[j].max_memory_mb
    }

    /// The stored state reflects the event: whatever record the event
    /// describes already reads as the event says.
    pub open spec fn event_reflected(&self, e: WsEvent) -> bool {
        match e {
            WsEvent::DeviceApproved { device_id, .. } => forall|i: int|
                0 <= i < self.devices@.len() && (#[trigger] self.devices@[i]).id@ == device_id@
                    ==> self.devices@[i].status@ == "approved"@,
            WsEvent::DevicePendingApproval { device_id, .. } => forall|i: int|
                0 <= i < self.devices@.len() && (#[trigger] self.devices@[i]).id@ == device_id@
                    ==> self.devices@[i].status@ == "pending"@,
            WsEvent::DeviceDenied { device_id } => forall|i: int|
                0 <= i < self.devices@.len() && (#[trigger] self.devices@[i]).id@ == device_id@
                    ==> self.devices@[i].status@ == "denied"@,
            WsEvent::MemoryAllocated { device_id, memory_mb } => forall|i: int|
                0 <= i < self.devices@.len() && (#[trigger] self.devices@[i]).id@ == device_id@
                    ==> self.devices@[i].allocated_memory_mb == memory_mb,
            _ => true,
        }
    }

    /// All of the returned events are reflected by the state.
    pub open spec fn events_reflected(&self, evs: Seq<WsEvent>) -> bool {
        forall|k: int| 0 <= k < evs.len() ==> self.event_reflected(#[trigger] evs[k])
    }

    /// A fresh registry, holding only the three built-in roles.
    ///
    /// The built-in roles are seeded with this controller's default caps;
    /// they can be edited but never deleted.
    pub fn new() -> (r: Registry)
        ensures
            r.wf(),
            r.quota_ok(),
            r.devices@.len() == 0,
            r.allocations@.len() == 0,
            r.settings@.len() == 0,
            r.roles@.len() == 3,
            r.roles@[0].id@ == "role-admin"@ && r.roles@[0].name@ == "Admin"@
                && r.roles@[0].max_memory_mb == 1048576 && r.roles@[0].can_pull_models
                && r.roles@[0].trust_level == 100,
            r.roles@[1].id@ == "role-user"@ && r.roles@[1].name@ == "User"@
                && r.roles@[1].max_memory_mb == 32768 && r.roles@[1].can_pull_models
                && r.roles@[1].trust_level == 50,
            r.roles@[2].id@ == "role-guest"@ && r.roles@[2].name@ == "Guest"@
                && r.roles@[2].max_memory_mb == 8192 && !r.roles@[2].can_pull_models
                && r.roles@[2].trust_level == 10,
    {
        let now = now_rfc3339();
        let mut roles: Vec<Role> = Vec::new();
        roles.push(
            Role {
                id: String::from_str("role-admin"),
                name: String::from_str("Admin"),
                max_memory_mb: 1048576,
                can_pull_models: true,
                trust_level: 100,
                created_at: now.clone(),
            },
        );
        roles.push(
            Role {
                id: String::from_str("role-user"),
                name: String::from_str("User"),
                max_memory_mb: 32768,
                can_pull_models: true,
                trust_level: 50,
                created_at: now.clone(),
            },
        );
        roles.push(
            Role {
                id: String::from_str("role-guest"),
                name: String::from_str("Guest"),
                max_memory_mb: 8192,
                can_pull_models: false,
                trust_level: 10,
                created_at: now,
            },
        );
        let r = Registry {
            devices: Vec::new(),
            roles,
            allocations: Vec::new(),
            settings: Vec::new(),
        };
        proof {
            reveal_strlit("role-admin");
            reveal_strlit("role-user");
            reveal_strlit("role-guest");
            assert("role-admin"@.len() == 10);
            assert("role-user"@.len() == 9);
            assert("role-guest"@.len() == 10);
            assert("role-admin"@ != "role-guest"@) by {
                assert("role-admin"@[5] == 'a');
                assert("role-guest"@[5] == 'g');
            }
        }
        r
    }

    // ─── Lookups ─────────────────────────────────────────────────────────

    fn find_device_by_id(&self, id: &str) -> (r: Option<usize>)
        ensures
            r matches Some(j) ==> j < self.devices@.len() && self.devices@[j as int].id@ == id@,
            r is None ==> forall|j: int|
                0 <= j < self.devices@.len() ==> (#[trigger] self.devices@[j]).id@ != id@,
    {
        let mut i: usize = 0;
        while i < self.devices.len()
            invariant
                i <= self.devices@.len(),
                forall|j: int| 0 <= j < i ==> (#[trigger] self.devices@[j]).id@ != id@,
            decreases self.devices@.len() - i,
        {
            if str_eq(self.devices[i].id.as_str(), id) {
                return Some(i);
            }
            i += 1;
        }
        None
    }

    fn find_device_by_ip(&self, ip: &str) -> (r: Option<usize>)
        ensures
            r matches Some(j) ==> j < self.devices@.len() && self.devices@[j as int].ip@ == ip@,
            r is None ==> forall|j: int|
                0 <= j < self.devices@.len() ==> (#[trigger] self.devices@[j]).ip@ != ip@,
    {
        let mut i: usize = 0;
        while i < self.devices.len()
            invariant
                i <= self.devices@.len(),
                forall|j: int| 0 <= j < i ==> (#[trigger] self.devices@[j]).ip@ != ip@,
            decreases self.devices@.len() - i,
        {
            if str_eq(self.devices[i].ip.as_str(), ip) {
                return Some(i);
            }
            i += 1;
        }
        None
    }

    fn find_role_index(&self, id: &str) -> (r: Option<usize>)
        ensures
            r matches Some(j) ==> j < self.roles@.len() && self.roles@[j as int].id@ == id@,
            r is None ==> forall|j: int|
                0 <= j < self.roles@.len() ==> (#[trigger] self.roles@[j]).id@ != id@,
    {
        let mut i: usize = 0;
        while i < self.roles.len()
            invariant
                i <= self.roles@.len(),
                forall|j: int| 0 <= j < i ==> (#[trigger] self.roles@[j]).id@ != id@,
            decreases self.roles@.len() - i,
        {
            if str_eq(self.roles[i].id.as_str(), id) {
                return Some(i);
            }
            i += 1;
        }
        None
    }

    fn find_setting_index(&self, key: &str) -> (r: Option<usize>)
        ensures
            r matches Some(j) ==> j < self.settings@.len() && self.settings@[j as int].key@ == key@,
            r is None ==> forall|j: int|
                0 <= j < self.settings@.len() ==> (#[trigger] self.settings@[j]).key@ != key@,
    {
        let mut i: usize = 0;
        while i < self.settings.len()
            invariant
                i <= self.settings@.len(),
                forall|j: int| 0 <= j < i ==> (#[trigger] self.settings@[j]).key@ != key@,
            decreases self.settings@.len() - i,
        {
            if str_eq(self.settings[i].key.as_str(), key) {
                return Some(i);
            }
            i += 1;
        }
        None
    }

    /// The stored value of a settings key, if any.
    pub open spec fn setting_view(&self, key: Seq<char>) -> Option<Seq<char>> {
        setting_lookup(self.settings@, key)
    }

    /// The settings key `key` is stored with the value `val`.
    pub open spec fn setting_is(&self, key: Seq<char>, val: Seq<char>) -> bool {
        exists|j: int|
            0 <= j < self.settings@.len() && (#[trigger] self.settings@[j]).key@ == key
                && self.settings@[j].value@ == val
    }

    /// Read a setting.
    pub fn get_setting(&self, key: &str) -> (r: Option<String>)
        requires
            self.wf(),
        ensures
            opt_view(r) == self.setting_view(key@),
    {
        match self.find_setting_index(key) {
            Some(j) => Some(self.settings[j].value.clone()),
            None => None,
        }
    }

    /// Write a setting, inserting or replacing its entry.
    pub fn set_setting(&mut self, key: &str, value: &str)
        requires
            old(self).wf(),
        ensures
            final(self).wf(),
            final(self).devices == old(self).devices,
            final(self).roles == old(self).roles,
            final(self).allocations == old(self).allocations,
            final(self).setting_view(key@) == Some(value@),
            forall|k: Seq<char>|
                k != key@ ==> #[trigger] final(self).setting_view(k) == old(self).setting_view(k),
    {
        let entry = Setting { key: String::from_str(key), value: String::from_str(value) };
        let ghost e = entry;
        let ghost olds = self.settings@;
        match self.find_setting_index(key) {
            Some(j) => {
                let _ = self.settings.remove(j);
                self.settings.insert(j, entry);
                proof {
                    assert(self.settings@ =~= olds.update(j as int, e));
                    lemma_settings_framing(olds, self.settings@, j as int, e, key@);
                }
            },
            None => {
                self.settings.push(entry);
                proof {
                    assert(self.settings@ =~= olds.push(e));
                    lemma_settings_framing(olds, self.settings@, olds.len() as int, e, key@);
                }
            },
        }
    }

    // ─── Registration ────────────────────────────────────────────────────

    /// Register a newly discovered device.
    ///
    /// A device already stored under the same address only has its last-seen
    /// timestamp refreshed: no new record and no new event.  A new device is
    /// stored as approved when the `trust_local_network` setting is "true"
    /// (with the default role from settings, "role-guest" otherwise), else as
    /// pending, and the matching event is returned.
    ///
    /// `new_id` is the freshly drawn identifier for a new record and `now`
    /// the current timestamp; both come from the caller.
    pub fn register_device(
        &mut self,
        name: String,
        ip: String,
        mac: Option<String>,
        discovery_method: &str,
        new_id: String,
        now: String,
    ) -> (r: (Device, Vec<WsEvent>))
        requires
            old(self).wf(),
        ensures
            final(self).wf(),
            final(self).roles == old(self).roles,
            final(self).allocations == old(self).allocations,
            final(self).settings == old(self).settings,
            old(self).quota_ok() && (forall|k: int|
                0 <= k < old(self).roles@.len() ==> (#[trigger] old(
                    self,
                ).roles@[k]).max_memory_mb >= 0) ==> final(self).quota_ok(),
            final(self).events_reflected(r.1@),
            ({
                let devs = old(self).devices@;
                if exists|j: int| 0 <= j < devs.len() && (#[trigger] devs[j]).ip@ == ip@ {
                    &&& r.1@.len() == 0
                    &&& exists|j: int|
                        {
                            &&& 0 <= j < devs.len()
                            &&& (#[trigger] devs[j]).ip@ == ip@
                            &&& final(self).devices@ == devs.update(
                                j,
                                touch_last_seen(devs[j], now),
                            )
                            &&& r.0 == final(self).devices@[j]
                        }
                } else {
                    let trust = old(self).setting_is(
                        "trust_local_network"@,
                        "true"@,
                    );
                    &&& r.0.id == new_id
                    &&& r.0.name == name
                    &&& r.0.ip == ip
                    &&& r.0.mac == mac
                    &&& r.0.hostname == None::<String>
                    &&& r.0.platform == None::<String>
                    &&& r.0.status@ == if trust {
                        "approved"@
                    } else {
                        "pending"@
                    }
                    &&& opt_view(r.0.role_id) == if trust {
                        Some(old(self).default_role_view())
                    } else {
                        None
                    }
                    &&& r.0.discovery_method@ == discovery_method@
                    &&& r.0.allocated_memory_mb == 0
                    &&& r.0.last_seen == Some(now)
                    &&& r.0.first_seen == now
                    &&& r.0.created_at == now
                    &&& r.0.rpc_port == 8181
                    &&& r.0.rpc_status@ == "offline"@
                    &&& r.0.memory_total_mb == 0
                    &&& r.0.memory_free_mb == 0
                    &&& if forall|j: int|
                        0 <= j < devs.len() ==> (#[trigger] devs[j]).id@ != new_id@ {
                        &&& final(self).devices@ == devs.push(r.0)
                        &&& r.1@.len() == 1
                        &&& if trust {
                            r.1@[0] matches WsEvent::DeviceApproved { device_id, name: n, ip: i }
                                && device_id == r.0.id && n == r.0.name && i == r.0.ip
                        } else {
                            r.1@[0] matches WsEvent::DevicePendingApproval {
                                device_id,
                                name: n,
                                ip: i,
                                discovery_method: m,
                            } && device_id == r.0.id && n == r.0.name && i == r.0.ip && m@
                                == discovery_method@
                        }
                    } else {
                        final(self).devices@ == devs && r.1@.len() == 0
                    }
                }
            }),
    {
        if let Some(j) = self.find_device_by_ip(ip.as_str()) {
            let ghost old_devs = self.devices@;
            let mut d = self.devices.remove(j);
            d.last_seen = Some(now);
            let ret = clone_device(&d);
            self.devices.insert(j, d);
            proof {
                assert(self.devices@ =~= old_devs.update(
                    j as int,
                    touch_last_seen(old_devs[j as int], now),
                ));
                lemma_wf_same_keys(*old(self), *self);
                if old(self).quota_ok() {
                    lemma_quota_same(*old(self), *self);
                }
            }
            return (ret, Vec::new());
        }

        let trust = match self.get_setting("trust_local_network") {
            Some(v) => str_eq(v.as_str(), "true"),
            None => false,
        };
        proof {
            lemma_setting_is_iff(*self, "trust_local_network"@, "true"@);
        }
        let default_role = match self.get_setting("default_role") {
            Some(v) => v,
            None => String::from_str("role-guest"),
        };
        let status = if trust {
            String::from_str("approved")
        } else {
            String::from_str("pending")
        };
        let role_id = if trust {
            Some(default_role)
        } else {
            None
        };
        let d = Device {
            id: new_id,
            name,
            ip,
            mac,
            hostname: None,
            platform: None,
            role_id,
            status,
            discovery_method: String::from_str(discovery_method),
            allocated_memory_mb: 0,
            last_seen: Some(now.clone()),
            first_seen: now.clone(),
            created_at: now,
            rpc_port: 8181,
            rpc_status: String::from_str("offline"),
            memory_total_mb: 0,
            memory_free_mb: 0,
        };
        let ret = clone_device(&d);
        let ghost gd = d;
        // The store keys records by identifier: a colliding fresh id would
        // neither insert nor deserve an event.
        if self.find_device_by_id(d.id.as_str()).is_none() {
            self.devices.push(d);
            proof {
                let a = *old(self);
                let b = *self;
                assert(b.devices@ =~= a.devices@.push(gd));
                assert forall|i1: int, i2: int| 0 <= i1 < i2 < b.devices@.len() implies (
                #[trigger] b.devices@[i1]).id@ != (#[trigger] b.devices@[i2]).id@ by {
                    if i2 < a.devices@.len() {
                        assert(a.devices@[i1].id@ != a.devices@[i2].id@);
                    } else {
                        assert(b.devices@[i2] == gd);
                        assert(a.devices@[i1].id@ != gd.id@);
                    }
                }
                assert forall|i1: int, i2: int| 0 <= i1 < i2 < b.devices@.len() implies (
                #[trigger] b.devices@[i1]).ip@ != (#[trigger] b.devices@[i2]).ip@ by {
                    if i2 < a.devices@.len() {
                        assert(a.devices@[i1].ip@ != a.devices@[i2].ip@);
                    } else {
                        assert(b.devices@[i2] == gd);
                        assert(a.devices@[i1].ip@ != gd.ip@);
                    }
                }
                if a.quota_ok() && (forall|k: int|
                    0 <= k < a.roles@.len() ==> (#[trigger] a.roles@[k]).max_memory_mb >= 0) {
                    assert forall|i: int, j2: int|
                        #![trigger b.devices@[i], b.roles@[j2]]
                        0 <= i < b.devices@.len() && 0 <= j2 < b.roles@.len() && opt_view(
                            b.devices@[i].role_id,
                        ) == Some(b.roles@[j2].id@) implies b.devices@[i].allocated_memory_mb
                        <= b.roles@[j2].max_memory_mb by {
                        if i < a.devices@.len() {
                            assert(opt_view(a.devices@[i].role_id) == Some(a.roles@[j2].id@));
                            assert(a.devices@[i].allocated_memory_mb
                                <= a.roles@[j2].max_memory_mb);
                        } else {
                            assert(b.devices@[i] == gd);
                            assert(gd.allocated_memory_mb == 0);
                            assert(a.roles@[j2].max_memory_mb >= 0);
                        }
                    }
                }
            }
            let mut events: Vec<WsEvent> = Vec::new();
            if trust {
                events.push(
                    WsEvent::DeviceApproved {
                        device_id: ret.id.clone(),
                        name: ret.name.clone(),
                        ip: ret.ip.clone(),
                    },
                );
            } else {
                events.push(
                    WsEvent::DevicePendingApproval {
                        device_id: ret.id.clone(),
                        name: ret.name.clone(),
                        ip: ret.ip.clone(),
                        discovery_method: String::from_str(discovery_method),
                    },
                );
            }
            (ret, events)
        } else {
            (ret, Vec::new())
        }
    }

    /// Register a freshly discovered device, drawing the identifier and
    /// timestamp here.  Behaves as `register_device` with a fresh random
    /// identifier and the current UTC time.
    pub fn register_discovered(
        &mut self,
        name: String,
        ip: String,
        mac: Option<String>,
        discovery_method: &str,
    ) -> (r: (Device, Vec<WsEvent>))
        requires
            old(self).wf(),
        ensures
            final(self).wf(),
            final(self).roles == old(self).roles,
            final(self).allocations == old(self).allocations,
            final(self).settings == old(self).settings,
            old(self).quota_ok() && (forall|k: int|
                0 <= k < old(self).roles@.len() ==> (#[trigger] old(
                    self,
                ).roles@[k]).max_memory_mb >= 0) ==> final(self).quota_ok(),
            final(self).events_reflected(r.1@),
            ({
                let devs = old(self).devices@;
                if exists|j: int| 0 <= j < devs.len() && (#[trigger] devs[j]).ip@ == ip@ {
                    &&& r.1@.len() == 0
                    &&& exists|j: int|
                        {
                            &&& 0 <= j < devs.len()
                            &&& (#[trigger] devs[j]).ip@ == ip@
                            &&& r.0 == final(self).devices@[j]
                            &&& r.0.id == devs[j].id
                            &&& final(self).devices@ == devs.update(
                                j,
                                touch_last_seen(devs[j], r.0.first_seen),
                            ) || final(self).devices@ == devs.update(j, final(self).devices@[j])
                        }
                } else {
                    let trust = old(self).setting_is("trust_local_network"@, "true"@);
                    &&& r.0.name == name
                    &&& r.0.ip == ip
                    &&& r.0.mac == mac
                    &&& r.0.status@ == if trust {
                        "approved"@
                    } else {
                        "pending"@
                    }
                    &&& opt_view(r.0.role_id) == if trust {
                        Some(old(self).default_role_view())
                    } else {
                        None
                    }
                    &&& r.0.discovery_method@ == discovery_method@
                    &&& r.0.allocated_memory_mb == 0
                    &&& r.0.rpc_port == 8181
                    &&& if forall|j: int|
                        0 <= j < devs.len() ==> (#[trigger] devs[j]).id@ != r.0.id@ {
                        &&& final(self).devices@ == devs.push(r.0)
                        &&& r.1@.len() == 1
                    } else {
                        final(self).devices@ == devs && r.1@.len() == 0
                    }
                }
            }),
    {
        let new_id = new_uuid();
        let now = now_rfc3339();
        self.register_device(name, ip, mac, discovery_method, new_id, now)
    }

    /// The configured default role, "role-guest" when unset.
    pub open spec fn default_role_view(&self) -> Seq<char> {
        match self.setting_view("default_role"@) {
            Some(v) => v,
            None => "role-guest"@,
        }
    }

    // ─── Memory allocation ───────────────────────────────────────────────

    /// Allocate memory to an approved device, enforcing its role's cap.
    /// A device that references no stored role cannot be allocated memory.
    ///
    /// The request succeeds exactly when the device is stored, approved,
    /// references a stored role, and the requested memory is within that
    /// role's cap.  On success the device's allocated memory is set to
    /// `memory_mb`, the device's previously active allocation records are
    /// revoked, one new active record is appended under `alloc_id` at time
    /// `now`, and exactly one allocation event is returned.
    pub fn allocate_memory(
        &mut self,
        device_id: &str,
        memory_mb: i64,
        alloc_id: String,
        now: String,
    ) -> (r: Result<Vec<WsEvent>, RegistryError>)
        requires
            old(self).wf(),
        ensures
            final(self).wf(),
            final(self).roles == old(self).roles,
            final(self).settings == old(self).settings,
            old(self).quota_ok() ==> final(self).quota_ok(),
            r == Err::<Vec<WsEvent>, RegistryError>(RegistryError::NotFound) <==> (forall|j: int|
                0 <= j < old(self).devices@.len() ==> (#[trigger] old(self).devices@[j]).id@
                    != device_id@),
            r == Err::<Vec<WsEvent>, RegistryError>(RegistryError::NotApproved) <==> (exists|j: int|
                0 <= j < old(self).devices@.len() && (#[trigger] old(self).devices@[j]).id@
                    == device_id@ && old(self).devices@[j].status@ != "approved"@),
            r == Err::<Vec<WsEvent>, RegistryError>(RegistryError::NoRole) <==> (exists|j: int|
                0 <= j < old(self).devices@.len() && (#[trigger] old(self).devices@[j]).id@
                    == device_id@ && old(self).devices@[j].status@ == "approved"@ && !old(
                    self,
                ).device_role_stored(old(self).devices@[j])),
            r == Err::<Vec<WsEvent>, RegistryError>(RegistryError::QuotaExceeded) <==> (exists|
                j: int,
                k: int,
            |
                #![trigger old(self).devices@[j], old(self).roles@[k]]
                0 <= j < old(self).devices@.len() && 0 <= k < old(self).roles@.len() && old(
                    self,
                ).devices@[j].id@ == device_id@ && old(self).devices@[j].status@ == "approved"@
                    && opt_view(old(self).devices@[j].role_id) == Some(old(self).roles@[k].id@)
                    && memory_mb > old(self).roles@[k].max_memory_mb),
            r is Ok <==> (exists|j: int, k: int|
                #![trigger old(self).devices@[j], old(self).roles@[k]]
                0 <= j < old(self).devices@.len() && 0 <= k < old(self).roles@.len() && old(
                    self,
                ).devices@[j].id@ == device_id@ && old(self).devices@[j].status@ == "approved"@
                    && opt_view(old(self).devices@[j].role_id) == Some(old(self).roles@[k].id@)
                    && memory_mb <= old(self).roles@[k].max_memory_mb),
            r is Err ==> *final(self) == *old(self),
            r matches Ok(evs) ==> ({
                &&& exists|j: int|
                    {
                        &&& 0 <= j < old(self).devices@.len()
                        &&& (#[trigger] old(self).devices@[j]).id@ == device_id@
                        &&& old(self).devices@[j].status@ == "approved"@
                        &&& final(self).devices@ == old(self).devices@.update(
                            j,
                            final(self).devices@[j],
                        )
                        &&& final(self).devices@[j].allocated_memory_mb == memory_mb
                        &&& same_but_allocated(final(self).devices@[j], old(self).devices@[j])
                    }
                &&& final(self).allocations@.len() == old(self).allocations@.len() + 1
                &&& forall|i: int|
                    0 <= i < old(self).allocations@.len()
                        ==> #[trigger] final(self).allocations@[i] == revoke_for(
                        old(self).allocations@[i],
                        device_id@,
                        now,
                    )
                &&& ({
                    let last = final(self).allocations@.last();
                    &&& last.id == alloc_id
                    &&& last.device_id@ == device_id@
                    &&& last.memory_mb == memory_mb
                    &&& last.provider@ == "system_ram"@
                    &&& last.granted_at == now
                    &&& last.revoked_at == None::<String>
                })
                &&& active_alloc_sum(final(self).allocations@, device_id@) == memory_mb
                &&& evs@.len() == 1
                &&& (evs@[0] matches WsEvent::MemoryAllocated { device_id: dv, memory_mb: m } && dv@
                    == device_id@ && m == memory_mb)
                &&& final(self).events_reflected(evs@)
            }),
    {
        let j = match self.find_device_by_id(device_id) {
            None => {
                return Err(RegistryError::NotFound);
            },
            Some(j) => j,
        };
        if !str_eq(self.devices[j].status.as_str(), "approved") {
            proof {
                let a = *self;
                assert forall|j2: int, k: int|
                    #![trigger a.devices@[j2], a.roles@[k]]
                    0 <= j2 < a.devices@.len() && 0 <= k < a.roles@.len() && a.devices@[j2].id@
                        == device_id@ implies a.devices@[j2].status@ != "approved"@ by {
                    if j2 != j {
                        assert(a.devices@[j2].id@ != a.devices@[j as int].id@);
                    }
                }
            }
            return Err(RegistryError::NotApproved);
        }
        let role_idx: Option<usize> = match &self.devices[j].role_id {
            Some(rid) => self.find_role_index(rid.as_str()),
            None => None,
        };
        let k = match role_idx {
            None => {
                proof {
                    let a = *self;
                    assert(!a.device_role_stored(a.devices@[j as int]));
                    assert forall|j2: int|
                        0 <= j2 < a.devices@.len() && (#[trigger] a.devices@[j2]).id@ == device_id@
                        implies j2 == j by {
                        if j2 != j {
                            assert(a.devices@[j2].id@ != a.devices@[j as int].id@);
                        }
                    }
                }
                return Err(RegistryError::NoRole);
            },
            Some(k) => k,
        };
        proof {
            let a = *self;
            assert(a.device_role_stored(a.devices@[j as int])) by {
                assert(opt_view(a.devices@[j as int].role_id) == Some(a.roles@[k as int].id@));
            }
            assert forall|j2: int|
                0 <= j2 < a.devices@.len() && (#[trigger] a.devices@[j2]).id@ == device_id@
                implies j2 == j by {
                if j2 != j {
                    assert(a.devices@[j2].id@ != a.devices@[j as int].id@);
                }
            }
        }
        if memory_mb > self.roles[k].max_memory_mb {
            return Err(RegistryError::QuotaExceeded);
        }
        proof {
            let a = *self;
            assert forall|j2: int, k2: int|
                #![trigger a.devices@[j2], a.roles@[k2]]
                0 <= j2 < a.devices@.len() && 0 <= k2 < a.roles@.len() && a.devices@[j2].id@
                    == device_id@ && a.devices@[j2].status@ == "approved"@ && opt_view(
                    a.devices@[j2].role_id,
                ) == Some(a.roles@[k2].id@) implies memory_mb <= a.roles@[k2].max_memory_mb by {
                if j2 != j {
                    assert(a.devices@[j2].id@ != a.devices@[j as int].id@);
                } else if k2 != k {
                    assert(a.roles@[k2].id@ != a.roles@[k as int].id@);
                }
            }
        }

        // Persist the new value on the device record.
        let ghost old_devs = self.devices@;
        let mut d = self.devices.remove(j);
        d.allocated_memory_mb = memory_mb;
        self.devices.insert(j, d);
        proof {
            assert(self.devices@ =~= old_devs.update(j as int, self.devices@[j as int]));
            lemma_wf_same_keys(*old(self), *self);
        }

        // Revoke the previously active records for this device.
        let ghost old_allocs = self.allocations@;
        let ghost devs_snapshot = self.devices@;
        let mut i: usize = 0;
        while i < self.allocations.len()
            invariant
                i <= self.allocations@.len(),
                self.allocations@.len() == old_allocs.len(),
                self.devices@ == devs_snapshot,
                self.roles == old(self).roles,
                self.settings == old(self).settings,
                forall|k2: int|
                    0 <= k2 < i ==> #[trigger] self.allocations@[k2] == revoke_for(
                        old_allocs[k2],
                        device_id@,
                        now,
                    ),
                forall|k2: int|
                    i <= k2 < old_allocs.len() ==> #[trigger] self.allocations@[k2]
                        == old_allocs[k2],
            decreases old_allocs.len() - i,
        {
            let ghost prev = self.allocations@;
            let matches_device = str_eq(self.allocations[i].device_id.as_str(), device_id);
            let active = self.allocations[i].revoked_at.is_none();
            if matches_device && active {
                let mut a = self.allocations.remove(i);
                a.revoked_at = Some(now.clone());
                self.allocations.insert(i, a);
                proof {
                    assert(self.allocations@ =~= prev.update(i as int, self.allocations@[i as int]));
                }
            }
            i += 1;
        }
        proof {
            assert(self.allocations@ =~= old_allocs.map(
                |i2: int, a: Allocation| revoke_for(a, device_id@, now),
            ));
            lemma_revoked_sum_zero(old_allocs, device_id@, now);
        }

        let ghost revoked = self.allocations@;
        self.allocations.push(
            Allocation {
                id: alloc_id,
                device_id: String::from_str(device_id),
                memory_mb,
                provider: String::from_str("system_ram"),
                granted_at: now,
                revoked_at: None,
            },
        );
        proof {
            assert(self.allocations@.drop_last() =~= revoked);
            if old(self).quota_ok() {
                let a = *old(self);
                let b = *self;
                assert forall|i2: int, k2: int|
                    #![trigger b.devices@[i2], b.roles@[k2]]
                    0 <= i2 < b.devices@.len() && 0 <= k2 < b.roles@.len() && opt_view(
                        b.devices@[i2].role_id,
                    ) == Some(b.roles@[k2].id@) implies b.devices@[i2].allocated_memory_mb
                    <= b.roles@[k2].max_memory_mb by {
                    if i2 != j {
                        assert(b.devices@[i2] == a.devices@[i2]);
                        assert(opt_view(a.devices@[i2].role_id) == Some(a.roles@[k2].id@));
                        assert(a.devices@[i2].allocated_memory_mb <= a.roles@[k2].max_memory_mb);
                    } else {
                        assert(a.devices@[i2].id@ == device_id@);
                        assert(a.devices@[i2].status@ == "approved"@);
                        assert(opt_view(a.devices@[i2].role_id) == Some(a.roles@[k2].id@));
                    }
                }
            }
            let b = *self;
            assert forall|i2: int|
                0 <= i2 < b.devices@.len() && (#[trigger] b.devices@[i2]).id@ == device_id@
                implies b.devices@[i2].allocated_memory_mb == memory_mb by {
                if i2 != j {
                    assert(b.devices@[i2] == old(self).devices@[i2]);
                    assert(old(self).devices@[i2].id@ != old(self).devices@[j as int].id@);
                }
            }
        }
        let mut evs: Vec<WsEvent> = Vec::new();
        evs.push(
            WsEvent::MemoryAllocated {
                device_id: String::from_str(device_id),
                memory_mb,
            },
        );
        Ok(evs)
    }

    // ─── Approval state machine ──────────────────────────────────────────

    /// Approve a device and assign it a role ("role-guest" when none is
    /// given).  Exactly one approved event is returned on success.
    pub fn approve_device(&mut self, device_id: &str, role_id: Option<&str>) -> (r: Result<
        (Device, Vec<WsEvent>),
        RegistryError,
    >)
        requires
            old(self).wf(),
        ensures
            final(self).wf(),
            final(self).roles == old(self).roles,
            final(self).allocations == old(self).allocations,
            final(self).settings == old(self).settings,
            r is Ok <==> exists|j: int|
                0 <= j < old(self).devices@.len() && (#[trigger] old(self).devices@[j]).id@
                    == device_id@,
            r is Err ==> *final(self) == *old(self) && r == Err::<(Device, Vec<WsEvent>), RegistryError>(RegistryError::NotFound),
            r matches Ok((d, evs)) ==> ({
                let role = spec_role_or_guest(role_id);
                exists|j: int|
                    {
                        &&& 0 <= j < old(self).devices@.len()
                        &&& (#[trigger] old(self).devices@[j]).id@ == device_id@
                        &&& final(self).devices@ == old(self).devices@.update(
                            j,
                            final(self).devices@[j],
                        )
                        &&& final(self).devices@[j].status@ == "approved"@
                        &&& opt_view(final(self).devices@[j].role_id) == Some(role)
                        &&& same_but_status_role(final(self).devices@[j], old(self).devices@[j])
                        &&& d == final(self).devices@[j]
                        &&& evs@.len() == 1
                        &&& (evs@[0] matches WsEvent::DeviceApproved { device_id: dv, name: n, ip: i }
                            && dv == d.id && n == d.name && i == d.ip)
                    }
            }),
            r matches Ok((d, evs)) ==> final(self).events_reflected(evs@),
            (r is Ok && old(self).quota_ok() && (forall|j: int, k: int|
                #![trigger old(self).devices@[j], old(self).roles@[k]]
                0 <= j < old(self).devices@.len() && 0 <= k < old(self).roles@.len() && old(
                    self,
                ).devices@[j].id@ == device_id@ && old(self).roles@[k].id@ == spec_role_or_guest(
                    role_id,
                ) ==> old(self).devices@[j].allocated_memory_mb <= old(
                    self,
                ).roles@[k].max_memory_mb)) ==> final(self).quota_ok(),
    {
        let role: &str = match role_id {
            Some(r) => r,
            None => "role-guest",
        };
        match self.find_device_by_id(device_id) {
            None => Err(RegistryError::NotFound),
            Some(j) => {
                let ghost old_devs = self.devices@;
                let mut d = self.devices.remove(j);
                d.status = String::from_str("approved");
                d.role_id = Some(String::from_str(role));
                let ret = clone_device(&d);
                self.devices.insert(j, d);
                proof {
                    assert(self.devices@ =~= old_devs.update(j as int, self.devices@[j as int]));
                    lemma_wf_same_keys(*old(self), *self);
                    let a = *old(self);
                    let b = *self;
                    if a.quota_ok() && (forall|j2: int, k: int|
                        #![trigger a.devices@[j2], a.roles@[k]]
                        0 <= j2 < a.devices@.len() && 0 <= k < a.roles@.len()
                            && a.devices@[j2].id@ == device_id@ && a.roles@[k].id@
                            == spec_role_or_guest(role_id) ==> a.devices@[j2].allocated_memory_mb
                            <= a.roles@[k].max_memory_mb) {
                        assert forall|i: int, k: int|
                            #![trigger b.devices@[i], b.roles@[k]]
                            0 <= i < b.devices@.len() && 0 <= k < b.roles@.len() && opt_view(
                                b.devices@[i].role_id,
                            ) == Some(b.roles@[k].id@) implies b.devices@[i].allocated_memory_mb
                            <= b.roles@[k].max_memory_mb by {
                            if i != j {
                                assert(b.devices@[i] == a.devices@[i]);
                                assert(opt_view(a.devices@[i].role_id) == Some(a.roles@[k].id@));
                                assert(a.devices@[i].allocated_memory_mb
                                    <= a.roles@[k].max_memory_mb);
                            } else {
                                assert(a.devices@[i].id@ == device_id@);
                                assert(a.roles@[k].id@ == spec_role_or_guest(role_id));
                            }
                        }
                    }
                    assert forall|i: int|
                        0 <= i < b.devices@.len() && (#[trigger] b.devices@[i]).id@ == ret.id@
                        implies b.devices@[i].status@ == "approved"@ by {
                        if i != j {
                            assert(b.devices@[i] == a.devices@[i]);
                            assert(a.devices@[i].id@ != a.devices@[j as int].id@);
                        }
                    }
                }
                let mut evs: Vec<WsEvent> = Vec::new();
                evs.push(
                    WsEvent::DeviceApproved {
                        device_id: ret.id.clone(),
                        name: ret.name.clone(),
                        ip: ret.ip.clone(),
                    },
                );
                Ok((ret, evs))
            },
        }
    }

    /// Deny a device.  The denied event is returned even when no record
    /// matches, as the store-backed update would succeed vacuously.
    pub fn deny_device(&mut self, device_id: &str) -> (evs: Vec<WsEvent>)
        requires
            old(self).wf(),
        ensures
            final(self).wf(),
            final(self).roles == old(self).roles,
            final(self).allocations == old(self).allocations,
            final(self).settings == old(self).settings,
            old(self).quota_ok() ==> final(self).quota_ok(),
            evs@.len() == 1,
            evs@[0] matches WsEvent::DeviceDenied { device_id: dv } && dv@ == device_id@,
            final(self).events_reflected(evs@),
            ({
                let devs = old(self).devices@;
                if exists|j: int| 0 <= j < devs.len() && (#[trigger] devs[j]).id@ == device_id@ {
                    exists|j: int|
                        {
                            &&& 0 <= j < devs.len()
                            &&& (#[trigger] devs[j]).id@ == device_id@
                            &&& final(self).devices@ == devs.update(j, final(self).devices@[j])
                            &&& final(self).devices@[j].status@ == "denied"@
                            &&& same_but_status_role(final(self).devices@[j], devs[j])
                            &&& opt_view(final(self).devices@[j].role_id) == opt_view(
                                devs[j].role_id,
                            )
                        }
                } else {
                    final(self).devices@ == devs
                }
            }),
    {
        match self.find_device_by_id(device_id) {
            Some(j) => {
                let ghost old_devs = self.devices@;
                let mut d = self.devices.remove(j);
                d.status = String::from_str("denied");
                self.devices.insert(j, d);
                proof {
                    assert(self.devices@ =~= old_devs.update(j as int, self.devices@[j as int]));
                    lemma_wf_same_keys(*old(self), *self);
                    if old(self).quota_ok() {
                        lemma_quota_same(*old(self), *self);
                    }
                    let b = *self;
                    assert forall|i: int|
                        0 <= i < b.devices@.len() && (#[trigger] b.devices@[i]).id@ == device_id@
                        implies b.devices@[i].status@ == "denied"@ by {
                        if i != j {
                            assert(b.devices@[i] == old(self).devices@[i]);
                            assert(old(self).devices@[i].id@ != old(self).devices@[j as int].id@);
                        }
                    }
                }
                let mut evs: Vec<WsEvent> = Vec::new();
                evs.push(WsEvent::DeviceDenied { device_id: String::from_str(device_id) });
                evs
            },
            None => {
                let mut evs: Vec<WsEvent> = Vec::new();
                evs.push(WsEvent::DeviceDenied { device_id: String::from_str(device_id) });
                evs
            },
        }
    }
}

/// The settings keys that the external interface may write.
pub open spec fn spec_allowed_settings_key(key: Seq<char>) -> bool {
    ||| key == "auto_start_ollama"@
    ||| key == "ollama_host"@
    ||| key == "mdns_enabled"@
    ||| key == "trust_local_network"@
    ||| key == "backend_type"@
    ||| key == "backend_url"@
    ||| key == "backend_model"@
    ||| key == "backend_api_key"@
    ||| key == "default_role"@
}

/// Is this settings key writable through the external interface?
pub fn allowed_settings_key(key: &str) -> (r: bool)
    ensures
        r == spec_allowed_settings_key(key@),
{
    str_eq(key, "auto_start_ollama") || str_eq(key, "ollama_host") || str_eq(key, "mdns_enabled")
        || str_eq(key, "trust_local_network") || str_eq(key, "backend_type") || str_eq(
        key,
        "backend_url",
    ) || str_eq(key, "backend_model") || str_eq(key, "backend_api_key") || str_eq(
        key,
        "default_role",
    )
}

impl Registry {
    /// Write a setting through the external interface: only the closed set
    /// of known keys is accepted.
    pub fn update_setting(&mut self, key: &str, value: &str) -> (r: Result<(), RegistryError>)
        requires
            old(self).wf(),
        ensures
            final(self).wf(),
            r is Ok <==> spec_allowed_settings_key(key@),
            r is Err ==> *final(self) == *old(self) && r == Err::<(), RegistryError>(
                RegistryError::UnknownSettingKey,
            ),
            r is Ok ==> ({
                &&& final(self).devices == old(self).devices
                &&& final(self).roles == old(self).roles
                &&& final(self).allocations == old(self).allocations
                &&& final(self).setting_view(key@) == Some(value@)
                &&& forall|k: Seq<char>|
                    k != key@ ==> #[trigger] final(self).setting_view(k) == old(self).setting_view(
                        k,
                    )
            }),
    {
        if !allowed_settings_key(key) {
            return Err(RegistryError::UnknownSettingKey);
        }
        self.set_setting(key, value);
        Ok(())
    }

    /// All stored settings.
    pub fn list_settings(&self) -> (r: &Vec<Setting>)
        ensures
            r@ == self.settings@,
    {
        &self.settings
    }

    // ─── Device queries ──────────────────────────────────────────────────

    /// All stored devices.
    pub fn list_devices(&self) -> (r: &Vec<Device>)
        ensures
            r@ == self.devices@,
    {
        &self.devices
    }

    /// A device is stored under this identifier.
    pub open spec fn has_device(&self, id: Seq<char>) -> bool {
        exists|j: int| 0 <= j < self.devices@.len() && (#[trigger] self.devices@[j]).id@ == id
    }

    /// The device references a role that is actually stored.
    pub open spec fn device_role_stored(&self, d: Device) -> bool {
        exists|k: int|
            0 <= k < self.roles@.len() && opt_view(d.role_id) == Some(
                (#[trigger] self.roles@[k]).id@,
            )
    }

    /// The device stored under this identifier.
    pub open spec fn device_at(&self, id: Seq<char>) -> Device
        recommends
            self.has_device(id),
    {
        let j = choose|j: int|
            0 <= j < self.devices@.len() && (#[trigger] self.devices@[j]).id@ == id;
        self.devices@[j]
    }

    /// The device stored under this identifier, if any.
    pub fn get_device(&self, id: &str) -> (r: Option<Device>)
        requires
            self.wf(),
        ensures
            r is Some <==> self.has_device(id@),
            r matches Some(d) ==> d == self.device_at(id@),
    {
        match self.find_device_by_id(id) {
            Some(j) => {
                let d = clone_device(&self.devices[j]);
                proof {
                    let j2 = choose|j2: int|
                        0 <= j2 < self.devices@.len() && (#[trigger] self.devices@[j2]).id@ == id@;
                    assert(j2 == j);
                }
                Some(d)
            },
            None => None,
        }
    }

    /// The device stored under this address, if any.
    pub fn get_device_by_ip(&self, ip: &str) -> (r: Option<Device>)
        ensures
            r is Some <==> exists|j: int|
                0 <= j < self.devices@.len() && (#[trigger] self.devices@[j]).ip@ == ip@,
            r matches Some(d) ==> exists|j: int|
                0 <= j < self.devices@.len() && (#[trigger] self.devices@[j]).ip@ == ip@ && d
                    == self.devices@[j],
    {
        match self.find_device_by_ip(ip) {
            Some(j) => Some(clone_device(&self.devices[j])),
            None => None,
        }
    }

    /// Remove the device stored under this identifier.
    pub fn delete_device(&mut self, id: &str)
        requires
            old(self).wf(),
        ensures
            final(self).wf(),
            final(self).roles == old(self).roles,
            final(self).allocations == old(self).allocations,
            final(self).settings == old(self).settings,
            old(self).quota_ok() ==> final(self).quota_ok(),
            ({
                let devs = old(self).devices@;
                if exists|j: int| 0 <= j < devs.len() && (#[trigger] devs[j]).id@ == id@ {
                    exists|j: int|
                        0 <= j < devs.len() && (#[trigger] devs[j]).id@ == id@
                            && final(self).devices@ == devs.remove(j)
                } else {
                    final(self).devices@ == devs
                }
            }),
    {
        if let Some(j) = self.find_device_by_id(id) {
            let ghost devs = self.devices@;
            let _ = self.devices.remove(j);
            proof {
                let b = *self;
                let a = *old(self);
                assert forall|i1: int, i2: int| 0 <= i1 < i2 < b.devices@.len() implies (
                #[trigger] b.devices@[i1]).id@ != (#[trigger] b.devices@[i2]).id@ && (
                b.devices@[i1]).ip@ != (b.devices@[i2]).ip@ by {
                    let o1: int = if i1 < j { i1 } else { i1 + 1 };
                    let o2: int = if i2 < j { i2 } else { i2 + 1 };
                    assert(b.devices@[i1] == a.devices@[o1]);
                    assert(b.devices@[i2] == a.devices@[o2]);
                    assert(a.devices@[o1].id@ != a.devices@[o2].id@);
                    assert(a.devices@[o1].ip@ != a.devices@[o2].ip@);
                }
                if a.quota_ok() {
                    assert forall|i: int, k: int|
                        #![trigger b.devices@[i], b.roles@[k]]
                        0 <= i < b.devices@.len() && 0 <= k < b.roles@.len() && opt_view(
                            b.devices@[i].role_id,
                        ) == Some(b.roles@[k].id@) implies b.devices@[i].allocated_memory_mb
                        <= b.roles@[k].max_memory_mb by {
                        let o: int = if i < j { i } else { i + 1 };
                        assert(b.devices@[i] == a.devices@[o]);
                        assert(opt_view(a.devices@[o].role_id) == Some(a.roles@[k].id@));
                        assert(a.devices@[o].allocated_memory_mb <= a.roles@[k].max_memory_mb);
                    }
                }
            }
        }
    }

    /// Persist a freshly probed agent reachability value on a device.
    pub fn update_device_rpc_status(&mut self, id: &str, rpc_status: &str)
        requires
            old(self).wf(),
        ensures
            final(self).wf(),
            final(self).roles == old(self).roles,
            final(self).allocations == old(self).allocations,
            final(self).settings == old(self).settings,
            old(self).quota_ok() ==> final(self).quota_ok(),
            ({
                let devs = old(self).devices@;
                if exists|j: int| 0 <= j < devs.len() && (#[trigger] devs[j]).id@ == id@ {
                    exists|j: int|
                        {
                            &&& 0 <= j < devs.len()
                            &&& (#[trigger] devs[j]).id@ == id@
                            &&& final(self).devices@ == devs.update(j, final(self).devices@[j])
                            &&& final(self).devices@[j].rpc_status@ == rpc_status@
                            &&& same_but_probe(final(self).devices@[j], devs[j])
                            &&& final(self).devices@[j].memory_total_mb == devs[j].memory_total_mb
                            &&& final(self).devices@[j].memory_free_mb == devs[j].memory_free_mb
                        }
                } else {
                    final(self).devices@ == devs
                }
            }),
    {
        if let Some(j) = self.find_device_by_id(id) {
            let ghost devs = self.devices@;
            let mut d = self.devices.remove(j);
            d.rpc_status = String::from_str(rpc_status);
            self.devices.insert(j, d);
            proof {
                assert(self.devices@ =~= devs.update(j as int, self.devices@[j as int]));
                lemma_wf_same_keys(*old(self), *self);
                if old(self).quota_ok() {
                    lemma_quota_same(*old(self), *self);
                }
            }
        }
    }

    /// Persist the memory totals fetched from a device's own status
    /// endpoint.
    pub fn update_device_memory_stats(&mut self, id: &str, total_mb: i64, free_mb: i64)
        requires
            old(self).wf(),
        ensures
            final(self).wf(),
            final(self).roles == old(self).roles,
            final(self).allocations == old(self).allocations,
            final(self).settings == old(self).settings,
            old(self).quota_ok() ==> final(self).quota_ok(),
            ({
                let devs = old(self).devices@;
                if exists|j: int| 0 <= j < devs.len() && (#[trigger] devs[j]).id@ == id@ {
                    exists|j: int|
                        {
                            &&& 0 <= j < devs.len()
                            &&& (#[trigger] devs[j]).id@ == id@
                            &&& final(self).devices@ == devs.update(j, final(self).devices@[j])
                            &&& final(self).devices@[j].memory_total_mb == total_mb
                            &&& final(self).devices@[j].memory_free_mb == free_mb
                            &&& same_but_probe(final(self).devices@[j], devs[j])
                            &&& final(self).devices@[j].rpc_status == devs[j].rpc_status
                        }
                } else {
                    final(self).devices@ == devs
                }
            }),
    {
        if let Some(j) = self.find_device_by_id(id) {
            let ghost devs = self.devices@;
            let mut d = self.devices.remove(j);
            d.memory_total_mb = total_mb;
            d.memory_free_mb = free_mb;
            self.devices.insert(j, d);
            proof {
                assert(self.devices@ =~= devs.update(j as int, self.devices@[j as int]));
                lemma_wf_same_keys(*old(self), *self);
                if old(self).quota_ok() {
                    lemma_quota_same(*old(self), *self);
                }
            }
        }
    }

    // ─── Roles ───────────────────────────────────────────────────────────

    /// All stored roles.
    pub fn list_roles(&self) -> (r: &Vec<Role>)
        ensures
            r@ == self.roles@,
    {
        &self.roles
    }

    /// The role stored under this identifier, if any.
    pub fn get_role(&self, id: &str) -> (r: Option<Role>)
        ensures
            r is Some <==> exists|j: int|
                0 <= j < self.roles@.len() && (#[trigger] self.roles@[j]).id@ == id@,
            r matches Some(role) ==> exists|j: int|
                0 <= j < self.roles@.len() && (#[trigger] self.roles@[j]).id@ == id@ && role
                    == self.roles@[j],
    {
        match self.find_role_index(id) {
            Some(j) => Some(clone_role(&self.roles[j])),
            None => None,
        }
    }

    /// Insert a role, or update the stored one: the stored creation time is
    /// kept on update.
    pub fn upsert_role(&mut self, role: Role)
        requires
            old(self).wf(),
        ensures
            final(self).wf(),
            final(self).devices == old(self).devices,
            final(self).allocations == old(self).allocations,
            final(self).settings == old(self).settings,
            ({
                let olds = old(self).roles@;
                if exists|j: int| 0 <= j < olds.len() && (#[trigger] olds[j]).id@ == role.id@ {
                    exists|j: int|
                        {
                            &&& 0 <= j < olds.len()
                            &&& (#[trigger] olds[j]).id@ == role.id@
                            &&& final(self).roles@ == olds.update(j, final(self).roles@[j])
                            &&& final(self).roles@[j].id == olds[j].id
                            &&& final(self).roles@[j].name == role.name
                            &&& final(self).roles@[j].max_memory_mb == role.max_memory_mb
                            &&& final(self).roles@[j].can_pull_models == role.can_pull_models
                            &&& final(self).roles@[j].trust_level == role.trust_level
                            &&& final(self).roles@[j].created_at == olds[j].created_at
                        }
                } else {
                    final(self).roles@ == olds.push(role)
                }
            }),
            (old(self).quota_ok() && (forall|i: int|
                0 <= i < old(self).devices@.len() && opt_view(
                    (#[trigger] old(self).devices@[i]).role_id,
                ) == Some(role.id@) ==> old(self).devices@[i].allocated_memory_mb
                    <= role.max_memory_mb)) ==> final(self).quota_ok(),
    {
        let ghost olds = self.roles@;
        match self.find_role_index(role.id.as_str()) {
            Some(j) => {
                let mut stored = self.roles.remove(j);
                stored.name = role.name;
                stored.max_memory_mb = role.max_memory_mb;
                stored.can_pull_models = role.can_pull_models;
                stored.trust_level = role.trust_level;
                self.roles.insert(j, stored);
                proof {
                    assert(self.roles@ =~= olds.update(j as int, self.roles@[j as int]));
                    let a = *old(self);
                    let b = *self;
                    assert forall|i1: int, i2: int| 0 <= i1 < i2 < b.roles@.len() implies (
                    #[trigger] b.roles@[i1]).id@ != (#[trigger] b.roles@[i2]).id@ by {
                        assert(a.roles@[i1].id@ != a.roles@[i2].id@);
                    }
                    if a.quota_ok() && (forall|i: int|
                        0 <= i < a.devices@.len() && opt_view((#[trigger] a.devices@[i]).role_id)
                            == Some(role.id@) ==> a.devices@[i].allocated_memory_mb
                            <= role.max_memory_mb) {
                        assert forall|i: int, k: int|
                            #![trigger b.devices@[i], b.roles@[k]]
                            0 <= i < b.devices@.len() && 0 <= k < b.roles@.len() && opt_view(
                                b.devices@[i].role_id,
                            ) == Some(b.roles@[k].id@) implies b.devices@[i].allocated_memory_mb
                            <= b.roles@[k].max_memory_mb by {
                            if k != j {
                                assert(b.roles@[k] == a.roles@[k]);
                                assert(opt_view(a.devices@[i].role_id) == Some(a.roles@[k].id@));
                                assert(a.devices@[i].allocated_memory_mb
                                    <= a.roles@[k].max_memory_mb);
                            } else {
                                assert(b.roles@[k].id@ == role.id@);
                                assert(opt_view(a.devices@[i].role_id) == Some(role.id@));
                            }
                        }
                    }
                }
            },
            None => {
                self.roles.push(role);
                proof {
                    let a = *old(self);
                    let b = *self;
                    assert(b.roles@ =~= olds.push(role));
                    assert forall|i1: int, i2: int| 0 <= i1 < i2 < b.roles@.len() implies (
                    #[trigger] b.roles@[i1]).id@ != (#[trigger] b.roles@[i2]).id@ by {
                        if i2 < olds.len() {
                            assert(a.roles@[i1].id@ != a.roles@[i2].id@);
                        } else {
                            assert(b.roles@[i2] == role);
                            assert(a.roles@[i1].id@ != role.id@);
                        }
                    }
                    if a.quota_ok() && (forall|i: int|
                        0 <= i < a.devices@.len() && opt_view((#[trigger] a.devices@[i]).role_id)
                            == Some(role.id@) ==> a.devices@[i].allocated_memory_mb
                            <= role.max_memory_mb) {
                        assert forall|i: int, k: int|
                            #![trigger b.devices@[i], b.roles@[k]]
                            0 <= i < b.devices@.len() && 0 <= k < b.roles@.len() && opt_view(
                                b.devices@[i].role_id,
                            ) == Some(b.roles@[k].id@) implies b.devices@[i].allocated_memory_mb
                            <= b.roles@[k].max_memory_mb by {
                            if k < olds.len() {
                                assert(b.roles@[k] == a.roles@[k]);
                                assert(opt_view(a.devices@[i].role_id) == Some(a.roles@[k].id@));
                                assert(a.devices@[i].allocated_memory_mb
                                    <= a.roles@[k].max_memory_mb);
                            } else {
                                assert(b.roles@[k] == role);
                                assert(opt_view(a.devices@[i].role_id) == Some(role.id@));
                            }
                        }
                    }
                }
            },
        }
    }

    /// Remove a role.  The built-in roles cannot be deleted.
    pub fn delete_role(&mut self, id: &str) -> (r: Result<(), RegistryError>)
        requires
            old(self).wf(),
        ensures
            final(self).wf(),
            r is Err <==> (id@ == "role-admin"@ || id@ == "role-user"@ || id@ == "role-guest"@),
            r is Err ==> *final(self) == *old(self) && r == Err::<(), RegistryError>(
                RegistryError::BuiltInRole,
            ),
            r is Ok ==> ({
                let olds = old(self).roles@;
                &&& final(self).devices == old(self).devices
                &&& final(self).allocations == old(self).allocations
                &&& final(self).settings == old(self).settings
                &&& old(self).quota_ok() ==> final(self).quota_ok()
                &&& if exists|j: int| 0 <= j < olds.len() && (#[trigger] olds[j]).id@ == id@ {
                    exists|j: int|
                        0 <= j < olds.len() && (#[trigger] olds[j]).id@ == id@
                            && final(self).roles@ == olds.remove(j)
                } else {
                    final(self).roles@ == olds
                }
            }),
    {
        if str_eq(id, "role-admin") || str_eq(id, "role-user") || str_eq(id, "role-guest") {
            return Err(RegistryError::BuiltInRole);
        }
        if let Some(j) = self.find_role_index(id) {
            let _ = self.roles.remove(j);
            proof {
                let a = *old(self);
                let b = *self;
                assert forall|i1: int, i2: int| 0 <= i1 < i2 < b.roles@.len() implies (
                #[trigger] b.roles@[i1]).id@ != (#[trigger] b.roles@[i2]).id@ by {
                    let o1: int = if i1 < j { i1 } else { i1 + 1 };
                    let o2: int = if i2 < j { i2 } else { i2 + 1 };
                    assert(b.roles@[i1] == a.roles@[o1]);
                    assert(b.roles@[i2] == a.roles@[o2]);
                    assert(a.roles@[o1].id@ != a.roles@[o2].id@);
                }
                if a.quota_ok() {
                    assert forall|i: int, k: int|
                        #![trigger b.devices@[i], b.roles@[k]]
                        0 <= i < b.devices@.len() && 0 <= k < b.roles@.len() && opt_view(
                            b.devices@[i].role_id,
                        ) == Some(b.roles@[k].id@) implies b.devices@[i].allocated_memory_mb
                        <= b.roles@[k].max_memory_mb by {
                        let o: int = if k < j { k } else { k + 1 };
                        assert(b.roles@[k] == a.roles@[o]);
                        assert(opt_view(a.devices@[i].role_id) == Some(a.roles@[o].id@));
                        assert(a.devices@[i].allocated_memory_mb <= a.roles@[o].max_memory_mb);
                    }
                }
            }
        }
        Ok(())
    }
}

/// The two devices agree on every field except agent reachability and the
/// probed memory totals.
pub open spec fn same_but_probe(a: Device, b: Device) -> bool {
    &&& a.id == b.id
    &&& a.name == b.name
    &&& a.ip == b.ip
    &&& a.mac == b.mac
    &&& a.hostname == b.hostname
    &&& a.platform == b.platform
    &&& a.role_id == b.role_id
    &&& a.status == b.status
    &&& a.discovery_method == b.discovery_method
    &&& a.allocated_memory_mb == b.allocated_memory_mb
    &&& a.last_seen == b.last_seen
    &&& a.first_seen == b.first_seen
    &&& a.created_at == b.created_at
    &&& a.rpc_port == b.rpc_port
}

/// The requested role, "role-guest" when none was given.
pub open spec fn spec_role_or_guest(role_id: Option<&str>) -> Seq<char> {
    match role_id {
        Some(r) => r@,
        None => "role-guest"@,
    }
}

/// Role-bounded allocation: whenever a device references a stored role,
/// its allocated memory stays within that role's cap.  The registry
/// operations preserve this bound, as their own contracts state.
pub proof fn lemma_role_cap_bounds_allocation(reg: Registry, i: int, j: int)
    requires
        reg.quota_ok(),
        0 <= i < reg.devices@.len(),
        0 <= j < reg.roles@.len(),
        opt_view(reg.devices@[i].role_id) == Some(reg.roles@[j].id@),
    ensures
        reg.devices@[i].allocated_memory_mb <= reg.roles@[j].max_memory_mb,
{
}

/// An allocation record after the revocation pass for device `did`: a
/// matching active record is stamped revoked at `now`, anything else stays.
pub open spec fn revoke_for(a: Allocation, did: Seq<char>, now: String) -> Allocation {
    if a.device_id@ == did && a.revoked_at is None {
        Allocation {
            id: a.id,
            device_id: a.device_id,
            memory_mb: a.memory_mb,
            provider: a.provider,
            granted_at: a.granted_at,
            revoked_at: Some(now),
        }
    } else {
        a
    }
}

/// Sum of the non-revoked allocations recorded for a device.
pub open spec fn active_alloc_sum(s: Seq<Allocation>, did: Seq<char>) -> int
    decreases s.len(),
{
    if s.len() == 0 {
        0
    } else {
        active_alloc_sum(s.drop_last(), did) + if s.last().device_id@ == did && s.last().revoked_at
            is None {
            s.last().memory_mb as int
        } else {
            0
        }
    }
}

/// After the revocation pass nothing is left active for the device.
proof fn lemma_revoked_sum_zero(s: Seq<Allocation>, did: Seq<char>, now: String)
    ensures
        active_alloc_sum(s.map(|i: int, a: Allocation| revoke_for(a, did, now)), did) == 0,
    decreases s.len(),
{
    let m = s.map(|i: int, a: Allocation| revoke_for(a, did, now));
    if s.len() > 0 {
        lemma_revoked_sum_zero(s.drop_last(), did, now);
        assert(m.drop_last() =~= s.drop_last().map(
            |i: int, a: Allocation| revoke_for(a, did, now),
        ));
        assert(m.last() == revoke_for(s.last(), did, now));
    }
}

/// The two devices agree on every field except allocated memory.
pub open spec fn same_but_allocated(a: Device, b: Device) -> bool {
    &&& a.id == b.id
    &&& a.name == b.name
    &&& a.ip == b.ip
    &&& a.mac == b.mac
    &&& a.hostname == b.hostname
    &&& a.platform == b.platform
    &&& a.role_id == b.role_id
    &&& a.status == b.status
    &&& a.discovery_method == b.discovery_method
    &&& a.last_seen == b.last_seen
    &&& a.first_seen == b.first_seen
    &&& a.created_at == b.created_at
    &&& a.rpc_port == b.rpc_port
    &&& a.rpc_status == b.rpc_status
    &&& a.memory_total_mb == b.memory_total_mb
    &&& a.memory_free_mb == b.memory_free_mb
}

/// The two devices agree on every field except status and role.
pub open spec fn same_but_status_role(a: Device, b: Device) -> bool {
    &&& a.id == b.id
    &&& a.name == b.name
    &&& a.ip == b.ip
    &&& a.mac == b.mac
    &&& a.hostname == b.hostname
    &&& a.platform == b.platform
    &&& a.discovery_method == b.discovery_method
    &&& a.allocated_memory_mb == b.allocated_memory_mb
    &&& a.last_seen == b.last_seen
    &&& a.first_seen == b.first_seen
    &&& a.created_at == b.created_at
    &&& a.rpc_port == b.rpc_port
    &&& a.rpc_status == b.rpc_status
    &&& a.memory_total_mb == b.memory_total_mb
    &&& a.memory_free_mb == b.memory_free_mb
}

} // verus!
