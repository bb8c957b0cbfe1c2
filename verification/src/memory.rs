//! Memory pool model: the kinds of local memory providers, their snapshots,
//! and the aggregation and attribution rules over them.

use vstd::prelude::*;

verus! {

/// What kind of memory a provider represents.
#[derive(Debug, Clone, Copy, PartialEq, Eq, Structural)]
pub enum GpuKind {
    Nvidia,
    Amd,
    AppleSilicon,
    Intel,
    SystemRam,
}

/// Snapshot of a single memory provider's current state.
#[derive(Debug, Clone)]
pub struct MemorySnapshot {
    pub provider_id: String,
    pub name: String,
    pub kind: GpuKind,
    pub total_mb: u64,
    pub used_mb: u64,
    pub free_mb: u64,
    /// Share of the granted device allocations attributed to this provider.
    pub allocated_mb: u64,
}

/// `total - used`, floored at zero.
pub open spec fn sat_sub_u64(total: u64, used: u64) -> u64 {
    if used <= total {
        (total - used) as u64
    } else {
        0
    }
}

/// One local memory source.  A provider's static identity never changes;
/// its usage reading is refreshed by the caller between snapshots.
pub trait MemoryProvider: Sized {
    /// The provider's stable identifier.
    spec fn spec_id(&self) -> Seq<char>;

    /// The provider's display name.
    spec fn spec_name(&self) -> Seq<char>;

    /// The provider's kind tag.
    spec fn spec_kind(&self) -> GpuKind;

    /// The provider's total memory in MB.
    spec fn spec_total(&self) -> u64;

    /// The provider's used memory in MB, as it enters the snapshot.
    spec fn spec_used(&self) -> u64;

    fn id(&self) -> (r: &'static str)
        ensures
            r@ == self.spec_id(),
    ;

    fn name<'a>(&'a self) -> (r: &'a str)
        ensures
            r@ == self.spec_name(),
    ;

    fn kind(&self) -> (r: GpuKind)
        ensures
            r == self.spec_kind(),
    ;

    /// The current (total, used, free) triple in MB.
    fn snapshot(&self) -> (r: Option<(u64, u64, u64)>)
        ensures
            r is Some,
            r matches Some((t, u, f)) ==> t == self.spec_total() && u == self.spec_used() && f
                == sat_sub_u64(t, u),
    ;
}

/// An accelerator card holding dedicated memory, read through the vendor
/// tool by the caller.
#[derive(Debug)]
pub struct NvidiaProvider {
    pub name: String,
    pub total_mb: u64,
    pub used_mb: u64,
}

impl MemoryProvider for NvidiaProvider {
    open spec fn spec_id(&self) -> Seq<char> {
        "nvidia"@
    }

    open spec fn spec_name(&self) -> Seq<char> {
        self.name@
    }

    open spec fn spec_kind(&self) -> GpuKind {
        GpuKind::Nvidia
    }

    open spec fn spec_total(&self) -> u64 {
        self.total_mb
    }

    open spec fn spec_used(&self) -> u64 {
        self.used_mb
    }

    fn id(&self) -> (r: &'static str) {
        "nvidia"
    }

    fn name<'a>(&'a self) -> (r: &'a str) {
        self.name.as_str()
    }

    fn kind(&self) -> (r: GpuKind) {
        GpuKind::Nvidia
    }

    fn snapshot(&self) -> (r: Option<(u64, u64, u64)>) {
        let free = if self.used_mb <= self.total_mb {
            self.total_mb - self.used_mb
        } else {
            0
        };
        Some((self.total_mb, self.used_mb, free))
    }
}

/// An accelerator card holding dedicated memory, read through the vendor
/// tool or its sysfs files by the caller.
#[derive(Debug)]
pub struct AmdProvider {
    pub name: String,
    pub total_mb: u64,
    pub used_mb: u64,
}

impl MemoryProvider for AmdProvider {
    open spec fn spec_id(&self) -> Seq<char> {
        "amd"@
    }

    open spec fn spec_name(&self) -> Seq<char> {
        self.name@
    }

    open spec fn spec_kind(&self) -> GpuKind {
        GpuKind::Amd
    }

    open spec fn spec_total(&self) -> u64 {
        self.total_mb
    }

    open spec fn spec_used(&self) -> u64 {
        self.used_mb
    }

    fn id(&self) -> (r: &'static str) {
        "amd"
    }

    fn name<'a>(&'a self) -> (r: &'a str) {
        self.name.as_str()
    }

    fn kind(&self) -> (r: GpuKind) {
        GpuKind::Amd
    }

    fn snapshot(&self) -> (r: Option<(u64, u64, u64)>) {
        let free = if self.used_mb <= self.total_mb {
            self.total_mb - self.used_mb
        } else {
            0
        };
        Some((self.total_mb, self.used_mb, free))
    }
}

/// Unified memory on Apple Silicon, read through the system tools by the
/// caller.
#[derive(Debug)]
pub struct AppleProvider {
    pub name: String,
    pub total_mb: u64,
    pub used_mb: u64,
}

impl MemoryProvider for AppleProvider {
    open spec fn spec_id(&self) -> Seq<char> {
        "apple"@
    }

    open spec fn spec_name(&self) -> Seq<char> {
        self.name@
    }

    open spec fn spec_kind(&self) -> GpuKind {
        GpuKind::AppleSilicon
    }

    open spec fn spec_total(&self) -> u64 {
        self.total_mb
    }

    open spec fn spec_used(&self) -> u64 {
        self.used_mb
    }

    fn id(&self) -> (r: &'static str) {
        "apple"
    }

    fn name<'a>(&'a self) -> (r: &'a str) {
        self.name.as_str()
    }

    fn kind(&self) -> (r: GpuKind) {
        GpuKind::AppleSilicon
    }

    fn snapshot(&self) -> (r: Option<(u64, u64, u64)>) {
        let free = if self.used_mb <= self.total_mb {
            self.total_mb - self.used_mb
        } else {
            0
        };
        Some((self.total_mb, self.used_mb, free))
    }
}

/// An integrated GPU sharing system RAM; its usage estimate is read from
/// sysfs or the memory tables by the caller, and clamped to its pool.
#[derive(Debug)]
pub struct IntelProvider {
    pub name: String,
    pub total_mb: u64,
    pub used_mb: u64,
    /// sysfs path of the local-memory usage file, where one exists.
    pub lmem_used_path: Option<String>,
}

impl MemoryProvider for IntelProvider {
    open spec fn spec_id(&self) -> Seq<char> {
        "intel"@
    }

    open spec fn spec_name(&self) -> Seq<char> {
        self.name@
    }

    open spec fn spec_kind(&self) -> GpuKind {
        GpuKind::Intel
    }

    open spec fn spec_total(&self) -> u64 {
        self.total_mb
    }

    open spec fn spec_used(&self) -> u64 {
        if self.used_mb <= self.total_mb {
            self.used_mb
        } else {
            self.total_mb
        }
    }

    fn id(&self) -> (r: &'static str) {
        "intel"
    }

    fn name<'a>(&'a self) -> (r: &'a str) {
        self.name.as_str()
    }

    fn kind(&self) -> (r: GpuKind) {
        GpuKind::Intel
    }

    fn snapshot(&self) -> (r: Option<(u64, u64, u64)>) {
        let used = if self.used_mb <= self.total_mb {
            self.used_mb
        } else {
            self.total_mb
        };
        Some((self.total_mb, used, self.total_mb - used))
    }
}

/// System RAM, always available as the fallback provider; refreshed
/// through the system statistics reader.
#[derive(Debug)]
pub struct SystemRamProvider {
    pub total_mb: u64,
    pub used_mb: u64,
}

impl SystemRamProvider {
    /// A fresh provider; readings arrive with the first refresh.
    pub fn new() -> (r: SystemRamProvider)
        ensures
            r.total_mb == 0,
            r.used_mb == 0,
    {
        SystemRamProvider { total_mb: 0, used_mb: 0 }
    }

    /// Re-read the machine's memory statistics.  What they hold depends on
    /// the machine at that moment; the snapshot arithmetic over them is
    /// checked either way.
    pub fn refresh(&mut self) {
        let (total_bytes, used_bytes) = read_system_memory();
        self.total_mb = total_bytes / (1024 * 1024);
        self.used_mb = used_bytes / (1024 * 1024);
    }
}

impl MemoryProvider for SystemRamProvider {
    open spec fn spec_id(&self) -> Seq<char> {
        "system_ram"@
    }

    open spec fn spec_name(&self) -> Seq<char> {
        "System RAM"@
    }

    open spec fn spec_kind(&self) -> GpuKind {
        GpuKind::SystemRam
    }

    open spec fn spec_total(&self) -> u64 {
        self.total_mb
    }

    open spec fn spec_used(&self) -> u64 {
        self.used_mb
    }

    fn id(&self) -> (r: &'static str) {
        "system_ram"
    }

    fn name<'a>(&'a self) -> (r: &'a str) {
        "System RAM"
    }

    fn kind(&self) -> (r: GpuKind) {
        GpuKind::SystemRam
    }

    fn snapshot(&self) -> (r: Option<(u64, u64, u64)>) {
        let free = if self.used_mb <= self.total_mb {
            self.total_mb - self.used_mb
        } else {
            0
        };
        Some((self.total_mb, self.used_mb, free))
    }
}

#[verifier::external_type_specification]
#[verifier::external_body]
pub struct ExSystem(sysinfo::System);

/// Relies on sysinfo::System::new: a fresh, unloaded reader.
pub assume_specification[ sysinfo::System::new ]() -> (r: sysinfo::System);

/// Relies on sysinfo::System::refresh_memory: re-reads the RAM statistics.
pub assume_specification[ sysinfo::System::refresh_memory ](s: &mut sysinfo::System);

/// Relies on sysinfo::System::total_memory: total RAM in bytes, as the
/// machine reports it.
pub assume_specification[ sysinfo::System::total_memory ](s: &sysinfo::System) -> (r: u64);

/// Relies on sysinfo::System::used_memory: used RAM in bytes, as the
/// machine reports it.
pub assume_specification[ sysinfo::System::used_memory ](s: &sysinfo::System) -> (r: u64);

/// Read the machine's (total, used) RAM in bytes.  The values depend on
/// the machine at the moment of the call.
fn read_system_memory() -> (r: (u64, u64)) {
    let mut sys = sysinfo::System::new();
    sys.refresh_memory();
    let total = sys.total_memory();
    let used = sys.used_memory();
    (total, used)
}

/// The closed sum of providers this machine can hold.
#[derive(Debug)]
pub enum Provider {
    Nvidia(NvidiaProvider),
    Amd(AmdProvider),
    Apple(AppleProvider),
    Intel(IntelProvider),
    SystemRam(SystemRamProvider),
}

impl Provider {
    /// The provider's stable identifier.
    pub open spec fn spec_id(&self) -> Seq<char> {
        match self {
            Provider::Nvidia(p) => p.spec_id(),
            Provider::Amd(p) => p.spec_id(),
            Provider::Apple(p) => p.spec_id(),
            Provider::Intel(p) => p.spec_id(),
            Provider::SystemRam(p) => p.spec_id(),
        }
    }

    /// The provider's display name.
    pub open spec fn spec_name(&self) -> Seq<char> {
        match self {
            Provider::Nvidia(p) => p.spec_name(),
            Provider::Amd(p) => p.spec_name(),
            Provider::Apple(p) => p.spec_name(),
            Provider::Intel(p) => p.spec_name(),
            Provider::SystemRam(p) => p.spec_name(),
        }
    }

    /// The provider's kind tag.
    pub open spec fn spec_kind(&self) -> GpuKind {
        match self {
            Provider::Nvidia(p) => p.spec_kind(),
            Provider::Amd(p) => p.spec_kind(),
            Provider::Apple(p) => p.spec_kind(),
            Provider::Intel(p) => p.spec_kind(),
            Provider::SystemRam(p) => p.spec_kind(),
        }
    }

    /// The provider's total memory in MB.
    pub open spec fn spec_total(&self) -> u64 {
        match self {
            Provider::Nvidia(p) => p.spec_total(),
            Provider::Amd(p) => p.spec_total(),
            Provider::Apple(p) => p.spec_total(),
            Provider::Intel(p) => p.spec_total(),
            Provider::SystemRam(p) => p.spec_total(),
        }
    }

    /// The provider's used memory in MB, as it enters the snapshot.
    pub open spec fn spec_used(&self) -> u64 {
        match self {
            Provider::Nvidia(p) => p.spec_used(),
            Provider::Amd(p) => p.spec_used(),
            Provider::Apple(p) => p.spec_used(),
            Provider::Intel(p) => p.spec_used(),
            Provider::SystemRam(p) => p.spec_used(),
        }
    }

    /// The snapshot entry this provider produces.
    pub fn take_snapshot(&self) -> (r: MemorySnapshot)
        ensures
            r.provider_id@ == self.spec_id(),
            r.name@ == self.spec_name(),
            r.kind == self.spec_kind(),
            r.total_mb == self.spec_total(),
            r.used_mb == self.spec_used(),
            r.free_mb == sat_sub_u64(self.spec_total(), self.spec_used()),
            r.allocated_mb == 0,
    {
        let (id, name, kind, reading): (&str, &str, GpuKind, Option<(u64, u64, u64)>) = match self {
            Provider::Nvidia(p) => (p.id(), p.name(), p.kind(), p.snapshot()),
            Provider::Amd(p) => (p.id(), p.name(), p.kind(), p.snapshot()),
            Provider::Apple(p) => (p.id(), p.name(), p.kind(), p.snapshot()),
            Provider::Intel(p) => (p.id(), p.name(), p.kind(), p.snapshot()),
            Provider::SystemRam(p) => (p.id(), p.name(), p.kind(), p.snapshot()),
        };
        let (total_mb, used_mb, free_mb) = match reading {
            Some(t) => t,
            None => (0, 0, 0),
        };
        MemorySnapshot {
            provider_id: String::from_str(id),
            name: String::from_str(name),
            kind,
            total_mb,
            used_mb,
            free_mb,
            allocated_mb: 0,
        }
    }
}

/// The provider list composed from the per-vendor probe results:
/// accelerator providers in a fixed order, then system RAM as the
/// fallback — unless Apple-Silicon unified memory already covers it.
pub open spec fn composed_providers(
    nvidia: Option<NvidiaProvider>,
    amd: Option<AmdProvider>,
    apple: Option<AppleProvider>,
    intel: Option<IntelProvider>,
    system_ram: SystemRamProvider,
) -> Seq<Provider> {
    (match nvidia {
        Some(p) => seq![Provider::Nvidia(p)],
        None => Seq::empty(),
    }) + (match amd {
        Some(p) => seq![Provider::Amd(p)],
        None => Seq::empty(),
    }) + (match apple {
        Some(p) => seq![Provider::Apple(p)],
        None => Seq::empty(),
    }) + (match intel {
        Some(p) => seq![Provider::Intel(p)],
        None => Seq::empty(),
    }) + (if apple is None {
        seq![Provider::SystemRam(system_ram)]
    } else {
        Seq::empty()
    })
}

/// Compose the providers this machine offers from what the per-vendor
/// probes found.  The probes themselves are the caller's business; the
/// composition rule — order, and system RAM only where Apple-Silicon
/// unified memory does not already cover it — is decided here.
pub fn detect_providers(
    nvidia: Option<NvidiaProvider>,
    amd: Option<AmdProvider>,
    apple: Option<AppleProvider>,
    intel: Option<IntelProvider>,
    system_ram: SystemRamProvider,
) -> (r: Vec<Provider>)
    ensures
        r@ == composed_providers(nvidia, amd, apple, intel, system_ram),
{
    let ghost gn = nvidia;
    let ghost ga = amd;
    let ghost gap = apple;
    let ghost gi = intel;
    let ghost gram = system_ram;
    let include_ram = apple.is_none();
    let mut out: Vec<Provider> = Vec::new();
    if let Some(p) = nvidia {
        out.push(Provider::Nvidia(p));
    }
    if let Some(p) = amd {
        out.push(Provider::Amd(p));
    }
    if let Some(p) = apple {
        out.push(Provider::Apple(p));
    }
    if let Some(p) = intel {
        out.push(Provider::Intel(p));
    }
    if include_ram {
        out.push(Provider::SystemRam(system_ram));
    }
    proof {
        assert(out@ =~= composed_providers(gn, ga, gap, gi, gram));
    }
    out
}

/// Aggregate snapshot across all providers, in provider order, with the
/// allocation attribution still to be filled in.
pub fn aggregate_snapshot(providers: &Vec<Provider>) -> (r: Vec<MemorySnapshot>)
    ensures
        r@.len() == providers@.len(),
        forall|i: int|
            0 <= i < providers@.len() ==> {
                let p = #[trigger] providers@[i];
                &&& (#[trigger] r@[i]).provider_id@ == p.spec_id()
                &&& r@[i].name@ == p.spec_name()
                &&& r@[i].kind == p.spec_kind()
                &&& r@[i].total_mb == p.spec_total()
                &&& r@[i].used_mb == p.spec_used()
                &&& r@[i].free_mb == sat_sub_u64(p.spec_total(), p.spec_used())
                &&& r@[i].allocated_mb == 0
            },
{
    let mut out: Vec<MemorySnapshot> = Vec::new();
    let mut i: usize = 0;
    while i < providers.len()
        invariant
            i <= providers@.len(),
            out@.len() == i,
            forall|k: int|
                0 <= k < i ==> {
                    let p = #[trigger] providers@[k];
                    &&& (#[trigger] out@[k]).provider_id@ == p.spec_id()
                    &&& out@[k].name@ == p.spec_name()
                    &&& out@[k].kind == p.spec_kind()
                    &&& out@[k].total_mb == p.spec_total()
                    &&& out@[k].used_mb == p.spec_used()
                    &&& out@[k].free_mb == sat_sub_u64(p.spec_total(), p.spec_used())
                    &&& out@[k].allocated_mb == 0
                },
        decreases providers@.len() - i,
    {
        out.push(providers[i].take_snapshot());
        i += 1;
    }
    out
}

/// Sum of the free memory over a snapshot list.
pub open spec fn spec_sum_free(s: Seq<MemorySnapshot>) -> int
    decreases s.len(),
{
    if s.len() == 0 {
        0
    } else {
        spec_sum_free(s.drop_last()) + s.last().free_mb
    }
}

/// Sum of the total memory over a snapshot list.
pub open spec fn spec_sum_total(s: Seq<MemorySnapshot>) -> int
    decreases s.len(),
{
    if s.len() == 0 {
        0
    } else {
        spec_sum_total(s.drop_last()) + s.last().total_mb
    }
}

proof fn lemma_sum_free_prefix(s: Seq<MemorySnapshot>, n: int)
    requires
        0 <= n <= s.len(),
    ensures
        spec_sum_free(s.subrange(0, n)) <= spec_sum_free(s),
        spec_sum_free(s.subrange(0, n)) >= 0,
    decreases s.len() - n,
{
    if n == s.len() {
        assert(s.subrange(0, n) =~= s);
        lemma_sum_free_nonneg(s);
    } else {
        lemma_sum_free_prefix(s, n + 1);
        let p = s.subrange(0, n + 1);
        assert(p.drop_last() =~= s.subrange(0, n));
        lemma_sum_free_nonneg(s.subrange(0, n));
    }
}

proof fn lemma_sum_free_nonneg(s: Seq<MemorySnapshot>)
    ensures
        spec_sum_free(s) >= 0,
    decreases s.len(),
{
    if s.len() > 0 {
        lemma_sum_free_nonneg(s.drop_last());
    }
}

/// The local free-memory pool: the summed free MB over all providers.
pub fn sum_free(snapshots: &Vec<MemorySnapshot>) -> (r: u64)
    requires
        spec_sum_free(snapshots@) <= u64::MAX,
    ensures
        r == spec_sum_free(snapshots@),
{
    let mut total: u64 = 0;
    let mut i: usize = 0;
    while i < snapshots.len()
        invariant
            i <= snapshots@.len(),
            spec_sum_free(snapshots@) <= u64::MAX,
            total == spec_sum_free(snapshots@.subrange(0, i as int)),
        decreases snapshots@.len() - i,
    {
        proof {
            let p = snapshots@.subrange(0, i + 1);
            assert(p.drop_last() =~= snapshots@.subrange(0, i as int));
            lemma_sum_free_prefix(snapshots@, i + 1);
        }
        total = total + snapshots[i].free_mb;
        i += 1;
    }
    proof {
        assert(snapshots@.subrange(0, snapshots@.len() as int) =~= snapshots@);
    }
    total
}

proof fn lemma_sum_total_nonneg(s: Seq<MemorySnapshot>)
    ensures
        spec_sum_total(s) >= 0,
    decreases s.len(),
{
    if s.len() > 0 {
        lemma_sum_total_nonneg(s.drop_last());
    }
}

proof fn lemma_sum_total_elem(s: Seq<MemorySnapshot>, i: int)
    requires
        0 <= i < s.len(),
    ensures
        s[i].total_mb <= spec_sum_total(s),
    decreases s.len(),
{
    if i == s.len() - 1 {
        lemma_sum_total_nonneg(s.drop_last());
    } else {
        lemma_sum_total_elem(s.drop_last(), i);
        assert(s.drop_last()[i] == s[i]);
    }
}

proof fn lemma_sum_total_prefix(s: Seq<MemorySnapshot>, n: int)
    requires
        0 <= n <= s.len(),
    ensures
        spec_sum_total(s.subrange(0, n)) <= spec_sum_total(s),
        spec_sum_total(s.subrange(0, n)) >= 0,
    decreases s.len() - n,
{
    if n == s.len() {
        assert(s.subrange(0, n) =~= s);
        lemma_sum_total_nonneg(s);
    } else {
        lemma_sum_total_prefix(s, n + 1);
        let p = s.subrange(0, n + 1);
        assert(p.drop_last() =~= s.subrange(0, n));
        lemma_sum_total_nonneg(s.subrange(0, n));
    }
}

/// Grand total memory over a snapshot list.
pub fn sum_total(snapshots: &Vec<MemorySnapshot>) -> (r: u64)
    requires
        spec_sum_total(snapshots@) <= u64::MAX,
    ensures
        r == spec_sum_total(snapshots@),
{
    let mut total: u64 = 0;
    let mut i: usize = 0;
    while i < snapshots.len()
        invariant
            i <= snapshots@.len(),
            spec_sum_total(snapshots@) <= u64::MAX,
            total == spec_sum_total(snapshots@.subrange(0, i as int)),
        decreases snapshots@.len() - i,
    {
        proof {
            let p = snapshots@.subrange(0, i + 1);
            assert(p.drop_last() =~= snapshots@.subrange(0, i as int));
            lemma_sum_total_prefix(snapshots@, i + 1);
        }
        total = total + snapshots[i].total_mb;
        i += 1;
    }
    proof {
        assert(snapshots@.subrange(0, snapshots@.len() as int) =~= snapshots@);
    }
    total
}

/// A non-last provider's attributed share: proportional to its total,
/// capped at its total.
pub open spec fn spec_share(ta: u64, total_i: u64, grand: int) -> int
    recommends
        grand > 0,
{
    let raw = (ta * total_i) as int / grand;
    if raw <= total_i {
        raw
    } else {
        total_i as int
    }
}

/// What is left to attribute once the first `k` providers took their
/// shares.
pub open spec fn spec_rem(s: Seq<MemorySnapshot>, ta: u64, grand: int, k: int) -> int
    decreases k,
{
    if k <= 0 {
        ta as int
    } else {
        let prev = spec_rem(s, ta, grand, k - 1);
        let sh = spec_share(ta, s[k - 1].total_mb, grand);
        if sh <= prev {
            prev - sh
        } else {
            0
        }
    }
}

/// The two snapshots agree on every field except the attributed share.
pub open spec fn same_but_attributed(a: MemorySnapshot, b: MemorySnapshot) -> bool {
    &&& a.provider_id == b.provider_id
    &&& a.name == b.name
    &&& a.kind == b.kind
    &&& a.total_mb == b.total_mb
    &&& a.used_mb == b.used_mb
    &&& a.free_mb == b.free_mb
}

/// Distribute the granted device allocations across the providers,
/// proportionally by their total memory.  The last provider absorbs the
/// rounding residue; no provider is attributed more than its own total.
/// Nothing changes when there is nothing to attribute or no memory at all.
pub fn attribute_allocations(snapshots: &mut Vec<MemorySnapshot>, total_allocated: u64)
    requires
        spec_sum_total(old(snapshots)@) <= u64::MAX,
    ensures
        final(snapshots)@.len() == old(snapshots)@.len(),
        total_allocated == 0 || old(snapshots)@.len() == 0 || spec_sum_total(old(snapshots)@) == 0
            ==> final(snapshots)@ == old(snapshots)@,
        total_allocated > 0 && old(snapshots)@.len() > 0 && spec_sum_total(old(snapshots)@) > 0
            ==> ({
            let s = old(snapshots)@;
            let grand = spec_sum_total(s);
            let last = s.len() - 1;
            &&& forall|i: int|
                0 <= i < s.len() ==> same_but_attributed(
                    #[trigger] final(snapshots)@[i],
                    s[i],
                )
            &&& forall|i: int|
                0 <= i < last ==> (#[trigger] final(snapshots)@[i]).allocated_mb == spec_share(
                    total_allocated,
                    s[i].total_mb,
                    grand,
                )
            &&& final(snapshots)@[last].allocated_mb == ({
                let rem = spec_rem(s, total_allocated, grand, last);
                if rem <= s[last].total_mb {
                    rem
                } else {
                    s[last].total_mb as int
                }
            })
            &&& forall|i: int|
                0 <= i < s.len() ==> (#[trigger] final(snapshots)@[i]).allocated_mb
                    <= s[i].total_mb
        }),
{
    let grand = sum_total(snapshots);
    if total_allocated == 0 || snapshots.len() == 0 || grand == 0 {
        return ;
    }
    let ghost s = snapshots@;
    let last_idx = snapshots.len() - 1;
    let mut remaining: u64 = total_allocated;
    let mut i: usize = 0;
    while i < snapshots.len()
        invariant
            grand == spec_sum_total(s),
            grand > 0,
            i <= s.len(),
            s.len() >= 1,
            last_idx == s.len() - 1,
            snapshots@.len() == s.len(),
            i <= last_idx ==> remaining == spec_rem(s, total_allocated, grand as int, i as int),
            forall|k: int| i <= k < s.len() ==> #[trigger] snapshots@[k] == s[k],
            forall|k: int|
                0 <= k < i ==> same_but_attributed(#[trigger] snapshots@[k], s[k]),
            forall|k: int|
                0 <= k < i && k < last_idx ==> (#[trigger] snapshots@[k]).allocated_mb
                    == spec_share(total_allocated, s[k].total_mb, grand as int),
            i > last_idx ==> snapshots@[last_idx as int].allocated_mb == ({
                let rem = spec_rem(s, total_allocated, grand as int, last_idx as int);
                if rem <= s[last_idx as int].total_mb {
                    rem
                } else {
                    s[last_idx as int].total_mb as int
                }
            }),
            forall|k: int|
                0 <= k < i ==> (#[trigger] snapshots@[k]).allocated_mb <= s[k].total_mb,
        decreases s.len() - i,
    {
        let total_i = snapshots[i].total_mb;
        let share: u64;
        if i == last_idx {
            share = remaining;
        } else {
            proof {
                lemma_sum_total_elem(s, i as int);
                assert((total_allocated as int * total_i as int) / (grand as int)
                    <= total_allocated) by (nonlinear_arith)
                    requires
                        total_i <= grand,
                        grand > 0,
                        total_allocated >= 0,
                        total_i >= 0,
                ;
                assert((total_allocated as int * total_i as int) / (grand as int) >= 0)
                    by (nonlinear_arith)
                    requires
                        grand > 0,
                        total_allocated >= 0,
                        total_i >= 0,
                ;
            }
            proof {
                assert(total_allocated as int * total_i as int <= 0xffff_ffff_ffff_ffff
                    * 0xffff_ffff_ffff_ffff) by (nonlinear_arith)
                    requires
                        total_allocated <= 0xffff_ffff_ffff_ffffu64,
                        total_i <= 0xffff_ffff_ffff_ffffu64,
                        total_allocated >= 0,
                        total_i >= 0,
                ;
            }
            let raw: u128 = (total_allocated as u128) * (total_i as u128) / (grand as u128);
            let raw64: u64 = raw as u64;
            share = if raw64 <= total_i {
                raw64
            } else {
                total_i
            };
        }
        let allocated = if share <= total_i {
            share
        } else {
            total_i
        };
        let ghost pre = snapshots@;
        let mut snap = snapshots.remove(i);
        snap.allocated_mb = allocated;
        snapshots.insert(i, snap);
        proof {
            assert(snapshots@ =~= pre.update(i as int, snapshots@[i as int]));
        }
        remaining = if share <= remaining {
            remaining - share
        } else {
            0
        };
        i += 1;
        proof {
            if i <= last_idx {
                assert(spec_rem(s, total_allocated, grand as int, i as int) == remaining);
            }
        }
    }
}

// ─── Probe output parsing ────────────────────────────────────────────────────

/// The value of a kernel memory-table line ("MemTotal:  16384 kB"): its
/// second whitespace-separated token read as a number, 0 when that fails.
pub open spec fn spec_parse_kb(s: Seq<char>) -> u64 {
    let a = crate::text::next_non_space(s, 0);
    let b = crate::text::next_space(s, a);
    let c = crate::text::next_non_space(s, b);
    let d = crate::text::next_space(s, c);
    if c < d && crate::text::all_digits(s.subrange(c, d)) && crate::text::digits_val(
        s.subrange(c, d),
    ) <= u64::MAX {
        crate::text::digits_val(s.subrange(c, d)) as u64
    } else {
        0
    }
}

/// Read the numeric field of a kernel memory-table line.
pub fn parse_kb(line: &str) -> (r: u64)
    ensures
        r == spec_parse_kb(line@),
{
    let a = crate::text::scan_next_non_space(line, 0);
    let b = crate::text::scan_next_space(line, a);
    let c = crate::text::scan_next_non_space(line, b);
    let d = crate::text::scan_next_space(line, c);
    match crate::text::parse_u64_range(line, c, d) {
        Some(v) => v,
        None => 0,
    }
}

/// The page count of a memory-statistics line ("Pages wired down:
/// 123,456."): the text after the first colon, trimmed, stripped of
/// trailing dots and of commas, read as a number; 0 when that fails.
pub open spec fn spec_extract_pages(s: Seq<char>) -> u64 {
    let fc = crate::text::first_at(s, ':');
    if fc >= s.len() {
        0
    } else {
        let rest = s.subrange(fc + 1, s.len() as int);
        let sc = crate::text::first_at(rest, ':');
        let seg = if sc < rest.len() {
            rest.subrange(0, sc)
        } else {
            rest
        };
        let cleaned = crate::text::trim_trailing_dots(
            crate::text::trim_spaces(seg),
        ).filter(|ch: char| ch != ',');
        if cleaned.len() > 0 && crate::text::all_digits(cleaned) && crate::text::digits_val(
            cleaned,
        ) <= u64::MAX {
            crate::text::digits_val(cleaned) as u64
        } else {
            0
        }
    }
}

/// Read the page count of a memory-statistics line.
pub fn extract_pages(line: &str) -> (r: u64)
    ensures
        r == spec_extract_pages(line@),
{
    let len = line.unicode_len();
    let mut i: usize = 0;
    while i < len && line.get_char(i) != ':'
        invariant
            i <= len,
            len == line@.len(),
            forall|j: int| 0 <= j < i ==> line@[j] != ':',
        decreases len - i,
    {
        i += 1;
    }
    proof {
        crate::text::lemma_first_at(line@, ':', i as int);
    }
    if i == len {
        return 0;
    }
    let mut e: usize = i + 1;
    while e < len && line.get_char(e) != ':'
        invariant
            i + 1 <= e <= len,
            len == line@.len(),
            forall|j: int| i + 1 <= j < e ==> line@[j] != ':',
        decreases len - e,
    {
        e += 1;
    }
    let ghost rest = line@.subrange(i + 1, len as int);
    proof {
        assert forall|j: int| 0 <= j < e - i - 1 implies rest[j] != ':' by {
            assert(rest[j] == line@[i + 1 + j]);
        }
        if e < len {
            assert(rest[e - i - 1] == line@[e as int]);
        }
        crate::text::lemma_first_at(rest, ':', e - i - 1);
        let sc = crate::text::first_at(rest, ':');
        if sc < rest.len() {
            assert(rest.subrange(0, sc) =~= line@.subrange(i + 1, e as int));
        } else {
            assert(rest =~= line@.subrange(i + 1, e as int));
        }
    }
    let t = crate::text::str_trim(line.substring_char(i + 1, e));
    let t2 = crate::text::str_trim_trailing_dots(t.as_str());
    let ghost pred = |ch: char| ch != ',';
    let ghost cleaned = t2@.filter(pred);
    proof {
        assert(spec_extract_pages(line@) == (if cleaned.len() > 0 && crate::text::all_digits(
            cleaned,
        ) && crate::text::digits_val(cleaned) <= u64::MAX {
            crate::text::digits_val(cleaned) as u64
        } else {
            0u64
        }));
    }
    let n = t2.as_str().unicode_len();
    let mut acc: u64 = 0;
    let mut any = false;
    let mut k: usize = 0;
    while k < n
        invariant
            k <= n,
            n == t2@.len(),
            cleaned == t2@.filter(pred),
            pred == (|ch: char| ch != ','),
            spec_extract_pages(line@) == (if cleaned.len() > 0 && crate::text::all_digits(cleaned)
                && crate::text::digits_val(cleaned) <= u64::MAX {
                crate::text::digits_val(cleaned) as u64
            } else {
                0u64
            }),
            crate::text::all_digits(t2@.subrange(0, k as int).filter(pred)),
            acc == crate::text::digits_val(t2@.subrange(0, k as int).filter(pred)),
            any == (t2@.subrange(0, k as int).filter(pred).len() > 0),
        decreases n - k,
    {
        let c = t2.as_str().get_char(k);
        let ghost pre0 = t2@.subrange(0, k as int);
        let ghost pre1 = t2@.subrange(0, k + 1);
        proof {
            assert(pre1.drop_last() =~= pre0);
            assert(pre1.last() == c);
        }
        if c != ',' {
            match crate::text::digit_of(c) {
                Some(d) => {
                    if acc > (u64::MAX - d) / 10 {
                        proof {
                            reveal_with_fuel(Seq::<char>::filter, 2);
                            let p1 = pre1.filter(pred);
                            assert(p1 == pre0.filter(pred).push(c));
                            assert(p1.drop_last() =~= pre0.filter(pred));
                            assert(p1.last() == c);
                            assert(crate::text::digits_val(p1) == acc * 10
                                + crate::text::digit_val(c));
                            assert(acc * 10 + d > u64::MAX) by (nonlinear_arith)
                                requires
                                    acc > (0xffff_ffff_ffff_ffffu64 - d) / 10,
                                    0 <= d < 10,
                            {
                                let m = (0xffff_ffff_ffff_ffffu64 - d) / 10;
                                assert(0xffff_ffff_ffff_ffffu64 - d == 10 * m + (
                                0xffff_ffff_ffff_ffffu64 - d) % 10);
                                assert((0xffff_ffff_ffff_ffffu64 - d) % 10 < 10);
                                assert(acc >= m + 1);
                                assert(acc * 10 >= (m + 1) * 10);
                            }
                            assert(crate::text::digits_val(p1) > u64::MAX);
                            Seq::filter_distributes_over_add(
                                pre1,
                                t2@.subrange(k + 1, n as int),
                                pred,
                            );
                            assert(pre1 + t2@.subrange(k + 1, n as int) =~= t2@);
                            assert(cleaned.subrange(0, p1.len() as int) =~= p1);
                            crate::text::lemma_digits_val_prefix_le(
                                cleaned,
                                p1.len() as int,
                            );
                        }
                        return 0;
                    }
                    acc = acc * 10 + d;
                    any = true;
                    proof {
                        reveal_with_fuel(Seq::<char>::filter, 2);
                        assert(pre1.filter(pred) == pre0.filter(pred).push(c));
                        let pf = pre0.filter(pred);
                        assert(pf.push(c).drop_last() =~= pf);
                        assert(pf.push(c).last() == c);
                        assert(crate::text::digits_val(pf.push(c)) == crate::text::digits_val(pf)
                            * 10 + crate::text::digit_val(c));
                        assert(crate::text::all_digits(pf.push(c))) by {
                            assert forall|idx: int| 0 <= idx < pf.push(c).len()
                                implies crate::text::is_digit(pf.push(c)[idx]) by {
                                if idx < pf.len() {
                                    assert(pf.push(c)[idx] == pf[idx]);
                                } else {
                                    assert(pf.push(c)[idx] == c);
                                }
                            }
                        }
                    }
                },
                None => {
                    proof {
                        t2@.lemma_filter_contains(pred, k as int);
                        let idx = choose|idx: int|
                            0 <= idx < cleaned.len() && cleaned[idx] == c;
                        assert(cleaned.contains(c));
                        assert(!crate::text::all_digits(cleaned));
                    }
                    return 0;
                },
            }
        } else {
            proof {
                reveal_with_fuel(Seq::<char>::filter, 2);
                assert(pre1.filter(pred) == pre0.filter(pred));
            }
        }
        k += 1;
    }
    proof {
        assert(t2@.subrange(0, n as int) =~= t2@);
    }
    if any {
        acc
    } else {
        0
    }
}

/// Clone of a snapshot, equal to the original.
pub fn clone_snapshot(s: &MemorySnapshot) -> (r: MemorySnapshot)
    ensures
        r == *s,
{
    MemorySnapshot {
        provider_id: s.provider_id.clone(),
        name: s.name.clone(),
        kind: s.kind,
        total_mb: s.total_mb,
        used_mb: s.used_mb,
        free_mb: s.free_mb,
        allocated_mb: s.allocated_mb,
    }
}

/// Clone of a snapshot list, equal to the original.
pub fn clone_snapshots(v: &Vec<MemorySnapshot>) -> (r: Vec<MemorySnapshot>)
    ensures
        r@ == v@,
{
    let mut out: Vec<MemorySnapshot> = Vec::new();
    let mut i: usize = 0;
    while i < v.len()
        invariant
            i <= v@.len(),
            out@ == v@.subrange(0, i as int),
        decreases v@.len() - i,
    {
        out.push(clone_snapshot(&v[i]));
        proof {
            assert(out@ =~= v@.subrange(0, i + 1));
        }
        i += 1;
    }
    proof {
        assert(v@.subrange(0, v@.len() as int) =~= v@);
    }
    out
}

} // verus!
