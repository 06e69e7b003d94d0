//! The compositor's bounded pool of reusable GPU allocations: which
//! resources are resident, which of them are idle, what a frame may take,
//! and which idle resource goes first when room is needed. The pool holds
//! whatever the backend allocates as an opaque payload `R`.

use std::collections::BTreeMap;

use vstd::prelude::*;

use crate::gpu::{ResourcePoolDiagnostics, ResourcePoolLimits, WgpuError};
use crate::domain::key_order::{key_order, keys_in_order, lemma_keys_ordered};
use crate::render::{PixelFormat, RenderPlan};
use crate::text::{decimal, owned, spec_decimal};

verus! {

broadcast use vstd::std_specs::btree::group_btree_axioms;

/// What a pooled resource is used for.
#[derive(Debug, Clone, Copy, PartialEq, Eq, PartialOrd, Ord, Hash, Structural)]
pub enum ResourceKind {
    Source,
    Output,
    Readback,
}

/// Texel layout of a pooled resource.
#[derive(Debug, Clone, Copy, PartialEq, Eq, PartialOrd, Ord, Hash, Structural)]
pub enum PoolFormat {
    Rgba8,
    Bgra8,
    Rgba16Float,
    R8,
    Rg8,
    R16Float,
    Rg16Float,
    Nv12,
    P010,
}

pub open spec fn kind_rank(k: ResourceKind) -> int {
    match k {
        ResourceKind::Source => 0,
        ResourceKind::Output => 1,
        ResourceKind::Readback => 2,
    }
}

pub open spec fn format_rank(f: PoolFormat) -> int {
    match f {
        PoolFormat::Rgba8 => 0,
        PoolFormat::Bgra8 => 1,
        PoolFormat::Rgba16Float => 2,
        PoolFormat::R8 => 3,
        PoolFormat::Rg8 => 4,
        PoolFormat::R16Float => 5,
        PoolFormat::Rg16Float => 6,
        PoolFormat::Nv12 => 7,
        PoolFormat::P010 => 8,
    }
}

pub open spec fn kind_name(k: ResourceKind) -> Seq<char> {
    match k {
        ResourceKind::Source => "Source"@,
        ResourceKind::Output => "Output"@,
        ResourceKind::Readback => "Readback"@,
    }
}

pub open spec fn format_name(f: PoolFormat) -> Seq<char> {
    match f {
        PoolFormat::Rgba8 => "Rgba8"@,
        PoolFormat::Bgra8 => "Bgra8"@,
        PoolFormat::Rgba16Float => "Rgba16Float"@,
        PoolFormat::R8 => "R8"@,
        PoolFormat::Rg8 => "Rg8"@,
        PoolFormat::R16Float => "R16Float"@,
        PoolFormat::Rg16Float => "Rg16Float"@,
        PoolFormat::Nv12 => "Nv12"@,
        PoolFormat::P010 => "P010"@,
    }
}

/// Bytes per texel of the (first) plane.
pub open spec fn spec_bytes_per_pixel(f: PoolFormat) -> u64 {
    match f {
        PoolFormat::Rgba8 | PoolFormat::Bgra8 => 4,
        PoolFormat::Rgba16Float => 8,
        PoolFormat::R8 => 1,
        PoolFormat::Rg8 => 2,
        PoolFormat::R16Float => 2,
        PoolFormat::Rg16Float => 4,
        PoolFormat::Nv12 => 1,
        PoolFormat::P010 => 2,
    }
}

impl PoolFormat {
    pub fn bytes_per_pixel(self) -> (r: u64)
        ensures
            r == spec_bytes_per_pixel(self),
    {
        match self {
            PoolFormat::Rgba8 | PoolFormat::Bgra8 => 4,
            PoolFormat::Rgba16Float => 8,
            PoolFormat::R8 => 1,
            PoolFormat::Rg8 => 2,
            PoolFormat::R16Float => 2,
            PoolFormat::Rg16Float => 4,
            PoolFormat::Nv12 => 1,
            PoolFormat::P010 => 2,
        }
    }
}

/// The row pitch a buffer copy needs, in bytes (wgpu's
/// `COPY_BYTES_PER_ROW_ALIGNMENT`).
pub const COPY_ROW_ALIGNMENT: u64 = 256;

/// A shape of pooled resource: resources of one key are interchangeable.
#[derive(Debug, Clone, Copy, PartialEq, Eq, PartialOrd, Ord, Hash, Structural)]
pub struct ResourceKey {
    pub kind: ResourceKind,
    pub format: PoolFormat,
    pub width: u32,
    pub height: u32,
}

/// The position of a key in key order: by kind, then format, then width,
/// then height.
pub open spec fn key_rank(k: ResourceKey) -> int {
    kind_rank(k.kind) * 0x1_0000_0000_0000_0000_0000 + format_rank(k.format) * 0x1_0000_0000_0000_0000
        + k.width * 0x1_0000_0000 + k.height
}

/// `a * b`, at most `u64::MAX`.
pub open spec fn sat_mul(a: int, b: int) -> u64 {
    if a * b > u64::MAX {
        u64::MAX
    } else {
        (a * b) as u64
    }
}

/// `a + b`, at most `u64::MAX`.
pub open spec fn sat_add(a: int, b: int) -> u64 {
    if a + b > u64::MAX {
        u64::MAX
    } else {
        (a + b) as u64
    }
}

/// Bytes one resource of `k` occupies: readback rows are padded to the
/// copy alignment; sources carry an 80-byte uniform block and, for NV12
/// and P010, a half-resolution interleaved chroma plane. Every step stops
/// at `u64::MAX`.
pub open spec fn spec_key_bytes(k: ResourceKey) -> u64 {
    let row = sat_mul(k.width as int, spec_bytes_per_pixel(k.format) as int);
    match k.kind {
        ResourceKind::Readback => sat_mul(
            sat_mul((row + COPY_ROW_ALIGNMENT - 1) / COPY_ROW_ALIGNMENT as int, COPY_ROW_ALIGNMENT as int) as int,
            k.height as int,
        ),
        ResourceKind::Output => sat_mul(row as int, k.height as int),
        ResourceKind::Source => match k.format {
            PoolFormat::Nv12 => sat_add(
                sat_add(
                    sat_mul(row as int, k.height as int) as int,
                    sat_mul(sat_mul((k.width / 2) as int, 2) as int, (k.height / 2) as int) as int,
                ) as int,
                80,
            ),
            PoolFormat::P010 => sat_add(
                sat_add(
                    sat_mul(row as int, k.height as int) as int,
                    sat_mul(sat_mul((k.width / 2) as int, 4) as int, (k.height / 2) as int) as int,
                ) as int,
                80,
            ),
            _ => sat_add(sat_mul(row as int, k.height as int) as int, 80),
        },
    }
}

fn mul_sat(a: u64, b: u64) -> (r: u64)
    ensures
        r == sat_mul(a as int, b as int),
{
    match a.checked_mul(b) {
        Some(v) => v,
        None => u64::MAX,
    }
}

fn add_sat(a: u64, b: u64) -> (r: u64)
    ensures
        r == sat_add(a as int, b as int),
{
    a.saturating_add(b)
}

impl ResourceKey {
    /// The key's place in key order, as one number.
    pub fn rank(self) -> (r: u128)
        ensures
            r == key_rank(self),
    {
        let kind: u128 = match self.kind {
            ResourceKind::Source => 0,
            ResourceKind::Output => 1,
            ResourceKind::Readback => 2,
        };
        let format: u128 = match self.format {
            PoolFormat::Rgba8 => 0,
            PoolFormat::Bgra8 => 1,
            PoolFormat::Rgba16Float => 2,
            PoolFormat::R8 => 3,
            PoolFormat::Rg8 => 4,
            PoolFormat::R16Float => 5,
            PoolFormat::Rg16Float => 6,
            PoolFormat::Nv12 => 7,
            PoolFormat::P010 => 8,
        };
        kind * 0x1_0000_0000_0000_0000_0000 + format * 0x1_0000_0000_0000_0000 + (self.width as u128)
            * 0x1_0000_0000 + self.height as u128
    }

    pub fn bytes(self) -> (r: u64)
        ensures
            r == spec_key_bytes(self),
    {
        let row_bytes = mul_sat(self.width as u64, self.format.bytes_per_pixel());
        match self.kind {
            ResourceKind::Readback => {
                let rows = row_bytes / COPY_ROW_ALIGNMENT + if row_bytes % COPY_ROW_ALIGNMENT == 0 {
                    0
                } else {
                    1
                };
                proof {
                    assert(rows == (row_bytes + COPY_ROW_ALIGNMENT - 1) / COPY_ROW_ALIGNMENT as int);
                }
                mul_sat(mul_sat(rows, COPY_ROW_ALIGNMENT), self.height as u64)
            },
            ResourceKind::Output => mul_sat(row_bytes, self.height as u64),
            ResourceKind::Source => match self.format {
                PoolFormat::Nv12 => {
                    let luma = mul_sat(row_bytes, self.height as u64);
                    let chroma_row = mul_sat((self.width / 2) as u64, 2);
                    add_sat(add_sat(luma, mul_sat(chroma_row, (self.height / 2) as u64)), 80)
                },
                PoolFormat::P010 => {
                    let luma = mul_sat(row_bytes, self.height as u64);
                    let chroma_row = mul_sat((self.width / 2) as u64, 4);
                    add_sat(add_sat(luma, mul_sat(chroma_row, (self.height / 2) as u64)), 80)
                },
                _ => add_sat(mul_sat(row_bytes, self.height as u64), 80),
            },
        }
    }
}

/// How a key is named in messages: `Kind/Format WxH`.
pub open spec fn spec_key_label(k: ResourceKey) -> Seq<char> {
    kind_name(k.kind) + "/"@ + format_name(k.format) + " "@ + spec_decimal(k.width as nat) + "x"@
        + spec_decimal(k.height as nat)
}

fn kind_text(k: ResourceKind) -> (r: &'static str)
    ensures
        r@ == kind_name(k),
{
    match k {
        ResourceKind::Source => "Source",
        ResourceKind::Output => "Output",
        ResourceKind::Readback => "Readback",
    }
}

fn format_text(f: PoolFormat) -> (r: &'static str)
    ensures
        r@ == format_name(f),
{
    match f {
        PoolFormat::Rgba8 => "Rgba8",
        PoolFormat::Bgra8 => "Bgra8",
        PoolFormat::Rgba16Float => "Rgba16Float",
        PoolFormat::R8 => "R8",
        PoolFormat::Rg8 => "Rg8",
        PoolFormat::R16Float => "R16Float",
        PoolFormat::Rg16Float => "Rg16Float",
        PoolFormat::Nv12 => "Nv12",
        PoolFormat::P010 => "P010",
    }
}

pub fn key_label(k: ResourceKey) -> (r: String)
    ensures
        r@ == spec_key_label(k),
{
    let mut s = owned(kind_text(k.kind));
    s.append("/");
    s.append(format_text(k.format));
    s.append(" ");
    let w = decimal(k.width as u64);
    s.append(w.as_str());
    s.append("x");
    let h = decimal(k.height as u64);
    s.append(h.as_str());
    s
}


// ---- Resident counts ----

/// How many resources of a key are resident, idle or leased.
#[derive(Debug, Clone, Copy, PartialEq, Eq, Structural)]
pub struct Resident {
    pub key: ResourceKey,
    pub count: usize,
}

/// The count listed for `k` (the last entry for it), or 0.
pub open spec fn count_of(res: Seq<Resident>, k: ResourceKey) -> nat
    decreases res.len(),
{
    if res.len() == 0 {
        0
    } else if res.last().key == k {
        res.last().count as nat
    } else {
        count_of(res.drop_last(), k)
    }
}

pub open spec fn sum_counts(res: Seq<Resident>) -> nat
    decreases res.len(),
{
    if res.len() == 0 {
        0
    } else {
        sum_counts(res.drop_last()) + res.last().count as nat
    }
}

pub open spec fn kind_count(res: Seq<Resident>, kind: ResourceKind) -> nat
    decreases res.len(),
{
    if res.len() == 0 {
        0
    } else {
        kind_count(res.drop_last(), kind) + if res.last().key.kind == kind {
            res.last().count as nat
        } else {
            0
        }
    }
}

pub open spec fn distinct_keys(res: Seq<Resident>) -> bool {
    forall|i: int, j: int| #![trigger res[i], res[j]] 0 <= i < j < res.len() ==> res[i].key != res[j].key
}

/// The entries are listed in strictly ascending key order.
pub open spec fn ascending(res: Seq<Resident>) -> bool {
    forall|i: int, j: int| #![trigger res[i], res[j]] 0 <= i < j < res.len() ==> key_rank(res[i].key) < key_rank(
        res[j].key,
    )
}

proof fn lemma_count_at(res: Seq<Resident>, j: int)
    requires
        distinct_keys(res),
        0 <= j < res.len(),
    ensures
        count_of(res, res[j].key) == res[j].count,
    decreases res.len(),
{
    if j < res.len() - 1 {
        assert(res[j].key != res[res.len() - 1].key);
        let d = res.drop_last();
        assert(d[j] == res[j]);
        assert forall|a: int, b: int| #![trigger d[a], d[b]] 0 <= a < b < d.len() implies d[a].key != d[b].key by {
            assert(d[a] == res[a] && d[b] == res[b]);
        }
        lemma_count_at(d, j);
    }
}

proof fn lemma_count_absent(res: Seq<Resident>, k: ResourceKey)
    requires
        forall|i: int| 0 <= i < res.len() ==> #[trigger] res[i].key != k,
    ensures
        count_of(res, k) == 0,
    decreases res.len(),
{
    if res.len() > 0 {
        let d = res.drop_last();
        assert forall|i: int| 0 <= i < d.len() implies #[trigger] d[i].key != k by {
            assert(d[i] == res[i]);
        }
        lemma_count_absent(d, k);
    }
}

/// Under distinct keys, the count of `k` is that of its entry, or 0.
proof fn lemma_count_lookup(res: Seq<Resident>, k: ResourceKey)
    requires
        distinct_keys(res),
    ensures
        (exists|j: int| 0 <= j < res.len() && res[j].key == k) ==> (count_of(res, k) == res[choose|j: int|
            0 <= j < res.len() && res[j].key == k].count),
        !(exists|j: int| 0 <= j < res.len() && res[j].key == k) ==> count_of(res, k) == 0,
{
    if exists|j: int| 0 <= j < res.len() && res[j].key == k {
        let j = choose|j: int| 0 <= j < res.len() && res[j].key == k;
        lemma_count_at(res, j);
    } else {
        lemma_count_absent(res, k);
    }
}

proof fn lemma_sum_update(res: Seq<Resident>, j: int, x: Resident)
    requires
        0 <= j < res.len(),
    ensures
        sum_counts(res.update(j, x)) == sum_counts(res) - res[j].count + x.count,
        forall|kind: ResourceKind| #[trigger] kind_count(res.update(j, x), kind) == kind_count(res, kind) - (if res[j].key.kind == kind { res[j].count as int } else { 0 }) + (if x.key.kind == kind { x.count as int } else { 0 }),
    decreases res.len(),
{
    let u = res.update(j, x);
    if j == res.len() - 1 {
        assert(u.drop_last() =~= res.drop_last());
        assert forall|kind: ResourceKind| #[trigger] kind_count(u, kind) == kind_count(res, kind) - (if res[j].key.kind
            == kind {
            res[j].count as int
        } else {
            0
        }) + (if x.key.kind == kind {
            x.count as int
        } else {
            0
        }) by {}
    } else {
        assert(u.drop_last() =~= res.drop_last().update(j, x));
        lemma_sum_update(res.drop_last(), j, x);
        assert forall|kind: ResourceKind| #[trigger] kind_count(u, kind) == kind_count(res, kind) - (if res[j].key.kind
            == kind {
            res[j].count as int
        } else {
            0
        }) + (if x.key.kind == kind {
            x.count as int
        } else {
            0
        }) by {
            assert(kind_count(u.drop_last(), kind) == kind_count(res.drop_last().update(j, x), kind));
        }
    }
}

proof fn lemma_sum_remove(res: Seq<Resident>, j: int)
    requires
        0 <= j < res.len(),
    ensures
        sum_counts(res.remove(j)) == sum_counts(res) - res[j].count,
        forall|kind: ResourceKind| #[trigger] kind_count(res.remove(j), kind) == kind_count(res, kind) - (if res[j].key.kind == kind { res[j].count as int } else { 0 }),
    decreases res.len(),
{
    let r = res.remove(j);
    if j == res.len() - 1 {
        assert(r =~= res.drop_last());
        assert forall|kind: ResourceKind| #[trigger] kind_count(r, kind) == kind_count(res, kind) - (if res[j].key.kind
            == kind {
            res[j].count as int
        } else {
            0
        }) by {}
    } else {
        assert(r.drop_last() =~= res.drop_last().remove(j));
        assert(r.last() == res.last());
        lemma_sum_remove(res.drop_last(), j);
        assert forall|kind: ResourceKind| #[trigger] kind_count(r, kind) == kind_count(res, kind) - (if res[j].key.kind
            == kind {
            res[j].count as int
        } else {
            0
        }) by {
            assert(kind_count(r.drop_last(), kind) == kind_count(res.drop_last().remove(j), kind));
        }
    }
}

proof fn lemma_kind_count_bounded(res: Seq<Resident>, kind: ResourceKind, i: int)
    requires
        0 <= i <= res.len(),
    ensures
        kind_count(res.take(i), kind) <= sum_counts(res),
    decreases res.len(),
{
    if i == res.len() {
        assert(res.take(i) =~= res);
        lemma_kind_le_sum(res, kind);
    } else {
        lemma_kind_count_bounded(res.drop_last(), kind, i);
        assert(res.drop_last().take(i) =~= res.take(i));
    }
}

proof fn lemma_kind_le_sum(res: Seq<Resident>, kind: ResourceKind)
    ensures
        kind_count(res, kind) <= sum_counts(res),
    decreases res.len(),
{
    if res.len() > 0 {
        lemma_kind_le_sum(res.drop_last(), kind);
    }
}

fn count_in(res: &Vec<Resident>, key: ResourceKey) -> (r: usize)
    ensures
        r == count_of(res@, key),
{
    let mut i: usize = res.len();
    assert(res@.take(i as int) =~= res@);
    while i > 0
        invariant
            i <= res@.len(),
            count_of(res@, key) == count_of(res@.take(i as int), key),
        decreases i,
    {
        proof {
            assert(res@.take(i as int).drop_last() =~= res@.take(i - 1));
        }
        if res[i - 1].key == key {
            return res[i - 1].count;
        }
        i = i - 1;
    }
    0
}

/// The entries' listing is in strictly ascending key order.
pub fn is_ascending(res: &Vec<Resident>) -> (r: bool)
    ensures
        r == ascending(res@),
{
    let mut i: usize = 1;
    if res.len() == 0 {
        return true;
    }
    while i < res.len()
        invariant
            1 <= i <= res@.len(),
            ascending(res@.take(i as int)),
        decreases res@.len() - i,
    {
        if res[i - 1].key.rank() >= res[i].key.rank() {
            proof {
                assert(!(key_rank(res@[i - 1].key) < key_rank(res@[i as int].key)));
            }
            return false;
        }
        proof {
            let t = res@.take(i + 1);
            assert forall|a: int, b: int| #![trigger t[a], t[b]] 0 <= a < b < t.len() implies key_rank(t[a].key) < key_rank(t[b].key) by {
                let p = res@.take(i as int);
                if b < i {
                    assert(p[a] == t[a] && p[b] == t[b]);
                } else if a < i - 1 {
                    assert(p[a] == t[a] && p[i - 1] == t[i - 1]);
                }
            }
        }
        i = i + 1;
    }
    assert(res@.take(i as int) =~= res@);
    true
}

// ---- The pool ----

/// An idle resource with the release number that orders evictions.
pub struct IdleResource<R> {
    pub key: ResourceKey,
    pub sequence: u64,
    pub resource: R,
}

pub open spec fn idle_view<R>(idle: Seq<IdleResource<R>>) -> Seq<(ResourceKey, u64)> {
    idle.map_values(|e: IdleResource<R>| (e.key, e.sequence))
}

/// The first idle resource of key `k`, if any.
pub open spec fn first_idle(idle: Seq<(ResourceKey, u64)>, k: ResourceKey) -> Option<int> {
    if exists|i: int| 0 <= i < idle.len() && idle[i].0 == k {
        Some(choose|i: int| 0 <= i < idle.len() && idle[i].0 == k && forall|j: int| 0 <= j < i ==> idle[j].0 != k)
    } else {
        None
    }
}

/// Resources of `k` beyond what `required` protects may be evicted.
pub open spec fn evictable(resident: Seq<Resident>, required: Seq<Resident>, k: ResourceKey) -> bool {
    count_of(resident, k) > count_of(required, k)
}

/// Idle entry `c` goes before `i`: released earlier, then lower key, then
/// earlier in its key's queue.
pub open spec fn goes_first(idle: Seq<(ResourceKey, u64)>, c: int, i: int) -> bool {
    ||| idle[c].1 < idle[i].1
    ||| idle[c].1 == idle[i].1 && key_rank(idle[c].0) < key_rank(idle[i].0)
    ||| idle[c].1 == idle[i].1 && idle[c].0 == idle[i].0 && c < i
}

/// `c` is the idle entry an eviction takes: evictable, and before every
/// other evictable entry.
pub open spec fn eviction_choice(idle: Seq<(ResourceKey, u64)>, resident: Seq<Resident>, required: Seq<Resident>, c: int) -> bool {
    &&& 0 <= c < idle.len()
    &&& evictable(resident, required, idle[c].0)
    &&& forall|i: int|
        0 <= i < idle.len() && i != c && evictable(resident, required, #[trigger] idle[i].0) ==> goes_first(
            idle,
            c,
            i,
        )
}

pub open spec fn any_evictable(idle: Seq<(ResourceKey, u64)>, resident: Seq<Resident>, required: Seq<Resident>) -> bool {
    exists|i: int| 0 <= i < idle.len() && evictable(resident, required, #[trigger] idle[i].0)
}

/// `u64::saturating_sub`.
pub open spec fn sat_sub(a: u64, b: u64) -> u64 {
    if a < b {
        0
    } else {
        (a - b) as u64
    }
}

pub open spec fn sat_inc(v: u64) -> u64 {
    sat_add(v as int, 1)
}

/// A bounded pool of reusable resources of payload `R`.
pub struct ResourcePool<R> {
    limits: ResourcePoolLimits,
    idle: Vec<IdleResource<R>>,
    resident: Vec<Resident>,
    resident_bytes: u64,
    resident_resources: usize,
    sequence: u64,
    diagnostics: ResourcePoolDiagnostics,
}

impl<R> ResourcePool<R> {
    /// Resident counts have one positive entry per key and add up to the
    /// resident total.
    pub closed spec fn wf(&self) -> bool {
        &&& distinct_keys(self.resident@)
        &&& forall|i: int| 0 <= i < self.resident@.len() ==> #[trigger] self.resident@[i].count > 0
        &&& self.resident_resources == sum_counts(self.resident@)
    }

    pub closed spec fn spec_limits(&self) -> ResourcePoolLimits {
        self.limits
    }

    /// The idle resources in release order, by key and release number.
    pub closed spec fn spec_idle(&self) -> Seq<(ResourceKey, u64)> {
        idle_view(self.idle@)
    }

    /// The idle payloads in release order.
    pub closed spec fn spec_idle_payloads(&self) -> Seq<R> {
        self.idle@.map_values(|e: IdleResource<R>| e.resource)
    }

    pub closed spec fn spec_resident(&self) -> Seq<Resident> {
        self.resident@
    }

    pub closed spec fn spec_resident_bytes(&self) -> u64 {
        self.resident_bytes
    }

    pub closed spec fn spec_resident_resources(&self) -> usize {
        self.resident_resources
    }

    /// The idle resources, what is resident and the resident totals.
    pub open spec fn spec_fill(&self) -> PoolFill {
        PoolFill {
            idle: self.spec_idle(),
            resident: self.spec_resident(),
            bytes: self.spec_resident_bytes(),
            resources: self.spec_resident_resources(),
        }
    }

    pub closed spec fn spec_sequence(&self) -> u64 {
        self.sequence
    }

    pub closed spec fn spec_counters(&self) -> (u64, u64, u64, u64, u64) {
        (
            self.diagnostics.allocations,
            self.diagnostics.reuses,
            self.diagnostics.evictions,
            self.diagnostics.acquisition_misses,
            self.diagnostics.prewarm_generations,
        )
    }

    pub closed spec fn spec_last_evicted(&self) -> Option<Seq<char>> {
        match self.diagnostics.last_evicted {
            Some(s) => Some(s@),
            None => None,
        }
    }

    /// An empty pool with the given limits.
    pub fn new(limits: ResourcePoolLimits) -> (r: Self)
        ensures
            r.wf(),
            r.spec_limits() == limits,
            r.spec_idle().len() == 0,
            r.spec_resident().len() == 0,
            r.spec_resident_bytes() == 0,
            r.spec_resident_resources() == 0,
            r.spec_sequence() == 0,
            r.spec_counters() == (0u64, 0u64, 0u64, 0u64, 0u64),
            r.spec_last_evicted() is None,
    {
        ResourcePool {
            limits,
            idle: Vec::new(),
            resident: Vec::new(),
            resident_bytes: 0,
            resident_resources: 0,
            sequence: 0,
            diagnostics: ResourcePoolDiagnostics::default(),
        }
    }

    pub fn idle_count(&self) -> (r: usize)
        ensures
            r == self.spec_idle().len(),
    {
        self.idle.len()
    }

    /// The resident count of a key.
    pub fn resident_count(&self, key: ResourceKey) -> (r: usize)
        ensures
            r == count_of(self.spec_resident(), key),
    {
        count_in(&self.resident, key)
    }

    /// Counters and limits, with resident totals per kind.
    pub fn diagnostics(&self) -> (r: ResourcePoolDiagnostics)
        requires
            self.wf(),
        ensures
            r.limit_bytes == self.spec_limits().max_bytes,
            r.limit_resources == self.spec_limits().max_resources,
            r.resident_bytes == self.spec_resident_bytes(),
            r.resident_resources == self.spec_resident_resources(),
            r.idle_resources == self.spec_idle().len(),
            r.source_resources == kind_count(self.spec_resident(), ResourceKind::Source),
            r.output_resources == kind_count(self.spec_resident(), ResourceKind::Output),
            r.readback_resources == kind_count(self.spec_resident(), ResourceKind::Readback),
            (r.allocations, r.reuses, r.evictions, r.acquisition_misses, r.prewarm_generations)
                == self.spec_counters(),
            match r.last_evicted {
                Some(s) => self.spec_last_evicted() == Some(s@),
                None => self.spec_last_evicted() is None,
            },
    {
        ResourcePoolDiagnostics {
            limit_bytes: self.limits.max_bytes,
            limit_resources: self.limits.max_resources,
            resident_bytes: self.resident_bytes,
            resident_resources: self.resident_resources,
            idle_resources: self.idle.len(),
            source_resources: self.kind_total(ResourceKind::Source),
            output_resources: self.kind_total(ResourceKind::Output),
            readback_resources: self.kind_total(ResourceKind::Readback),
            allocations: self.diagnostics.allocations,
            reuses: self.diagnostics.reuses,
            evictions: self.diagnostics.evictions,
            acquisition_misses: self.diagnostics.acquisition_misses,
            prewarm_generations: self.diagnostics.prewarm_generations,
            last_evicted: match &self.diagnostics.last_evicted {
                Some(s) => Some(s.clone()),
                None => None,
            },
        }
    }

    fn kind_total(&self, kind: ResourceKind) -> (r: usize)
        requires
            self.wf(),
        ensures
            r == kind_count(self.resident@, kind),
    {
        let mut total: usize = 0;
        let mut i: usize = 0;
        while i < self.resident.len()
            invariant
                i <= self.resident@.len(),
                self.wf(),
                total == kind_count(self.resident@.take(i as int), kind),
            decreases self.resident@.len() - i,
        {
            proof {
                assert(self.resident@.take(i + 1).drop_last() =~= self.resident@.take(i as int));
                lemma_kind_count_bounded(self.resident@, kind, i + 1);
            }
            if self.resident[i].key.kind == kind {
                total = total + self.resident[i].count;
            }
            i = i + 1;
        }
        assert(self.resident@.take(i as int) =~= self.resident@);
        total
    }
}


/// Different keys have different ranks.
pub proof fn lemma_key_rank_injective(a: ResourceKey, b: ResourceKey)
    requires
        key_rank(a) == key_rank(b),
    ensures
        a == b,
{
    assert(a.width * 0x1_0000_0000 + a.height < 0x1_0000_0000_0000_0000);
    assert(b.width * 0x1_0000_0000 + b.height < 0x1_0000_0000_0000_0000);
    assert(kind_rank(a.kind) == kind_rank(b.kind));
    assert(format_rank(a.format) == format_rank(b.format));
    assert(a.width == b.width);
}

/// The required bytes of a listing: each key's bytes times its count,
/// summed, each step at most `u64::MAX`.
pub open spec fn bytes_needed(req: Seq<Resident>) -> u64
    decreases req.len(),
{
    if req.len() == 0 {
        0
    } else {
        sat_add(bytes_needed(req.drop_last()) as int, sat_mul(spec_key_bytes(req.last().key) as int, req.last().count as int) as int)
    }
}

/// What a listing adds to the resident counts: for each key, in order, the
/// count it still lacks, where it lacks any.
pub open spec fn additions_for(req: Seq<Resident>, resident: Seq<Resident>) -> Seq<Resident>
    decreases req.len(),
{
    if req.len() == 0 {
        Seq::empty()
    } else {
        let k = req.last().key;
        let have = count_of(resident, k);
        additions_for(req.drop_last(), resident) + if req.last().count > have {
            seq![Resident { key: k, count: (req.last().count - have) as usize }]
        } else {
            Seq::empty()
        }
    }
}

pub open spec fn sat_add_usize(a: usize, b: usize) -> usize {
    if a + b > usize::MAX {
        usize::MAX
    } else {
        (a + b) as usize
    }
}

/// The pool can take `bytes` and `resources` more within its limits.
/// What evicting changes in a pool: its idle resources, what is resident,
/// and the resident totals.
pub struct PoolFill {
    pub idle: Seq<(ResourceKey, u64)>,
    pub resident: Seq<Resident>,
    pub bytes: u64,
    pub resources: usize,
}

/// `b` is `a` after evicting the idle resource that `eviction_choice` picks.
pub open spec fn evicted_one(a: PoolFill, b: PoolFill, required: Seq<Resident>) -> bool {
    exists|c: int|
        {
            &&& #[trigger] eviction_choice(a.idle, a.resident, required, c)
            &&& b.idle == a.idle.remove(c)
            &&& forall|k: ResourceKey| #[trigger] count_of(b.resident, k) == count_of(a.resident, k) - if k
                == a.idle[c].0 {
                1int
            } else {
                0int
            }
            &&& b.bytes == sat_sub(a.bytes, spec_key_bytes(a.idle[c].0))
            &&& b.resources == a.resources - 1
        }
}

/// `b` is `a` after `n` evictions, each made while `bytes` and `resources`
/// more did not fit within `limits`.
pub open spec fn evictions(
    a: PoolFill,
    b: PoolFill,
    required: Seq<Resident>,
    limits: ResourcePoolLimits,
    bytes: u64,
    resources: usize,
    n: nat,
) -> bool
    decreases n,
{
    if n == 0 {
        a == b
    } else {
        exists|mid: PoolFill|
            evictions(a, mid, required, limits, bytes, resources, (n - 1) as nat) && !has_room(
                limits,
                mid.bytes,
                mid.resources,
                bytes,
                resources,
            ) && #[trigger] evicted_one(mid, b, required)
    }
}

/// One more eviction, made while there was no room, extends a chain.
proof fn lemma_evictions_step(
    a: PoolFill,
    mid: PoolFill,
    b: PoolFill,
    required: Seq<Resident>,
    limits: ResourcePoolLimits,
    bytes: u64,
    resources: usize,
    n: nat,
)
    requires
        evictions(a, mid, required, limits, bytes, resources, n),
        !has_room(limits, mid.bytes, mid.resources, bytes, resources),
        evicted_one(mid, b, required),
    ensures
        evictions(a, b, required, limits, bytes, resources, n + 1),
{
    assert(((n + 1) - 1) as nat == n);
}

/// Evictions made only while there was no room for `bytes` and
/// `resources` more.
pub open spec fn evicted_while_full(
    a: PoolFill,
    b: PoolFill,
    required: Seq<Resident>,
    limits: ResourcePoolLimits,
    bytes: u64,
    resources: usize,
) -> bool {
    exists|n: nat| #[trigger] evictions(a, b, required, limits, bytes, resources, n)
}

pub open spec fn has_room(limits: ResourcePoolLimits, resident_bytes: u64, resident_resources: usize, bytes: u64, resources: usize) -> bool {
    sat_add(resident_bytes as int, bytes as int) <= limits.max_bytes && sat_add_usize(resident_resources, resources)
        <= limits.max_resources
}

/// No key dropped below what `required` protects, unless it was below
/// that already and kept its count.
pub open spec fn kept_required(before: Seq<Resident>, after: Seq<Resident>, required: Seq<Resident>) -> bool {
    forall|k: ResourceKey| #[trigger] count_of(after, k) == count_of(before, k) || count_of(after, k) >= count_of(required, k)
}

pub open spec fn pool_limit_error(e: WgpuError, bytes: u64, resources: usize, limits: ResourcePoolLimits) -> bool {
    e == WgpuError::PoolLimit {
        required_bytes: bytes,
        required_resources: resources,
        limit_bytes: limits.max_bytes,
        limit_resources: limits.max_resources,
    }
}

impl<R> ResourcePool<R> {
    /// Takes the idle resource of `key` that was released first. A frame
    /// never allocates: with none idle, the key was not prepared.
    pub fn acquire(&mut self, key: ResourceKey) -> (r: Result<R, WgpuError>)
        requires
            old(self).wf(),
        ensures
            final(self).wf(),
            final(self).spec_limits() == old(self).spec_limits(),
            final(self).spec_resident() == old(self).spec_resident(),
            final(self).spec_resident_bytes() == old(self).spec_resident_bytes(),
            final(self).spec_resident_resources() == old(self).spec_resident_resources(),
            final(self).spec_sequence() == old(self).spec_sequence(),
            final(self).spec_last_evicted() == old(self).spec_last_evicted(),
            match first_idle(old(self).spec_idle(), key) {
                Some(i) => {
                    &&& r matches Ok(x) && x == old(self).spec_idle_payloads()[i]
                    &&& final(self).spec_idle() == old(self).spec_idle().remove(i)
                    &&& final(self).spec_idle_payloads() == old(self).spec_idle_payloads().remove(i)
                    &&& final(self).spec_counters() == (
                        old(self).spec_counters().0,
                        sat_inc(old(self).spec_counters().1),
                        old(self).spec_counters().2,
                        old(self).spec_counters().3,
                        old(self).spec_counters().4,
                    )
                },
                None => {
                    &&& r matches Err(WgpuError::UnpreparedResource(m)) && m@ == spec_key_label(key)
                    &&& final(self).spec_idle() == old(self).spec_idle()
                    &&& final(self).spec_idle_payloads() == old(self).spec_idle_payloads()
                    &&& final(self).spec_counters() == (
                        old(self).spec_counters().0,
                        old(self).spec_counters().1,
                        old(self).spec_counters().2,
                        sat_inc(old(self).spec_counters().3),
                        old(self).spec_counters().4,
                    )
                },
            },
    {
        let ghost iv = idle_view(self.idle@);
        let mut i: usize = 0;
        while i < self.idle.len()
            invariant
                i <= self.idle@.len(),
                iv == idle_view(self.idle@),
                *self == *old(self),
                self.wf(),
                forall|j: int| 0 <= j < i ==> iv[j].0 != key,
            decreases self.idle@.len() - i,
        {
            if self.idle[i].key == key {
                proof {
                    assert(iv[i as int].0 == key);
                    let c = choose|c: int| 0 <= c < iv.len() && iv[c].0 == key && forall|j: int| 0 <= j < c ==> iv[j].0 != key;
                    assert(c == i) by {
                        if c < i {
                            assert(iv[c].0 != key);
                        }
                        if c > i {
                            assert(iv[i as int].0 != key);
                        }
                    }
                }
                let ghost before = self.idle@;
                let e = self.idle.remove(i);
                self.diagnostics.reuses = self.diagnostics.reuses.saturating_add(1);
                proof {
                    assert(idle_view(self.idle@) =~= iv.remove(i as int));
                    assert(self.idle@.map_values(|e: IdleResource<R>| e.resource) =~= before.map_values(
                        |e: IdleResource<R>| e.resource,
                    ).remove(i as int));
                }
                return Ok(e.resource);
            }
            i = i + 1;
        }
        self.diagnostics.acquisition_misses = self.diagnostics.acquisition_misses.saturating_add(1);
        Err(WgpuError::UnpreparedResource(key_label(key)))
    }

    /// Returns a resource to the idle set under the next release number.
    pub fn release(&mut self, key: ResourceKey, resource: R)
        requires
            old(self).wf(),
        ensures
            final(self).wf(),
            final(self).spec_sequence() == sat_inc(old(self).spec_sequence()),
            final(self).spec_idle() == old(self).spec_idle().push((key, final(self).spec_sequence())),
            final(self).spec_idle_payloads() == old(self).spec_idle_payloads().push(resource),
            final(self).spec_limits() == old(self).spec_limits(),
            final(self).spec_resident() == old(self).spec_resident(),
            final(self).spec_resident_bytes() == old(self).spec_resident_bytes(),
            final(self).spec_resident_resources() == old(self).spec_resident_resources(),
            final(self).spec_counters() == old(self).spec_counters(),
            final(self).spec_last_evicted() == old(self).spec_last_evicted(),
    {
        self.sequence = self.sequence.saturating_add(1);
        let ghost before = self.idle@;
        self.idle.push(IdleResource { key, sequence: self.sequence, resource });
        proof {
            assert(idle_view(self.idle@) =~= idle_view(before).push((key, self.sequence)));
            assert(self.idle@.map_values(|e: IdleResource<R>| e.resource) =~= before.map_values(
                |e: IdleResource<R>| e.resource,
            ).push(resource));
        }
    }

    /// Takes one from the resident count of `key`, which must have one.
    fn drop_resident(&mut self, key: ResourceKey)
        requires
            old(self).wf(),
            count_of(old(self).resident@, key) >= 1,
        ensures
            final(self).wf(),
            forall|k: ResourceKey| #[trigger] count_of(final(self).resident@, k) == count_of(old(self).resident@, k) - if k == key {
                1int
            } else {
                0int
            },
            forall|kind: ResourceKind| #[trigger] kind_count(final(self).resident@, kind) == kind_count(old(self).resident@, kind) - if key.kind == kind {
                1int
            } else {
                0int
            },
            final(self).resident_resources == old(self).resident_resources - 1,
            final(self).idle == old(self).idle,
            final(self).limits == old(self).limits,
            final(self).resident_bytes == old(self).resident_bytes,
            final(self).sequence == old(self).sequence,
            final(self).diagnostics == old(self).diagnostics,
    {
        let ghost res = self.resident@;
        proof {
            lemma_count_lookup(res, key);
        }
        let mut j: usize = 0;
        while j < self.resident.len() && self.resident[j].key != key
            invariant
                j <= res.len(),
                res == self.resident@,
                forall|m: int| 0 <= m < j ==> res[m].key != key,
            decreases res.len() - j,
        {
            j = j + 1;
        }
        assert(j < res.len() && res[j as int].key == key) by {
            if j == res.len() {
                lemma_count_absent(res, key);
            }
        };
        proof {
            lemma_count_at(res, j as int);
        }
        let entry = self.resident[j];
        proof {
            lemma_sum_remove(res, j as int);
            lemma_sum_update(res, j as int, Resident { key, count: (entry.count - 1) as usize });
        }
        if entry.count == 1 {
            self.resident.remove(j);
        } else {
            self.resident.set(j, Resident { key, count: entry.count - 1 });
        }
        self.resident_resources = self.resident_resources - 1;
        proof {
            let n = self.resident@;
            assert forall|a: int, b: int| #![trigger n[a], n[b]] 0 <= a < b < n.len() implies n[a].key != n[b].key by {
                if entry.count == 1 {
                    let a0 = if a < j { a } else { a + 1 };
                    let b0 = if b < j { b } else { b + 1 };
                    assert(n[a] == res[a0] && n[b] == res[b0]);
                } else {
                    assert(a != j ==> n[a] == res[a]);
                    assert(b != j ==> n[b] == res[b]);
                }
            }
            assert forall|i: int| 0 <= i < n.len() implies #[trigger] n[i].count > 0 by {
                if entry.count == 1 {
                    let i0 = if i < j { i } else { i + 1 };
                    assert(n[i] == res[i0]);
                } else {
                    assert(i != j ==> n[i] == res[i]);
                }
            }
            assert forall|k: ResourceKey| #[trigger] count_of(n, k) == count_of(res, k) - if k == key {
                1int
            } else {
                0int
            } by {
                lemma_count_lookup(res, k);
                lemma_count_lookup(n, k);
                if k == key {
                    if entry.count == 1 {
                        assert forall|i: int| 0 <= i < n.len() implies #[trigger] n[i].key != k by {
                            let i0 = if i < j { i } else { i + 1 };
                            assert(n[i] == res[i0]);
                            assert(i0 != j);
                        }
                        lemma_count_absent(n, k);
                    } else {
                        lemma_count_at(n, j as int);
                    }
                } else {
                    if exists|m: int| 0 <= m < res.len() && res[m].key == k {
                        let m = choose|m: int| 0 <= m < res.len() && res[m].key == k;
                        assert(m != j);
                        let m2 = if entry.count == 1 && m > j { m - 1 } else { m };
                        assert(n[m2] == res[m]);
                        lemma_count_at(n, m2);
                        lemma_count_at(res, m);
                    } else {
                        assert forall|i: int| 0 <= i < n.len() implies #[trigger] n[i].key != k by {
                            if entry.count == 1 {
                                let i0 = if i < j { i } else { i + 1 };
                                assert(n[i] == res[i0]);
                            } else if i != j {
                                assert(n[i] == res[i]);
                            }
                        }
                        lemma_count_absent(n, k);
                    }
                }
            }
        }
    }

    /// Evicts the idle resource released first among the keys that hold
    /// more than `required` protects (ties: lower key, then earlier in the
    /// key's queue). Returns whether one was evicted.
    pub fn evict_one(&mut self, required: &Vec<Resident>) -> (r: bool)
        requires
            old(self).wf(),
        ensures
            final(self).wf(),
            r == any_evictable(old(self).spec_idle(), old(self).spec_resident(), required@),
            final(self).spec_limits() == old(self).spec_limits(),
            final(self).spec_sequence() == old(self).spec_sequence(),
            r ==> exists|c: int|
                {
                    &&& eviction_choice(old(self).spec_idle(), old(self).spec_resident(), required@, c)
                    &&& final(self).spec_idle() == old(self).spec_idle().remove(c)
                    &&& final(self).spec_idle_payloads() == old(self).spec_idle_payloads().remove(c)
                    &&& forall|k: ResourceKey| #[trigger] count_of(final(self).spec_resident(), k) == count_of(
                        old(self).spec_resident(),
                        k,
                    ) - if k == old(self).spec_idle()[c].0 {
                        1int
                    } else {
                        0int
                    }
                    &&& final(self).spec_resident_bytes() == sat_sub(
                        old(self).spec_resident_bytes(),
                        spec_key_bytes(old(self).spec_idle()[c].0),
                    )
                    &&& final(self).spec_last_evicted() == Some(spec_key_label(old(self).spec_idle()[c].0))
                },
            r ==> final(self).spec_resident_resources() == old(self).spec_resident_resources() - 1,
            r ==> final(self).spec_counters() == (
                old(self).spec_counters().0,
                old(self).spec_counters().1,
                sat_inc(old(self).spec_counters().2),
                old(self).spec_counters().3,
                old(self).spec_counters().4,
            ),
            !r ==> final(self).spec_idle() == old(self).spec_idle() && final(self).spec_idle_payloads() == old(
                self,
            ).spec_idle_payloads() && final(self).spec_resident() == old(self).spec_resident()
                && final(self).spec_resident_bytes() == old(self).spec_resident_bytes()
                && final(self).spec_resident_resources() == old(self).spec_resident_resources()
                && final(self).spec_counters() == old(self).spec_counters() && final(self).spec_last_evicted()
                == old(self).spec_last_evicted(),
            kept_required(old(self).spec_resident(), final(self).spec_resident(), required@),
    {
        let ghost iv = idle_view(self.idle@);
        let ghost res = self.resident@;
        let mut best: Option<usize> = None;
        let mut i: usize = 0;
        while i < self.idle.len()
            invariant
                i <= iv.len(),
                iv == idle_view(self.idle@),
                res == self.resident@,
                best matches Some(b) ==> {
                    &&& b < i
                    &&& evictable(res, required@, iv[b as int].0)
                    &&& forall|m: int|
                        0 <= m < i && m != b && evictable(res, required@, #[trigger] iv[m].0) ==> goes_first(
                            iv,
                            b as int,
                            m,
                        )
                },
                best is None ==> forall|m: int| 0 <= m < i ==> !evictable(res, required@, #[trigger] iv[m].0),
            decreases iv.len() - i,
        {
            let key = self.idle[i].key;
            if count_in(&self.resident, key) > count_in(required, key) {
                match best {
                    None => {
                        best = Some(i);
                    },
                    Some(b) => {
                        let si = self.idle[i].sequence;
                        let sb = self.idle[b].sequence;
                        if si < sb || (si == sb && key.rank() < self.idle[b].key.rank()) {
                            best = Some(i);
                        } else {
                            proof {
                                if si == sb && key_rank(iv[i as int].0) == key_rank(iv[b as int].0) {
                                    lemma_key_rank_injective(iv[i as int].0, iv[b as int].0);
                                }
                            }
                        }
                    },
                }
            }
            i = i + 1;
        }
        let c = match best {
            None => {
                return false;
            },
            Some(c) => c,
        };
        let key = self.idle[c].key;
        let ghost before = self.idle@;
        let _ = self.idle.remove(c);
        proof {
            assert(idle_view(self.idle@) =~= iv.remove(c as int));
            assert(self.idle@.map_values(|e: IdleResource<R>| e.resource) =~= before.map_values(
                |e: IdleResource<R>| e.resource,
            ).remove(c as int));
        }
        self.drop_resident(key);
        self.resident_bytes = self.resident_bytes.saturating_sub(key.bytes());
        self.diagnostics.evictions = self.diagnostics.evictions.saturating_add(1);
        self.diagnostics.last_evicted = Some(key_label(key));
        proof {
            assert(eviction_choice(iv, res, required@, c as int));
        }
        true
    }
}


impl<R> ResourcePool<R> {
    /// Counts a newly allocated resource of `key` as resident and idle.
    pub fn admit_new(&mut self, key: ResourceKey, resource: R)
        requires
            old(self).wf(),
            old(self).spec_resident_resources() < usize::MAX,
        ensures
            final(self).wf(),
            final(self).spec_resident_bytes() == sat_add(
                old(self).spec_resident_bytes() as int,
                spec_key_bytes(key) as int,
            ),
            final(self).spec_resident_resources() == old(self).spec_resident_resources() + 1,
            forall|k: ResourceKey| #[trigger] count_of(final(self).spec_resident(), k) == count_of(
                old(self).spec_resident(),
                k,
            ) + if k == key {
                1int
            } else {
                0int
            },
            final(self).spec_sequence() == sat_inc(old(self).spec_sequence()),
            final(self).spec_idle() == old(self).spec_idle().push((key, final(self).spec_sequence())),
            final(self).spec_idle_payloads() == old(self).spec_idle_payloads().push(resource),
            final(self).spec_counters() == (
                sat_inc(old(self).spec_counters().0),
                old(self).spec_counters().1,
                old(self).spec_counters().2,
                old(self).spec_counters().3,
                old(self).spec_counters().4,
            ),
            final(self).spec_limits() == old(self).spec_limits(),
            final(self).spec_last_evicted() == old(self).spec_last_evicted(),
    {
        self.resident_bytes = self.resident_bytes.saturating_add(key.bytes());
        let ghost res = self.resident@;
        proof {
            lemma_count_lookup(res, key);
        }
        let mut j: usize = 0;
        while j < self.resident.len() && self.resident[j].key != key
            invariant
                j <= res.len(),
                res == self.resident@,
                forall|m: int| 0 <= m < j ==> res[m].key != key,
            decreases res.len() - j,
        {
            j = j + 1;
        }
        if j < self.resident.len() {
            let entry = self.resident[j];
            proof {
                lemma_count_at(res, j as int);
                lemma_sum_remove(res, j as int);
                lemma_sum_update(res, j as int, Resident { key, count: (entry.count + 1) as usize });
            }
            self.resident.set(j, Resident { key, count: entry.count + 1 });
        } else {
            self.resident.push(Resident { key, count: 1 });
            proof {
                assert(self.resident@.drop_last() =~= res);
            }
        }
        self.resident_resources = self.resident_resources + 1;
        self.diagnostics.allocations = self.diagnostics.allocations.saturating_add(1);
        proof {
            let n = self.resident@;
            assert forall|a: int, b: int| #![trigger n[a], n[b]] 0 <= a < b < n.len() implies n[a].key != n[b].key by {
                if a != j && b != j {
                    assert(n[a] == res[a] && n[b] == res[b]);
                } else if a == j {
                    assert(n[b] == res[b] || b == res.len());
                } else {
                    assert(n[a] == res[a]);
                }
            }
            assert forall|i: int| 0 <= i < n.len() implies #[trigger] n[i].count > 0 by {
                if i != j {
                    assert(n[i] == res[i]);
                }
            }
            assert forall|k: ResourceKey| #[trigger] count_of(n, k) == count_of(res, k) + if k == key {
                1int
            } else {
                0int
            } by {
                lemma_count_lookup(res, k);
                lemma_count_lookup(n, k);
                if k == key {
                    lemma_count_at(n, j as int);
                    if j == res.len() {
                        lemma_count_absent(res, k);
                    } else {
                        lemma_count_at(res, j as int);
                    }
                } else if exists|m: int| 0 <= m < res.len() && res[m].key == k {
                    let m = choose|m: int| 0 <= m < res.len() && res[m].key == k;
                    assert(n[m] == res[m]);
                    lemma_count_at(n, m);
                    lemma_count_at(res, m);
                } else {
                    assert forall|i: int| 0 <= i < n.len() implies #[trigger] n[i].key != k by {
                        if i != j {
                            assert(n[i] == res[i]);
                        }
                    }
                    lemma_count_absent(n, k);
                }
            }
        }
        self.release(key, resource);
    }

    /// Evicts (oldest idle first, never what `required` protects) until
    /// `bytes` and `resources` more fit within the limits. Fails with the
    /// totals that would be needed once nothing more can be evicted.
    fn make_room(&mut self, bytes: u64, resources: usize, required: &Vec<Resident>) -> (r: Result<(), WgpuError>)
        requires
            old(self).wf(),
        ensures
            final(self).wf(),
            final(self).limits == old(self).limits,
            final(self).sequence == old(self).sequence,
            kept_required(old(self).resident@, final(self).resident@, required@),
            evicted_while_full(old(self).spec_fill(), final(self).spec_fill(), required@, old(self).limits, bytes, resources),
            match r {
                Ok(()) => has_room(
                    final(self).limits,
                    final(self).resident_bytes,
                    final(self).resident_resources,
                    bytes,
                    resources,
                ),
                Err(e) => {
                    &&& !any_evictable(idle_view(final(self).idle@), final(self).resident@, required@)
                    &&& !has_room(
                        final(self).limits,
                        final(self).resident_bytes,
                        final(self).resident_resources,
                        bytes,
                        resources,
                    )
                    &&& pool_limit_error(
                        e,
                        sat_add(final(self).resident_bytes as int, bytes as int),
                        sat_add_usize(final(self).resident_resources, resources),
                        final(self).limits,
                    )
                },
            },
    {
        let ghost mut n: nat = 0;
        proof {
            assert(evictions(old(self).spec_fill(), self.spec_fill(), required@, self.limits, bytes, resources, 0));
        }
        while self.resident_bytes.saturating_add(bytes) > self.limits.max_bytes
            || self.resident_resources.saturating_add(resources) > self.limits.max_resources
            invariant
                self.wf(),
                self.limits == old(self).limits,
                self.sequence == old(self).sequence,
                kept_required(old(self).resident@, self.resident@, required@),
                evictions(old(self).spec_fill(), self.spec_fill(), required@, self.limits, bytes, resources, n),
            decreases self.idle@.len(),
        {
            let ghost fill_before = self.spec_fill();
            let ghost n0 = n;
            let ghost limits = self.limits;
            assert(evictions(old(self).spec_fill(), fill_before, required@, limits, bytes, resources, n0));
            let ghost old_payloads = self.spec_idle_payloads();
            let ghost mid = self.resident@;
            let ghost before_len = self.idle@.len();
            if !self.evict_one(required) {
                return Err(
                    WgpuError::PoolLimit {
                        required_bytes: self.resident_bytes.saturating_add(bytes),
                        required_resources: self.resident_resources.saturating_add(resources),
                        limit_bytes: self.limits.max_bytes,
                        limit_resources: self.limits.max_resources,
                    },
                );
            }
            proof {
                assert(!has_room(self.limits, fill_before.bytes, fill_before.resources, bytes, resources));
                let c = choose|c: int|
                    {
                        &&& eviction_choice(fill_before.idle, fill_before.resident, required@, c)
                        &&& self.spec_idle() == fill_before.idle.remove(c)
                        &&& self.spec_idle_payloads() == old_payloads.remove(c)
                        &&& forall|k: ResourceKey| #[trigger] count_of(self.spec_resident(), k) == count_of(
                            fill_before.resident,
                            k,
                        ) - if k == fill_before.idle[c].0 {
                            1int
                        } else {
                            0int
                        }
                        &&& self.spec_resident_bytes() == sat_sub(
                            fill_before.bytes,
                            spec_key_bytes(fill_before.idle[c].0),
                        )
                        &&& self.spec_last_evicted() == Some(spec_key_label(fill_before.idle[c].0))
                    };
                assert(eviction_choice(fill_before.idle, fill_before.resident, required@, c));
                assert(evicted_one(fill_before, self.spec_fill(), required@));
                n = n0 + 1;
                assert(((n - 1) as nat) == n0);
                assert(self.limits == limits);
                assert(evictions(old(self).spec_fill(), fill_before, required@, limits, bytes, resources, (n - 1) as nat)
                    && !has_room(limits, fill_before.bytes, fill_before.resources, bytes, resources) && evicted_one(
                    fill_before,
                    self.spec_fill(),
                    required@,
                ));
                lemma_evictions_step(old(self).spec_fill(), fill_before, self.spec_fill(), required@, limits, bytes, resources, n0);
                assert(idle_view(self.idle@).len() == self.idle@.len());
                assert(self.idle@.len() < before_len);
                assert forall|k: ResourceKey| #[trigger] count_of(self.resident@, k) == count_of(old(self).resident@, k)
                    || count_of(self.resident@, k) >= count_of(required@, k) by {
                    assert(count_of(self.resident@, k) == count_of(mid, k) || count_of(self.resident@, k) >= count_of(
                        required@,
                        k,
                    ));
                    assert(count_of(mid, k) == count_of(old(self).resident@, k) || count_of(mid, k) >= count_of(
                        required@,
                        k,
                    ));
                }
            }
        }
        Ok(())
    }

    /// Makes sure `count` resources of `key` can be resident: refuses a
    /// count that alone exceeds the limits, evicts what else is idle to
    /// make room, and returns how many the caller must allocate and hand to
    /// `admit_new`.
    pub fn ensure_resident(&mut self, key: ResourceKey, count: usize) -> (r: Result<usize, WgpuError>)
        requires
            old(self).wf(),
        ensures
            final(self).wf(),
            final(self).spec_limits() == old(self).spec_limits(),
            final(self).spec_sequence() == old(self).spec_sequence(),
            kept_required(old(self).spec_resident(), final(self).spec_resident(), seq![Resident { key, count }]),
            ({
                let need_bytes = sat_mul(spec_key_bytes(key) as int, count as int);
                let limits = old(self).spec_limits();
                let have = count_of(old(self).spec_resident(), key);
                if need_bytes > limits.max_bytes || count > limits.max_resources {
                    &&& r matches Err(e) && pool_limit_error(e, need_bytes, count, limits)
                    &&& final(self).spec_resident() == old(self).spec_resident()
                    &&& final(self).spec_idle() == old(self).spec_idle()
                } else if count <= have {
                    &&& r == Ok::<usize, WgpuError>(0)
                    &&& final(self).spec_resident() == old(self).spec_resident()
                    &&& final(self).spec_idle() == old(self).spec_idle()
                } else {
                    let addition = (count - have) as usize;
                    let add_bytes = sat_mul(spec_key_bytes(key) as int, addition as int);
                    &&& evicted_while_full(
                        old(self).spec_fill(),
                        final(self).spec_fill(),
                        seq![Resident { key, count }],
                        limits,
                        add_bytes,
                        addition,
                    )
                    &&& match r {
                        Ok(n) => n == addition && has_room(
                            limits,
                            final(self).spec_resident_bytes(),
                            final(self).spec_resident_resources(),
                            add_bytes,
                            addition,
                        ),
                        Err(e) => {
                            &&& !any_evictable(
                                final(self).spec_idle(),
                                final(self).spec_resident(),
                                seq![Resident { key, count }],
                            )
                            &&& !has_room(
                                limits,
                                final(self).spec_resident_bytes(),
                                final(self).spec_resident_resources(),
                                add_bytes,
                                addition,
                            )
                            &&& pool_limit_error(
                                e,
                                sat_add(final(self).spec_resident_bytes() as int, add_bytes as int),
                                sat_add_usize(final(self).spec_resident_resources(), addition),
                                limits,
                            )
                        },
                    }
                }
            }),
    {
        let required: Vec<Resident> = vec![Resident { key, count }];
        assert(required@ =~= seq![Resident { key, count }]);
        let required_bytes = mul_sat(key.bytes(), count as u64);
        if required_bytes > self.limits.max_bytes || count > self.limits.max_resources {
            return Err(
                WgpuError::PoolLimit {
                    required_bytes,
                    required_resources: count,
                    limit_bytes: self.limits.max_bytes,
                    limit_resources: self.limits.max_resources,
                },
            );
        }
        let resident = count_in(&self.resident, key);
        let addition = count.saturating_sub(resident);
        if addition == 0 {
            return Ok(0);
        }
        let addition_bytes = mul_sat(key.bytes(), addition as u64);
        match self.make_room(addition_bytes, addition, &required) {
            Ok(()) => Ok(addition),
            Err(e) => Err(e),
        }
    }

    /// Counts a finished prewarm.
    pub fn finish_prewarm(&mut self)
        requires
            old(self).wf(),
        ensures
            final(self).wf(),
            final(self).spec_counters() == (
                old(self).spec_counters().0,
                old(self).spec_counters().1,
                old(self).spec_counters().2,
                old(self).spec_counters().3,
                sat_inc(old(self).spec_counters().4),
            ),
            final(self).spec_idle() == old(self).spec_idle(),
            final(self).spec_resident() == old(self).spec_resident(),
            final(self).spec_resident_bytes() == old(self).spec_resident_bytes(),
            final(self).spec_resident_resources() == old(self).spec_resident_resources(),
    {
        self.diagnostics.prewarm_generations = self.diagnostics.prewarm_generations.saturating_add(1);
    }
}


proof fn lemma_additions_bounded(req: Seq<Resident>, resident: Seq<Resident>)
    ensures
        sum_counts(additions_for(req, resident)) <= sum_counts(req),
    decreases req.len(),
{
    if req.len() > 0 {
        lemma_additions_bounded(req.drop_last(), resident);
        let a = additions_for(req.drop_last(), resident);
        let k = req.last().key;
        let have = count_of(resident, k);
        if req.last().count > have {
            let x = Resident { key: k, count: (req.last().count - have) as usize };
            assert((a + seq![x]).drop_last() =~= a);
        } else {
            assert(a + Seq::<Resident>::empty() =~= a);
        }
    }
}

fn sum_of(res: &Vec<Resident>) -> (r: usize)
    requires
        sum_counts(res@) <= usize::MAX,
    ensures
        r == sum_counts(res@),
{
    let mut total: usize = 0;
    let mut i: usize = 0;
    while i < res.len()
        invariant
            i <= res@.len(),
            sum_counts(res@) <= usize::MAX,
            total == sum_counts(res@.take(i as int)),
        decreases res@.len() - i,
    {
        proof {
            assert(res@.take(i + 1).drop_last() =~= res@.take(i as int));
            lemma_sum_prefix(res@, i + 1);
        }
        total = total + res[i].count;
        i = i + 1;
    }
    assert(res@.take(i as int) =~= res@);
    total
}

proof fn lemma_sum_prefix(res: Seq<Resident>, i: int)
    requires
        0 <= i <= res.len(),
    ensures
        sum_counts(res.take(i)) <= sum_counts(res),
    decreases res.len(),
{
    if i < res.len() {
        lemma_sum_prefix(res.drop_last(), i);
        assert(res.drop_last().take(i) =~= res.take(i));
    } else {
        assert(res.take(i) =~= res);
    }
}

fn bytes_of(res: &Vec<Resident>) -> (r: u64)
    ensures
        r == bytes_needed(res@),
{
    let mut total: u64 = 0;
    let mut i: usize = 0;
    while i < res.len()
        invariant
            i <= res@.len(),
            total == bytes_needed(res@.take(i as int)),
        decreases res@.len() - i,
    {
        proof {
            assert(res@.take(i + 1).drop_last() =~= res@.take(i as int));
        }
        total = add_sat(total, mul_sat(res[i].key.bytes(), res[i].count as u64));
        i = i + 1;
    }
    assert(res@.take(i as int) =~= res@);
    total
}

impl<R> ResourcePool<R> {
    /// Prepares a prewarm of the resources `required` lists (in key order):
    /// refuses a set that alone exceeds the limits, evicts what else is idle
    /// to make room for what is missing, and returns what the caller must
    /// allocate, key by key, and hand to `admit_new`.
    pub fn prewarm_room(&mut self, required: &Vec<Resident>) -> (r: Result<Vec<Resident>, WgpuError>)
        requires
            old(self).wf(),
            ascending(required@),
            sum_counts(required@) <= usize::MAX,
        ensures
            final(self).wf(),
            final(self).spec_limits() == old(self).spec_limits(),
            final(self).spec_sequence() == old(self).spec_sequence(),
            kept_required(old(self).spec_resident(), final(self).spec_resident(), required@),
            ({
                let limits = old(self).spec_limits();
                let need_bytes = bytes_needed(required@);
                let need = sum_counts(required@);
                let adds = additions_for(required@, old(self).spec_resident());
                if need_bytes > limits.max_bytes || need > limits.max_resources {
                    &&& r matches Err(e) && pool_limit_error(e, need_bytes, need as usize, limits)
                    &&& final(self).spec_resident() == old(self).spec_resident()
                    &&& final(self).spec_idle() == old(self).spec_idle()
                } else {
                    &&& evicted_while_full(
                        old(self).spec_fill(),
                        final(self).spec_fill(),
                        required@,
                        limits,
                        bytes_needed(adds),
                        sum_counts(adds) as usize,
                    )
                    &&& match r {
                        Ok(a) => a@ == adds && has_room(
                            limits,
                            final(self).spec_resident_bytes(),
                            final(self).spec_resident_resources(),
                            bytes_needed(adds),
                            sum_counts(adds) as usize,
                        ),
                        Err(e) => {
                            &&& !any_evictable(final(self).spec_idle(), final(self).spec_resident(), required@)
                            &&& !has_room(
                                limits,
                                final(self).spec_resident_bytes(),
                                final(self).spec_resident_resources(),
                                bytes_needed(adds),
                                sum_counts(adds) as usize,
                            )
                            &&& pool_limit_error(
                                e,
                                sat_add(final(self).spec_resident_bytes() as int, bytes_needed(adds) as int),
                                sat_add_usize(final(self).spec_resident_resources(), sum_counts(adds) as usize),
                                limits,
                            )
                        },
                    }
                }
            }),
    {
        let required_resources = sum_of(required);
        let required_bytes = bytes_of(required);
        if required_bytes > self.limits.max_bytes || required_resources > self.limits.max_resources {
            return Err(
                WgpuError::PoolLimit {
                    required_bytes,
                    required_resources,
                    limit_bytes: self.limits.max_bytes,
                    limit_resources: self.limits.max_resources,
                },
            );
        }
        let ghost res = self.resident@;
        let mut additions: Vec<Resident> = Vec::new();
        let mut i: usize = 0;
        while i < required.len()
            invariant
                i <= required@.len(),
                res == self.resident@,
                additions@ == additions_for(required@.take(i as int), res),
            decreases required@.len() - i,
        {
            let entry = required[i];
            let have = count_in(&self.resident, entry.key);
            proof {
                assert(required@.take(i + 1).drop_last() =~= required@.take(i as int));
            }
            if entry.count > have {
                additions.push(Resident { key: entry.key, count: entry.count - have });
            }
            i = i + 1;
            proof {
                assert(additions@ =~= additions_for(required@.take(i as int), res));
            }
        }
        assert(required@.take(i as int) =~= required@);
        proof {
            lemma_additions_bounded(required@, res);
        }
        let addition_resources = sum_of(&additions);
        let addition_bytes = bytes_of(&additions);
        match self.make_room(addition_bytes, addition_resources, required) {
            Ok(()) => Ok(additions),
            Err(e) => Err(e),
        }
    }
}


// ---- What a snapshot prewarm needs ----

/// Readbacks (and conversion outputs) kept per shape, so that reading back
/// a frame never waits for the previous ones.
pub const READBACK_RING_DEPTH: usize = 3;

/// The pooled texel layout a plan renders to.
pub open spec fn spec_pool_format(f: PixelFormat) -> PoolFormat {
    match f {
        PixelFormat::Rgba8 => PoolFormat::Rgba8,
        PixelFormat::Rgba16Float => PoolFormat::Rgba16Float,
    }
}

pub fn pool_format(f: PixelFormat) -> (r: PoolFormat)
    ensures
        r == spec_pool_format(f),
{
    match f {
        PixelFormat::Rgba8 => PoolFormat::Rgba8,
        PixelFormat::Rgba16Float => PoolFormat::Rgba16Float,
    }
}

/// Why a plan cannot be rendered: an empty canvas, rows too wide to count
/// in 32 bits, or a frame larger than memory can address.
pub open spec fn plan_issue(plan: RenderPlan) -> Option<Seq<char>> {
    if plan.width == 0 || plan.height == 0 {
        Some("zero-sized output"@)
    } else if plan.width > u32::MAX / 4 {
        Some("output row byte count overflows u32"@)
    } else if plan.width * plan.height * 4 > u64::MAX {
        Some("output size overflow"@)
    } else if plan.width * plan.height * 4 > usize::MAX {
        Some("output exceeds addressable memory"@)
    } else {
        None
    }
}

pub fn validate_plan(plan: &RenderPlan) -> (r: Result<(), WgpuError>)
    ensures
        match plan_issue(*plan) {
            None => r is Ok,
            Some(m) => r matches Err(WgpuError::InvalidPlan(x)) && x@ == m,
        },
{
    if plan.width == 0 || plan.height == 0 {
        return Err(WgpuError::InvalidPlan(owned("zero-sized output")));
    }
    if plan.width > u32::MAX / 4 {
        return Err(WgpuError::InvalidPlan(owned("output row byte count overflows u32")));
    }
    let bytes = match (plan.width as u64).checked_mul(plan.height as u64) {
        Some(pixels) => pixels.checked_mul(4),
        None => None,
    };
    let bytes = match bytes {
        Some(b) => b,
        None => {
            return Err(WgpuError::InvalidPlan(owned("output size overflow")));
        },
    };
    if bytes as u128 > usize::MAX as u128 {
        return Err(WgpuError::InvalidPlan(owned("output exceeds addressable memory")));
    }
    Ok(())
}

pub open spec fn key_of(kind: ResourceKind, format: PoolFormat, width: u32, height: u32) -> ResourceKey {
    ResourceKey { kind, format, width, height }
}

/// `m` with `count` resources of `key`, under the key's rank.
pub open spec fn put(m: Map<u128, Resident>, key: ResourceKey, count: usize) -> Map<u128, Resident> {
    m.insert(key_rank(key) as u128, Resident { key, count })
}

/// Half a dimension, at least one.
pub open spec fn half(v: u32) -> u32 {
    if v / 2 >= 1 {
        (v / 2) as u32
    } else {
        1
    }
}

/// What one plan adds: one more output of its shape, and a readback ring
/// for it, for its luma and half-size chroma planes, for their conversion
/// outputs and a BGRA conversion, and (from 2 pixels wide) for the packed
/// 4:2:2 half-width shape.
pub open spec fn plan_needs(m: Map<u128, Resident>, plan: RenderPlan) -> Map<u128, Resident> {
    let f = spec_pool_format(plan.output_format);
    let (w, h) = (plan.width, plan.height);
    let out = key_of(ResourceKind::Output, f, w, h);
    let outs: usize = if m.contains_key(key_rank(out) as u128) {
        (m[key_rank(out) as u128].count + 1) as usize
    } else {
        1
    };
    let m1 = put(m, out, outs);
    let m2 = put(m1, key_of(ResourceKind::Readback, f, w, h), READBACK_RING_DEPTH);
    let m3 = put(m2, key_of(ResourceKind::Readback, PoolFormat::R8, w, h), READBACK_RING_DEPTH);
    let m4 = put(m3, key_of(ResourceKind::Readback, PoolFormat::Rg8, half(w), half(h)), READBACK_RING_DEPTH);
    let m5 = put(m4, key_of(ResourceKind::Output, PoolFormat::R8, w, h), READBACK_RING_DEPTH);
    let m6 = put(m5, key_of(ResourceKind::Output, PoolFormat::Rg8, half(w), half(h)), READBACK_RING_DEPTH);
    let m7 = put(m6, key_of(ResourceKind::Output, PoolFormat::Bgra8, w, h), READBACK_RING_DEPTH);
    if w >= 2 {
        let m8 = put(m7, key_of(ResourceKind::Output, PoolFormat::Rgba8, (w / 2) as u32, h), READBACK_RING_DEPTH);
        put(m8, key_of(ResourceKind::Readback, PoolFormat::Rgba8, (w / 2) as u32, h), READBACK_RING_DEPTH)
    } else {
        m7
    }
}

/// The needs of the plans in order, or the first plan's issue.
pub open spec fn plans_needs(plans: Seq<RenderPlan>) -> Result<Map<u128, Resident>, Seq<char>>
    decreases plans.len(),
{
    if plans.len() == 0 {
        Ok(Map::empty())
    } else {
        match plans_needs(plans.drop_last()) {
            Err(e) => Err(e),
            Ok(m) => match plan_issue(plans.last()) {
                Some(e) => Err(e),
                None => Ok(plan_needs(m, plans.last())),
            },
        }
    }
}

/// One spare output per shape, so the next frame renders while the last
/// one is still shown.
pub open spec fn with_spare_outputs(m: Map<u128, Resident>) -> Map<u128, Resident> {
    Map::new(
        |k: u128| m.contains_key(k),
        |k: u128|
            if m[k].key.kind == ResourceKind::Output {
                Resident { count: sat_add_usize(m[k].count, 1), ..m[k] }
            } else {
                m[k]
            },
    )
}

/// `slots` sources of each uploadable layout at the source size.
pub open spec fn with_sources(m: Map<u128, Resident>, width: u32, height: u32, slots: usize) -> Map<u128, Resident> {
    if slots > 0 {
        let s = |f: PoolFormat| key_of(ResourceKind::Source, f, width, height);
        put(
            put(put(put(put(m, s(PoolFormat::Rgba8), slots), s(PoolFormat::Bgra8), slots), s(PoolFormat::Rgba16Float), slots), s(PoolFormat::Nv12), slots),
            s(PoolFormat::P010),
            slots,
        )
    } else {
        m
    }
}

/// Every entry sits under its key's rank.
pub open spec fn ranked(m: Map<u128, Resident>) -> bool {
    forall|k: u128| #[trigger] m.contains_key(k) ==> key_rank(m[k].key) == k
}

/// The entries of a ranked map in ascending key order.
pub open spec fn listing(m: Map<u128, Resident>, v: Seq<Resident>) -> bool {
    &&& ascending(v)
    &&& forall|i: int|
        0 <= i < v.len() ==> m.contains_key(key_rank(#[trigger] v[i].key) as u128) && m[key_rank(v[i].key) as u128]
            == v[i]
    &&& forall|k: u128| #[trigger] m.contains_key(k) ==> exists|i: int| 0 <= i < v.len() && key_rank(v[i].key) == k
}

/// A rank fits in 128 bits.
proof fn lemma_rank_bounds(k: ResourceKey)
    ensures
        0 <= key_rank(k) < 0x1_0000_0000_0000_0000_0000_0000_0000_0000,
{
}

fn put_exec(m: &mut BTreeMap<u128, Resident>, key: ResourceKey, count: usize)
    requires
        ranked(old(m)@),
    ensures
        final(m)@ == put(old(m)@, key, count),
        ranked(final(m)@),
{
    proof {
        lemma_rank_bounds(key);
    }
    m.insert(key.rank(), Resident { key, count });
    proof {
        assert forall|k: u128| #[trigger] m@.contains_key(k) implies key_rank(m@[k].key) == k by {
            if k != key_rank(key) as u128 {
                assert(old(m)@.contains_key(k));
            }
        }
    }
}

/// Adds what one plan needs.
fn add_plan(m: &mut BTreeMap<u128, Resident>, plan: &RenderPlan, bound: usize)
    requires
        ranked(old(m)@),
        bound < usize::MAX,
        forall|k: u128| #[trigger] old(m)@.contains_key(k) ==> old(m)@[k].count <= bound,
        READBACK_RING_DEPTH <= bound,
    ensures
        final(m)@ == plan_needs(old(m)@, *plan),
        ranked(final(m)@),
        forall|k: u128| #[trigger] final(m)@.contains_key(k) ==> final(m)@[k].count <= bound + 1,
{
    let f = pool_format(plan.output_format);
    let (w, h) = (plan.width, plan.height);
    let hw: u32 = if w / 2 >= 1 {
        w / 2
    } else {
        1
    };
    let hh: u32 = if h / 2 >= 1 {
        h / 2
    } else {
        1
    };
    let out = ResourceKey { kind: ResourceKind::Output, format: f, width: w, height: h };
    proof {
        lemma_rank_bounds(out);
    }
    let outs: usize = match m.get(&out.rank()) {
        Some(e) => e.count + 1,
        None => 1,
    };
    put_exec(m, out, outs);
    put_exec(m, ResourceKey { kind: ResourceKind::Readback, ..out }, READBACK_RING_DEPTH);
    put_exec(m, ResourceKey { kind: ResourceKind::Readback, format: PoolFormat::R8, width: w, height: h }, READBACK_RING_DEPTH);
    put_exec(m, ResourceKey { kind: ResourceKind::Readback, format: PoolFormat::Rg8, width: hw, height: hh }, READBACK_RING_DEPTH);
    put_exec(m, ResourceKey { kind: ResourceKind::Output, format: PoolFormat::R8, width: w, height: h }, READBACK_RING_DEPTH);
    put_exec(m, ResourceKey { kind: ResourceKind::Output, format: PoolFormat::Rg8, width: hw, height: hh }, READBACK_RING_DEPTH);
    put_exec(m, ResourceKey { kind: ResourceKind::Output, format: PoolFormat::Bgra8, width: w, height: h }, READBACK_RING_DEPTH);
    if w >= 2 {
        put_exec(m, ResourceKey { kind: ResourceKind::Output, format: PoolFormat::Rgba8, width: w / 2, height: h }, READBACK_RING_DEPTH);
        put_exec(m, ResourceKey { kind: ResourceKind::Readback, format: PoolFormat::Rgba8, width: w / 2, height: h }, READBACK_RING_DEPTH);
    }
    proof {
        assert forall|k: u128| #[trigger] m@.contains_key(k) implies m@[k].count <= bound + 1 by {
            if k != key_rank(out) as u128 && old(m)@.contains_key(k) {
            }
        }
    }
}



/// Once the needs of a prefix fail, the needs of every longer list fail
/// the same way.
proof fn lemma_needs_stop(plans: Seq<RenderPlan>, n: int)
    requires
        0 <= n <= plans.len(),
        plans_needs(plans.take(n)) is Err,
    ensures
        plans_needs(plans) == plans_needs(plans.take(n)),
    decreases plans.len() - n,
{
    if n == plans.len() {
        assert(plans.take(n) =~= plans);
    } else {
        assert(plans.take(n + 1).drop_last() =~= plans.take(n));
        lemma_needs_stop(plans, n + 1);
    }
}

/// Sources are not outputs, so adding them commutes with the spare outputs.
proof fn lemma_sources_commute(m: Map<u128, Resident>, width: u32, height: u32, slots: usize)
    ensures
        with_spare_outputs(with_sources(m, width, height, slots)) == with_sources(with_spare_outputs(m), width, height, slots),
{
    assert(with_spare_outputs(with_sources(m, width, height, slots)) =~= with_sources(
        with_spare_outputs(m),
        width,
        height,
        slots,
    ));
}

/// The resources a snapshot prewarm of `plans` needs, in key order: for
/// each plan its output (one more per plan of the same shape) and readback
/// rings, one spare output per output shape, and `source_slots` sources of
/// each uploadable layout at the source size. The first invalid plan is
/// refused.
pub fn snapshot_requirements(plans: &Vec<RenderPlan>, source_width: u32, source_height: u32, source_slots: usize) -> (r:
    Result<Vec<Resident>, WgpuError>)
    requires
        plans@.len() + READBACK_RING_DEPTH < usize::MAX,
    ensures
        match plans_needs(plans@) {
            Err(m) => r matches Err(WgpuError::InvalidPlan(x)) && x@ == m,
            Ok(needs) => r matches Ok(v) && listing(
                with_sources(with_spare_outputs(needs), source_width, source_height, source_slots),
                v@,
            ),
        },
{
    let mut required: BTreeMap<u128, Resident> = BTreeMap::new();
    let mut i: usize = 0;
    while i < plans.len()
        invariant
            i <= plans@.len(),
            plans@.len() + READBACK_RING_DEPTH < usize::MAX,
            plans_needs(plans@.take(i as int)) == Ok::<Map<u128, Resident>, Seq<char>>(required@),
            ranked(required@),
            forall|k: u128| #[trigger] required@.contains_key(k) ==> required@[k].count <= READBACK_RING_DEPTH + i,
        decreases plans@.len() - i,
    {
        proof {
            assert(plans@.take(i + 1).drop_last() =~= plans@.take(i as int));
            assert(plans@.take(i + 1).last() == plans@[i as int]);
            if plan_issue(plans@[i as int]) is Some {
                lemma_needs_stop(plans@, i + 1);
            }
        }
        match validate_plan(&plans[i]) {
            Err(e) => {
                return Err(e);
            },
            Ok(()) => {},
        }
        add_plan(&mut required, &plans[i], READBACK_RING_DEPTH + i);
        i = i + 1;
    }
    assert(plans@.take(i as int) =~= plans@);
    let ghost needs = required@;
    if source_slots > 0 {
        put_exec(&mut required, ResourceKey { kind: ResourceKind::Source, format: PoolFormat::Rgba8, width: source_width, height: source_height }, source_slots);
        put_exec(&mut required, ResourceKey { kind: ResourceKind::Source, format: PoolFormat::Bgra8, width: source_width, height: source_height }, source_slots);
        put_exec(&mut required, ResourceKey { kind: ResourceKind::Source, format: PoolFormat::Rgba16Float, width: source_width, height: source_height }, source_slots);
        put_exec(&mut required, ResourceKey { kind: ResourceKind::Source, format: PoolFormat::Nv12, width: source_width, height: source_height }, source_slots);
        put_exec(&mut required, ResourceKey { kind: ResourceKind::Source, format: PoolFormat::P010, width: source_width, height: source_height }, source_slots);
    }
    let ghost m2 = required@;
    assert(m2 == with_sources(needs, source_width, source_height, source_slots));
    proof {
        lemma_sources_commute(needs, source_width, source_height, source_slots);
    }
    let ghost target = with_spare_outputs(m2);
    let keys = keys_in_order(&required);
    proof {
        lemma_keys_ordered();
    }
    let mut out: Vec<Resident> = Vec::new();
    let mut j: usize = 0;
    while j < keys.len()
        invariant
            j <= keys@.len(),
            keys@ == key_order(m2),
            crate::domain::key_order::ascending(keys@),
            forall|k: u128| m2.contains_key(k) <==> keys@.contains(k),
            required@ == m2,
            ranked(m2),
            target == with_spare_outputs(m2),
            out@.len() == j,
            forall|t: int| 0 <= t < j ==> #[trigger] out@[t] == target[keys@[t]],
        decreases keys@.len() - j,
    {
        let k = keys[j];
        proof {
            assert(keys@.contains(k));
        }
        let e = match required.get(&k) {
            Some(e) => *e,
            None => {
                proof {
                    assert(false);
                }
                Resident { key: ResourceKey { kind: ResourceKind::Source, format: PoolFormat::R8, width: 0, height: 0 }, count: 0 }
            },
        };
        let bumped = if e.key.kind == ResourceKind::Output {
            Resident { count: e.count.saturating_add(1), ..e }
        } else {
            e
        };
        out.push(bumped);
        j = j + 1;
    }
    proof {
        let ks = keys@;
        let v = out@;
        assert forall|a: int, b: int| #![trigger v[a], v[b]] 0 <= a < b < v.len() implies key_rank(v[a].key) < key_rank(
            v[b].key,
        ) by {
            assert(keys@.contains(ks[a]) && keys@.contains(ks[b]));
            assert(m2.contains_key(ks[a]) && m2.contains_key(ks[b]));
        }
        assert forall|t: int| 0 <= t < v.len() implies target.contains_key(key_rank(#[trigger] v[t].key) as u128)
            && target[key_rank(v[t].key) as u128] == v[t] by {
            assert(keys@.contains(ks[t]));
            assert(m2.contains_key(ks[t]));
        }
        assert forall|k: u128| #[trigger] target.contains_key(k) implies exists|t: int|
            0 <= t < v.len() && key_rank(v[t].key) == k by {
            assert(keys@.contains(k));
            let t = choose|t: int| 0 <= t < ks.len() && ks[t] == k;
            assert(key_rank(v[t].key) == k);
        }
    }
    Ok(out)
}

} // verus!
