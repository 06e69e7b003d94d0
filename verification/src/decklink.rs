//! Blackmagic DeckLink adapter boundary: device selection for a binding,
//! the fixed 1080p59.94 schedule, and the mapping between DeckLink stream
//! time and absolute audio sample positions.

use vstd::prelude::*;

use crate::domain::routing::DeviceBinding;
use crate::session::edit::str_eq;
use crate::text::owned;

verus! {

/// Whether a device family can be used in this build, and why.
#[derive(Debug, Clone, PartialEq, Eq)]
pub struct Capability {
    pub id: String,
    pub available: bool,
    pub detail: String,
}

/// This build links no DeckLink SDK, so DeckLink is never available.
pub fn probe() -> (r: Capability)
    ensures
        r.id@ == "decklink"@,
        !r.available,
        r.detail@ == "not compiled; install Desktop Video SDK 16 and enable the `decklink-sdk` feature"@,
{
    Capability {
        id: owned("decklink"),
        available: false,
        detail: owned("not compiled; install Desktop Video SDK 16 and enable the `decklink-sdk` feature"),
    }
}

pub const SDK_ABI_VERSION: u32 = 1;

pub const VIDEO_TIME_SCALE: i64 = 60_000;

pub const VIDEO_FRAME_DURATION: i64 = 1_001;

pub const AUDIO_TIME_SCALE: i64 = 48_000;

pub const VIDEO_WIDTH: u32 = 1_920;

pub const VIDEO_HEIGHT: u32 = 1_080;

#[derive(Debug, Clone, Copy, PartialEq, Eq, Structural)]
pub enum DeviceDirection {
    Capture,
    Playback,
}

#[derive(Debug, Clone, PartialEq, Eq)]
pub struct DeviceInfo {
    pub persistent_id: String,
    pub display_name: String,
    pub supports_capture: bool,
    pub supports_playback: bool,
}

pub open spec fn spec_supports(d: DeviceInfo, direction: DeviceDirection) -> bool {
    match direction {
        DeviceDirection::Capture => d.supports_capture,
        DeviceDirection::Playback => d.supports_playback,
    }
}

impl DeviceInfo {
    pub fn supports(&self, direction: DeviceDirection) -> (r: bool)
        ensures
            r == spec_supports(*self, direction),
    {
        match direction {
            DeviceDirection::Capture => self.supports_capture,
            DeviceDirection::Playback => self.supports_playback,
        }
    }
}

#[derive(Debug, PartialEq, Eq)]
pub enum BindingResolutionError {
    WrongKind(String),
    HardwareMissing(String),
    UnsupportedDirection(String, DeviceDirection),
    LogicalNameMissing(String, DeviceDirection),
    AmbiguousLogicalName(String, DeviceDirection),
}

pub open spec fn direction_text(d: DeviceDirection) -> Seq<char> {
    match d {
        DeviceDirection::Capture => "Capture"@,
        DeviceDirection::Playback => "Playback"@,
    }
}

/// The text an error displays.
pub open spec fn spec_binding_error_text(e: BindingResolutionError) -> Seq<char> {
    match e {
        BindingResolutionError::WrongKind(k) => "binding kind must be `decklink`, got `"@ + k@ + "`"@,
        BindingResolutionError::HardwareMissing(id) => "bound DeckLink hardware `"@ + id@
            + "` is not present"@,
        BindingResolutionError::UnsupportedDirection(id, d) => "DeckLink hardware `"@ + id@
            + "` does not support "@ + direction_text(d),
        BindingResolutionError::LogicalNameMissing(n, d) => "no DeckLink named `"@ + n@
            + "` supports "@ + direction_text(d),
        BindingResolutionError::AmbiguousLogicalName(n, d) => "DeckLink logical name `"@ + n@
            + "` is ambiguous for "@ + direction_text(d),
    }
}

fn direction_str(d: DeviceDirection) -> (r: &'static str)
    ensures
        r@ == direction_text(d),
{
    match d {
        DeviceDirection::Capture => "Capture",
        DeviceDirection::Playback => "Playback",
    }
}

impl BindingResolutionError {
    /// The text that `Display` writes.
    pub fn to_string(&self) -> (r: String)
        ensures
            r@ == spec_binding_error_text(*self),
    {
        let (a, b, c) = match self {
            BindingResolutionError::WrongKind(k) => ("binding kind must be `decklink`, got `", k, "`"),
            BindingResolutionError::HardwareMissing(id) => (
                "bound DeckLink hardware `",
                id,
                "` is not present",
            ),
            BindingResolutionError::UnsupportedDirection(id, _) => (
                "DeckLink hardware `",
                id,
                "` does not support ",
            ),
            BindingResolutionError::LogicalNameMissing(n, _) => ("no DeckLink named `", n, "` supports "),
            BindingResolutionError::AmbiguousLogicalName(n, _) => (
                "DeckLink logical name `",
                n,
                "` is ambiguous for ",
            ),
        };
        let mut t = owned(a);
        t.append(b.as_str());
        t.append(c);
        match self {
            BindingResolutionError::UnsupportedDirection(_, d)
            | BindingResolutionError::LogicalNameMissing(_, d)
            | BindingResolutionError::AmbiguousLogicalName(_, d) => t.append(direction_str(*d)),
            _ => {},
        }
        t
    }
}

/// Index of the first device with the persistent id, or the device count.
pub open spec fn first_with_id(devices: Seq<DeviceInfo>, id: Seq<char>, i: int) -> int
    decreases devices.len() - i,
{
    if i >= devices.len() || devices[i].persistent_id@ == id {
        i
    } else {
        first_with_id(devices, id, i + 1)
    }
}

/// Positions of the devices named `name` that support the direction.
pub open spec fn named_capable(devices: Seq<DeviceInfo>, name: Seq<char>, direction: DeviceDirection) -> Seq<
    int,
>
    decreases devices.len(),
{
    if devices.len() == 0 {
        Seq::empty()
    } else {
        let earlier = named_capable(devices.drop_last(), name, direction);
        let d = devices.last();
        if d.display_name@ == name && spec_supports(d, direction) {
            earlier.push(devices.len() - 1)
        } else {
            earlier
        }
    }
}

/// The device a binding resolves to, or why none does. A remembered
/// persistent id is authoritative: the device with that id must be present
/// and support the direction. Only a new binding (no remembered id) matches
/// by logical name, and then exactly one capable device must carry it.
pub open spec fn binding_resolution(
    binding: DeviceBinding,
    direction: DeviceDirection,
    devices: Seq<DeviceInfo>,
    r: Result<&DeviceInfo, BindingResolutionError>,
) -> bool {
    if binding.kind@ != "decklink"@ {
        r matches Err(BindingResolutionError::WrongKind(k)) && k@ == binding.kind@
    } else if binding.last_seen_hardware_id is Some {
        let id = binding.last_seen_hardware_id->0;
        let k = first_with_id(devices, id@, 0);
        if k >= devices.len() {
            r matches Err(BindingResolutionError::HardwareMissing(x)) && x@ == id@
        } else if !spec_supports(devices[k], direction) {
            r matches Err(BindingResolutionError::UnsupportedDirection(x, d)) && x@ == id@ && d
                == direction
        } else {
            r matches Ok(dev) && *dev == devices[k]
        }
    } else {
        let hits = named_capable(devices, binding.logical_name@, direction);
        if hits.len() == 0 {
            r matches Err(BindingResolutionError::LogicalNameMissing(n, d)) && n@
                == binding.logical_name@ && d == direction
        } else if hits.len() > 1 {
            r matches Err(BindingResolutionError::AmbiguousLogicalName(n, d)) && n@
                == binding.logical_name@ && d == direction
        } else {
            r matches Ok(dev) && *dev == devices[hits[0]]
        }
    }
}

proof fn lemma_named_capable_bounds(devices: Seq<DeviceInfo>, name: Seq<char>, direction: DeviceDirection)
    ensures
        forall|j: int|
            0 <= j < named_capable(devices, name, direction).len() ==> 0 <= #[trigger] named_capable(
                devices,
                name,
                direction,
            )[j] < devices.len(),
    decreases devices.len(),
{
    if devices.len() > 0 {
        let earlier = named_capable(devices.drop_last(), name, direction);
        lemma_named_capable_bounds(devices.drop_last(), name, direction);
        assert forall|j: int| 0 <= j < named_capable(devices, name, direction).len() implies 0
            <= #[trigger] named_capable(devices, name, direction)[j] < devices.len() by {
            if j < earlier.len() {
                assert(named_capable(devices, name, direction)[j] == earlier[j]);
            }
        }
    }
}

/// Resolves a project binding without silently switching to another
/// physical card.
pub fn resolve_binding<'a>(binding: &DeviceBinding, direction: DeviceDirection, devices: &'a [DeviceInfo]) -> (r:
    Result<&'a DeviceInfo, BindingResolutionError>)
    ensures
        binding_resolution(*binding, direction, devices@, r),
{
    proof {
        reveal_strlit("decklink");
    }
    if !str_eq(binding.kind.as_str(), "decklink") {
        return Err(BindingResolutionError::WrongKind(binding.kind.clone()));
    }
    match &binding.last_seen_hardware_id {
        Some(id) => {
            let mut i: usize = 0;
            while i < devices.len()
                invariant
                    i <= devices.len(),
                    binding.kind@ == "decklink"@,
                    binding.last_seen_hardware_id is Some,
                    binding.last_seen_hardware_id->0 == *id,
                    first_with_id(devices@, id@, 0) == first_with_id(devices@, id@, i as int),
                decreases devices.len() - i,
            {
                if str_eq(devices[i].persistent_id.as_str(), id.as_str()) {
                    assert(first_with_id(devices@, id@, i as int) == i);
                    if !devices[i].supports(direction) {
                        return Err(BindingResolutionError::UnsupportedDirection(id.clone(), direction));
                    }
                    return Ok(&devices[i]);
                }
                i = i + 1;
            }
            Err(BindingResolutionError::HardwareMissing(id.clone()))
        },
        None => {
            let ghost all = devices@;
            let mut count: usize = 0;
            let mut first: usize = 0;
            let mut i: usize = 0;
            while i < devices.len()
                invariant
                    i <= devices.len(),
                    all == devices@,
                    count == named_capable(all.take(i as int), binding.logical_name@, direction).len(),
                    count <= i,
                    count > 0 ==> first as int == named_capable(
                        all.take(i as int),
                        binding.logical_name@,
                        direction,
                    )[0],
                decreases devices.len() - i,
            {
                assert(all.take(i + 1).drop_last() =~= all.take(i as int));
                if str_eq(devices[i].display_name.as_str(), binding.logical_name.as_str())
                    && devices[i].supports(direction) {
                    if count == 0 {
                        first = i;
                    }
                    count = count + 1;
                }
                i = i + 1;
            }
            assert(all.take(devices.len() as int) =~= all);
            proof {
                lemma_named_capable_bounds(all, binding.logical_name@, direction);
            }
            if count == 0 {
                Err(BindingResolutionError::LogicalNameMissing(binding.logical_name.clone(), direction))
            } else if count > 1 {
                Err(BindingResolutionError::AmbiguousLogicalName(binding.logical_name.clone(), direction))
            } else {
                Ok(&devices[first])
            }
        },
    }
}

proof fn lemma_first_with_id(devices: Seq<DeviceInfo>, id: Seq<char>, i: int)
    requires
        0 <= i <= devices.len(),
    ensures
        first_with_id(devices, id, i) < devices.len() ==> devices[first_with_id(
            devices,
            id,
            i,
        )].persistent_id@ == id,
        i <= first_with_id(devices, id, i) <= devices.len(),
    decreases devices.len() - i,
{
    if i < devices.len() && devices[i].persistent_id@ != id {
        lemma_first_with_id(devices, id, i + 1);
    }
}

proof fn lemma_named_capable_members(devices: Seq<DeviceInfo>, name: Seq<char>, direction: DeviceDirection)
    ensures
        forall|j: int|
            0 <= j < named_capable(devices, name, direction).len() ==> {
                let k = #[trigger] named_capable(devices, name, direction)[j];
                0 <= k < devices.len() && devices[k].display_name@ == name && spec_supports(
                    devices[k],
                    direction,
                )
            },
    decreases devices.len(),
{
    if devices.len() > 0 {
        let earlier = named_capable(devices.drop_last(), name, direction);
        lemma_named_capable_members(devices.drop_last(), name, direction);
        assert forall|j: int| 0 <= j < named_capable(devices, name, direction).len() implies {
            let k = #[trigger] named_capable(devices, name, direction)[j];
            0 <= k < devices.len() && devices[k].display_name@ == name && spec_supports(
                devices[k],
                direction,
            )
        } by {
            if j < earlier.len() {
                assert(named_capable(devices, name, direction)[j] == earlier[j]);
                assert(devices.drop_last()[earlier[j]] == devices[earlier[j]]);
            }
        }
    }
}

/// A remembered hardware id is authoritative: a binding that remembers one
/// resolves only to the device with exactly that id, never to another card
/// with the same name.
pub proof fn lemma_remembered_id_is_authoritative(
    binding: DeviceBinding,
    direction: DeviceDirection,
    devices: Seq<DeviceInfo>,
    r: Result<&DeviceInfo, BindingResolutionError>,
)
    requires
        binding_resolution(binding, direction, devices, r),
        binding.last_seen_hardware_id is Some,
        r is Ok,
    ensures
        r->Ok_0.persistent_id@ == binding.last_seen_hardware_id->0@,
        spec_supports(*r->Ok_0, direction),
{
    lemma_first_with_id(devices, binding.last_seen_hardware_id->0@, 0);
}

/// A new binding resolves by logical name only when exactly one capable
/// device carries the name, and then to that device.
pub proof fn lemma_new_binding_is_unambiguous(
    binding: DeviceBinding,
    direction: DeviceDirection,
    devices: Seq<DeviceInfo>,
    r: Result<&DeviceInfo, BindingResolutionError>,
)
    requires
        binding_resolution(binding, direction, devices, r),
        binding.last_seen_hardware_id is None,
        r is Ok,
    ensures
        named_capable(devices, binding.logical_name@, direction).len() == 1,
        r->Ok_0.display_name@ == binding.logical_name@,
        spec_supports(*r->Ok_0, direction),
{
    lemma_named_capable_members(devices, binding.logical_name@, direction);
    assert(named_capable(devices, binding.logical_name@, direction).len() > 0);
    let k = named_capable(devices, binding.logical_name@, direction)[0];
    assert(0 <= k < devices.len());
}

/// Frame duration and time scale of the DeckLink schedule: 1001/60000 s.
pub fn schedule_timescale() -> (r: (u32, u32))
    ensures
        r == (1001u32, 60000u32),
{
    (1001, 60000)
}

/// The absolute audio sample position of a DeckLink stream time: the
/// largest whole number of samples at or before it, never negative, capped
/// at `u64::MAX`.
pub open spec fn spec_sample_index(ticks: i64, time_scale: i64, sample_rate: u32) -> u64 {
    if ticks <= 0 || time_scale <= 0 || sample_rate == 0 {
        0
    } else {
        let samples = (ticks as int) * (sample_rate as int) / (time_scale as int);
        if samples > u64::MAX {
            u64::MAX
        } else {
            samples as u64
        }
    }
}

pub fn decklink_audio_time_to_sample_index(ticks: i64, time_scale: i64, sample_rate: u32) -> (r: u64)
    ensures
        r == spec_sample_index(ticks, time_scale, sample_rate),
{
    if ticks <= 0 || time_scale <= 0 || sample_rate == 0 {
        return 0;
    }
    let t = ticks as u128;
    let s = sample_rate as u128;
    assert(t * s <= 0x7fff_ffff_ffff_ffff * 0xffff_ffff) by (nonlinear_arith)
        requires
            t <= 0x7fff_ffff_ffff_ffff,
            s <= 0xffff_ffff,
    ;
    let product = t * s;
    let samples = product / (time_scale as u128);
    if samples > u64::MAX as u128 {
        u64::MAX
    } else {
        samples as u64
    }
}

/// The DeckLink stream time of an absolute sample position, rounded down;
/// `None` for an unusable rate or scale, or a time beyond `i64`.
pub open spec fn spec_sample_ticks(sample_index: u64, sample_rate: u32, time_scale: i64) -> Option<i64> {
    if sample_rate == 0 || time_scale <= 0 {
        None
    } else {
        let ticks = (sample_index as int) * (time_scale as int) / (sample_rate as int);
        if ticks > i64::MAX {
            None
        } else {
            Some(ticks as i64)
        }
    }
}

pub fn sample_index_to_decklink_ticks(sample_index: u64, sample_rate: u32, time_scale: i64) -> (r: Option<
    i64,
>)
    ensures
        r == spec_sample_ticks(sample_index, sample_rate, time_scale),
{
    if sample_rate == 0 || time_scale <= 0 {
        return None;
    }
    let n = sample_index as u128;
    let ts = time_scale as u128;
    assert(n * ts <= 0xffff_ffff_ffff_ffff * 0x7fff_ffff_ffff_ffff) by (nonlinear_arith)
        requires
            n <= 0xffff_ffff_ffff_ffff,
            ts <= 0x7fff_ffff_ffff_ffff,
    ;
    let ticks = n * ts / (sample_rate as u128);
    if ticks > i64::MAX as u128 {
        None
    } else {
        Some(ticks as i64)
    }
}

/// Where the time scale is a whole multiple of the sample rate, scheduling a
/// sample position and reading it back gives the same position.
pub proof fn lemma_sample_position_round_trip(sample_index: u64, sample_rate: u32, time_scale: i64)
    requires
        sample_rate > 0,
        time_scale > 0,
        (time_scale as int) % (sample_rate as int) == 0,
        spec_sample_ticks(sample_index, sample_rate, time_scale) is Some,
    ensures
        spec_sample_index(
            spec_sample_ticks(sample_index, sample_rate, time_scale)->0,
            time_scale,
            sample_rate,
        ) == sample_index,
{
    let k = (time_scale as int) / (sample_rate as int);
    let n = sample_index as int;
    let sr = sample_rate as int;
    let ts = time_scale as int;
    assert(ts == k * sr) by (nonlinear_arith)
        requires
            ts % sr == 0,
            k == ts / sr,
            sr > 0,
    ;
    assert(k > 0) by (nonlinear_arith)
        requires
            ts == k * sr,
            sr > 0,
            ts > 0,
    ;
    assert(n * ts / sr == n * k) by (nonlinear_arith)
        requires
            ts == k * sr,
            sr > 0,
    ;
    let ticks = n * k;
    let t = spec_sample_ticks(sample_index, sample_rate, time_scale)->0;
    assert(t as int == ticks);
    if n > 0 {
        assert(ticks * sr / ts == n) by (nonlinear_arith)
            requires
                ticks == n * k,
                ts == k * sr,
                sr > 0,
                k > 0,
        ;
        assert(ticks > 0) by (nonlinear_arith)
            requires
                ticks == n * k,
                n > 0,
                k > 0,
        ;
        assert((t as int) * (sample_rate as int) / (time_scale as int) == n);
    } else {
        assert(ticks == 0) by (nonlinear_arith)
            requires
                ticks == n * k,
                n == 0,
        ;
    }
}

#[derive(Debug, Clone, Copy, PartialEq, Eq, Structural)]
pub struct DeckLinkConfig {
    pub video_queue_capacity: usize,
    pub audio_queue_capacity: usize,
    pub output_queue_capacity: usize,
    pub output_preroll_video_frames: u32,
    pub audio_channels: u16,
}

impl Default for DeckLinkConfig {
    fn default() -> (r: Self)
        ensures
            r == (DeckLinkConfig {
                video_queue_capacity: 2,
                audio_queue_capacity: 8,
                output_queue_capacity: 8,
                output_preroll_video_frames: 3,
                audio_channels: 2,
            }),
    {
        DeckLinkConfig {
            video_queue_capacity: 2,
            audio_queue_capacity: 8,
            output_queue_capacity: 8,
            output_preroll_video_frames: 3,
            audio_channels: 2,
        }
    }
}

#[derive(Debug)]
pub enum DeckLinkError {
    AbiMismatch { expected: u32, actual: u32 },
    Binding(BindingResolutionError),
    InvalidConfiguration(String),
    InvalidFrame(String),
    Native(String),
    /// A worker thread could not be spawned; the operating system's reason.
    Spawn(String),
    WorkerStartup,
}

/// Why a configuration is unusable, if it is.
pub open spec fn config_issue(c: DeckLinkConfig) -> Option<Seq<char>> {
    if c.video_queue_capacity == 0 || c.audio_queue_capacity == 0 || c.output_queue_capacity == 0
        || c.output_preroll_video_frames == 0 {
        Some("queue capacities must be greater than zero"@)
    } else if !(c.audio_channels == 2 || c.audio_channels == 8 || c.audio_channels == 16) {
        Some("audio channel count must be 2, 8, or 16 for this vertical slice"@)
    } else {
        None
    }
}

impl DeckLinkConfig {
    pub fn validate(&self) -> (r: Result<(), DeckLinkError>)
        ensures
            match config_issue(*self) {
                None => r is Ok,
                Some(m) => r matches Err(DeckLinkError::InvalidConfiguration(x)) && x@ == m,
            },
    {
        if self.video_queue_capacity == 0 || self.audio_queue_capacity == 0
            || self.output_queue_capacity == 0 || self.output_preroll_video_frames == 0 {
            return Err(
                DeckLinkError::InvalidConfiguration(owned("queue capacities must be greater than zero")),
            );
        }
        if !(self.audio_channels == 2 || self.audio_channels == 8 || self.audio_channels == 16) {
            return Err(
                DeckLinkError::InvalidConfiguration(
                    owned("audio channel count must be 2, 8, or 16 for this vertical slice"),
                ),
            );
        }
        Ok(())
    }
}

#[derive(Debug, Clone, Copy, PartialEq, Eq, Structural)]
pub struct DeckLinkPlaybackDiagnostics {
    pub scheduled_video: u64,
    pub completed_video: u64,
    pub late_video: u64,
    pub dropped_video: u64,
    pub flushed_video: u64,
    pub buffered_video: u32,
    pub buffered_audio_frames: u32,
    pub reference_locked: Option<bool>,
    pub queue_rejections: u64,
}

} // verus!
