//! The project profile: compositor, color, audio format, auxiliary load
//! shedding, and the codec and transport profiles of distribution outputs.

use vstd::prelude::*;

use crate::domain::error::{DomainError, DomainResult};
use crate::domain::ids::AssetId;
use crate::domain::output::{Output, OutputKind};
use crate::guid::uuid_text;
use crate::text::{decimal, owned, spec_decimal, spec_starts_with, spec_trim, starts_with, trim};

verus! {

/// Explicit compositor selection. Never switch at runtime without a command.
#[derive(Debug, Clone, Copy, PartialEq, Eq, Structural)]
pub enum CompositorBackend {
    /// CI / golden-frame reference. Not a substitute for the GPU path.
    CpuReference,
    /// Production GPU path. Absence of a device is a hard error.
    Wgpu,
}

impl Default for CompositorBackend {
    fn default() -> (r: Self)
        ensures
            r == CompositorBackend::CpuReference,
    {
        CompositorBackend::CpuReference
    }
}

/// Configured response to a missing asset or device. Not an implicit source.
#[derive(Debug, Clone, Copy, PartialEq, Eq, Structural)]
pub enum MissingMediaPolicy {
    Slate,
    LastGood,
    Fail,
}

impl Default for MissingMediaPolicy {
    fn default() -> (r: Self)
        ensures
            r == MissingMediaPolicy::Slate,
    {
        MissingMediaPolicy::Slate
    }
}

/// Restriction of auxiliary (Preview and Multiview) rendering at one level
/// of load: cadence and resolution divisors.
#[derive(Debug, Clone, Copy, PartialEq, Eq, Structural)]
pub struct AuxiliaryQualityTier {
    pub preview_cadence_divisor: u32,
    pub preview_resolution_divisor: u32,
    pub multiview_cadence_divisor: u32,
    pub multiview_resolution_divisor: u32,
}

#[derive(Debug, Clone, PartialEq, Eq)]
pub struct AuxiliaryLoadSheddingThresholds {
    /// A frame at or below this deadline slack is overloaded.
    pub overload_slack_nanos: i64,
    /// A frame at or above this deadline slack is eligible for recovery.
    pub recover_slack_nanos: i64,
    /// Optional per-frame GPU time threshold; `None` disables GPU-time
    /// admission feedback without disabling deadline feedback.
    pub gpu_overload_nanos: Option<u64>,
    /// Healthy GPU time paired with `gpu_overload_nanos`.
    pub gpu_recover_nanos: Option<u64>,
    pub escalation_frames: u32,
    pub recovery_frames: u32,
    /// Ordered least-to-most restrictive. Nominal full quality is implicit.
    pub tiers: Vec<AuxiliaryQualityTier>,
}

/// Persisted admission policy for auxiliary video work. Program is never a
/// target of this policy.
#[derive(Debug, Clone, PartialEq, Eq)]
pub enum AuxiliaryLoadSheddingPolicy {
    /// Render every admitted Preview and Multiview at the Program cadence
    /// and resolution.
    Disabled,
    /// Escalate through the explicitly configured auxiliary quality tiers.
    Thresholds(AuxiliaryLoadSheddingThresholds),
}

impl Default for AuxiliaryLoadSheddingPolicy {
    fn default() -> (r: Self)
        ensures
            r is Disabled,
    {
        AuxiliaryLoadSheddingPolicy::Disabled
    }
}

pub open spec fn tier(pc: u32, pr: u32, mc: u32, mr: u32) -> AuxiliaryQualityTier {
    AuxiliaryQualityTier {
        preview_cadence_divisor: pc,
        preview_resolution_divisor: pr,
        multiview_cadence_divisor: mc,
        multiview_resolution_divisor: mr,
    }
}

/// The tiers of the broadcast default: halve auxiliary cadence, then also
/// halve resolution, then quarter both.
pub open spec fn broadcast_tiers() -> Seq<AuxiliaryQualityTier> {
    seq![tier(2, 1, 2, 1), tier(2, 2, 3, 2), tier(4, 4, 6, 4)]
}

impl AuxiliaryLoadSheddingPolicy {
    pub fn broadcast_default() -> (r: Self)
        ensures
            r matches AuxiliaryLoadSheddingPolicy::Thresholds(t) && t.overload_slack_nanos
                == 1_000_000 && t.recover_slack_nanos == 3_000_000 && t.gpu_overload_nanos == Some(
                6_000_000u64,
            ) && t.gpu_recover_nanos == Some(4_000_000u64) && t.escalation_frames == 3
                && t.recovery_frames == 120 && t.tiers@ == broadcast_tiers(),
    {
        let tiers = vec![
            AuxiliaryQualityTier {
                preview_cadence_divisor: 2,
                preview_resolution_divisor: 1,
                multiview_cadence_divisor: 2,
                multiview_resolution_divisor: 1,
            },
            AuxiliaryQualityTier {
                preview_cadence_divisor: 2,
                preview_resolution_divisor: 2,
                multiview_cadence_divisor: 3,
                multiview_resolution_divisor: 2,
            },
            AuxiliaryQualityTier {
                preview_cadence_divisor: 4,
                preview_resolution_divisor: 4,
                multiview_cadence_divisor: 6,
                multiview_resolution_divisor: 4,
            },
        ];
        assert(tiers@ =~= broadcast_tiers());
        AuxiliaryLoadSheddingPolicy::Thresholds(
            AuxiliaryLoadSheddingThresholds {
                overload_slack_nanos: 1_000_000,
                recover_slack_nanos: 3_000_000,
                gpu_overload_nanos: Some(6_000_000),
                gpu_recover_nanos: Some(4_000_000),
                escalation_frames: 3,
                recovery_frames: 120,
                tiers,
            },
        )
    }
}

/// Why a quality tier may not follow `prev`, if it may not.
pub open spec fn tier_issue(t: AuxiliaryQualityTier, prev: AuxiliaryQualityTier, width: u32, height: u32) -> Option<
    Seq<char>,
> {
    if t.preview_cadence_divisor == 0 || t.preview_resolution_divisor == 0
        || t.multiview_cadence_divisor == 0 || t.multiview_resolution_divisor == 0 {
        Some("auxiliary shedding divisors must be non-zero"@)
    } else if !(t.preview_cadence_divisor >= prev.preview_cadence_divisor
        && t.preview_resolution_divisor >= prev.preview_resolution_divisor
        && t.multiview_cadence_divisor >= prev.multiview_cadence_divisor
        && t.multiview_resolution_divisor >= prev.multiview_resolution_divisor) || t == prev {
        Some("auxiliary shedding tiers must become strictly more restrictive"@)
    } else if width / t.preview_resolution_divisor == 0 || height / t.preview_resolution_divisor == 0
        || width / t.multiview_resolution_divisor == 0 || height / t.multiview_resolution_divisor
        == 0 {
        Some("auxiliary shedding resolution divisor exceeds the video format"@)
    } else {
        None
    }
}

/// The first problem of the tiers from `i` on, each compared with the one
/// before it (`prev` before the first).
pub open spec fn tiers_issue(tiers: Seq<AuxiliaryQualityTier>, i: int, prev: AuxiliaryQualityTier, width: u32, height: u32) -> Option<
    Seq<char>,
>
    decreases tiers.len() - i,
{
    if i < 0 || i >= tiers.len() {
        None
    } else {
        match tier_issue(tiers[i], prev, width, height) {
            Some(m) => Some(m),
            None => tiers_issue(tiers, i + 1, tiers[i], width, height),
        }
    }
}

pub open spec fn full_quality() -> AuxiliaryQualityTier {
    tier(1, 1, 1, 1)
}

/// Why a load-shedding policy is unusable with a video raster, if it is.
pub open spec fn load_shedding_issue(policy: AuxiliaryLoadSheddingPolicy, width: u32, height: u32) -> Option<
    Seq<char>,
> {
    match policy {
        AuxiliaryLoadSheddingPolicy::Disabled => None,
        AuxiliaryLoadSheddingPolicy::Thresholds(p) => if p.overload_slack_nanos
            >= p.recover_slack_nanos {
            Some("auxiliary shedding recovery slack must exceed overload slack"@)
        } else if p.escalation_frames == 0 || p.recovery_frames == 0 {
            Some("auxiliary shedding hysteresis frame counts must be non-zero"@)
        } else if !((p.gpu_overload_nanos is None && p.gpu_recover_nanos is None) || (
        p.gpu_overload_nanos is Some && p.gpu_recover_nanos is Some && p.gpu_overload_nanos->0
            > p.gpu_recover_nanos->0)) {
            Some(
                "auxiliary shedding GPU thresholds must be paired and overload must exceed recovery"@,
            )
        } else if p.tiers@.len() == 0 {
            Some("auxiliary shedding requires at least one quality tier"@)
        } else {
            tiers_issue(p.tiers@, 0, full_quality(), width, height)
        },
    }
}

/// The outcome of a check: `Ok` without an issue, else the issue's message.
pub open spec fn reports_issue(r: DomainResult<()>, issue: Option<Seq<char>>) -> bool {
    match issue {
        None => r is Ok,
        Some(m) => r matches Err(DomainError::Message(x)) && x@ == m,
    }
}

/// Checks an auxiliary load-shedding policy against the Program raster:
/// ordered hysteresis, paired GPU thresholds, and at least one tier, each
/// strictly more restrictive than the one before and within the raster.
pub fn validate_load_shedding(policy: &AuxiliaryLoadSheddingPolicy, width: u32, height: u32) -> (r:
    DomainResult<()>)
    ensures
        reports_issue(r, load_shedding_issue(*policy, width, height)),
{
    let p = match policy {
        AuxiliaryLoadSheddingPolicy::Disabled => {
            return Ok(());
        },
        AuxiliaryLoadSheddingPolicy::Thresholds(p) => p,
    };
    if p.overload_slack_nanos >= p.recover_slack_nanos {
        return Err(DomainError::msg("auxiliary shedding recovery slack must exceed overload slack"));
    }
    if p.escalation_frames == 0 || p.recovery_frames == 0 {
        return Err(DomainError::msg("auxiliary shedding hysteresis frame counts must be non-zero"));
    }
    let gpu_ok = match (p.gpu_overload_nanos, p.gpu_recover_nanos) {
        (None, None) => true,
        (Some(overload), Some(recover)) => overload > recover,
        _ => false,
    };
    if !gpu_ok {
        return Err(
            DomainError::msg(
                "auxiliary shedding GPU thresholds must be paired and overload must exceed recovery",
            ),
        );
    }
    if p.tiers.len() == 0 {
        return Err(DomainError::msg("auxiliary shedding requires at least one quality tier"));
    }
    let mut previous = AuxiliaryQualityTier {
        preview_cadence_divisor: 1,
        preview_resolution_divisor: 1,
        multiview_cadence_divisor: 1,
        multiview_resolution_divisor: 1,
    };
    assert(load_shedding_issue(*policy, width, height) == tiers_issue(
        p.tiers@,
        0,
        full_quality(),
        width,
        height,
    ));
    let mut i: usize = 0;
    while i < p.tiers.len()
        invariant
            i <= p.tiers.len(),
            load_shedding_issue(*policy, width, height) == tiers_issue(
                p.tiers@,
                0,
                full_quality(),
                width,
                height,
            ),
            tiers_issue(p.tiers@, 0, full_quality(), width, height) == tiers_issue(
                p.tiers@,
                i as int,
                previous,
                width,
                height,
            ),
        decreases p.tiers.len() - i,
    {
        let t = p.tiers[i];
        if t.preview_cadence_divisor == 0 || t.preview_resolution_divisor == 0
            || t.multiview_cadence_divisor == 0 || t.multiview_resolution_divisor == 0 {
            return Err(DomainError::msg("auxiliary shedding divisors must be non-zero"));
        }
        let monotonic = t.preview_cadence_divisor >= previous.preview_cadence_divisor
            && t.preview_resolution_divisor >= previous.preview_resolution_divisor
            && t.multiview_cadence_divisor >= previous.multiview_cadence_divisor
            && t.multiview_resolution_divisor >= previous.multiview_resolution_divisor;
        if !monotonic || t == previous {
            return Err(
                DomainError::msg("auxiliary shedding tiers must become strictly more restrictive"),
            );
        }
        if width / t.preview_resolution_divisor == 0 || height / t.preview_resolution_divisor == 0
            || width / t.multiview_resolution_divisor == 0 || height
            / t.multiview_resolution_divisor == 0 {
            return Err(
                DomainError::msg("auxiliary shedding resolution divisor exceeds the video format"),
            );
        }
        previous = t;
        i = i + 1;
    }
    Ok(())
}

#[derive(Debug, Clone, Copy, PartialEq, Eq, Structural)]
pub enum ColorSpace {
    Bt709Sdr,
    Bt2020Pq,
    Bt2020Hlg,
}

#[derive(Debug, Clone, Copy, PartialEq, Eq, Structural)]
pub enum ColorMatrix {
    Bt601,
    Bt709,
    Bt2020NonConstantLuminance,
}

#[derive(Debug, Clone, Copy, PartialEq, Eq, Structural)]
pub enum ColorRange {
    Full,
    Limited,
}

#[derive(Debug, Clone, Copy, PartialEq, Eq, Structural)]
pub enum TransferFunction {
    Srgb,
    Bt709,
    Pq,
    Hlg,
    Linear,
}

#[derive(Debug, Clone, Copy, PartialEq, Eq, Structural)]
pub struct ColorMetadata {
    pub matrix: ColorMatrix,
    pub range: ColorRange,
    pub transfer: TransferFunction,
}

/// The signalling of each color space: limited range, with the BT.709 or
/// BT.2020 matrix and the space's transfer function.
pub open spec fn spec_color_metadata(c: ColorSpace) -> ColorMetadata {
    match c {
        ColorSpace::Bt709Sdr => ColorMetadata {
            matrix: ColorMatrix::Bt709,
            range: ColorRange::Limited,
            transfer: TransferFunction::Bt709,
        },
        ColorSpace::Bt2020Pq => ColorMetadata {
            matrix: ColorMatrix::Bt2020NonConstantLuminance,
            range: ColorRange::Limited,
            transfer: TransferFunction::Pq,
        },
        ColorSpace::Bt2020Hlg => ColorMetadata {
            matrix: ColorMatrix::Bt2020NonConstantLuminance,
            range: ColorRange::Limited,
            transfer: TransferFunction::Hlg,
        },
    }
}

impl ColorSpace {
    pub fn metadata(self) -> (r: ColorMetadata)
        ensures
            r == spec_color_metadata(self),
    {
        match self {
            ColorSpace::Bt709Sdr => ColorMetadata {
                matrix: ColorMatrix::Bt709,
                range: ColorRange::Limited,
                transfer: TransferFunction::Bt709,
            },
            ColorSpace::Bt2020Pq => ColorMetadata {
                matrix: ColorMatrix::Bt2020NonConstantLuminance,
                range: ColorRange::Limited,
                transfer: TransferFunction::Pq,
            },
            ColorSpace::Bt2020Hlg => ColorMetadata {
                matrix: ColorMatrix::Bt2020NonConstantLuminance,
                range: ColorRange::Limited,
                transfer: TransferFunction::Hlg,
            },
        }
    }
}

#[derive(Debug, Clone, Copy, PartialEq, Eq, Structural)]
pub enum FieldOrder {
    TopFieldFirst,
    BottomFieldFirst,
}

#[derive(Debug, Clone, Copy, PartialEq, Eq, Structural)]
pub enum FieldKind {
    Progressive,
    Top,
    Bottom,
}

#[derive(Debug, Clone, Copy, PartialEq, Eq, Structural)]
pub enum ToneMapPolicy {
    Disabled,
    /// Deterministic Reinhard HDR-to-SDR mapping. This is an operator-selected
    /// rendering policy, not a certification claim.
    HdrToSdr { source_peak_nits: u16, target_nits: u16 },
}

impl Default for ToneMapPolicy {
    fn default() -> (r: Self)
        ensures
            r == ToneMapPolicy::Disabled,
    {
        ToneMapPolicy::Disabled
    }
}

/// A source color mismatch is rejected unless this policy explicitly
/// authorizes GPU conversion. The policy never changes the Program profile.
#[derive(Debug, Clone, Copy, PartialEq, Eq, Structural)]
pub enum ColorConversionPolicy {
    Exact,
    Gpu { tone_map: ToneMapPolicy },
}

impl Default for ColorConversionPolicy {
    fn default() -> (r: Self)
        ensures
            r == ColorConversionPolicy::Exact,
    {
        ColorConversionPolicy::Exact
    }
}

/// Bounds of adaptive sample-rate conversion.
#[derive(Debug, Clone, Copy, PartialEq, Eq, Structural)]
pub struct AsrcProfile {
    pub target_latency_ms: u32,
    pub max_buffer_ms: u32,
    pub max_drift_ppm: u32,
}

/// How audio at another rate reaches the project rate.
#[derive(Debug, Clone, Copy, PartialEq, Eq, Structural)]
pub enum AudioResamplingPolicy {
    ExactRate,
    Asrc { profile: AsrcProfile },
}

impl Default for AudioResamplingPolicy {
    fn default() -> (r: Self)
        ensures
            r == AudioResamplingPolicy::ExactRate,
    {
        AudioResamplingPolicy::ExactRate
    }
}

#[derive(Debug, Clone, Copy, PartialEq, Eq, Structural)]
pub struct AudioFormat {
    pub sample_rate: u32,
    pub channels: u16,
    pub resampling: AudioResamplingPolicy,
}

impl Default for AudioFormat {
    fn default() -> (r: Self)
        ensures
            r == (AudioFormat {
                sample_rate: 48000,
                channels: 2,
                resampling: AudioResamplingPolicy::ExactRate,
            }),
    {
        AudioFormat { sample_rate: 48000, channels: 2, resampling: AudioResamplingPolicy::ExactRate }
    }
}

#[derive(Debug, Clone, PartialEq)]
pub struct AssetRef {
    pub id: AssetId,
    pub original_name: String,
    pub sha256_hex: String,
    pub relative_path: String,
    pub missing: bool,
}

#[derive(Debug, Clone, PartialEq, Eq)]
pub enum H264EncoderProfile {
    CiscoOpenH26426 { bitrate_bps: u32, keyframe_interval_frames: u32 },
    ExternalAnnexB { adapter: String, bitrate_bps: u32, keyframe_interval_frames: u32 },
}

#[derive(Debug, Clone, PartialEq, Eq)]
pub enum AacEncoderProfile {
    FdkAacLc { bitrate_bps: u32, sample_rate: u32, channels: u16 },
    ExternalRawAacLc { adapter: String, bitrate_bps: u32, sample_rate: u32, channels: u16 },
}

#[derive(Debug, Clone, PartialEq, Eq)]
pub enum TransportProfile {
    RtmpPublish { chunk_size: u32, connect_timeout_ms: u32 },
    SrtCallerMpegTs { latency_ms: u32, stream_id: Option<String>, connect_timeout_ms: u32 },
    FragmentedMp4 {},
}

#[derive(Debug, Clone, Copy, PartialEq, Eq, Structural)]
pub struct ReconnectProfile {
    pub initial_delay_ms: u32,
    pub max_delay_ms: u32,
    pub max_attempts: u32,
}

/// Codec and transport of a streaming or recording output.
#[derive(Debug, Clone, PartialEq, Eq)]
pub struct DistributionProfile {
    pub video: H264EncoderProfile,
    pub audio: AacEncoderProfile,
    pub transport: TransportProfile,
    pub queue_capacity: u32,
    pub reconnect: ReconnectProfile,
}

/// An endpoint URL must start with its scheme and say more than the scheme.
pub open spec fn endpoint_issue(value: Seq<char>, scheme: Seq<char>, label: Seq<char>) -> Option<Seq<char>> {
    if !spec_starts_with(value, scheme) || value.len() == scheme.len() {
        Some(label + " endpoint must use explicit "@ + scheme + " URL"@)
    } else {
        None
    }
}

pub fn validate_endpoint(value: &str, scheme: &str, label: &str) -> (r: DomainResult<()>)
    ensures
        reports_issue(r, endpoint_issue(value@, scheme@, label@)),
{
    if !starts_with(value, scheme) || value.unicode_len() == scheme.unicode_len() {
        let mut m = owned(label);
        m.append(" endpoint must use explicit ");
        m.append(scheme);
        m.append(" URL");
        return Err(DomainError::Message(m));
    }
    Ok(())
}

/// The distribution kind an output's kind needs, if it is a streaming or
/// recording output.
pub open spec fn expected_transport(kind: OutputKind) -> Option<Seq<char>> {
    match kind {
        OutputKind::Rtmp { .. } => Some("rtmp"@),
        OutputKind::Srt { .. } => Some("srt"@),
        OutputKind::Mp4 { .. } => Some("mp4"@),
        _ => None,
    }
}

/// The problem of an output's own endpoint or path, if it has one.
pub open spec fn output_endpoint_issue(kind: OutputKind) -> Option<Seq<char>> {
    match kind {
        OutputKind::Rtmp { url } => endpoint_issue(url@, "rtmp://"@, "RTMP"@),
        OutputKind::Srt { url } => endpoint_issue(url@, "srt://"@, "SRT"@),
        OutputKind::Mp4 { path } => if spec_trim(path@).len() == 0 {
            Some("MP4 output path must not be empty"@)
        } else {
            None
        },
        _ => None,
    }
}

pub open spec fn transport_matches(kind: OutputKind, transport: TransportProfile) -> bool {
    ||| kind is Rtmp && transport is RtmpPublish
    ||| kind is Srt && transport is SrtCallerMpegTs
    ||| kind is Mp4 && transport is FragmentedMp4
}

pub open spec fn video_rates(v: H264EncoderProfile) -> (u32, u32) {
    match v {
        H264EncoderProfile::CiscoOpenH26426 { bitrate_bps, keyframe_interval_frames } => (
            bitrate_bps,
            keyframe_interval_frames,
        ),
        H264EncoderProfile::ExternalAnnexB { bitrate_bps, keyframe_interval_frames, .. } => (
            bitrate_bps,
            keyframe_interval_frames,
        ),
    }
}

pub open spec fn audio_rates(a: AacEncoderProfile) -> (u32, u32, u16) {
    match a {
        AacEncoderProfile::FdkAacLc { bitrate_bps, sample_rate, channels } => (
            bitrate_bps,
            sample_rate,
            channels,
        ),
        AacEncoderProfile::ExternalRawAacLc { bitrate_bps, sample_rate, channels, .. } => (
            bitrate_bps,
            sample_rate,
            channels,
        ),
    }
}

pub open spec fn id_text(id: u128) -> Seq<char> {
    uuid_text(id)
}

/// Why a distribution profile cannot drive an output, once the output's
/// kind has been matched with a profile.
pub open spec fn profile_issue(output: Output, p: DistributionProfile, audio: AudioFormat) -> Option<
    Seq<char>,
> {
    let (vb, key) = video_rates(p.video);
    let (ab, rate, channels) = audio_rates(p.audio);
    if p.queue_capacity == 0 {
        Some("distribution queue capacity must be non-zero"@)
    } else if p.reconnect.initial_delay_ms == 0 || p.reconnect.max_delay_ms
        < p.reconnect.initial_delay_ms {
        Some("invalid reconnect delay range for distribution output"@)
    } else if vb == 0 || key == 0 {
        Some("distribution H.264 bitrate and keyframe interval must be non-zero"@)
    } else if p.video matches H264EncoderProfile::ExternalAnnexB { adapter, .. } && spec_trim(
        adapter@,
    ).len() == 0 {
        Some("external H.264 encoder adapter name must not be empty"@)
    } else if p.audio matches AacEncoderProfile::ExternalRawAacLc { adapter, .. } && spec_trim(
        adapter@,
    ).len() == 0 {
        Some("external AAC encoder adapter name must not be empty"@)
    } else if ab == 0 {
        Some("distribution AAC bitrate must be non-zero"@)
    } else if rate != audio.sample_rate || channels != audio.channels {
        Some(
            "distribution AAC profile "@ + spec_decimal(rate as nat) + " Hz/"@ + spec_decimal(
                channels as nat,
            ) + " ch does not match project "@ + spec_decimal(audio.sample_rate as nat)
                + " Hz/"@ + spec_decimal(audio.channels as nat) + " ch"@,
        )
    } else if !transport_matches(output.kind, p.transport) {
        Some("output "@ + id_text(output.id.0) + " transport profile does not match its output kind"@)
    } else if p.transport matches TransportProfile::RtmpPublish { chunk_size, connect_timeout_ms }
        && (!(128 <= chunk_size <= 65_536) || connect_timeout_ms == 0) {
        Some("RTMP chunk size must be 128..=65536 and timeout must be non-zero"@)
    } else if p.transport matches TransportProfile::SrtCallerMpegTs {
        latency_ms,
        connect_timeout_ms,
        ..
    } && (latency_ms == 0 || connect_timeout_ms == 0) {
        Some("SRT latency and connect timeout must be non-zero"@)
    } else {
        None
    }
}

/// Why an output cannot be distributed as configured, if it cannot:
/// streaming and recording outputs need a valid endpoint and an explicit,
/// matching codec and transport profile; other outputs must have none.
pub open spec fn distribution_issue(output: Output, audio: AudioFormat) -> Option<Seq<char>> {
    if output_endpoint_issue(output.kind) is Some {
        output_endpoint_issue(output.kind)
    } else {
        match (expected_transport(output.kind), output.distribution) {
            (None, None) => None,
            (None, Some(_)) => Some(
                "non-distribution output "@ + id_text(output.id.0)
                    + " must not have a distribution profile"@,
            ),
            (Some(kind), None) => Some(
                kind + " output "@ + id_text(output.id.0)
                    + " requires an explicit codec and transport profile"@,
            ),
            (Some(_), Some(p)) => profile_issue(output, p, audio),
        }
    }
}

fn blank(s: &str) -> (r: bool)
    ensures
        r == (spec_trim(s@).len() == 0),
{
    trim(s).unicode_len() == 0
}

fn profile_check(output: &Output, p: &DistributionProfile, audio: &AudioFormat) -> (r: DomainResult<()>)
    ensures
        reports_issue(r, profile_issue(*output, *p, *audio)),
{
    if p.queue_capacity == 0 {
        return Err(DomainError::msg("distribution queue capacity must be non-zero"));
    }
    if p.reconnect.initial_delay_ms == 0 || p.reconnect.max_delay_ms < p.reconnect.initial_delay_ms {
        return Err(DomainError::msg("invalid reconnect delay range for distribution output"));
    }
    let (video_bitrate, keyframe_interval) = match &p.video {
        H264EncoderProfile::CiscoOpenH26426 { bitrate_bps, keyframe_interval_frames } => (
            *bitrate_bps,
            *keyframe_interval_frames,
        ),
        H264EncoderProfile::ExternalAnnexB { bitrate_bps, keyframe_interval_frames, .. } => (
            *bitrate_bps,
            *keyframe_interval_frames,
        ),
    };
    if video_bitrate == 0 || keyframe_interval == 0 {
        return Err(
            DomainError::msg("distribution H.264 bitrate and keyframe interval must be non-zero"),
        );
    }
    match &p.video {
        H264EncoderProfile::ExternalAnnexB { adapter, .. } => {
            if blank(adapter.as_str()) {
                return Err(DomainError::msg("external H.264 encoder adapter name must not be empty"));
            }
        },
        _ => {},
    }
    let (audio_bitrate, sample_rate, channels) = match &p.audio {
        AacEncoderProfile::FdkAacLc { bitrate_bps, sample_rate, channels } => (
            *bitrate_bps,
            *sample_rate,
            *channels,
        ),
        AacEncoderProfile::ExternalRawAacLc { bitrate_bps, sample_rate, channels, .. } => (
            *bitrate_bps,
            *sample_rate,
            *channels,
        ),
    };
    match &p.audio {
        AacEncoderProfile::ExternalRawAacLc { adapter, .. } => {
            if blank(adapter.as_str()) {
                return Err(DomainError::msg("external AAC encoder adapter name must not be empty"));
            }
        },
        _ => {},
    }
    if audio_bitrate == 0 {
        return Err(DomainError::msg("distribution AAC bitrate must be non-zero"));
    }
    if sample_rate != audio.sample_rate || channels != audio.channels {
        let mut m = owned("distribution AAC profile ");
        m.append(decimal(sample_rate as u64).as_str());
        m.append(" Hz/");
        m.append(decimal(channels as u64).as_str());
        m.append(" ch does not match project ");
        m.append(decimal(audio.sample_rate as u64).as_str());
        m.append(" Hz/");
        m.append(decimal(audio.channels as u64).as_str());
        m.append(" ch");
        return Err(DomainError::Message(m));
    }
    let matches = match (&output.kind, &p.transport) {
        (OutputKind::Rtmp { .. }, TransportProfile::RtmpPublish { .. }) => true,
        (OutputKind::Srt { .. }, TransportProfile::SrtCallerMpegTs { .. }) => true,
        (OutputKind::Mp4 { .. }, TransportProfile::FragmentedMp4 {}) => true,
        _ => false,
    };
    if !matches {
        let mut m = owned("output ");
        m.append(output.id.to_string().as_str());
        m.append(" transport profile does not match its output kind");
        return Err(DomainError::Message(m));
    }
    match &p.transport {
        TransportProfile::RtmpPublish { chunk_size, connect_timeout_ms } => {
            if !(128 <= *chunk_size && *chunk_size <= 65_536) || *connect_timeout_ms == 0 {
                return Err(
                    DomainError::msg(
                        "RTMP chunk size must be 128..=65536 and timeout must be non-zero",
                    ),
                );
            }
        },
        TransportProfile::SrtCallerMpegTs { latency_ms, connect_timeout_ms, .. } => {
            if *latency_ms == 0 || *connect_timeout_ms == 0 {
                return Err(DomainError::msg("SRT latency and connect timeout must be non-zero"));
            }
        },
        _ => {},
    }
    Ok(())
}

/// Checks that a streaming or recording output has a valid endpoint and an
/// explicit codec and transport profile that matches it and the project's
/// audio format, and that other outputs carry no such profile.
pub fn validate_distribution_output(output: &Output, audio: &AudioFormat) -> (r: DomainResult<()>)
    ensures
        reports_issue(r, distribution_issue(*output, *audio)),
{
    let expected: Option<&str> = match &output.kind {
        OutputKind::Rtmp { url } => {
            match validate_endpoint(url.as_str(), "rtmp://", "RTMP") {
                Err(e) => {
                    return Err(e);
                },
                Ok(()) => {},
            }
            Some("rtmp")
        },
        OutputKind::Srt { url } => {
            match validate_endpoint(url.as_str(), "srt://", "SRT") {
                Err(e) => {
                    return Err(e);
                },
                Ok(()) => {},
            }
            Some("srt")
        },
        OutputKind::Mp4 { path } => {
            if blank(path.as_str()) {
                return Err(DomainError::msg("MP4 output path must not be empty"));
            }
            Some("mp4")
        },
        _ => None,
    };
    proof {
        reveal_strlit("rtmp");
        reveal_strlit("srt");
        reveal_strlit("mp4");
    }
    match (expected, &output.distribution) {
        (None, None) => Ok(()),
        (None, Some(_)) => {
            let mut m = owned("non-distribution output ");
            m.append(output.id.to_string().as_str());
            m.append(" must not have a distribution profile");
            Err(DomainError::Message(m))
        },
        (Some(kind), None) => {
            let mut m = owned(kind);
            m.append(" output ");
            m.append(output.id.to_string().as_str());
            m.append(" requires an explicit codec and transport profile");
            Err(DomainError::Message(m))
        },
        (Some(_), Some(p)) => profile_check(output, p, audio),
    }
}

} // verus!
