//! The session file's messages as plain values, and the mapping between
//! them and the session document: what a stored session reads back as,
//! which stored values are refused, and what a document is written as.
//!
//! A message enum is held as `WireEnum`: the value was left unset, names a
//! known variant, or is a number this build does not know.

use vstd::prelude::*;

use crate::domain::ieee::ONE;
use crate::session::file::{check_format_version, format_version_issue, EmbeddedAsset, HistoryEntry, FORMAT_VERSION};
use crate::session::model::{
    AudioBusRole, AudioCaptureMode, AudioDeviceKind, AudioLinkMode, BandwidthSave, BusDto, BusDtoView,
    Document, DocumentView, InputDto, InputDtoView, InputKind, InternalColorFormat, MixSource, MultiviewDto,
    MultiviewDtoView, MultiviewTemplate, MvLabelAnchor, MvLabelUnit, MvSlot, MvSlotKind, MvSlotView,
    NdiBandwidth, OmtQuality, OutputDto, OutputDtoView, OutputSourceKind, OutputTransport, OverlaySlot,
    Renderer, RgbColor, SceneDto, SceneDtoView, SceneLayer, SceneLayerGeom, SceneLayoutPreset,
    SceneLayoutPresetView, SessionSettings, SessionSettingsView, SwitcherSceneFilter, TransitionPreset,
    TransitionPresetView, UnitDto, UnitDtoView, VideoPlayWhen, VideoTriggerWhen,
};
use crate::text::{decimal, owned, signed_decimal, spec_decimal, spec_signed_decimal};

verus! {

/// A message enum field: unset, a known variant, or an unknown number.
#[derive(Debug, Clone, Copy, PartialEq, Eq)]
pub enum WireEnum<T> {
    Unspecified,
    Known(T),
    Unknown(i32),
}

/// What a stored enum reads back as: the type's default when unset, the
/// variant when known, and an error naming the field's kind otherwise.
pub open spec fn enum_value<T>(w: WireEnum<T>, default: T, kind: Seq<char>) -> Result<T, Seq<char>> {
    match w {
        WireEnum::Unspecified => Ok(default),
        WireEnum::Known(v) => Ok(v),
        WireEnum::Unknown(x) => Err("unknown "@ + kind + " "@ + spec_signed_decimal(x as int)),
    }
}

pub fn enum_from_wire<T: Copy>(w: &WireEnum<T>, default: T, kind: &str) -> (r: Result<T, String>)
    ensures
        match enum_value(*w, default, kind@) {
            Ok(v) => r matches Ok(x) && x == v,
            Err(m) => r matches Err(x) && x@ == m,
        },
{
    match w {
        WireEnum::Unspecified => Ok(default),
        WireEnum::Known(v) => Ok(*v),
        WireEnum::Unknown(x) => {
            let mut m = owned("unknown ");
            m.append(kind);
            m.append(" ");
            let d = signed_decimal(*x as i64);
            m.append(d.as_str());
            Err(m)
        },
    }
}

/// A result `r` is the spec result `s` by its view.
pub open spec fn gives<T: View>(r: Result<T, String>, s: Result<T::V, Seq<char>>) -> bool {
    match s {
        Ok(v) => r matches Ok(x) && x@ == v,
        Err(m) => r matches Err(x) && x@ == m,
    }
}

/// A stored `f32` (by its bits) that reads back as `default` when it is
/// zero of either sign.
pub open spec fn nonzero_or(bits: u32, default: u32) -> u32 {
    if bits == 0 || bits == 0x8000_0000 {
        default
    } else {
        bits
    }
}

fn nonzero_or_exec(bits: u32, default: u32) -> (r: u32)
    ensures
        r == nonzero_or(bits, default),
{
    if bits == 0 || bits == 0x8000_0000 {
        default
    } else {
        bits
    }
}

/// A colour as stored: each channel a 32-bit number.
#[derive(Debug, Clone, Copy, PartialEq, Eq)]
pub struct WireRgb {
    pub r: u32,
    pub g: u32,
    pub b: u32,
}

pub open spec fn channel_value(v: u32, name: Seq<char>) -> Result<u8, Seq<char>> {
    if v <= 255 {
        Ok(v as u8)
    } else {
        Err(name + " color channel "@ + spec_decimal(v as nat) + " is out of range"@)
    }
}

fn channel_from_wire(v: u32, name: &str) -> (r: Result<u8, String>)
    ensures
        match channel_value(v, name@) {
            Ok(c) => r == Ok::<u8, String>(c),
            Err(m) => r matches Err(x) && x@ == m,
        },
{
    if v <= 255 {
        Ok(v as u8)
    } else {
        let mut m = owned(name);
        m.append(" color channel ");
        let d = decimal(v as u64);
        m.append(d.as_str());
        m.append(" is out of range");
        Err(m)
    }
}

/// A stored colour reads back channel by channel; a channel above 255 is
/// refused, red first.
pub open spec fn rgb_value(w: WireRgb) -> Result<RgbColor, Seq<char>> {
    match channel_value(w.r, "r"@) {
        Err(m) => Err(m),
        Ok(r) => match channel_value(w.g, "g"@) {
            Err(m) => Err(m),
            Ok(g) => match channel_value(w.b, "b"@) {
                Err(m) => Err(m),
                Ok(b) => Ok(RgbColor { r, g, b }),
            },
        },
    }
}

pub fn rgb_from_wire(w: WireRgb) -> (r: Result<RgbColor, String>)
    ensures
        match rgb_value(w) {
            Ok(c) => r matches Ok(x) && x == c,
            Err(m) => r matches Err(x) && x@ == m,
        },
{
    let r = match channel_from_wire(w.r, "r") {
        Ok(c) => c,
        Err(e) => return Err(e),
    };
    let g = match channel_from_wire(w.g, "g") {
        Ok(c) => c,
        Err(e) => return Err(e),
    };
    let b = match channel_from_wire(w.b, "b") {
        Ok(c) => c,
        Err(e) => return Err(e),
    };
    Ok(RgbColor { r, g, b })
}

pub open spec fn rgb_to_wire_spec(c: RgbColor) -> WireRgb {
    WireRgb { r: c.r as u32, g: c.g as u32, b: c.b as u32 }
}

pub fn rgb_to_wire(c: RgbColor) -> (r: WireRgb)
    ensures
        r == rgb_to_wire_spec(c),
{
    WireRgb { r: c.r as u32, g: c.g as u32, b: c.b as u32 }
}

/// A stored layer reads back with a zero width, height or opacity as 1.
pub open spec fn layer_value(w: SceneLayer) -> SceneLayer {
    SceneLayer {
        width: nonzero_or(w.width, ONE),
        height: nonzero_or(w.height, ONE),
        opacity: nonzero_or(w.opacity, ONE),
        ..w
    }
}

pub fn layer_from_wire(w: SceneLayer) -> (r: SceneLayer)
    ensures
        r == layer_value(w),
{
    let mut r = w;
    r.width = nonzero_or_exec(w.width, ONE);
    r.height = nonzero_or_exec(w.height, ONE);
    r.opacity = nonzero_or_exec(w.opacity, ONE);
    r
}

/// A stored preset geometry reads back with a zero width, height or
/// opacity as 1.
pub open spec fn geom_value(w: SceneLayerGeom) -> SceneLayerGeom {
    SceneLayerGeom {
        width: nonzero_or(w.width, ONE),
        height: nonzero_or(w.height, ONE),
        opacity: nonzero_or(w.opacity, ONE),
        ..w
    }
}

pub fn geom_from_wire(w: SceneLayerGeom) -> (r: SceneLayerGeom)
    ensures
        r == geom_value(w),
{
    let mut r = w;
    r.width = nonzero_or_exec(w.width, ONE);
    r.height = nonzero_or_exec(w.height, ONE);
    r.opacity = nonzero_or_exec(w.opacity, ONE);
    r
}

pub fn layers_from_wire(w: &Vec<SceneLayer>) -> (r: Vec<SceneLayer>)
    ensures
        r@ == w@.map_values(|l: SceneLayer| layer_value(l)),
{
    let mut r: Vec<SceneLayer> = Vec::new();
    let mut i: usize = 0;
    while i < w.len()
        invariant
            i <= w.len(),
            r@ == w@.take(i as int).map_values(|l: SceneLayer| layer_value(l)),
        decreases w.len() - i,
    {
        r.push(layer_from_wire(w[i]));
        i = i + 1;
        assert(r@ =~= w@.take(i as int).map_values(|l: SceneLayer| layer_value(l)));
    }
    assert(w@.take(i as int) =~= w@);
    r
}

pub fn geoms_from_wire(w: &Vec<SceneLayerGeom>) -> (r: Vec<SceneLayerGeom>)
    ensures
        r@ == w@.map_values(|l: SceneLayerGeom| geom_value(l)),
{
    let mut r: Vec<SceneLayerGeom> = Vec::new();
    let mut i: usize = 0;
    while i < w.len()
        invariant
            i <= w.len(),
            r@ == w@.take(i as int).map_values(|l: SceneLayerGeom| geom_value(l)),
        decreases w.len() - i,
    {
        r.push(geom_from_wire(w[i]));
        i = i + 1;
        assert(r@ =~= w@.take(i as int).map_values(|l: SceneLayerGeom| geom_value(l)));
    }
    assert(w@.take(i as int) =~= w@);
    r
}

/// A stored number that reads back as `default` when it is zero.
pub open spec fn or_default(v: u64, default: u64) -> u64 {
    if v == 0 {
        default
    } else {
        v
    }
}

fn or_default32(v: u32, default: u32) -> (r: u32)
    ensures
        r == or_default(v as u64, default as u64),
{
    if v == 0 {
        default
    } else {
        v
    }
}

fn or_default64(v: u64, default: u64) -> (r: u64)
    ensures
        r == or_default(v, default),
{
    if v == 0 {
        default
    } else {
        v
    }
}

/// The texts of a list, one by one.
pub open spec fn texts_of(v: Seq<String>) -> Seq<Seq<char>> {
    v.map_values(|t: String| t@)
}

fn copy_texts(v: &Vec<String>) -> (r: Vec<String>)
    ensures
        texts_of(r@) == texts_of(v@),
{
    let mut r: Vec<String> = Vec::new();
    let mut i: usize = 0;
    while i < v.len()
        invariant
            i <= v.len(),
            r@.len() == i,
            forall|j: int| 0 <= j < i ==> #[trigger] r@[j]@ == v@[j]@,
        decreases v.len() - i,
    {
        let t = v[i].clone();
        r.push(t);
        i = i + 1;
    }
    assert(texts_of(r@) =~= texts_of(v@));
    r
}

fn copy_ids(v: &Vec<u64>) -> (r: Vec<u64>)
    ensures
        r@ == v@,
{
    let mut r: Vec<u64> = Vec::new();
    let mut i: usize = 0;
    while i < v.len()
        invariant
            i <= v.len(),
            r@ == v@.take(i as int),
        decreases v.len() - i,
    {
        r.push(v[i]);
        i = i + 1;
        assert(r@ =~= v@.take(i as int));
    }
    assert(v@.take(i as int) =~= v@);
    r
}

/// The text of an optional text.
pub open spec fn opt_text(t: Option<String>) -> Option<Seq<char>> {
    match t {
        Some(s) => Some(s@),
        None => None,
    }
}

fn copy_opt_text(t: &Option<String>) -> (r: Option<String>)
    ensures
        opt_text(r) == opt_text(*t),
{
    match t {
        Some(s) => Some(s.clone()),
        None => None,
    }
}

/// A list of stored items read one by one: the first item refused, in
/// order, decides the error.
pub open spec fn all_values<A, B>(s: Seq<A>, f: spec_fn(A) -> Result<B, Seq<char>>) -> Result<
    Seq<B>,
    Seq<char>,
>
    decreases s.len(),
{
    if s.len() == 0 {
        Ok(Seq::empty())
    } else {
        match all_values(s.drop_last(), f) {
            Err(m) => Err(m),
            Ok(v) => match f(s.last()) {
                Err(m) => Err(m),
                Ok(x) => Ok(v.push(x)),
            },
        }
    }
}

proof fn lemma_all_values_step<A, B>(s: Seq<A>, f: spec_fn(A) -> Result<B, Seq<char>>, k: int)
    requires
        0 <= k < s.len(),
    ensures
        all_values(s.take(k + 1), f) == (match all_values(s.take(k), f) {
            Err(m) => Err(m),
            Ok(v) => match f(s[k]) {
                Err(m) => Err(m),
                Ok(x) => Ok(v.push(x)),
            },
        }),
{
    assert(s.take(k + 1).drop_last() =~= s.take(k));
}

proof fn lemma_all_values_err<A, B>(s: Seq<A>, f: spec_fn(A) -> Result<B, Seq<char>>, k: int)
    requires
        0 <= k <= s.len(),
        all_values(s.take(k), f) is Err,
    ensures
        all_values(s, f) == all_values(s.take(k), f),
    decreases s.len() - k,
{
    if k < s.len() {
        lemma_all_values_step(s, f, k);
        lemma_all_values_err(s, f, k + 1);
    } else {
        assert(s.take(k) =~= s);
    }
}

/// The session settings as stored: a colour may be absent, and the
/// renderer and last session path are not stored at all.
#[derive(Debug, Clone)]
pub struct WireSettings {
    pub master_fps_num: u32,
    pub master_fps_den: u32,
    pub default_width: u32,
    pub default_height: u32,
    pub theme: String,
    pub default_multiview_unit_id: u64,
    pub frame_buffer_frames: u32,
    pub default_present_interval: u32,
    pub flip_swapchain_limit: u32,
    pub internal_color_format: WireEnum<InternalColorFormat>,
    pub rebar_optimization: bool,
    pub rebar_direct_sample: bool,
    pub ndi_gpu_upload: bool,
    pub preview_color: Option<WireRgb>,
    pub program_color: Option<WireRgb>,
    pub inactive_color: Option<WireRgb>,
    /// Bit pattern of an `f32`.
    pub multiview_label_size: u32,
    pub multiview_label_unit: WireEnum<MvLabelUnit>,
    pub multiview_label_anchor: WireEnum<MvLabelAnchor>,
    pub vmix_api_enabled: bool,
    pub vmix_api_port: u32,
    pub vmix_api_user: String,
    pub vmix_api_password: String,
    pub vmix_tcp_enabled: bool,
    pub native_api_enabled: bool,
    pub native_api_port: u32,
}

/// A stored colour that may be absent: absent reads back as `default`.
pub open spec fn color_value(w: Option<WireRgb>, default: RgbColor) -> Result<RgbColor, Seq<char>> {
    match w {
        None => Ok(default),
        Some(c) => rgb_value(c),
    }
}

fn color_from_wire(w: Option<WireRgb>, default: RgbColor) -> (r: Result<RgbColor, String>)
    ensures
        match color_value(w, default) {
            Ok(c) => r matches Ok(x) && x == c,
            Err(m) => r matches Err(x) && x@ == m,
        },
{
    match w {
        None => Ok(default),
        Some(c) => rgb_from_wire(c),
    }
}

/// What stored settings read back as. A zero number, an empty theme, an
/// absent colour or an unset enum takes the default; the renderer is
/// `Auto` and there is no last session path. The first refused field, in
/// the order colour format, preview, program and inactive colour, label
/// unit, label anchor, decides the error.
pub open spec fn settings_value(w: WireSettings) -> Result<SessionSettingsView, Seq<char>> {
    let d = SessionSettings::spec_default();
    match enum_value(w.internal_color_format, InternalColorFormat::Uyvy, "internal color format"@) {
        Err(m) => Err(m),
        Ok(internal_color_format) => match color_value(w.preview_color, d.preview_color) {
            Err(m) => Err(m),
            Ok(preview_color) => match color_value(w.program_color, d.program_color) {
                Err(m) => Err(m),
                Ok(program_color) => match color_value(w.inactive_color, d.inactive_color) {
                    Err(m) => Err(m),
                    Ok(inactive_color) => match enum_value(
                        w.multiview_label_unit,
                        MvLabelUnit::Px,
                        "multiview label unit"@,
                    ) {
                        Err(m) => Err(m),
                        Ok(multiview_label_unit) => match enum_value(
                            w.multiview_label_anchor,
                            MvLabelAnchor::Bottom,
                            "multiview label anchor"@,
                        ) {
                            Err(m) => Err(m),
                            Ok(multiview_label_anchor) => Ok(
                                SessionSettingsView {
                                    master_fps_num: or_default(w.master_fps_num as u64, d.master_fps_num as u64) as u32,
                                    master_fps_den: or_default(w.master_fps_den as u64, d.master_fps_den as u64) as u32,
                                    default_width: or_default(w.default_width as u64, d.default_width as u64) as u32,
                                    default_height: or_default(w.default_height as u64, d.default_height as u64) as u32,
                                    theme: if w.theme@.len() == 0 {
                                        d.theme
                                    } else {
                                        w.theme@
                                    },
                                    default_multiview_unit_id: w.default_multiview_unit_id,
                                    frame_buffer_frames: or_default(w.frame_buffer_frames as u64, d.frame_buffer_frames as u64) as u32,
                                    default_present_interval: or_default(
                                        w.default_present_interval as u64,
                                        d.default_present_interval as u64,
                                    ) as u32,
                                    flip_swapchain_limit: w.flip_swapchain_limit,
                                    internal_color_format,
                                    rebar_optimization: w.rebar_optimization,
                                    rebar_direct_sample: w.rebar_direct_sample,
                                    ndi_gpu_upload: w.ndi_gpu_upload,
                                    preview_color,
                                    program_color,
                                    inactive_color,
                                    multiview_label_size: nonzero_or(w.multiview_label_size, d.multiview_label_size),
                                    multiview_label_unit,
                                    multiview_label_anchor,
                                    vmix_api_enabled: w.vmix_api_enabled,
                                    vmix_api_port: or_default(w.vmix_api_port as u64, d.vmix_api_port as u64) as u32,
                                    vmix_api_user: w.vmix_api_user@,
                                    vmix_api_password: w.vmix_api_password@,
                                    vmix_tcp_enabled: w.vmix_tcp_enabled,
                                    native_api_enabled: w.native_api_enabled,
                                    native_api_port: or_default(w.native_api_port as u64, d.native_api_port as u64) as u32,
                                    renderer: Renderer::Auto,
                                    last_session_path: None,
                                },
                            ),
                        },
                    },
                },
            },
        },
    }
}

pub fn settings_from_wire(w: &WireSettings) -> (r: Result<SessionSettings, String>)
    ensures
        gives(r, settings_value(*w)),
{
    let d = SessionSettings::default();
    let internal_color_format = match enum_from_wire(
        &w.internal_color_format,
        InternalColorFormat::Uyvy,
        "internal color format",
    ) {
        Ok(v) => v,
        Err(e) => return Err(e),
    };
    let preview_color = match color_from_wire(w.preview_color, d.preview_color) {
        Ok(v) => v,
        Err(e) => return Err(e),
    };
    let program_color = match color_from_wire(w.program_color, d.program_color) {
        Ok(v) => v,
        Err(e) => return Err(e),
    };
    let inactive_color = match color_from_wire(w.inactive_color, d.inactive_color) {
        Ok(v) => v,
        Err(e) => return Err(e),
    };
    let multiview_label_unit = match enum_from_wire(
        &w.multiview_label_unit,
        MvLabelUnit::Px,
        "multiview label unit",
    ) {
        Ok(v) => v,
        Err(e) => return Err(e),
    };
    let multiview_label_anchor = match enum_from_wire(
        &w.multiview_label_anchor,
        MvLabelAnchor::Bottom,
        "multiview label anchor",
    ) {
        Ok(v) => v,
        Err(e) => return Err(e),
    };
    let theme = if w.theme.as_str().is_empty() {
        d.theme
    } else {
        w.theme.clone()
    };
    Ok(
        SessionSettings {
            master_fps_num: or_default32(w.master_fps_num, d.master_fps_num),
            master_fps_den: or_default32(w.master_fps_den, d.master_fps_den),
            default_width: or_default32(w.default_width, d.default_width),
            default_height: or_default32(w.default_height, d.default_height),
            theme,
            default_multiview_unit_id: w.default_multiview_unit_id,
            frame_buffer_frames: or_default32(w.frame_buffer_frames, d.frame_buffer_frames),
            default_present_interval: or_default32(w.default_present_interval, d.default_present_interval),
            flip_swapchain_limit: w.flip_swapchain_limit,
            internal_color_format,
            rebar_optimization: w.rebar_optimization,
            rebar_direct_sample: w.rebar_direct_sample,
            ndi_gpu_upload: w.ndi_gpu_upload,
            preview_color,
            program_color,
            inactive_color,
            multiview_label_size: nonzero_or_exec(w.multiview_label_size, d.multiview_label_size),
            multiview_label_unit,
            multiview_label_anchor,
            vmix_api_enabled: w.vmix_api_enabled,
            vmix_api_port: or_default32(w.vmix_api_port, d.vmix_api_port),
            vmix_api_user: w.vmix_api_user.clone(),
            vmix_api_password: w.vmix_api_password.clone(),
            vmix_tcp_enabled: w.vmix_tcp_enabled,
            native_api_enabled: w.native_api_enabled,
            native_api_port: or_default32(w.native_api_port, d.native_api_port),
            renderer: Renderer::Auto,
            last_session_path: None,
        },
    )
}

/// An input as stored: its enums may be unset or unknown.
#[derive(Debug, Clone)]
pub struct WireInput {
    pub id: u64,
    pub guid: String,
    pub name: String,
    pub kind: WireEnum<InputKind>,
    pub path_or_address: Option<String>,
    pub color_r: u32,
    pub color_g: u32,
    pub color_b: u32,
    pub scroll: bool,
    pub tone_hz: u32,
    /// Bit pattern of an `f32`.
    pub tone_level_dbfs: u32,
    pub bus_mask: u32,
    pub gain: u32,
    pub mute: bool,
    pub use_gpu: bool,
    pub frame_buffer_frames: u32,
    pub bandwidth_save: WireEnum<BandwidthSave>,
    pub keep_full_on_multiview: bool,
    pub omt_quality: WireEnum<OmtQuality>,
    pub ndi_bandwidth: WireEnum<NdiBandwidth>,
    pub video_loop: bool,
    pub video_play_when: WireEnum<VideoPlayWhen>,
    pub video_restart_when: WireEnum<VideoTriggerWhen>,
    pub video_pause_when: WireEnum<VideoTriggerWhen>,
    pub capture_width: u32,
    pub capture_height: u32,
    pub capture_fps_num: u32,
    pub capture_fps_den: u32,
    pub tags: Vec<String>,
    pub mix_source: WireEnum<MixSource>,
    pub mix_target_id: u64,
    pub mix_audio_bus_id: u64,
    pub audio_capture_mode: WireEnum<AudioCaptureMode>,
    pub audio_device_kind: WireEnum<AudioDeviceKind>,
    pub audio_device_id: String,
    pub audio_map_left: i32,
    pub audio_map_right: i32,
    pub audio_process_exe: String,
    pub audio_process_aumid: String,
}

/// An input's kind has no default: unset is refused too.
pub open spec fn input_kind_value(w: WireEnum<InputKind>) -> Result<InputKind, Seq<char>> {
    match w {
        WireEnum::Unspecified => Err("input kind is required"@),
        _ => enum_value(w, InputKind::Color, "input kind"@),
    }
}

pub fn input_kind_from_wire(w: &WireEnum<InputKind>) -> (r: Result<InputKind, String>)
    ensures
        match input_kind_value(*w) {
            Ok(v) => r matches Ok(x) && x == v,
            Err(m) => r matches Err(x) && x@ == m,
        },
{
    if let WireEnum::Unspecified = w {
        let m = owned("input kind is required");
        return Err(m);
    }
    enum_from_wire(w, InputKind::Color, "input kind")
}

/// What a stored input reads back as: a zero tone level is -20 dBFS, an
/// unset enum its default; the first refused enum, in field order, decides
/// the error.
pub open spec fn input_value(w: WireInput) -> Result<InputDtoView, Seq<char>> {
    match input_kind_value(w.kind) {
        Err(m) => Err(m),
        Ok(kind) => match enum_value(w.bandwidth_save, BandwidthSave::NotOnPreviewOrProgram, "bandwidth save"@) {
            Err(m) => Err(m),
            Ok(bandwidth_save) => match enum_value(w.omt_quality, OmtQuality::Default, "omt quality"@) {
                Err(m) => Err(m),
                Ok(omt_quality) => match enum_value(w.ndi_bandwidth, NdiBandwidth::Highest, "ndi bandwidth"@) {
                    Err(m) => Err(m),
                    Ok(ndi_bandwidth) => match enum_value(w.video_play_when, VideoPlayWhen::Never, "video play when"@) {
                        Err(m) => Err(m),
                        Ok(video_play_when) => match enum_value(
                            w.video_restart_when,
                            VideoTriggerWhen::Never,
                            "video trigger when"@,
                        ) {
                            Err(m) => Err(m),
                            Ok(video_restart_when) => match enum_value(
                                w.video_pause_when,
                                VideoTriggerWhen::Never,
                                "video trigger when"@,
                            ) {
                                Err(m) => Err(m),
                                Ok(video_pause_when) => match enum_value(w.mix_source, MixSource::MuProgram, "mix source"@) {
                                    Err(m) => Err(m),
                                    Ok(mix_source) => match enum_value(
                                        w.audio_capture_mode,
                                        AudioCaptureMode::Mic,
                                        "audio capture mode"@,
                                    ) {
                                        Err(m) => Err(m),
                                        Ok(audio_capture_mode) => match enum_value(
                                            w.audio_device_kind,
                                            AudioDeviceKind::NoDevice,
                                            "audio device kind"@,
                                        ) {
                                            Err(m) => Err(m),
                                            Ok(audio_device_kind) => Ok(
                                                InputDtoView {
                                                    id: w.id,
                                                    guid: w.guid@,
                                                    name: w.name@,
                                                    kind,
                                                    path_or_address: opt_text(w.path_or_address),
                                                    color_r: w.color_r,
                                                    color_g: w.color_g,
                                                    color_b: w.color_b,
                                                    scroll: w.scroll,
                                                    tone_hz: w.tone_hz,
                                                    tone_level_dbfs: nonzero_or(w.tone_level_dbfs, 0xc1a0_0000),
                                                    bus_mask: w.bus_mask,
                                                    gain: w.gain,
                                                    mute: w.mute,
                                                    use_gpu: w.use_gpu,
                                                    frame_buffer_frames: w.frame_buffer_frames,
                                                    bandwidth_save,
                                                    keep_full_on_multiview: w.keep_full_on_multiview,
                                                    omt_quality,
                                                    ndi_bandwidth,
                                                    video_loop: w.video_loop,
                                                    video_play_when,
                                                    video_restart_when,
                                                    video_pause_when,
                                                    capture_width: w.capture_width,
                                                    capture_height: w.capture_height,
                                                    capture_fps_num: w.capture_fps_num,
                                                    capture_fps_den: w.capture_fps_den,
                                                    tags: texts_of(w.tags@),
                                                    mix_source,
                                                    mix_target_id: w.mix_target_id,
                                                    mix_audio_bus_id: w.mix_audio_bus_id,
                                                    audio_capture_mode,
                                                    audio_device_kind,
                                                    audio_device_id: w.audio_device_id@,
                                                    audio_map_left: w.audio_map_left,
                                                    audio_map_right: w.audio_map_right,
                                                    audio_process_exe: w.audio_process_exe@,
                                                    audio_process_aumid: w.audio_process_aumid@,
                                                },
                                            ),
                                        },
                                    },
                                },
                            },
                        },
                    },
                },
            },
        },
    }
}

pub fn input_from_wire(w: &WireInput) -> (r: Result<InputDto, String>)
    ensures
        gives(r, input_value(*w)),
{
    let kind = match input_kind_from_wire(&w.kind) {
        Ok(v) => v,
        Err(e) => return Err(e),
    };
    let bandwidth_save = match enum_from_wire(
        &w.bandwidth_save,
        BandwidthSave::NotOnPreviewOrProgram,
        "bandwidth save",
    ) {
        Ok(v) => v,
        Err(e) => return Err(e),
    };
    let omt_quality = match enum_from_wire(&w.omt_quality, OmtQuality::Default, "omt quality") {
        Ok(v) => v,
        Err(e) => return Err(e),
    };
    let ndi_bandwidth = match enum_from_wire(&w.ndi_bandwidth, NdiBandwidth::Highest, "ndi bandwidth") {
        Ok(v) => v,
        Err(e) => return Err(e),
    };
    let video_play_when = match enum_from_wire(&w.video_play_when, VideoPlayWhen::Never, "video play when") {
        Ok(v) => v,
        Err(e) => return Err(e),
    };
    let video_restart_when = match enum_from_wire(
        &w.video_restart_when,
        VideoTriggerWhen::Never,
        "video trigger when",
    ) {
        Ok(v) => v,
        Err(e) => return Err(e),
    };
    let video_pause_when = match enum_from_wire(
        &w.video_pause_when,
        VideoTriggerWhen::Never,
        "video trigger when",
    ) {
        Ok(v) => v,
        Err(e) => return Err(e),
    };
    let mix_source = match enum_from_wire(&w.mix_source, MixSource::MuProgram, "mix source") {
        Ok(v) => v,
        Err(e) => return Err(e),
    };
    let audio_capture_mode = match enum_from_wire(
        &w.audio_capture_mode,
        AudioCaptureMode::Mic,
        "audio capture mode",
    ) {
        Ok(v) => v,
        Err(e) => return Err(e),
    };
    let audio_device_kind = match enum_from_wire(
        &w.audio_device_kind,
        AudioDeviceKind::NoDevice,
        "audio device kind",
    ) {
        Ok(v) => v,
        Err(e) => return Err(e),
    };
    let tags = copy_texts(&w.tags);
    Ok(
        InputDto {
            id: w.id,
            guid: w.guid.clone(),
            name: w.name.clone(),
            kind,
            path_or_address: copy_opt_text(&w.path_or_address),
            color_r: w.color_r,
            color_g: w.color_g,
            color_b: w.color_b,
            scroll: w.scroll,
            tone_hz: w.tone_hz,
            tone_level_dbfs: nonzero_or_exec(w.tone_level_dbfs, 0xc1a0_0000),
            bus_mask: w.bus_mask,
            gain: w.gain,
            mute: w.mute,
            use_gpu: w.use_gpu,
            frame_buffer_frames: w.frame_buffer_frames,
            bandwidth_save,
            keep_full_on_multiview: w.keep_full_on_multiview,
            omt_quality,
            ndi_bandwidth,
            video_loop: w.video_loop,
            video_play_when,
            video_restart_when,
            video_pause_when,
            capture_width: w.capture_width,
            capture_height: w.capture_height,
            capture_fps_num: w.capture_fps_num,
            capture_fps_den: w.capture_fps_den,
            tags,
            mix_source,
            mix_target_id: w.mix_target_id,
            mix_audio_bus_id: w.mix_audio_bus_id,
            audio_capture_mode,
            audio_device_kind,
            audio_device_id: w.audio_device_id.clone(),
            audio_map_left: w.audio_map_left,
            audio_map_right: w.audio_map_right,
            audio_process_exe: w.audio_process_exe.clone(),
            audio_process_aumid: w.audio_process_aumid.clone(),
        },
    )
}

/// What a stored scene reads back as: its layers with their defaults.
pub open spec fn scene_value(w: SceneDto) -> SceneDtoView {
    SceneDtoView { layers: w.layers@.map_values(|l: SceneLayer| layer_value(l)), ..w@ }
}

pub fn scene_from_wire(w: &SceneDto) -> (r: SceneDto)
    ensures
        r@ == scene_value(*w),
{
    SceneDto {
        id: w.id,
        guid: w.guid.clone(),
        name: w.name.clone(),
        layers: layers_from_wire(&w.layers),
        tags: copy_texts(&w.tags),
        preview_collapsed: w.preview_collapsed,
    }
}

/// What a stored layout preset reads back as: its geometries with their
/// defaults.
pub open spec fn preset_value(w: SceneLayoutPreset) -> SceneLayoutPresetView {
    SceneLayoutPresetView { name: w.name@, layers: w.layers@.map_values(|l: SceneLayerGeom| geom_value(l)) }
}

pub fn preset_from_wire(w: &SceneLayoutPreset) -> (r: SceneLayoutPreset)
    ensures
        r@ == preset_value(*w),
{
    SceneLayoutPreset { name: w.name.clone(), layers: geoms_from_wire(&w.layers) }
}

/// What a stored transition reads back as: a zero dip alpha is 1 and a
/// zero softness 0.02.
pub open spec fn transition_value(w: TransitionPreset) -> TransitionPresetView {
    TransitionPresetView { dip_a: nonzero_or(w.dip_a, ONE), softness: nonzero_or(w.softness, 0x3ca3_d70a), ..w@ }
}

pub fn transition_from_wire(w: &TransitionPreset) -> (r: TransitionPreset)
    ensures
        r@ == transition_value(*w),
{
    TransitionPreset {
        kind: w.kind,
        duration_value: w.duration_value,
        duration_unit: w.duration_unit,
        swap: w.swap,
        keep_preview: w.keep_preview,
        easing: w.easing,
        direction: w.direction,
        dip_r: w.dip_r,
        dip_g: w.dip_g,
        dip_b: w.dip_b,
        dip_a: nonzero_or_exec(w.dip_a, ONE),
        softness: nonzero_or_exec(w.softness, 0x3ca3_d70a),
        param: w.param,
        custom_wgsl: w.custom_wgsl.clone(),
        label: w.label.clone(),
    }
}

pub fn transitions_from_wire(w: &Vec<TransitionPreset>) -> (r: Vec<TransitionPreset>)
    ensures
        r@.map_values(|t: TransitionPreset| t@) == w@.map_values(|t: TransitionPreset| transition_value(t)),
{
    let mut r: Vec<TransitionPreset> = Vec::new();
    let mut i: usize = 0;
    while i < w.len()
        invariant
            i <= w.len(),
            r@.len() == i,
            forall|j: int| 0 <= j < i ==> #[trigger] r@[j]@ == transition_value(w@[j]),
        decreases w.len() - i,
    {
        r.push(transition_from_wire(&w[i]));
        i = i + 1;
    }
    assert(r@.map_values(|t: TransitionPreset| t@) =~= w@.map_values(|t: TransitionPreset| transition_value(t)));
    r
}

fn copy_overlays(v: &Vec<OverlaySlot>) -> (r: Vec<OverlaySlot>)
    ensures
        r@ == v@,
{
    let mut r: Vec<OverlaySlot> = Vec::new();
    let mut i: usize = 0;
    while i < v.len()
        invariant
            i <= v.len(),
            r@ == v@.take(i as int),
        decreases v.len() - i,
    {
        r.push(v[i]);
        i = i + 1;
        assert(r@ =~= v@.take(i as int));
    }
    assert(v@.take(i as int) =~= v@);
    r
}

/// A Mixing Unit as stored.
#[derive(Debug, Clone)]
pub struct WireUnit {
    pub id: u64,
    pub name: String,
    pub width: u32,
    pub height: u32,
    pub fps_num: u32,
    pub fps_den: u32,
    pub transitions: Vec<TransitionPreset>,
    pub overlays: Vec<OverlaySlot>,
    pub audio_bus_id: u64,
    pub audio_link: WireEnum<AudioLinkMode>,
    pub switcher_scene_filter: WireEnum<SwitcherSceneFilter>,
    pub switcher_scene_ids: Vec<u64>,
    pub always_on_top: bool,
    pub preview_scene_id: u64,
    pub program_scene_id: u64,
}

/// What a stored Mixing Unit reads back as; the audio link is checked
/// before the scene filter.
pub open spec fn unit_value(w: WireUnit) -> Result<UnitDtoView, Seq<char>> {
    match enum_value(w.audio_link, AudioLinkMode::Follow, "audio link"@) {
        Err(m) => Err(m),
        Ok(audio_link) => match enum_value(w.switcher_scene_filter, SwitcherSceneFilter::All, "switcher scene filter"@) {
            Err(m) => Err(m),
            Ok(switcher_scene_filter) => Ok(
                UnitDtoView {
                    id: w.id,
                    name: w.name@,
                    width: w.width,
                    height: w.height,
                    fps_num: w.fps_num,
                    fps_den: w.fps_den,
                    transitions: w.transitions@.map_values(|t: TransitionPreset| transition_value(t)),
                    overlays: w.overlays@,
                    audio_bus_id: w.audio_bus_id,
                    audio_link,
                    switcher_scene_filter,
                    switcher_scene_ids: w.switcher_scene_ids@,
                    always_on_top: w.always_on_top,
                    preview_scene_id: w.preview_scene_id,
                    program_scene_id: w.program_scene_id,
                },
            ),
        },
    }
}

pub fn unit_from_wire(w: &WireUnit) -> (r: Result<UnitDto, String>)
    ensures
        gives(r, unit_value(*w)),
{
    let audio_link = match enum_from_wire(&w.audio_link, AudioLinkMode::Follow, "audio link") {
        Ok(v) => v,
        Err(e) => return Err(e),
    };
    let switcher_scene_filter = match enum_from_wire(
        &w.switcher_scene_filter,
        SwitcherSceneFilter::All,
        "switcher scene filter",
    ) {
        Ok(v) => v,
        Err(e) => return Err(e),
    };
    Ok(
        UnitDto {
            id: w.id,
            name: w.name.clone(),
            width: w.width,
            height: w.height,
            fps_num: w.fps_num,
            fps_den: w.fps_den,
            transitions: transitions_from_wire(&w.transitions),
            overlays: copy_overlays(&w.overlays),
            audio_bus_id: w.audio_bus_id,
            audio_link,
            switcher_scene_filter,
            switcher_scene_ids: copy_ids(&w.switcher_scene_ids),
            always_on_top: w.always_on_top,
            preview_scene_id: w.preview_scene_id,
            program_scene_id: w.program_scene_id,
        },
    )
}

/// A published output as stored.
#[derive(Debug, Clone)]
pub struct WireOutput {
    pub id: u64,
    pub name: String,
    pub transport: WireEnum<OutputTransport>,
    pub source_kind: WireEnum<OutputSourceKind>,
    pub source_id: u64,
    pub unit_id: u64,
    pub use_gpu: bool,
    pub enabled: bool,
    pub audio_bus_id: u64,
    pub skip_encode_when_no_receivers: bool,
}

/// What a stored output reads back as; the transport is checked before
/// the source kind.
pub open spec fn output_value(w: WireOutput) -> Result<OutputDtoView, Seq<char>> {
    match enum_value(w.transport, OutputTransport::Omt, "output transport"@) {
        Err(m) => Err(m),
        Ok(transport) => match enum_value(w.source_kind, OutputSourceKind::MuProgram, "output source kind"@) {
            Err(m) => Err(m),
            Ok(source_kind) => Ok(
                OutputDtoView {
                    id: w.id,
                    name: w.name@,
                    transport,
                    source_kind,
                    source_id: w.source_id,
                    unit_id: w.unit_id,
                    use_gpu: w.use_gpu,
                    enabled: w.enabled,
                    audio_bus_id: w.audio_bus_id,
                    skip_encode_when_no_receivers: w.skip_encode_when_no_receivers,
                },
            ),
        },
    }
}

pub fn output_from_wire(w: &WireOutput) -> (r: Result<OutputDto, String>)
    ensures
        gives(r, output_value(*w)),
{
    let transport = match enum_from_wire(&w.transport, OutputTransport::Omt, "output transport") {
        Ok(v) => v,
        Err(e) => return Err(e),
    };
    let source_kind = match enum_from_wire(&w.source_kind, OutputSourceKind::MuProgram, "output source kind") {
        Ok(v) => v,
        Err(e) => return Err(e),
    };
    Ok(
        OutputDto {
            id: w.id,
            name: w.name.clone(),
            transport,
            source_kind,
            source_id: w.source_id,
            unit_id: w.unit_id,
            use_gpu: w.use_gpu,
            enabled: w.enabled,
            audio_bus_id: w.audio_bus_id,
            skip_encode_when_no_receivers: w.skip_encode_when_no_receivers,
        },
    )
}

/// A multiview tile as stored.
#[derive(Debug, Clone)]
pub struct WireMvSlot {
    pub kind: WireEnum<MvSlotKind>,
    pub source_id: u64,
    pub label_follow: bool,
    pub label: String,
}

pub open spec fn mv_slot_value(w: WireMvSlot) -> Result<MvSlotView, Seq<char>> {
    match enum_value(w.kind, MvSlotKind::Empty, "multiview slot kind"@) {
        Err(m) => Err(m),
        Ok(kind) => Ok(MvSlotView { kind, source_id: w.source_id, label_follow: w.label_follow, label: w.label@ }),
    }
}

pub fn mv_slot_from_wire(w: &WireMvSlot) -> (r: Result<MvSlot, String>)
    ensures
        gives(r, mv_slot_value(*w)),
{
    let kind = match enum_from_wire(&w.kind, MvSlotKind::Empty, "multiview slot kind") {
        Ok(v) => v,
        Err(e) => return Err(e),
    };
    Ok(MvSlot { kind, source_id: w.source_id, label_follow: w.label_follow, label: w.label.clone() })
}

pub open spec fn mv_slot_fn() -> spec_fn(WireMvSlot) -> Result<MvSlotView, Seq<char>> {
    |w: WireMvSlot| mv_slot_value(w)
}

/// A multiview layout as stored.
#[derive(Debug, Clone)]
pub struct WireMultiview {
    pub id: u64,
    pub name: String,
    pub preview_unit_id: u64,
    pub program_unit_id: u64,
    pub present_interval: u32,
    pub tiles: Vec<WireMvSlot>,
    pub template: WireEnum<MultiviewTemplate>,
    pub preview_label_follow: bool,
    pub preview_label: String,
    pub program_label_follow: bool,
    pub program_label: String,
    pub label_anchor: Option<WireEnum<MvLabelAnchor>>,
    /// Bit pattern of an `f32`.
    pub label_size: Option<u32>,
    pub label_unit: Option<WireEnum<MvLabelUnit>>,
    pub always_on_top: bool,
}

/// An optional stored enum: absent stays absent.
pub open spec fn opt_enum_value<T>(w: Option<WireEnum<T>>, default: T, kind: Seq<char>) -> Result<Option<T>, Seq<char>> {
    match w {
        None => Ok(None),
        Some(v) => match enum_value(v, default, kind) {
            Err(m) => Err(m),
            Ok(x) => Ok(Some(x)),
        },
    }
}

fn opt_enum_from_wire<T: Copy>(w: &Option<WireEnum<T>>, default: T, kind: &str) -> (r: Result<Option<T>, String>)
    ensures
        match opt_enum_value(*w, default, kind@) {
            Ok(v) => r matches Ok(x) && x == v,
            Err(m) => r matches Err(x) && x@ == m,
        },
{
    match w {
        None => Ok(None),
        Some(v) => match enum_from_wire(v, default, kind) {
            Err(e) => Err(e),
            Ok(x) => Ok(Some(x)),
        },
    }
}

/// What a stored multiview reads back as: its tiles first, then the
/// template, the label anchor and the label unit decide the error.
pub open spec fn multiview_value(w: WireMultiview) -> Result<MultiviewDtoView, Seq<char>> {
    match all_values(w.tiles@, mv_slot_fn()) {
        Err(m) => Err(m),
        Ok(tiles) => match enum_value(w.template, MultiviewTemplate::PreviewProgram8, "multiview template"@) {
            Err(m) => Err(m),
            Ok(template) => match opt_enum_value(w.label_anchor, MvLabelAnchor::Bottom, "multiview label anchor"@) {
                Err(m) => Err(m),
                Ok(label_anchor) => match opt_enum_value(w.label_unit, MvLabelUnit::Px, "multiview label unit"@) {
                    Err(m) => Err(m),
                    Ok(label_unit) => Ok(
                        MultiviewDtoView {
                            id: w.id,
                            name: w.name@,
                            preview_unit_id: w.preview_unit_id,
                            program_unit_id: w.program_unit_id,
                            present_interval: w.present_interval,
                            tiles,
                            template,
                            preview_label_follow: w.preview_label_follow,
                            preview_label: w.preview_label@,
                            program_label_follow: w.program_label_follow,
                            program_label: w.program_label@,
                            label_anchor,
                            label_size: w.label_size,
                            label_unit,
                            always_on_top: w.always_on_top,
                        },
                    ),
                },
            },
        },
    }
}

pub fn mv_slots_from_wire(w: &Vec<WireMvSlot>) -> (r: Result<Vec<MvSlot>, String>)
    ensures
        match all_values(w@, mv_slot_fn()) {
            Ok(s) => r matches Ok(v) && v@.map_values(|t: MvSlot| t@) == s,
            Err(m) => r matches Err(x) && x@ == m,
        },
{
    let mut out: Vec<MvSlot> = Vec::new();
    let mut i: usize = 0;
    assert(w@.take(0) =~= Seq::<WireMvSlot>::empty());
    assert(out@.map_values(|t: MvSlot| t@) =~= Seq::<MvSlotView>::empty());
    while i < w.len()
        invariant
            i <= w.len(),
            all_values(w@.take(i as int), mv_slot_fn()) == Ok::<Seq<MvSlotView>, Seq<char>>(
                out@.map_values(|t: MvSlot| t@),
            ),
        decreases w.len() - i,
    {
        proof {
            lemma_all_values_step(w@, mv_slot_fn(), i as int);
        }
        match mv_slot_from_wire(&w[i]) {
            Err(e) => {
                proof {
                    lemma_all_values_err(w@, mv_slot_fn(), i + 1);
                }
                return Err(e);
            },
            Ok(x) => {
                let ghost before = out@;
                out.push(x);
                assert(out@.map_values(|t: MvSlot| t@) =~= before.map_values(|t: MvSlot| t@).push(x@));
            },
        }
        i = i + 1;
    }
    assert(w@.take(i as int) =~= w@);
    Ok(out)
}

pub fn multiview_from_wire(w: &WireMultiview) -> (r: Result<MultiviewDto, String>)
    ensures
        gives(r, multiview_value(*w)),
{
    let tiles = match mv_slots_from_wire(&w.tiles) {
        Ok(v) => v,
        Err(e) => return Err(e),
    };
    let template = match enum_from_wire(&w.template, MultiviewTemplate::PreviewProgram8, "multiview template") {
        Ok(v) => v,
        Err(e) => return Err(e),
    };
    let label_anchor = match opt_enum_from_wire(&w.label_anchor, MvLabelAnchor::Bottom, "multiview label anchor") {
        Ok(v) => v,
        Err(e) => return Err(e),
    };
    let label_unit = match opt_enum_from_wire(&w.label_unit, MvLabelUnit::Px, "multiview label unit") {
        Ok(v) => v,
        Err(e) => return Err(e),
    };
    Ok(
        MultiviewDto {
            id: w.id,
            name: w.name.clone(),
            preview_unit_id: w.preview_unit_id,
            program_unit_id: w.program_unit_id,
            present_interval: w.present_interval,
            tiles,
            template,
            preview_label_follow: w.preview_label_follow,
            preview_label: w.preview_label.clone(),
            program_label_follow: w.program_label_follow,
            program_label: w.program_label.clone(),
            label_anchor,
            label_size: w.label_size,
            label_unit,
            always_on_top: w.always_on_top,
        },
    )
}

/// An audio bus as stored.
#[derive(Debug, Clone)]
pub struct WireBus {
    pub id: u64,
    pub name: String,
    pub role: WireEnum<AudioBusRole>,
    pub device_kind: WireEnum<AudioDeviceKind>,
    pub device_id: String,
    pub map_left: i32,
    pub map_right: i32,
    pub bit: u32,
    /// Bit pattern of an `f32`.
    pub gain: u32,
    pub mute: bool,
}

/// What a stored bus reads back as: a zero right channel is channel 1;
/// the role is checked before the device kind.
pub open spec fn bus_value(w: WireBus) -> Result<BusDtoView, Seq<char>> {
    match enum_value(w.role, AudioBusRole::Master, "audio bus role"@) {
        Err(m) => Err(m),
        Ok(role) => match enum_value(w.device_kind, AudioDeviceKind::NoDevice, "audio device kind"@) {
            Err(m) => Err(m),
            Ok(device_kind) => Ok(
                BusDtoView {
                    id: w.id,
                    name: w.name@,
                    role,
                    device_kind,
                    device_id: w.device_id@,
                    map_left: w.map_left,
                    map_right: if w.map_right == 0 {
                        1
                    } else {
                        w.map_right
                    },
                    bit: w.bit,
                    gain: w.gain,
                    mute: w.mute,
                },
            ),
        },
    }
}

pub fn bus_from_wire(w: &WireBus) -> (r: Result<BusDto, String>)
    ensures
        gives(r, bus_value(*w)),
{
    let role = match enum_from_wire(&w.role, AudioBusRole::Master, "audio bus role") {
        Ok(v) => v,
        Err(e) => return Err(e),
    };
    let device_kind = match enum_from_wire(&w.device_kind, AudioDeviceKind::NoDevice, "audio device kind") {
        Ok(v) => v,
        Err(e) => return Err(e),
    };
    Ok(
        BusDto {
            id: w.id,
            name: w.name.clone(),
            role,
            device_kind,
            device_id: w.device_id.clone(),
            map_left: w.map_left,
            map_right: if w.map_right == 0 {
                1
            } else {
                w.map_right
            },
            bit: w.bit,
            gain: w.gain,
            mute: w.mute,
        },
    )
}

pub open spec fn input_fn() -> spec_fn(WireInput) -> Result<InputDtoView, Seq<char>> {
    |w: WireInput| input_value(w)
}

pub fn inputs_from_wire(w: &Vec<WireInput>) -> (r: Result<Vec<InputDto>, String>)
    ensures
        match all_values(w@, input_fn()) {
            Ok(s) => r matches Ok(v) && v@.map_values(|t: InputDto| t@) == s,
            Err(m) => r matches Err(x) && x@ == m,
        },
{
    let mut out: Vec<InputDto> = Vec::new();
    let mut i: usize = 0;
    assert(w@.take(0) =~= Seq::<WireInput>::empty());
    assert(out@.map_values(|t: InputDto| t@) =~= Seq::<InputDtoView>::empty());
    while i < w.len()
        invariant
            i <= w.len(),
            all_values(w@.take(i as int), input_fn()) == Ok::<Seq<InputDtoView>, Seq<char>>(
                out@.map_values(|t: InputDto| t@),
            ),
        decreases w.len() - i,
    {
        proof {
            lemma_all_values_step(w@, input_fn(), i as int);
        }
        match input_from_wire(&w[i]) {
            Err(e) => {
                proof {
                    lemma_all_values_err(w@, input_fn(), i + 1);
                }
                return Err(e);
            },
            Ok(x) => {
                let ghost before = out@;
                out.push(x);
                assert(out@.map_values(|t: InputDto| t@) =~= before.map_values(|t: InputDto| t@).push(x@));
            },
        }
        i = i + 1;
    }
    assert(w@.take(i as int) =~= w@);
    Ok(out)
}

pub open spec fn unit_fn() -> spec_fn(WireUnit) -> Result<UnitDtoView, Seq<char>> {
    |w: WireUnit| unit_value(w)
}

pub fn units_from_wire(w: &Vec<WireUnit>) -> (r: Result<Vec<UnitDto>, String>)
    ensures
        match all_values(w@, unit_fn()) {
            Ok(s) => r matches Ok(v) && v@.map_values(|t: UnitDto| t@) == s,
            Err(m) => r matches Err(x) && x@ == m,
        },
{
    let mut out: Vec<UnitDto> = Vec::new();
    let mut i: usize = 0;
    assert(w@.take(0) =~= Seq::<WireUnit>::empty());
    assert(out@.map_values(|t: UnitDto| t@) =~= Seq::<UnitDtoView>::empty());
    while i < w.len()
        invariant
            i <= w.len(),
            all_values(w@.take(i as int), unit_fn()) == Ok::<Seq<UnitDtoView>, Seq<char>>(
                out@.map_values(|t: UnitDto| t@),
            ),
        decreases w.len() - i,
    {
        proof {
            lemma_all_values_step(w@, unit_fn(), i as int);
        }
        match unit_from_wire(&w[i]) {
            Err(e) => {
                proof {
                    lemma_all_values_err(w@, unit_fn(), i + 1);
                }
                return Err(e);
            },
            Ok(x) => {
                let ghost before = out@;
                out.push(x);
                assert(out@.map_values(|t: UnitDto| t@) =~= before.map_values(|t: UnitDto| t@).push(x@));
            },
        }
        i = i + 1;
    }
    assert(w@.take(i as int) =~= w@);
    Ok(out)
}

pub open spec fn output_fn() -> spec_fn(WireOutput) -> Result<OutputDtoView, Seq<char>> {
    |w: WireOutput| output_value(w)
}

pub fn outputs_from_wire(w: &Vec<WireOutput>) -> (r: Result<Vec<OutputDto>, String>)
    ensures
        match all_values(w@, output_fn()) {
            Ok(s) => r matches Ok(v) && v@.map_values(|t: OutputDto| t@) == s,
            Err(m) => r matches Err(x) && x@ == m,
        },
{
    let mut out: Vec<OutputDto> = Vec::new();
    let mut i: usize = 0;
    assert(w@.take(0) =~= Seq::<WireOutput>::empty());
    assert(out@.map_values(|t: OutputDto| t@) =~= Seq::<OutputDtoView>::empty());
    while i < w.len()
        invariant
            i <= w.len(),
            all_values(w@.take(i as int), output_fn()) == Ok::<Seq<OutputDtoView>, Seq<char>>(
                out@.map_values(|t: OutputDto| t@),
            ),
        decreases w.len() - i,
    {
        proof {
            lemma_all_values_step(w@, output_fn(), i as int);
        }
        match output_from_wire(&w[i]) {
            Err(e) => {
                proof {
                    lemma_all_values_err(w@, output_fn(), i + 1);
                }
                return Err(e);
            },
            Ok(x) => {
                let ghost before = out@;
                out.push(x);
                assert(out@.map_values(|t: OutputDto| t@) =~= before.map_values(|t: OutputDto| t@).push(x@));
            },
        }
        i = i + 1;
    }
    assert(w@.take(i as int) =~= w@);
    Ok(out)
}

pub open spec fn multiview_fn() -> spec_fn(WireMultiview) -> Result<MultiviewDtoView, Seq<char>> {
    |w: WireMultiview| multiview_value(w)
}

pub fn multiviews_from_wire(w: &Vec<WireMultiview>) -> (r: Result<Vec<MultiviewDto>, String>)
    ensures
        match all_values(w@, multiview_fn()) {
            Ok(s) => r matches Ok(v) && v@.map_values(|t: MultiviewDto| t@) == s,
            Err(m) => r matches Err(x) && x@ == m,
        },
{
    let mut out: Vec<MultiviewDto> = Vec::new();
    let mut i: usize = 0;
    assert(w@.take(0) =~= Seq::<WireMultiview>::empty());
    assert(out@.map_values(|t: MultiviewDto| t@) =~= Seq::<MultiviewDtoView>::empty());
    while i < w.len()
        invariant
            i <= w.len(),
            all_values(w@.take(i as int), multiview_fn()) == Ok::<Seq<MultiviewDtoView>, Seq<char>>(
                out@.map_values(|t: MultiviewDto| t@),
            ),
        decreases w.len() - i,
    {
        proof {
            lemma_all_values_step(w@, multiview_fn(), i as int);
        }
        match multiview_from_wire(&w[i]) {
            Err(e) => {
                proof {
                    lemma_all_values_err(w@, multiview_fn(), i + 1);
                }
                return Err(e);
            },
            Ok(x) => {
                let ghost before = out@;
                out.push(x);
                assert(out@.map_values(|t: MultiviewDto| t@) =~= before.map_values(|t: MultiviewDto| t@).push(x@));
            },
        }
        i = i + 1;
    }
    assert(w@.take(i as int) =~= w@);
    Ok(out)
}

pub open spec fn bus_fn() -> spec_fn(WireBus) -> Result<BusDtoView, Seq<char>> {
    |w: WireBus| bus_value(w)
}

pub fn buses_from_wire(w: &Vec<WireBus>) -> (r: Result<Vec<BusDto>, String>)
    ensures
        match all_values(w@, bus_fn()) {
            Ok(s) => r matches Ok(v) && v@.map_values(|t: BusDto| t@) == s,
            Err(m) => r matches Err(x) && x@ == m,
        },
{
    let mut out: Vec<BusDto> = Vec::new();
    let mut i: usize = 0;
    assert(w@.take(0) =~= Seq::<WireBus>::empty());
    assert(out@.map_values(|t: BusDto| t@) =~= Seq::<BusDtoView>::empty());
    while i < w.len()
        invariant
            i <= w.len(),
            all_values(w@.take(i as int), bus_fn()) == Ok::<Seq<BusDtoView>, Seq<char>>(
                out@.map_values(|t: BusDto| t@),
            ),
        decreases w.len() - i,
    {
        proof {
            lemma_all_values_step(w@, bus_fn(), i as int);
        }
        match bus_from_wire(&w[i]) {
            Err(e) => {
                proof {
                    lemma_all_values_err(w@, bus_fn(), i + 1);
                }
                return Err(e);
            },
            Ok(x) => {
                let ghost before = out@;
                out.push(x);
                assert(out@.map_values(|t: BusDto| t@) =~= before.map_values(|t: BusDto| t@).push(x@));
            },
        }
        i = i + 1;
    }
    assert(w@.take(i as int) =~= w@);
    Ok(out)
}

pub fn scenes_from_wire(w: &Vec<SceneDto>) -> (r: Vec<SceneDto>)
    ensures
        r@.map_values(|t: SceneDto| t@) == w@.map_values(|t: SceneDto| scene_value(t)),
{
    let mut r: Vec<SceneDto> = Vec::new();
    let mut i: usize = 0;
    while i < w.len()
        invariant
            i <= w.len(),
            r@.len() == i,
            forall|j: int| 0 <= j < i ==> #[trigger] r@[j]@ == scene_value(w@[j]),
        decreases w.len() - i,
    {
        r.push(scene_from_wire(&w[i]));
        i = i + 1;
    }
    assert(r@.map_values(|t: SceneDto| t@) =~= w@.map_values(|t: SceneDto| scene_value(t)));
    r
}

pub fn presets_from_wire(w: &Vec<SceneLayoutPreset>) -> (r: Vec<SceneLayoutPreset>)
    ensures
        r@.map_values(|t: SceneLayoutPreset| t@) == w@.map_values(|t: SceneLayoutPreset| preset_value(t)),
{
    let mut r: Vec<SceneLayoutPreset> = Vec::new();
    let mut i: usize = 0;
    while i < w.len()
        invariant
            i <= w.len(),
            r@.len() == i,
            forall|j: int| 0 <= j < i ==> #[trigger] r@[j]@ == preset_value(w@[j]),
        decreases w.len() - i,
    {
        r.push(preset_from_wire(&w[i]));
        i = i + 1;
    }
    assert(r@.map_values(|t: SceneLayoutPreset| t@) =~= w@.map_values(|t: SceneLayoutPreset| preset_value(t)));
    r
}

/// The session document as stored.
#[derive(Debug, Clone)]
pub struct WireDocument {
    pub version: i32,
    pub scene_presets: Vec<SceneLayoutPreset>,
    pub input_tags: Vec<String>,
    pub scene_tags: Vec<String>,
    pub settings: Option<WireSettings>,
    pub inputs: Vec<WireInput>,
    pub scenes: Vec<SceneDto>,
    pub units: Vec<WireUnit>,
    pub outputs: Vec<WireOutput>,
    pub multiviews: Vec<WireMultiview>,
    pub buses: Vec<WireBus>,
    pub next_input_id: u64,
    pub next_scene_id: u64,
    pub next_unit_id: u64,
    pub next_output_id: u64,
    pub next_multiview_id: u64,
    pub next_bus_id: u64,
    pub selected_unit_id: u64,
    pub headphone_copy_master: bool,
}

/// Absent settings read back as the defaults.
pub open spec fn opt_settings_value(w: Option<WireSettings>) -> Result<SessionSettingsView, Seq<char>> {
    match w {
        None => Ok(SessionSettings::spec_default()),
        Some(s) => settings_value(s),
    }
}

/// What a stored document reads back as. The settings, then the inputs,
/// Mixing Units, outputs, multiviews and buses, each list in order, decide
/// the error; presets, tags and scenes cannot be refused.
pub open spec fn document_value(w: WireDocument) -> Result<DocumentView, Seq<char>> {
    match opt_settings_value(w.settings) {
        Err(m) => Err(m),
        Ok(settings) => match all_values(w.inputs@, input_fn()) {
            Err(m) => Err(m),
            Ok(inputs) => match all_values(w.units@, unit_fn()) {
                Err(m) => Err(m),
                Ok(units) => match all_values(w.outputs@, output_fn()) {
                    Err(m) => Err(m),
                    Ok(outputs) => match all_values(w.multiviews@, multiview_fn()) {
                        Err(m) => Err(m),
                        Ok(multiviews) => match all_values(w.buses@, bus_fn()) {
                            Err(m) => Err(m),
                            Ok(buses) => Ok(
                                DocumentView {
                                    version: w.version,
                                    scene_presets: w.scene_presets@.map_values(|t: SceneLayoutPreset| preset_value(t)),
                                    input_tags: texts_of(w.input_tags@),
                                    scene_tags: texts_of(w.scene_tags@),
                                    settings,
                                    inputs,
                                    scenes: w.scenes@.map_values(|t: SceneDto| scene_value(t)),
                                    units,
                                    outputs,
                                    multiviews,
                                    buses,
                                    next_input_id: w.next_input_id,
                                    next_scene_id: w.next_scene_id,
                                    next_unit_id: w.next_unit_id,
                                    next_output_id: w.next_output_id,
                                    next_multiview_id: w.next_multiview_id,
                                    next_bus_id: w.next_bus_id,
                                    selected_unit_id: w.selected_unit_id,
                                    headphone_copy_master: w.headphone_copy_master,
                                },
                            ),
                        },
                    },
                },
            },
        },
    }
}

pub fn stored_document(w: &WireDocument) -> (r: Result<Document, String>)
    ensures
        gives(r, document_value(*w)),
{
    let settings = match &w.settings {
        None => SessionSettings::default(),
        Some(s) => match settings_from_wire(s) {
            Ok(v) => v,
            Err(e) => return Err(e),
        },
    };
    let inputs = match inputs_from_wire(&w.inputs) {
        Ok(v) => v,
        Err(e) => return Err(e),
    };
    let units = match units_from_wire(&w.units) {
        Ok(v) => v,
        Err(e) => return Err(e),
    };
    let outputs = match outputs_from_wire(&w.outputs) {
        Ok(v) => v,
        Err(e) => return Err(e),
    };
    let multiviews = match multiviews_from_wire(&w.multiviews) {
        Ok(v) => v,
        Err(e) => return Err(e),
    };
    let buses = match buses_from_wire(&w.buses) {
        Ok(v) => v,
        Err(e) => return Err(e),
    };
    Ok(
        Document {
            version: w.version,
            scene_presets: presets_from_wire(&w.scene_presets),
            input_tags: copy_texts(&w.input_tags),
            scene_tags: copy_texts(&w.scene_tags),
            settings,
            inputs,
            scenes: scenes_from_wire(&w.scenes),
            units,
            outputs,
            multiviews,
            buses,
            next_input_id: w.next_input_id,
            next_scene_id: w.next_scene_id,
            next_unit_id: w.next_unit_id,
            next_output_id: w.next_output_id,
            next_multiview_id: w.next_multiview_id,
            next_bus_id: w.next_bus_id,
            selected_unit_id: w.selected_unit_id,
            headphone_copy_master: w.headphone_copy_master,
        },
    )
}

/// A session file's payload as stored: the format version, the document
/// (which may be missing), the embedded media and the save history.
#[derive(Debug, Clone)]
pub struct WireSessionFile {
    pub format_version: u32,
    pub document: Option<WireDocument>,
    pub assets: Vec<EmbeddedAsset>,
    pub history: Vec<HistoryEntry>,
}

/// What a session file reads back as: a format version this build does
/// not write is refused first, then a missing document, then whatever the
/// document itself refuses.
pub open spec fn file_document(f: WireSessionFile) -> Result<DocumentView, Seq<char>> {
    match format_version_issue(f.format_version) {
        Some(m) => Err(m),
        None => match f.document {
            None => Err("eivz file is missing a document"@),
            Some(d) => document_value(d),
        },
    }
}

pub fn document_from_wire(f: WireSessionFile) -> (r: Result<Document, String>)
    ensures
        gives(r, file_document(f)),
{
    match check_format_version(f.format_version) {
        Ok(()) => {},
        Err(e) => return Err(e),
    }
    match &f.document {
        None => {
            let m = owned("eivz file is missing a document");
            Err(m)
        },
        Some(d) => stored_document(d),
    }
}

proof fn lemma_all_values_ok<A, B>(s: Seq<A>, f: spec_fn(A) -> Result<B, Seq<char>>, v: Seq<B>)
    requires
        s.len() == v.len(),
        forall|j: int| 0 <= j < s.len() ==> #[trigger] f(s[j]) == Ok::<B, Seq<char>>(v[j]),
    ensures
        all_values(s, f) == Ok::<Seq<B>, Seq<char>>(v),
    decreases s.len(),
{
    if s.len() > 0 {
        let k = s.len() - 1;
        assert(f(s[k]) == Ok::<B, Seq<char>>(v[k]));
        assert forall|j: int| 0 <= j < s.drop_last().len() implies #[trigger] f(s.drop_last()[j])
            == Ok::<B, Seq<char>>(v.drop_last()[j]) by {
            assert(f(s[j]) == Ok::<B, Seq<char>>(v[j]));
        }
        lemma_all_values_ok(s.drop_last(), f, v.drop_last());
        assert(v.drop_last().push(v[k]) =~= v);
    } else {
        assert(v =~= Seq::<B>::empty());
    }
}

// ---- Writing ----

/// What the settings read back as once written: zero numbers, the label
/// size and the ports take their defaults, the renderer is `Auto` and the
/// last session path is dropped.
pub open spec fn settings_normal(v: SessionSettingsView) -> SessionSettingsView {
    let d = SessionSettings::spec_default();
    SessionSettingsView {
        master_fps_num: or_default(v.master_fps_num as u64, d.master_fps_num as u64) as u32,
        master_fps_den: or_default(v.master_fps_den as u64, d.master_fps_den as u64) as u32,
        default_width: or_default(v.default_width as u64, d.default_width as u64) as u32,
        default_height: or_default(v.default_height as u64, d.default_height as u64) as u32,
        frame_buffer_frames: or_default(v.frame_buffer_frames as u64, d.frame_buffer_frames as u64) as u32,
        default_present_interval: or_default(v.default_present_interval as u64, d.default_present_interval as u64) as u32,
        multiview_label_size: nonzero_or(v.multiview_label_size, d.multiview_label_size),
        vmix_api_port: or_default(v.vmix_api_port as u64, d.vmix_api_port as u64) as u32,
        native_api_port: or_default(v.native_api_port as u64, d.native_api_port as u64) as u32,
        renderer: Renderer::Auto,
        last_session_path: None,
        ..v
    }
}

pub fn settings_to_wire(s: &SessionSettings) -> (r: WireSettings)
    ensures
        settings_value(r) == Ok::<SessionSettingsView, Seq<char>>(settings_normal(s@)),
        r.internal_color_format == WireEnum::Known(s.internal_color_format),
        r.multiview_label_unit == WireEnum::Known(s.multiview_label_unit),
        r.multiview_label_anchor == WireEnum::Known(s.multiview_label_anchor),
{
    proof {
        if s.theme@.len() == 0 {
            assert(s.theme@ =~= Seq::<char>::empty());
        }
    }
    WireSettings {
        master_fps_num: s.master_fps_num,
        master_fps_den: s.master_fps_den,
        default_width: s.default_width,
        default_height: s.default_height,
        theme: s.theme.clone(),
        default_multiview_unit_id: s.default_multiview_unit_id,
        frame_buffer_frames: s.frame_buffer_frames,
        default_present_interval: s.default_present_interval,
        flip_swapchain_limit: s.flip_swapchain_limit,
        internal_color_format: WireEnum::Known(s.internal_color_format),
        rebar_optimization: s.rebar_optimization,
        rebar_direct_sample: s.rebar_direct_sample,
        ndi_gpu_upload: s.ndi_gpu_upload,
        preview_color: Some(rgb_to_wire(s.preview_color)),
        program_color: Some(rgb_to_wire(s.program_color)),
        inactive_color: Some(rgb_to_wire(s.inactive_color)),
        multiview_label_size: s.multiview_label_size,
        multiview_label_unit: WireEnum::Known(s.multiview_label_unit),
        multiview_label_anchor: WireEnum::Known(s.multiview_label_anchor),
        vmix_api_enabled: s.vmix_api_enabled,
        vmix_api_port: s.vmix_api_port,
        vmix_api_user: s.vmix_api_user.clone(),
        vmix_api_password: s.vmix_api_password.clone(),
        vmix_tcp_enabled: s.vmix_tcp_enabled,
        native_api_enabled: s.native_api_enabled,
        native_api_port: s.native_api_port,
    }
}

/// What an input reads back as once written: a zero tone level is -20 dBFS.
pub open spec fn input_normal(v: InputDtoView) -> InputDtoView {
    InputDtoView { tone_level_dbfs: nonzero_or(v.tone_level_dbfs, 0xc1a0_0000), ..v }
}

pub fn input_to_wire(i: &InputDto) -> (r: WireInput)
    ensures
        input_value(r) == Ok::<InputDtoView, Seq<char>>(input_normal(i@)),
        r.kind == WireEnum::Known(i.kind),
{
    WireInput {
        id: i.id,
        guid: i.guid.clone(),
        name: i.name.clone(),
        kind: WireEnum::Known(i.kind),
        path_or_address: copy_opt_text(&i.path_or_address),
        color_r: i.color_r,
        color_g: i.color_g,
        color_b: i.color_b,
        scroll: i.scroll,
        tone_hz: i.tone_hz,
        tone_level_dbfs: i.tone_level_dbfs,
        bus_mask: i.bus_mask,
        gain: i.gain,
        mute: i.mute,
        use_gpu: i.use_gpu,
        frame_buffer_frames: i.frame_buffer_frames,
        bandwidth_save: WireEnum::Known(i.bandwidth_save),
        keep_full_on_multiview: i.keep_full_on_multiview,
        omt_quality: WireEnum::Known(i.omt_quality),
        ndi_bandwidth: WireEnum::Known(i.ndi_bandwidth),
        video_loop: i.video_loop,
        video_play_when: WireEnum::Known(i.video_play_when),
        video_restart_when: WireEnum::Known(i.video_restart_when),
        video_pause_when: WireEnum::Known(i.video_pause_when),
        capture_width: i.capture_width,
        capture_height: i.capture_height,
        capture_fps_num: i.capture_fps_num,
        capture_fps_den: i.capture_fps_den,
        tags: copy_texts(&i.tags),
        mix_source: WireEnum::Known(i.mix_source),
        mix_target_id: i.mix_target_id,
        mix_audio_bus_id: i.mix_audio_bus_id,
        audio_capture_mode: WireEnum::Known(i.audio_capture_mode),
        audio_device_kind: WireEnum::Known(i.audio_device_kind),
        audio_device_id: i.audio_device_id.clone(),
        audio_map_left: i.audio_map_left,
        audio_map_right: i.audio_map_right,
        audio_process_exe: i.audio_process_exe.clone(),
        audio_process_aumid: i.audio_process_aumid.clone(),
    }
}

fn copy_layers(v: &Vec<SceneLayer>) -> (r: Vec<SceneLayer>)
    ensures
        r@ == v@,
{
    let mut r: Vec<SceneLayer> = Vec::new();
    let mut i: usize = 0;
    while i < v.len()
        invariant
            i <= v.len(),
            r@ == v@.take(i as int),
        decreases v.len() - i,
    {
        r.push(v[i]);
        i = i + 1;
        assert(r@ =~= v@.take(i as int));
    }
    assert(v@.take(i as int) =~= v@);
    r
}

fn copy_geoms(v: &Vec<SceneLayerGeom>) -> (r: Vec<SceneLayerGeom>)
    ensures
        r@ == v@,
{
    let mut r: Vec<SceneLayerGeom> = Vec::new();
    let mut i: usize = 0;
    while i < v.len()
        invariant
            i <= v.len(),
            r@ == v@.take(i as int),
        decreases v.len() - i,
    {
        r.push(v[i]);
        i = i + 1;
        assert(r@ =~= v@.take(i as int));
    }
    assert(v@.take(i as int) =~= v@);
    r
}

fn copy_scene(s: &SceneDto) -> (r: SceneDto)
    ensures
        r@ == s@,
        r.layers@ == s.layers@,
{
    SceneDto {
        id: s.id,
        guid: s.guid.clone(),
        name: s.name.clone(),
        layers: copy_layers(&s.layers),
        tags: copy_texts(&s.tags),
        preview_collapsed: s.preview_collapsed,
    }
}

fn copy_preset(p: &SceneLayoutPreset) -> (r: SceneLayoutPreset)
    ensures
        r@ == p@,
        r.layers@ == p.layers@,
{
    SceneLayoutPreset { name: p.name.clone(), layers: copy_geoms(&p.layers) }
}

fn copy_transition(t: &TransitionPreset) -> (r: TransitionPreset)
    ensures
        r@ == t@,
        r.dip_a == t.dip_a,
        r.softness == t.softness,
{
    TransitionPreset {
        kind: t.kind,
        duration_value: t.duration_value,
        duration_unit: t.duration_unit,
        swap: t.swap,
        keep_preview: t.keep_preview,
        easing: t.easing,
        direction: t.direction,
        dip_r: t.dip_r,
        dip_g: t.dip_g,
        dip_b: t.dip_b,
        dip_a: t.dip_a,
        softness: t.softness,
        param: t.param,
        custom_wgsl: t.custom_wgsl.clone(),
        label: t.label.clone(),
    }
}

/// What a Mixing Unit reads back as once written: its transitions with
/// their defaults.
pub open spec fn unit_normal(u: UnitDto) -> UnitDtoView {
    UnitDtoView { transitions: u.transitions@.map_values(|t: TransitionPreset| transition_value(t)), ..u@ }
}

pub fn unit_to_wire(u: &UnitDto) -> (r: WireUnit)
    ensures
        unit_value(r) == Ok::<UnitDtoView, Seq<char>>(unit_normal(*u)),
{
    let mut transitions: Vec<TransitionPreset> = Vec::new();
    let mut i: usize = 0;
    while i < u.transitions.len()
        invariant
            i <= u.transitions.len(),
            transitions@.len() == i,
            forall|j: int| 0 <= j < i ==> #[trigger] transition_value(transitions@[j]) == transition_value(u.transitions@[j]),
        decreases u.transitions.len() - i,
    {
        transitions.push(copy_transition(&u.transitions[i]));
        i = i + 1;
    }
    let r = WireUnit {
        id: u.id,
        name: u.name.clone(),
        width: u.width,
        height: u.height,
        fps_num: u.fps_num,
        fps_den: u.fps_den,
        transitions,
        overlays: copy_overlays(&u.overlays),
        audio_bus_id: u.audio_bus_id,
        audio_link: WireEnum::Known(u.audio_link),
        switcher_scene_filter: WireEnum::Known(u.switcher_scene_filter),
        switcher_scene_ids: copy_ids(&u.switcher_scene_ids),
        always_on_top: u.always_on_top,
        preview_scene_id: u.preview_scene_id,
        program_scene_id: u.program_scene_id,
    };
    assert(r.transitions@.map_values(|t: TransitionPreset| transition_value(t)) =~= u.transitions@.map_values(
        |t: TransitionPreset| transition_value(t),
    ));
    r
}

pub fn output_to_wire(o: &OutputDto) -> (r: WireOutput)
    ensures
        output_value(r) == Ok::<OutputDtoView, Seq<char>>(o@),
{
    WireOutput {
        id: o.id,
        name: o.name.clone(),
        transport: WireEnum::Known(o.transport),
        source_kind: WireEnum::Known(o.source_kind),
        source_id: o.source_id,
        unit_id: o.unit_id,
        use_gpu: o.use_gpu,
        enabled: o.enabled,
        audio_bus_id: o.audio_bus_id,
        skip_encode_when_no_receivers: o.skip_encode_when_no_receivers,
    }
}

pub fn multiview_to_wire(m: &MultiviewDto) -> (r: WireMultiview)
    ensures
        multiview_value(r) == Ok::<MultiviewDtoView, Seq<char>>(m@),
{
    let mut tiles: Vec<WireMvSlot> = Vec::new();
    let mut i: usize = 0;
    while i < m.tiles.len()
        invariant
            i <= m.tiles.len(),
            tiles@.len() == i,
            forall|j: int| 0 <= j < i ==> #[trigger] mv_slot_value(tiles@[j]) == Ok::<MvSlotView, Seq<char>>(m.tiles@[j]@),
        decreases m.tiles.len() - i,
    {
        let t = &m.tiles[i];
        tiles.push(
            WireMvSlot {
                kind: WireEnum::Known(t.kind),
                source_id: t.source_id,
                label_follow: t.label_follow,
                label: t.label.clone(),
            },
        );
        i = i + 1;
    }
    let label_anchor = match m.label_anchor {
        Some(a) => Some(WireEnum::Known(a)),
        None => None,
    };
    let label_unit = match m.label_unit {
        Some(a) => Some(WireEnum::Known(a)),
        None => None,
    };
    let r = WireMultiview {
        id: m.id,
        name: m.name.clone(),
        preview_unit_id: m.preview_unit_id,
        program_unit_id: m.program_unit_id,
        present_interval: m.present_interval,
        tiles,
        template: WireEnum::Known(m.template),
        preview_label_follow: m.preview_label_follow,
        preview_label: m.preview_label.clone(),
        program_label_follow: m.program_label_follow,
        program_label: m.program_label.clone(),
        label_anchor,
        label_size: m.label_size,
        label_unit,
        always_on_top: m.always_on_top,
    };
    proof {
        let v = m.tiles@.map_values(|t: MvSlot| t@);
        assert forall|j: int| 0 <= j < r.tiles@.len() implies #[trigger] mv_slot_fn()(r.tiles@[j])
            == Ok::<MvSlotView, Seq<char>>(v[j]) by {
            assert(mv_slot_value(r.tiles@[j]) == Ok::<MvSlotView, Seq<char>>(m.tiles@[j]@));
        }
        lemma_all_values_ok(r.tiles@, mv_slot_fn(), v);
    }
    r
}

/// What a bus reads back as once written: a zero right channel is channel 1.
pub open spec fn bus_normal(v: BusDtoView) -> BusDtoView {
    BusDtoView {
        map_right: if v.map_right == 0 {
            1
        } else {
            v.map_right
        },
        ..v
    }
}

pub fn bus_to_wire(b: &BusDto) -> (r: WireBus)
    ensures
        bus_value(r) == Ok::<BusDtoView, Seq<char>>(bus_normal(b@)),
{
    WireBus {
        id: b.id,
        name: b.name.clone(),
        role: WireEnum::Known(b.role),
        device_kind: WireEnum::Known(b.device_kind),
        device_id: b.device_id.clone(),
        map_left: b.map_left,
        map_right: b.map_right,
        bit: b.bit,
        gain: b.gain,
        mute: b.mute,
    }
}

/// What a document reads back as once written: each part as its own
/// writing gives it back.
pub open spec fn document_normal(d: Document) -> DocumentView {
    DocumentView {
        scene_presets: d.scene_presets@.map_values(|t: SceneLayoutPreset| preset_value(t)),
        settings: settings_normal(d.settings@),
        inputs: d.inputs@.map_values(|t: InputDto| input_normal(t@)),
        scenes: d.scenes@.map_values(|t: SceneDto| scene_value(t)),
        units: d.units@.map_values(|t: UnitDto| unit_normal(t)),
        buses: d.buses@.map_values(|t: BusDto| bus_normal(t@)),
        ..d@
    }
}

/// The session file a document is written as: the current format
/// version, the document, and no media or history (those are the
/// caller's to add).
pub fn document_to_wire(d: &Document) -> (r: WireSessionFile)
    ensures
        r.format_version == FORMAT_VERSION,
        r.assets@.len() == 0,
        r.history@.len() == 0,
        file_document(r) == Ok::<DocumentView, Seq<char>>(document_normal(*d)),
{
    let mut inputs: Vec<WireInput> = Vec::new();
    let mut i: usize = 0;
    while i < d.inputs.len()
        invariant
            i <= d.inputs.len(),
            inputs@.len() == i,
            forall|j: int| 0 <= j < i ==> #[trigger] input_value(inputs@[j]) == Ok::<InputDtoView, Seq<char>>(input_normal(d.inputs@[j]@)),
        decreases d.inputs.len() - i,
    {
        inputs.push(input_to_wire(&d.inputs[i]));
        i = i + 1;
    }
    let mut units: Vec<WireUnit> = Vec::new();
    let mut i: usize = 0;
    while i < d.units.len()
        invariant
            i <= d.units.len(),
            units@.len() == i,
            forall|j: int| 0 <= j < i ==> #[trigger] unit_value(units@[j]) == Ok::<UnitDtoView, Seq<char>>(unit_normal(d.units@[j])),
        decreases d.units.len() - i,
    {
        units.push(unit_to_wire(&d.units[i]));
        i = i + 1;
    }
    let mut outputs: Vec<WireOutput> = Vec::new();
    let mut i: usize = 0;
    while i < d.outputs.len()
        invariant
            i <= d.outputs.len(),
            outputs@.len() == i,
            forall|j: int| 0 <= j < i ==> #[trigger] output_value(outputs@[j]) == Ok::<OutputDtoView, Seq<char>>(d.outputs@[j]@),
        decreases d.outputs.len() - i,
    {
        outputs.push(output_to_wire(&d.outputs[i]));
        i = i + 1;
    }
    let mut multiviews: Vec<WireMultiview> = Vec::new();
    let mut i: usize = 0;
    while i < d.multiviews.len()
        invariant
            i <= d.multiviews.len(),
            multiviews@.len() == i,
            forall|j: int| 0 <= j < i ==> #[trigger] multiview_value(multiviews@[j]) == Ok::<MultiviewDtoView, Seq<char>>(d.multiviews@[j]@),
        decreases d.multiviews.len() - i,
    {
        multiviews.push(multiview_to_wire(&d.multiviews[i]));
        i = i + 1;
    }
    let mut buses: Vec<WireBus> = Vec::new();
    let mut i: usize = 0;
    while i < d.buses.len()
        invariant
            i <= d.buses.len(),
            buses@.len() == i,
            forall|j: int| 0 <= j < i ==> #[trigger] bus_value(buses@[j]) == Ok::<BusDtoView, Seq<char>>(bus_normal(d.buses@[j]@)),
        decreases d.buses.len() - i,
    {
        buses.push(bus_to_wire(&d.buses[i]));
        i = i + 1;
    }
    let mut scene_presets: Vec<SceneLayoutPreset> = Vec::new();
    let mut i: usize = 0;
    while i < d.scene_presets.len()
        invariant
            i <= d.scene_presets.len(),
            scene_presets@.len() == i,
            forall|j: int| 0 <= j < i ==> #[trigger] preset_value(scene_presets@[j]) == preset_value(d.scene_presets@[j]),
        decreases d.scene_presets.len() - i,
    {
        scene_presets.push(copy_preset(&d.scene_presets[i]));
        i = i + 1;
    }
    let mut scenes: Vec<SceneDto> = Vec::new();
    let mut i: usize = 0;
    while i < d.scenes.len()
        invariant
            i <= d.scenes.len(),
            scenes@.len() == i,
            forall|j: int| 0 <= j < i ==> #[trigger] scene_value(scenes@[j]) == scene_value(d.scenes@[j]),
        decreases d.scenes.len() - i,
    {
        scenes.push(copy_scene(&d.scenes[i]));
        i = i + 1;
    }
    proof {
        let v = d.inputs@.map_values(|t: InputDto| input_normal(t@));
        assert forall|j: int| 0 <= j < inputs@.len() implies #[trigger] input_fn()(inputs@[j]) == Ok::<InputDtoView, Seq<char>>(v[j]) by {
            assert(input_value(inputs@[j]) == Ok::<InputDtoView, Seq<char>>(input_normal(d.inputs@[j]@)));
        }
        lemma_all_values_ok(inputs@, input_fn(), v);
        let v = d.units@.map_values(|t: UnitDto| unit_normal(t));
        assert forall|j: int| 0 <= j < units@.len() implies #[trigger] unit_fn()(units@[j]) == Ok::<UnitDtoView, Seq<char>>(v[j]) by {
            assert(unit_value(units@[j]) == Ok::<UnitDtoView, Seq<char>>(unit_normal(d.units@[j])));
        }
        lemma_all_values_ok(units@, unit_fn(), v);
        let v = d.outputs@.map_values(|t: OutputDto| t@);
        assert forall|j: int| 0 <= j < outputs@.len() implies #[trigger] output_fn()(outputs@[j]) == Ok::<OutputDtoView, Seq<char>>(v[j]) by {
            assert(output_value(outputs@[j]) == Ok::<OutputDtoView, Seq<char>>(d.outputs@[j]@));
        }
        lemma_all_values_ok(outputs@, output_fn(), v);
        let v = d.multiviews@.map_values(|t: MultiviewDto| t@);
        assert forall|j: int| 0 <= j < multiviews@.len() implies #[trigger] multiview_fn()(multiviews@[j]) == Ok::<MultiviewDtoView, Seq<char>>(v[j]) by {
            assert(multiview_value(multiviews@[j]) == Ok::<MultiviewDtoView, Seq<char>>(d.multiviews@[j]@));
        }
        lemma_all_values_ok(multiviews@, multiview_fn(), v);
        let v = d.buses@.map_values(|t: BusDto| bus_normal(t@));
        assert forall|j: int| 0 <= j < buses@.len() implies #[trigger] bus_fn()(buses@[j]) == Ok::<BusDtoView, Seq<char>>(v[j]) by {
            assert(bus_value(buses@[j]) == Ok::<BusDtoView, Seq<char>>(bus_normal(d.buses@[j]@)));
        }
        lemma_all_values_ok(buses@, bus_fn(), v);
        assert(scene_presets@.map_values(|t: SceneLayoutPreset| preset_value(t)) =~= d.scene_presets@.map_values(
            |t: SceneLayoutPreset| preset_value(t),
        ));
        assert(scenes@.map_values(|t: SceneDto| scene_value(t)) =~= d.scenes@.map_values(|t: SceneDto| scene_value(t)));
    }
    let document = WireDocument {
        version: d.version,
        scene_presets,
        input_tags: copy_texts(&d.input_tags),
        scene_tags: copy_texts(&d.scene_tags),
        settings: Some(settings_to_wire(&d.settings)),
        inputs,
        scenes,
        units,
        outputs,
        multiviews,
        buses,
        next_input_id: d.next_input_id,
        next_scene_id: d.next_scene_id,
        next_unit_id: d.next_unit_id,
        next_output_id: d.next_output_id,
        next_multiview_id: d.next_multiview_id,
        next_bus_id: d.next_bus_id,
        selected_unit_id: d.selected_unit_id,
        headphone_copy_master: d.headphone_copy_master,
    };
    let r = WireSessionFile {
        format_version: FORMAT_VERSION,
        document: Some(document),
        assets: Vec::new(),
        history: Vec::new(),
    };
    assert(file_document(r) == document_value(document));
    r
}

proof fn lemma_all_values_each<A, B>(s: Seq<A>, f: spec_fn(A) -> Result<B, Seq<char>>, v: Seq<B>)
    requires
        all_values(s, f) == Ok::<Seq<B>, Seq<char>>(v),
    ensures
        v.len() == s.len(),
        forall|j: int| 0 <= j < s.len() ==> #[trigger] f(s[j]) == Ok::<B, Seq<char>>(v[j]),
    decreases s.len(),
{
    if s.len() > 0 {
        match all_values(s.drop_last(), f) {
            Ok(v0) => {
                lemma_all_values_each(s.drop_last(), f, v0);
                assert forall|j: int| 0 <= j < s.len() implies #[trigger] f(s[j]) == Ok::<B, Seq<char>>(v[j]) by {
                    if j < s.len() - 1 {
                        assert(s.drop_last()[j] == s[j]);
                        assert(f(s.drop_last()[j]) == Ok::<B, Seq<char>>(v0[j]));
                    }
                }
            },
            Err(_) => {},
        }
    }
}

proof fn lemma_settings_read_is_normal(w: Option<WireSettings>, v: SessionSettingsView)
    requires
        opt_settings_value(w) == Ok::<SessionSettingsView, Seq<char>>(v),
    ensures
        settings_normal(v) == v,
{
}

proof fn lemma_inputs_read_are_normal(w: Seq<WireInput>, d: Seq<InputDto>)
    requires
        all_values(w, input_fn()) == Ok::<Seq<InputDtoView>, Seq<char>>(d.map_values(|t: InputDto| t@)),
    ensures
        d.map_values(|t: InputDto| input_normal(t@)) == d.map_values(|t: InputDto| t@),
{
    let v = d.map_values(|t: InputDto| t@);
    lemma_all_values_each(w, input_fn(), v);
    assert forall|j: int| 0 <= j < d.len() implies input_normal(#[trigger] d[j]@) == d[j]@ by {
        assert(input_fn()(w[j]) == Ok::<InputDtoView, Seq<char>>(v[j]));
    }
    assert(d.map_values(|t: InputDto| input_normal(t@)) =~= d.map_values(|t: InputDto| t@));
}

proof fn lemma_units_read_are_normal(w: Seq<WireUnit>, d: Seq<UnitDto>)
    requires
        all_values(w, unit_fn()) == Ok::<Seq<UnitDtoView>, Seq<char>>(d.map_values(|t: UnitDto| t@)),
    ensures
        d.map_values(|t: UnitDto| unit_normal(t)) == d.map_values(|t: UnitDto| t@),
{
    let v = d.map_values(|t: UnitDto| t@);
    lemma_all_values_each(w, unit_fn(), v);
    assert forall|j: int| 0 <= j < d.len() implies unit_normal(#[trigger] d[j]) == d[j]@ by {
        assert(unit_fn()(w[j]) == Ok::<UnitDtoView, Seq<char>>(v[j]));
        let u = d[j];
        let wt = w[j].transitions@;
        assert(u@.transitions == wt.map_values(|t: TransitionPreset| transition_value(t)));
        assert forall|k: int| 0 <= k < u.transitions@.len() implies transition_value(#[trigger] u.transitions@[k])
            == u.transitions@[k]@ by {
            assert(u@.transitions[k] == u.transitions@[k]@);
            assert(u@.transitions[k] == transition_value(wt[k]));
        }
        assert(u.transitions@.map_values(|t: TransitionPreset| transition_value(t)) =~= u.transitions@.map_values(
            |t: TransitionPreset| t@,
        ));
    }
    assert(d.map_values(|t: UnitDto| unit_normal(t)) =~= d.map_values(|t: UnitDto| t@));
}

proof fn lemma_buses_read_are_normal(w: Seq<WireBus>, d: Seq<BusDto>)
    requires
        all_values(w, bus_fn()) == Ok::<Seq<BusDtoView>, Seq<char>>(d.map_values(|t: BusDto| t@)),
    ensures
        d.map_values(|t: BusDto| bus_normal(t@)) == d.map_values(|t: BusDto| t@),
{
    let v = d.map_values(|t: BusDto| t@);
    lemma_all_values_each(w, bus_fn(), v);
    assert forall|j: int| 0 <= j < d.len() implies bus_normal(#[trigger] d[j]@) == d[j]@ by {
        assert(bus_fn()(w[j]) == Ok::<BusDtoView, Seq<char>>(v[j]));
    }
    assert(d.map_values(|t: BusDto| bus_normal(t@)) =~= d.map_values(|t: BusDto| t@));
}

proof fn lemma_scenes_read_are_normal(w: Seq<SceneDto>, d: Seq<SceneDto>)
    requires
        w.map_values(|t: SceneDto| scene_value(t)) == d.map_values(|t: SceneDto| t@),
    ensures
        d.map_values(|t: SceneDto| scene_value(t)) == d.map_values(|t: SceneDto| t@),
{
    assert(w.map_values(|t: SceneDto| scene_value(t)).len() == w.len());
    assert(d.map_values(|t: SceneDto| t@).len() == d.len());
    assert(w.map_values(|t: SceneDto| scene_value(t)).len() == d.map_values(|t: SceneDto| t@).len());
    assert forall|j: int| 0 <= j < d.len() implies scene_value(#[trigger] d[j]) == d[j]@ by {
        assert(w.map_values(|t: SceneDto| scene_value(t))[j] == d.map_values(|t: SceneDto| t@)[j]);
        let s = d[j];
        assert(w.len() == d.len());
        assert(w.map_values(|t: SceneDto| scene_value(t))[j] == scene_value(w[j]));
        assert(d.map_values(|t: SceneDto| t@)[j] == s@);
        assert(scene_value(w[j]) == s@);
        assert(s@.layers == s.layers@);
        assert(s.layers@ == w[j].layers@.map_values(|l: SceneLayer| layer_value(l)));
        assert(s.layers@.map_values(|l: SceneLayer| layer_value(l)) =~= s.layers@);
    }
    assert(d.map_values(|t: SceneDto| scene_value(t)) =~= d.map_values(|t: SceneDto| t@));
}

proof fn lemma_presets_read_are_normal(w: Seq<SceneLayoutPreset>, d: Seq<SceneLayoutPreset>)
    requires
        w.map_values(|t: SceneLayoutPreset| preset_value(t)) == d.map_values(|t: SceneLayoutPreset| t@),
    ensures
        d.map_values(|t: SceneLayoutPreset| preset_value(t)) == d.map_values(|t: SceneLayoutPreset| t@),
{
    assert(w.map_values(|t: SceneLayoutPreset| preset_value(t)).len() == w.len());
    assert(d.map_values(|t: SceneLayoutPreset| t@).len() == d.len());
    assert forall|j: int| 0 <= j < d.len() implies preset_value(#[trigger] d[j]) == d[j]@ by {
        assert(w.map_values(|t: SceneLayoutPreset| preset_value(t))[j] == d.map_values(|t: SceneLayoutPreset| t@)[j]);
        let p = d[j];
        assert(w.map_values(|t: SceneLayoutPreset| preset_value(t))[j] == preset_value(w[j]));
        assert(d.map_values(|t: SceneLayoutPreset| t@)[j] == p@);
        assert(preset_value(w[j]) == p@);
        assert(p@.layers == p.layers@);
        assert(p.layers@ == w[j].layers@.map_values(|l: SceneLayerGeom| geom_value(l)));
        assert(p.layers@.map_values(|l: SceneLayerGeom| geom_value(l)) =~= p.layers@);
    }
    assert(d.map_values(|t: SceneLayoutPreset| preset_value(t)) =~= d.map_values(|t: SceneLayoutPreset| t@));
}

/// A document read from a session file is one that writing keeps: written
/// again (`document_to_wire`), it reads back as itself, so a session
/// loads the same however often it is saved.
pub proof fn lemma_read_document_rewrites_unchanged(f: WireSessionFile, d: Document)
    requires
        file_document(f) == Ok::<DocumentView, Seq<char>>(d@),
    ensures
        document_normal(d) == d@,
{
    let w = f.document->Some_0;
    assert(document_value(w) == Ok::<DocumentView, Seq<char>>(d@));
    lemma_settings_read_is_normal(w.settings, d.settings@);
    lemma_inputs_read_are_normal(w.inputs@, d.inputs@);
    lemma_units_read_are_normal(w.units@, d.units@);
    lemma_buses_read_are_normal(w.buses@, d.buses@);
    lemma_scenes_read_are_normal(w.scenes@, d.scenes@);
    lemma_presets_read_are_normal(w.scene_presets@, d.scene_presets@);
}

} // verus!
