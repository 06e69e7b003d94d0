//! The canonical session document and its parts.
//!
//! Fields that the session format stores as `f32` are held here as the
//! IEEE-754 bit pattern of that `f32` (`f32::to_bits`); the control logic only
//! copies and compares them.

use vstd::prelude::*;

verus! {

/// Kind of an input source.
#[derive(Debug, Clone, Copy, PartialEq, Eq, Structural)]
pub enum InputKind {
    Color,
    Bars,
    Black,
    Still,
    Video,
    OMT,
    NDI,
    UVC,
    Mix,
    Audio,
}

impl Default for InputKind {
    fn default() -> (r: Self)
        ensures
            r == InputKind::Color,
    {
        InputKind::Color
    }
}

/// Pixel format the mixer composites in.
#[derive(Debug, Clone, Copy, PartialEq, Eq, Structural)]
pub enum InternalColorFormat {
    Uyvy,
    Bgra,
}

impl Default for InternalColorFormat {
    fn default() -> (r: Self)
        ensures
            r == InternalColorFormat::Uyvy,
    {
        InternalColorFormat::Uyvy
    }
}

/// Unit of a multiview label size.
#[derive(Debug, Clone, Copy, PartialEq, Eq, Structural)]
pub enum MvLabelUnit {
    Px,
    Percent,
}

impl Default for MvLabelUnit {
    fn default() -> (r: Self)
        ensures
            r == MvLabelUnit::Px,
    {
        MvLabelUnit::Px
    }
}

/// Edge a multiview label sits on.
#[derive(Debug, Clone, Copy, PartialEq, Eq, Structural)]
pub enum MvLabelAnchor {
    Top,
    Bottom,
}

impl Default for MvLabelAnchor {
    fn default() -> (r: Self)
        ensures
            r == MvLabelAnchor::Bottom,
    {
        MvLabelAnchor::Bottom
    }
}

/// Bus of another Mixing Unit (or a multiview) that a Mix input takes.
#[derive(Debug, Clone, Copy, PartialEq, Eq, Structural)]
pub enum MixSource {
    MuPreview,
    MuProgram,
    SessionMultiview,
}

impl Default for MixSource {
    fn default() -> (r: Self)
        ensures
            r == MixSource::MuProgram,
    {
        MixSource::MuProgram
    }
}

/// When a network input may drop to its low-bandwidth stream.
#[derive(Debug, Clone, Copy, PartialEq, Eq, Structural)]
pub enum BandwidthSave {
    AlwaysLow,
    NotOnProgram,
    NotOnPreviewOrProgram,
    AlwaysFull,
}

impl Default for BandwidthSave {
    fn default() -> (r: Self)
        ensures
            r == BandwidthSave::NotOnPreviewOrProgram,
    {
        BandwidthSave::NotOnPreviewOrProgram
    }
}

/// OMT receive quality.
#[derive(Debug, Clone, Copy, PartialEq, Eq, Structural)]
pub enum OmtQuality {
    Default,
    Low,
    Medium,
    High,
}

impl Default for OmtQuality {
    fn default() -> (r: Self)
        ensures
            r == OmtQuality::Default,
    {
        OmtQuality::Default
    }
}

/// NDI receive bandwidth.
#[derive(Debug, Clone, Copy, PartialEq, Eq, Structural)]
pub enum NdiBandwidth {
    Highest,
    Lowest,
}

impl Default for NdiBandwidth {
    fn default() -> (r: Self)
        ensures
            r == NdiBandwidth::Highest,
    {
        NdiBandwidth::Highest
    }
}

/// When a video input starts playing.
#[derive(Debug, Clone, Copy, PartialEq, Eq, Structural)]
pub enum VideoPlayWhen {
    Never,
    OnActive,
    OnPreview,
    Always,
}

impl Default for VideoPlayWhen {
    fn default() -> (r: Self)
        ensures
            r == VideoPlayWhen::Never,
    {
        VideoPlayWhen::Never
    }
}

/// When a video input restarts or pauses.
#[derive(Debug, Clone, Copy, PartialEq, Eq, Structural)]
pub enum VideoTriggerWhen {
    Never,
    OnActive,
    OnDeactivated,
    OnPreview,
}

impl Default for VideoTriggerWhen {
    fn default() -> (r: Self)
        ensures
            r == VideoTriggerWhen::Never,
    {
        VideoTriggerWhen::Never
    }
}

/// Transport of an output.
#[derive(Debug, Clone, Copy, PartialEq, Eq, Structural)]
pub enum OutputTransport {
    Omt,
    Ndi,
    DeckLink,
}

impl Default for OutputTransport {
    fn default() -> (r: Self)
        ensures
            r == OutputTransport::Omt,
    {
        OutputTransport::Omt
    }
}

/// What an output publishes.
#[derive(Debug, Clone, Copy, PartialEq, Eq, Structural)]
pub enum OutputSourceKind {
    Scene,
    MuPreview,
    MuProgram,
    Multiview,
    Input,
}

impl Default for OutputSourceKind {
    fn default() -> (r: Self)
        ensures
            r == OutputSourceKind::MuProgram,
    {
        OutputSourceKind::MuProgram
    }
}

/// What a multiview tile shows.
#[derive(Debug, Clone, Copy, PartialEq, Eq, Structural)]
pub enum MvSlotKind {
    Empty,
    Input,
    Scene,
    MuPreview,
    MuProgram,
}

impl Default for MvSlotKind {
    fn default() -> (r: Self)
        ensures
            r == MvSlotKind::Empty,
    {
        MvSlotKind::Empty
    }
}

/// Pane arrangement of a multiview.
#[derive(Debug, Clone, Copy, PartialEq, Eq, Structural)]
pub enum MultiviewTemplate {
    PreviewProgram8,
    PreviewProgram8Bottom,
    PreviewProgram8Left,
    PreviewProgram8Right,
    PreviewProgram2,
    Quad4TopLeft,
    Quad4TopRight,
    Quad4BottomLeft,
    Quad4BottomRight,
    Large5TopLeft,
    Large5TopRight,
    Large5BottomLeft,
    Large5BottomRight,
    Grid2x2,
    Grid3x3,
    Grid4x4,
}

impl Default for MultiviewTemplate {
    fn default() -> (r: Self)
        ensures
            r == MultiviewTemplate::PreviewProgram8,
    {
        MultiviewTemplate::PreviewProgram8
    }
}

/// Role of an audio bus.
#[derive(Debug, Clone, Copy, PartialEq, Eq, Structural)]
pub enum AudioBusRole {
    Master,
    Headphone,
    Aux,
}

impl Default for AudioBusRole {
    fn default() -> (r: Self)
        ensures
            r == AudioBusRole::Master,
    {
        AudioBusRole::Master
    }
}

/// Audio device API.
#[derive(Debug, Clone, Copy, PartialEq, Eq, Structural)]
pub enum AudioDeviceKind {
    NoDevice,
    Wasapi,
    Asio,
    CoreAudio,
}

impl Default for AudioDeviceKind {
    fn default() -> (r: Self)
        ensures
            r == AudioDeviceKind::NoDevice,
    {
        AudioDeviceKind::NoDevice
    }
}

/// How an audio input captures.
#[derive(Debug, Clone, Copy, PartialEq, Eq, Structural)]
pub enum AudioCaptureMode {
    Mic,
    EndpointLoopback,
    ProcessLoopback,
}

impl Default for AudioCaptureMode {
    fn default() -> (r: Self)
        ensures
            r == AudioCaptureMode::Mic,
    {
        AudioCaptureMode::Mic
    }
}

/// Whether a unit's audio follows its video.
#[derive(Debug, Clone, Copy, PartialEq, Eq, Structural)]
pub enum AudioLinkMode {
    Follow,
    Independent,
}

impl Default for AudioLinkMode {
    fn default() -> (r: Self)
        ensures
            r == AudioLinkMode::Follow,
    {
        AudioLinkMode::Follow
    }
}

/// Which scenes a unit's switcher lists.
#[derive(Debug, Clone, Copy, PartialEq, Eq, Structural)]
pub enum SwitcherSceneFilter {
    All,
    Include,
    Exclude,
}

impl Default for SwitcherSceneFilter {
    fn default() -> (r: Self)
        ensures
            r == SwitcherSceneFilter::All,
    {
        SwitcherSceneFilter::All
    }
}

/// Graphics API the mixer renders with.
#[derive(Debug, Clone, Copy, PartialEq, Eq, Structural)]
pub enum Renderer {
    Auto,
    Dx12,
    Vulkan,
    Metal,
}

impl Default for Renderer {
    fn default() -> (r: Self)
        ensures
            r == Renderer::Auto,
    {
        Renderer::Auto
    }
}

/// An 8-bit RGB colour.
#[derive(Debug, Copy, PartialEq, Eq, Structural)]
pub struct RgbColor {
    pub r: u8,
    pub g: u8,
    pub b: u8,
}

impl Clone for RgbColor {
    fn clone(&self) -> (r: Self)
        ensures
            r == *self,
    {
        *self
    }
}

/// Session-wide settings.
#[derive(Debug)]
pub struct SessionSettings {
    pub master_fps_num: u32,
    pub master_fps_den: u32,
    pub default_width: u32,
    pub default_height: u32,
    pub theme: String,
    pub default_multiview_unit_id: u64,
    pub frame_buffer_frames: u32,
    pub default_present_interval: u32,
    pub flip_swapchain_limit: u32,
    pub internal_color_format: InternalColorFormat,
    pub rebar_optimization: bool,
    pub rebar_direct_sample: bool,
    pub ndi_gpu_upload: bool,
    pub preview_color: RgbColor,
    pub program_color: RgbColor,
    pub inactive_color: RgbColor,
    /// Bit pattern of an `f32`.
    pub multiview_label_size: u32,
    pub multiview_label_unit: MvLabelUnit,
    pub multiview_label_anchor: MvLabelAnchor,
    pub vmix_api_enabled: bool,
    pub vmix_api_port: u32,
    pub vmix_api_user: String,
    pub vmix_api_password: String,
    pub vmix_tcp_enabled: bool,
    pub native_api_enabled: bool,
    pub native_api_port: u32,
    pub renderer: Renderer,
    pub last_session_path: Option<String>,
}

/// Mathematical content of [`SessionSettings`].
pub struct SessionSettingsView {
    pub master_fps_num: u32,
    pub master_fps_den: u32,
    pub default_width: u32,
    pub default_height: u32,
    pub theme: Seq<char>,
    pub default_multiview_unit_id: u64,
    pub frame_buffer_frames: u32,
    pub default_present_interval: u32,
    pub flip_swapchain_limit: u32,
    pub internal_color_format: InternalColorFormat,
    pub rebar_optimization: bool,
    pub rebar_direct_sample: bool,
    pub ndi_gpu_upload: bool,
    pub preview_color: RgbColor,
    pub program_color: RgbColor,
    pub inactive_color: RgbColor,
    pub multiview_label_size: u32,
    pub multiview_label_unit: MvLabelUnit,
    pub multiview_label_anchor: MvLabelAnchor,
    pub vmix_api_enabled: bool,
    pub vmix_api_port: u32,
    pub vmix_api_user: Seq<char>,
    pub vmix_api_password: Seq<char>,
    pub vmix_tcp_enabled: bool,
    pub native_api_enabled: bool,
    pub native_api_port: u32,
    pub renderer: Renderer,
    pub last_session_path: Option<Seq<char>>,
}

impl View for SessionSettings {
    type V = SessionSettingsView;

    open spec fn view(&self) -> SessionSettingsView {
        SessionSettingsView {
            master_fps_num: self.master_fps_num,
            master_fps_den: self.master_fps_den,
            default_width: self.default_width,
            default_height: self.default_height,
            theme: self.theme@,
            default_multiview_unit_id: self.default_multiview_unit_id,
            frame_buffer_frames: self.frame_buffer_frames,
            default_present_interval: self.default_present_interval,
            flip_swapchain_limit: self.flip_swapchain_limit,
            internal_color_format: self.internal_color_format,
            rebar_optimization: self.rebar_optimization,
            rebar_direct_sample: self.rebar_direct_sample,
            ndi_gpu_upload: self.ndi_gpu_upload,
            preview_color: self.preview_color,
            program_color: self.program_color,
            inactive_color: self.inactive_color,
            multiview_label_size: self.multiview_label_size,
            multiview_label_unit: self.multiview_label_unit,
            multiview_label_anchor: self.multiview_label_anchor,
            vmix_api_enabled: self.vmix_api_enabled,
            vmix_api_port: self.vmix_api_port,
            vmix_api_user: self.vmix_api_user@,
            vmix_api_password: self.vmix_api_password@,
            vmix_tcp_enabled: self.vmix_tcp_enabled,
            native_api_enabled: self.native_api_enabled,
            native_api_port: self.native_api_port,
            renderer: self.renderer,
            last_session_path: match &self.last_session_path { Some(t) => Some(t@), None => None },
        }
    }
}

impl Clone for SessionSettings {
    fn clone(&self) -> (r: Self)
        ensures
            r@ == self@,
    {
        let r = SessionSettings {
            master_fps_num: self.master_fps_num,
            master_fps_den: self.master_fps_den,
            default_width: self.default_width,
            default_height: self.default_height,
            theme: self.theme.clone(),
            default_multiview_unit_id: self.default_multiview_unit_id,
            frame_buffer_frames: self.frame_buffer_frames,
            default_present_interval: self.default_present_interval,
            flip_swapchain_limit: self.flip_swapchain_limit,
            internal_color_format: self.internal_color_format,
            rebar_optimization: self.rebar_optimization,
            rebar_direct_sample: self.rebar_direct_sample,
            ndi_gpu_upload: self.ndi_gpu_upload,
            preview_color: self.preview_color,
            program_color: self.program_color,
            inactive_color: self.inactive_color,
            multiview_label_size: self.multiview_label_size,
            multiview_label_unit: self.multiview_label_unit,
            multiview_label_anchor: self.multiview_label_anchor,
            vmix_api_enabled: self.vmix_api_enabled,
            vmix_api_port: self.vmix_api_port,
            vmix_api_user: self.vmix_api_user.clone(),
            vmix_api_password: self.vmix_api_password.clone(),
            vmix_tcp_enabled: self.vmix_tcp_enabled,
            native_api_enabled: self.native_api_enabled,
            native_api_port: self.native_api_port,
            renderer: self.renderer,
            last_session_path: self.last_session_path.clone(),
        };
        r
    }
}

/// One input source of the session.
#[derive(Debug)]
pub struct InputDto {
    pub id: u64,
    pub guid: String,
    pub name: String,
    pub kind: InputKind,
    pub path_or_address: Option<String>,
    /// Bit pattern of an `f32`.
    pub color_r: u32,
    /// Bit pattern of an `f32`.
    pub color_g: u32,
    /// Bit pattern of an `f32`.
    pub color_b: u32,
    pub scroll: bool,
    /// Bit pattern of an `f32`.
    pub tone_hz: u32,
    /// Bit pattern of an `f32`.
    pub tone_level_dbfs: u32,
    pub bus_mask: u32,
    /// Bit pattern of an `f32`.
    pub gain: u32,
    pub mute: bool,
    pub use_gpu: bool,
    pub frame_buffer_frames: u32,
    pub bandwidth_save: BandwidthSave,
    pub keep_full_on_multiview: bool,
    pub omt_quality: OmtQuality,
    pub ndi_bandwidth: NdiBandwidth,
    pub video_loop: bool,
    pub video_play_when: VideoPlayWhen,
    pub video_restart_when: VideoTriggerWhen,
    pub video_pause_when: VideoTriggerWhen,
    pub capture_width: u32,
    pub capture_height: u32,
    pub capture_fps_num: u32,
    pub capture_fps_den: u32,
    pub tags: Vec<String>,
    pub mix_source: MixSource,
    pub mix_target_id: u64,
    pub mix_audio_bus_id: u64,
    pub audio_capture_mode: AudioCaptureMode,
    pub audio_device_kind: AudioDeviceKind,
    pub audio_device_id: String,
    pub audio_map_left: i32,
    pub audio_map_right: i32,
    pub audio_process_exe: String,
    pub audio_process_aumid: String,
}

/// Mathematical content of [`InputDto`].
pub struct InputDtoView {
    pub id: u64,
    pub guid: Seq<char>,
    pub name: Seq<char>,
    pub kind: InputKind,
    pub path_or_address: Option<Seq<char>>,
    pub color_r: u32,
    pub color_g: u32,
    pub color_b: u32,
    pub scroll: bool,
    pub tone_hz: u32,
    pub tone_level_dbfs: u32,
    pub bus_mask: u32,
    pub gain: u32,
    pub mute: bool,
    pub use_gpu: bool,
    pub frame_buffer_frames: u32,
    pub bandwidth_save: BandwidthSave,
    pub keep_full_on_multiview: bool,
    pub omt_quality: OmtQuality,
    pub ndi_bandwidth: NdiBandwidth,
    pub video_loop: bool,
    pub video_play_when: VideoPlayWhen,
    pub video_restart_when: VideoTriggerWhen,
    pub video_pause_when: VideoTriggerWhen,
    pub capture_width: u32,
    pub capture_height: u32,
    pub capture_fps_num: u32,
    pub capture_fps_den: u32,
    pub tags: Seq<Seq<char>>,
    pub mix_source: MixSource,
    pub mix_target_id: u64,
    pub mix_audio_bus_id: u64,
    pub audio_capture_mode: AudioCaptureMode,
    pub audio_device_kind: AudioDeviceKind,
    pub audio_device_id: Seq<char>,
    pub audio_map_left: i32,
    pub audio_map_right: i32,
    pub audio_process_exe: Seq<char>,
    pub audio_process_aumid: Seq<char>,
}

impl View for InputDto {
    type V = InputDtoView;

    open spec fn view(&self) -> InputDtoView {
        InputDtoView {
            id: self.id,
            guid: self.guid@,
            name: self.name@,
            kind: self.kind,
            path_or_address: match &self.path_or_address { Some(t) => Some(t@), None => None },
            color_r: self.color_r,
            color_g: self.color_g,
            color_b: self.color_b,
            scroll: self.scroll,
            tone_hz: self.tone_hz,
            tone_level_dbfs: self.tone_level_dbfs,
            bus_mask: self.bus_mask,
            gain: self.gain,
            mute: self.mute,
            use_gpu: self.use_gpu,
            frame_buffer_frames: self.frame_buffer_frames,
            bandwidth_save: self.bandwidth_save,
            keep_full_on_multiview: self.keep_full_on_multiview,
            omt_quality: self.omt_quality,
            ndi_bandwidth: self.ndi_bandwidth,
            video_loop: self.video_loop,
            video_play_when: self.video_play_when,
            video_restart_when: self.video_restart_when,
            video_pause_when: self.video_pause_when,
            capture_width: self.capture_width,
            capture_height: self.capture_height,
            capture_fps_num: self.capture_fps_num,
            capture_fps_den: self.capture_fps_den,
            tags: self.tags@.map_values(|t: String| t@),
            mix_source: self.mix_source,
            mix_target_id: self.mix_target_id,
            mix_audio_bus_id: self.mix_audio_bus_id,
            audio_capture_mode: self.audio_capture_mode,
            audio_device_kind: self.audio_device_kind,
            audio_device_id: self.audio_device_id@,
            audio_map_left: self.audio_map_left,
            audio_map_right: self.audio_map_right,
            audio_process_exe: self.audio_process_exe@,
            audio_process_aumid: self.audio_process_aumid@,
        }
    }
}

impl Clone for InputDto {
    fn clone(&self) -> (r: Self)
        ensures
            r@ == self@,
    {
        let r = InputDto {
            id: self.id,
            guid: self.guid.clone(),
            name: self.name.clone(),
            kind: self.kind,
            path_or_address: self.path_or_address.clone(),
            color_r: self.color_r,
            color_g: self.color_g,
            color_b: self.color_b,
            scroll: self.scroll,
            tone_hz: self.tone_hz,
            tone_level_dbfs: self.tone_level_dbfs,
            bus_mask: self.bus_mask,
            gain: self.gain,
            mute: self.mute,
            use_gpu: self.use_gpu,
            frame_buffer_frames: self.frame_buffer_frames,
            bandwidth_save: self.bandwidth_save,
            keep_full_on_multiview: self.keep_full_on_multiview,
            omt_quality: self.omt_quality,
            ndi_bandwidth: self.ndi_bandwidth,
            video_loop: self.video_loop,
            video_play_when: self.video_play_when,
            video_restart_when: self.video_restart_when,
            video_pause_when: self.video_pause_when,
            capture_width: self.capture_width,
            capture_height: self.capture_height,
            capture_fps_num: self.capture_fps_num,
            capture_fps_den: self.capture_fps_den,
            tags: self.tags.clone(),
            mix_source: self.mix_source,
            mix_target_id: self.mix_target_id,
            mix_audio_bus_id: self.mix_audio_bus_id,
            audio_capture_mode: self.audio_capture_mode,
            audio_device_kind: self.audio_device_kind,
            audio_device_id: self.audio_device_id.clone(),
            audio_map_left: self.audio_map_left,
            audio_map_right: self.audio_map_right,
            audio_process_exe: self.audio_process_exe.clone(),
            audio_process_aumid: self.audio_process_aumid.clone(),
        };
        proof {
            assert forall|i: int| 0 <= i < self.tags@.len() implies r.tags@[i]@ == self.tags@[i]@ by { assert(vstd::pervasive::cloned(self.tags@[i], r.tags@[i])); }
            assert(r.tags@.map_values(|t: String| t@) =~= self.tags@.map_values(|t: String| t@));
        }
        r
    }
}

/// One placed input of a scene.
#[derive(Debug, Copy, PartialEq, Eq, Structural)]
pub struct SceneLayer {
    pub input_id: u64,
    /// Bit pattern of an `f32`.
    pub x: u32,
    /// Bit pattern of an `f32`.
    pub y: u32,
    /// Bit pattern of an `f32`.
    pub width: u32,
    /// Bit pattern of an `f32`.
    pub height: u32,
    /// Bit pattern of an `f32`.
    pub opacity: u32,
    pub z: i32,
    pub audio_follow: bool,
    pub locked: bool,
    pub size_linked: bool,
    /// Bit pattern of an `f32`.
    pub crop_x: u32,
    /// Bit pattern of an `f32`.
    pub crop_y: u32,
    /// Bit pattern of an `f32`.
    pub crop_width: u32,
    /// Bit pattern of an `f32`.
    pub crop_height: u32,
    pub hidden: bool,
}

impl Clone for SceneLayer {
    fn clone(&self) -> (r: Self)
        ensures
            r == *self,
    {
        *self
    }
}

/// A scene: an ordered list of layers.
#[derive(Debug)]
pub struct SceneDto {
    pub id: u64,
    pub guid: String,
    pub name: String,
    pub layers: Vec<SceneLayer>,
    pub tags: Vec<String>,
    pub preview_collapsed: bool,
}

/// Mathematical content of [`SceneDto`].
pub struct SceneDtoView {
    pub id: u64,
    pub guid: Seq<char>,
    pub name: Seq<char>,
    pub layers: Seq<SceneLayer>,
    pub tags: Seq<Seq<char>>,
    pub preview_collapsed: bool,
}

impl View for SceneDto {
    type V = SceneDtoView;

    open spec fn view(&self) -> SceneDtoView {
        SceneDtoView {
            id: self.id,
            guid: self.guid@,
            name: self.name@,
            layers: self.layers@,
            tags: self.tags@.map_values(|t: String| t@),
            preview_collapsed: self.preview_collapsed,
        }
    }
}

impl Clone for SceneDto {
    fn clone(&self) -> (r: Self)
        ensures
            r@ == self@,
    {
        let r = SceneDto {
            id: self.id,
            guid: self.guid.clone(),
            name: self.name.clone(),
            layers: self.layers.clone(),
            tags: self.tags.clone(),
            preview_collapsed: self.preview_collapsed,
        };
        proof {
            assert forall|i: int| 0 <= i < self.layers@.len() implies r.layers@[i] == self.layers@[i] by { assert(vstd::pervasive::cloned(self.layers@[i], r.layers@[i])); }
            assert(r.layers@ =~= self.layers@);
            assert forall|i: int| 0 <= i < self.tags@.len() implies r.tags@[i]@ == self.tags@[i]@ by { assert(vstd::pervasive::cloned(self.tags@[i], r.tags@[i])); }
            assert(r.tags@.map_values(|t: String| t@) =~= self.tags@.map_values(|t: String| t@));
        }
        r
    }
}

/// Geometry of one layer in a layout preset.
#[derive(Debug, Copy, PartialEq, Eq, Structural)]
pub struct SceneLayerGeom {
    /// Bit pattern of an `f32`.
    pub x: u32,
    /// Bit pattern of an `f32`.
    pub y: u32,
    /// Bit pattern of an `f32`.
    pub width: u32,
    /// Bit pattern of an `f32`.
    pub height: u32,
    /// Bit pattern of an `f32`.
    pub opacity: u32,
    pub z: i32,
    /// Bit pattern of an `f32`.
    pub crop_x: u32,
    /// Bit pattern of an `f32`.
    pub crop_y: u32,
    /// Bit pattern of an `f32`.
    pub crop_width: u32,
    /// Bit pattern of an `f32`.
    pub crop_height: u32,
}

impl Clone for SceneLayerGeom {
    fn clone(&self) -> (r: Self)
        ensures
            r == *self,
    {
        *self
    }
}

/// A named scene layout.
#[derive(Debug)]
pub struct SceneLayoutPreset {
    pub name: String,
    pub layers: Vec<SceneLayerGeom>,
}

/// Mathematical content of [`SceneLayoutPreset`].
pub struct SceneLayoutPresetView {
    pub name: Seq<char>,
    pub layers: Seq<SceneLayerGeom>,
}

impl View for SceneLayoutPreset {
    type V = SceneLayoutPresetView;

    open spec fn view(&self) -> SceneLayoutPresetView {
        SceneLayoutPresetView {
            name: self.name@,
            layers: self.layers@,
        }
    }
}

impl Clone for SceneLayoutPreset {
    fn clone(&self) -> (r: Self)
        ensures
            r@ == self@,
    {
        let r = SceneLayoutPreset {
            name: self.name.clone(),
            layers: self.layers.clone(),
        };
        proof {
            assert forall|i: int| 0 <= i < self.layers@.len() implies r.layers@[i] == self.layers@[i] by { assert(vstd::pervasive::cloned(self.layers@[i], r.layers@[i])); }
            assert(r.layers@ =~= self.layers@);
        }
        r
    }
}

/// A stored transition of a Mixing Unit.
#[derive(Debug)]
pub struct TransitionPreset {
    pub kind: u32,
    pub duration_value: u32,
    pub duration_unit: u32,
    pub swap: bool,
    pub keep_preview: bool,
    pub easing: u32,
    pub direction: u32,
    /// Bit pattern of an `f32`.
    pub dip_r: u32,
    /// Bit pattern of an `f32`.
    pub dip_g: u32,
    /// Bit pattern of an `f32`.
    pub dip_b: u32,
    /// Bit pattern of an `f32`.
    pub dip_a: u32,
    /// Bit pattern of an `f32`.
    pub softness: u32,
    /// Bit pattern of an `f32`.
    pub param: u32,
    pub custom_wgsl: String,
    pub label: String,
}

/// Mathematical content of [`TransitionPreset`].
pub struct TransitionPresetView {
    pub kind: u32,
    pub duration_value: u32,
    pub duration_unit: u32,
    pub swap: bool,
    pub keep_preview: bool,
    pub easing: u32,
    pub direction: u32,
    pub dip_r: u32,
    pub dip_g: u32,
    pub dip_b: u32,
    pub dip_a: u32,
    pub softness: u32,
    pub param: u32,
    pub custom_wgsl: Seq<char>,
    pub label: Seq<char>,
}

impl View for TransitionPreset {
    type V = TransitionPresetView;

    open spec fn view(&self) -> TransitionPresetView {
        TransitionPresetView {
            kind: self.kind,
            duration_value: self.duration_value,
            duration_unit: self.duration_unit,
            swap: self.swap,
            keep_preview: self.keep_preview,
            easing: self.easing,
            direction: self.direction,
            dip_r: self.dip_r,
            dip_g: self.dip_g,
            dip_b: self.dip_b,
            dip_a: self.dip_a,
            softness: self.softness,
            param: self.param,
            custom_wgsl: self.custom_wgsl@,
            label: self.label@,
        }
    }
}

impl Clone for TransitionPreset {
    fn clone(&self) -> (r: Self)
        ensures
            r@ == self@,
    {
        let r = TransitionPreset {
            kind: self.kind,
            duration_value: self.duration_value,
            duration_unit: self.duration_unit,
            swap: self.swap,
            keep_preview: self.keep_preview,
            easing: self.easing,
            direction: self.direction,
            dip_r: self.dip_r,
            dip_g: self.dip_g,
            dip_b: self.dip_b,
            dip_a: self.dip_a,
            softness: self.softness,
            param: self.param,
            custom_wgsl: self.custom_wgsl.clone(),
            label: self.label.clone(),
        };
        r
    }
}

/// An overlay (downstream key) slot of a Mixing Unit.
#[derive(Debug, Copy, PartialEq, Eq, Structural)]
pub struct OverlaySlot {
    pub scene_gpu_id: u64,
    /// Bit pattern of an `f32`.
    pub x: u32,
    /// Bit pattern of an `f32`.
    pub y: u32,
    /// Bit pattern of an `f32`.
    pub width: u32,
    /// Bit pattern of an `f32`.
    pub height: u32,
    /// Bit pattern of an `f32`.
    pub opacity: u32,
    pub z: i32,
    pub enabled: bool,
    pub transition_kind: u32,
    pub duration_value: u32,
    pub duration_unit: u32,
    pub audio_follow: bool,
    pub source_kind: u32,
    pub locked: bool,
    pub hidden: bool,
    pub size_linked: bool,
    /// Bit pattern of an `f32`.
    pub crop_x: u32,
    /// Bit pattern of an `f32`.
    pub crop_y: u32,
    /// Bit pattern of an `f32`.
    pub crop_width: u32,
    /// Bit pattern of an `f32`.
    pub crop_height: u32,
}

impl Clone for OverlaySlot {
    fn clone(&self) -> (r: Self)
        ensures
            r == *self,
    {
        *self
    }
}

/// A Mixing Unit: one Preview/Program pair.
#[derive(Debug)]
pub struct UnitDto {
    pub id: u64,
    pub name: String,
    pub width: u32,
    pub height: u32,
    pub fps_num: u32,
    pub fps_den: u32,
    pub transitions: Vec<TransitionPreset>,
    pub overlays: Vec<OverlaySlot>,
    pub audio_bus_id: u64,
    pub audio_link: AudioLinkMode,
    pub switcher_scene_filter: SwitcherSceneFilter,
    pub switcher_scene_ids: Vec<u64>,
    pub always_on_top: bool,
    pub preview_scene_id: u64,
    pub program_scene_id: u64,
}

/// Mathematical content of [`UnitDto`].
pub struct UnitDtoView {
    pub id: u64,
    pub name: Seq<char>,
    pub width: u32,
    pub height: u32,
    pub fps_num: u32,
    pub fps_den: u32,
    pub transitions: Seq<TransitionPresetView>,
    pub overlays: Seq<OverlaySlot>,
    pub audio_bus_id: u64,
    pub audio_link: AudioLinkMode,
    pub switcher_scene_filter: SwitcherSceneFilter,
    pub switcher_scene_ids: Seq<u64>,
    pub always_on_top: bool,
    pub preview_scene_id: u64,
    pub program_scene_id: u64,
}

impl View for UnitDto {
    type V = UnitDtoView;

    open spec fn view(&self) -> UnitDtoView {
        UnitDtoView {
            id: self.id,
            name: self.name@,
            width: self.width,
            height: self.height,
            fps_num: self.fps_num,
            fps_den: self.fps_den,
            transitions: self.transitions@.map_values(|t: TransitionPreset| t@),
            overlays: self.overlays@,
            audio_bus_id: self.audio_bus_id,
            audio_link: self.audio_link,
            switcher_scene_filter: self.switcher_scene_filter,
            switcher_scene_ids: self.switcher_scene_ids@,
            always_on_top: self.always_on_top,
            preview_scene_id: self.preview_scene_id,
            program_scene_id: self.program_scene_id,
        }
    }
}

impl Clone for UnitDto {
    fn clone(&self) -> (r: Self)
        ensures
            r@ == self@,
    {
        let r = UnitDto {
            id: self.id,
            name: self.name.clone(),
            width: self.width,
            height: self.height,
            fps_num: self.fps_num,
            fps_den: self.fps_den,
            transitions: self.transitions.clone(),
            overlays: self.overlays.clone(),
            audio_bus_id: self.audio_bus_id,
            audio_link: self.audio_link,
            switcher_scene_filter: self.switcher_scene_filter,
            switcher_scene_ids: self.switcher_scene_ids.clone(),
            always_on_top: self.always_on_top,
            preview_scene_id: self.preview_scene_id,
            program_scene_id: self.program_scene_id,
        };
        proof {
            assert forall|i: int| 0 <= i < self.transitions@.len() implies r.transitions@[i]@ == self.transitions@[i]@ by { assert(vstd::pervasive::cloned(self.transitions@[i], r.transitions@[i])); }
            assert(r.transitions@.map_values(|t: TransitionPreset| t@) =~= self.transitions@.map_values(|t: TransitionPreset| t@));
            assert forall|i: int| 0 <= i < self.overlays@.len() implies r.overlays@[i] == self.overlays@[i] by { assert(vstd::pervasive::cloned(self.overlays@[i], r.overlays@[i])); }
            assert(r.overlays@ =~= self.overlays@);
            assert(r.switcher_scene_ids@ =~= self.switcher_scene_ids@);
        }
        r
    }
}

/// A published video output.
#[derive(Debug)]
pub struct OutputDto {
    pub id: u64,
    pub name: String,
    pub transport: OutputTransport,
    pub source_kind: OutputSourceKind,
    pub source_id: u64,
    pub unit_id: u64,
    pub use_gpu: bool,
    pub enabled: bool,
    pub audio_bus_id: u64,
    pub skip_encode_when_no_receivers: bool,
}

/// Mathematical content of [`OutputDto`].
pub struct OutputDtoView {
    pub id: u64,
    pub name: Seq<char>,
    pub transport: OutputTransport,
    pub source_kind: OutputSourceKind,
    pub source_id: u64,
    pub unit_id: u64,
    pub use_gpu: bool,
    pub enabled: bool,
    pub audio_bus_id: u64,
    pub skip_encode_when_no_receivers: bool,
}

impl View for OutputDto {
    type V = OutputDtoView;

    open spec fn view(&self) -> OutputDtoView {
        OutputDtoView {
            id: self.id,
            name: self.name@,
            transport: self.transport,
            source_kind: self.source_kind,
            source_id: self.source_id,
            unit_id: self.unit_id,
            use_gpu: self.use_gpu,
            enabled: self.enabled,
            audio_bus_id: self.audio_bus_id,
            skip_encode_when_no_receivers: self.skip_encode_when_no_receivers,
        }
    }
}

impl Clone for OutputDto {
    fn clone(&self) -> (r: Self)
        ensures
            r@ == self@,
    {
        let r = OutputDto {
            id: self.id,
            name: self.name.clone(),
            transport: self.transport,
            source_kind: self.source_kind,
            source_id: self.source_id,
            unit_id: self.unit_id,
            use_gpu: self.use_gpu,
            enabled: self.enabled,
            audio_bus_id: self.audio_bus_id,
            skip_encode_when_no_receivers: self.skip_encode_when_no_receivers,
        };
        r
    }
}

/// One tile of a multiview layout.
#[derive(Debug)]
pub struct MvSlot {
    pub kind: MvSlotKind,
    pub source_id: u64,
    pub label_follow: bool,
    pub label: String,
}

/// Mathematical content of [`MvSlot`].
pub struct MvSlotView {
    pub kind: MvSlotKind,
    pub source_id: u64,
    pub label_follow: bool,
    pub label: Seq<char>,
}

impl View for MvSlot {
    type V = MvSlotView;

    open spec fn view(&self) -> MvSlotView {
        MvSlotView {
            kind: self.kind,
            source_id: self.source_id,
            label_follow: self.label_follow,
            label: self.label@,
        }
    }
}

impl Clone for MvSlot {
    fn clone(&self) -> (r: Self)
        ensures
            r@ == self@,
    {
        let r = MvSlot {
            kind: self.kind,
            source_id: self.source_id,
            label_follow: self.label_follow,
            label: self.label.clone(),
        };
        r
    }
}

/// A multiview layout.
#[derive(Debug)]
pub struct MultiviewDto {
    pub id: u64,
    pub name: String,
    pub preview_unit_id: u64,
    pub program_unit_id: u64,
    pub present_interval: u32,
    pub tiles: Vec<MvSlot>,
    pub template: MultiviewTemplate,
    pub preview_label_follow: bool,
    pub preview_label: String,
    pub program_label_follow: bool,
    pub program_label: String,
    pub label_anchor: Option<MvLabelAnchor>,
    /// Bit pattern of an `f32`.
    pub label_size: Option<u32>,
    pub label_unit: Option<MvLabelUnit>,
    pub always_on_top: bool,
}

/// Mathematical content of [`MultiviewDto`].
pub struct MultiviewDtoView {
    pub id: u64,
    pub name: Seq<char>,
    pub preview_unit_id: u64,
    pub program_unit_id: u64,
    pub present_interval: u32,
    pub tiles: Seq<MvSlotView>,
    pub template: MultiviewTemplate,
    pub preview_label_follow: bool,
    pub preview_label: Seq<char>,
    pub program_label_follow: bool,
    pub program_label: Seq<char>,
    pub label_anchor: Option<MvLabelAnchor>,
    pub label_size: Option<u32>,
    pub label_unit: Option<MvLabelUnit>,
    pub always_on_top: bool,
}

impl View for MultiviewDto {
    type V = MultiviewDtoView;

    open spec fn view(&self) -> MultiviewDtoView {
        MultiviewDtoView {
            id: self.id,
            name: self.name@,
            preview_unit_id: self.preview_unit_id,
            program_unit_id: self.program_unit_id,
            present_interval: self.present_interval,
            tiles: self.tiles@.map_values(|t: MvSlot| t@),
            template: self.template,
            preview_label_follow: self.preview_label_follow,
            preview_label: self.preview_label@,
            program_label_follow: self.program_label_follow,
            program_label: self.program_label@,
            label_anchor: self.label_anchor,
            label_size: self.label_size,
            label_unit: self.label_unit,
            always_on_top: self.always_on_top,
        }
    }
}

impl Clone for MultiviewDto {
    fn clone(&self) -> (r: Self)
        ensures
            r@ == self@,
    {
        let r = MultiviewDto {
            id: self.id,
            name: self.name.clone(),
            preview_unit_id: self.preview_unit_id,
            program_unit_id: self.program_unit_id,
            present_interval: self.present_interval,
            tiles: self.tiles.clone(),
            template: self.template,
            preview_label_follow: self.preview_label_follow,
            preview_label: self.preview_label.clone(),
            program_label_follow: self.program_label_follow,
            program_label: self.program_label.clone(),
            label_anchor: self.label_anchor,
            label_size: self.label_size,
            label_unit: self.label_unit,
            always_on_top: self.always_on_top,
        };
        proof {
            assert forall|i: int| 0 <= i < self.tiles@.len() implies r.tiles@[i]@ == self.tiles@[i]@ by { assert(vstd::pervasive::cloned(self.tiles@[i], r.tiles@[i])); }
            assert(r.tiles@.map_values(|t: MvSlot| t@) =~= self.tiles@.map_values(|t: MvSlot| t@));
        }
        r
    }
}

/// An audio bus.
#[derive(Debug)]
pub struct BusDto {
    pub id: u64,
    pub name: String,
    pub role: AudioBusRole,
    pub device_kind: AudioDeviceKind,
    pub device_id: String,
    pub map_left: i32,
    pub map_right: i32,
    pub bit: u32,
    /// Bit pattern of an `f32`.
    pub gain: u32,
    pub mute: bool,
}

/// Mathematical content of [`BusDto`].
pub struct BusDtoView {
    pub id: u64,
    pub name: Seq<char>,
    pub role: AudioBusRole,
    pub device_kind: AudioDeviceKind,
    pub device_id: Seq<char>,
    pub map_left: i32,
    pub map_right: i32,
    pub bit: u32,
    pub gain: u32,
    pub mute: bool,
}

impl View for BusDto {
    type V = BusDtoView;

    open spec fn view(&self) -> BusDtoView {
        BusDtoView {
            id: self.id,
            name: self.name@,
            role: self.role,
            device_kind: self.device_kind,
            device_id: self.device_id@,
            map_left: self.map_left,
            map_right: self.map_right,
            bit: self.bit,
            gain: self.gain,
            mute: self.mute,
        }
    }
}

impl Clone for BusDto {
    fn clone(&self) -> (r: Self)
        ensures
            r@ == self@,
    {
        let r = BusDto {
            id: self.id,
            name: self.name.clone(),
            role: self.role,
            device_kind: self.device_kind,
            device_id: self.device_id.clone(),
            map_left: self.map_left,
            map_right: self.map_right,
            bit: self.bit,
            gain: self.gain,
            mute: self.mute,
        };
        r
    }
}

/// The canonical session document.
#[derive(Debug)]
pub struct Document {
    pub version: i32,
    pub scene_presets: Vec<SceneLayoutPreset>,
    pub input_tags: Vec<String>,
    pub scene_tags: Vec<String>,
    pub settings: SessionSettings,
    pub inputs: Vec<InputDto>,
    pub scenes: Vec<SceneDto>,
    pub units: Vec<UnitDto>,
    pub outputs: Vec<OutputDto>,
    pub multiviews: Vec<MultiviewDto>,
    pub buses: Vec<BusDto>,
    pub next_input_id: u64,
    pub next_scene_id: u64,
    pub next_unit_id: u64,
    pub next_output_id: u64,
    pub next_multiview_id: u64,
    pub next_bus_id: u64,
    pub selected_unit_id: u64,
    pub headphone_copy_master: bool,
}

/// Mathematical content of [`Document`].
pub struct DocumentView {
    pub version: i32,
    pub scene_presets: Seq<SceneLayoutPresetView>,
    pub input_tags: Seq<Seq<char>>,
    pub scene_tags: Seq<Seq<char>>,
    pub settings: SessionSettingsView,
    pub inputs: Seq<InputDtoView>,
    pub scenes: Seq<SceneDtoView>,
    pub units: Seq<UnitDtoView>,
    pub outputs: Seq<OutputDtoView>,
    pub multiviews: Seq<MultiviewDtoView>,
    pub buses: Seq<BusDtoView>,
    pub next_input_id: u64,
    pub next_scene_id: u64,
    pub next_unit_id: u64,
    pub next_output_id: u64,
    pub next_multiview_id: u64,
    pub next_bus_id: u64,
    pub selected_unit_id: u64,
    pub headphone_copy_master: bool,
}

impl View for Document {
    type V = DocumentView;

    open spec fn view(&self) -> DocumentView {
        DocumentView {
            version: self.version,
            scene_presets: self.scene_presets@.map_values(|t: SceneLayoutPreset| t@),
            input_tags: self.input_tags@.map_values(|t: String| t@),
            scene_tags: self.scene_tags@.map_values(|t: String| t@),
            settings: self.settings@,
            inputs: self.inputs@.map_values(|t: InputDto| t@),
            scenes: self.scenes@.map_values(|t: SceneDto| t@),
            units: self.units@.map_values(|t: UnitDto| t@),
            outputs: self.outputs@.map_values(|t: OutputDto| t@),
            multiviews: self.multiviews@.map_values(|t: MultiviewDto| t@),
            buses: self.buses@.map_values(|t: BusDto| t@),
            next_input_id: self.next_input_id,
            next_scene_id: self.next_scene_id,
            next_unit_id: self.next_unit_id,
            next_output_id: self.next_output_id,
            next_multiview_id: self.next_multiview_id,
            next_bus_id: self.next_bus_id,
            selected_unit_id: self.selected_unit_id,
            headphone_copy_master: self.headphone_copy_master,
        }
    }
}

impl Clone for Document {
    fn clone(&self) -> (r: Self)
        ensures
            r@ == self@,
    {
        let r = Document {
            version: self.version,
            scene_presets: self.scene_presets.clone(),
            input_tags: self.input_tags.clone(),
            scene_tags: self.scene_tags.clone(),
            settings: self.settings.clone(),
            inputs: self.inputs.clone(),
            scenes: self.scenes.clone(),
            units: self.units.clone(),
            outputs: self.outputs.clone(),
            multiviews: self.multiviews.clone(),
            buses: self.buses.clone(),
            next_input_id: self.next_input_id,
            next_scene_id: self.next_scene_id,
            next_unit_id: self.next_unit_id,
            next_output_id: self.next_output_id,
            next_multiview_id: self.next_multiview_id,
            next_bus_id: self.next_bus_id,
            selected_unit_id: self.selected_unit_id,
            headphone_copy_master: self.headphone_copy_master,
        };
        proof {
            assert forall|i: int| 0 <= i < self.scene_presets@.len() implies r.scene_presets@[i]@ == self.scene_presets@[i]@ by { assert(vstd::pervasive::cloned(self.scene_presets@[i], r.scene_presets@[i])); }
            assert(r.scene_presets@.map_values(|t: SceneLayoutPreset| t@) =~= self.scene_presets@.map_values(|t: SceneLayoutPreset| t@));
            assert forall|i: int| 0 <= i < self.input_tags@.len() implies r.input_tags@[i]@ == self.input_tags@[i]@ by { assert(vstd::pervasive::cloned(self.input_tags@[i], r.input_tags@[i])); }
            assert(r.input_tags@.map_values(|t: String| t@) =~= self.input_tags@.map_values(|t: String| t@));
            assert forall|i: int| 0 <= i < self.scene_tags@.len() implies r.scene_tags@[i]@ == self.scene_tags@[i]@ by { assert(vstd::pervasive::cloned(self.scene_tags@[i], r.scene_tags@[i])); }
            assert(r.scene_tags@.map_values(|t: String| t@) =~= self.scene_tags@.map_values(|t: String| t@));
            assert forall|i: int| 0 <= i < self.inputs@.len() implies r.inputs@[i]@ == self.inputs@[i]@ by { assert(vstd::pervasive::cloned(self.inputs@[i], r.inputs@[i])); }
            assert(r.inputs@.map_values(|t: InputDto| t@) =~= self.inputs@.map_values(|t: InputDto| t@));
            assert forall|i: int| 0 <= i < self.scenes@.len() implies r.scenes@[i]@ == self.scenes@[i]@ by { assert(vstd::pervasive::cloned(self.scenes@[i], r.scenes@[i])); }
            assert(r.scenes@.map_values(|t: SceneDto| t@) =~= self.scenes@.map_values(|t: SceneDto| t@));
            assert forall|i: int| 0 <= i < self.units@.len() implies r.units@[i]@ == self.units@[i]@ by { assert(vstd::pervasive::cloned(self.units@[i], r.units@[i])); }
            assert(r.units@.map_values(|t: UnitDto| t@) =~= self.units@.map_values(|t: UnitDto| t@));
            assert forall|i: int| 0 <= i < self.outputs@.len() implies r.outputs@[i]@ == self.outputs@[i]@ by { assert(vstd::pervasive::cloned(self.outputs@[i], r.outputs@[i])); }
            assert(r.outputs@.map_values(|t: OutputDto| t@) =~= self.outputs@.map_values(|t: OutputDto| t@));
            assert forall|i: int| 0 <= i < self.multiviews@.len() implies r.multiviews@[i]@ == self.multiviews@[i]@ by { assert(vstd::pervasive::cloned(self.multiviews@[i], r.multiviews@[i])); }
            assert(r.multiviews@.map_values(|t: MultiviewDto| t@) =~= self.multiviews@.map_values(|t: MultiviewDto| t@));
            assert forall|i: int| 0 <= i < self.buses@.len() implies r.buses@[i]@ == self.buses@[i]@ by { assert(vstd::pervasive::cloned(self.buses@[i], r.buses@[i])); }
            assert(r.buses@.map_values(|t: BusDto| t@) =~= self.buses@.map_values(|t: BusDto| t@));
        }
        r
    }
}

impl RgbColor {
    /// What [`Default::default`] gives.
    pub open spec fn default_value() -> Self {
        RgbColor { r: 0, g: 0, b: 0 }
    }
}

impl Default for RgbColor {
    fn default() -> (r: Self)
        ensures
            r == RgbColor::default_value(),
    {
        RgbColor {
            r: 0,
            g: 0,
            b: 0,
        }
    }
}

impl SessionSettings {
    /// What [`Default::default`] gives.
    pub open spec fn spec_default() -> SessionSettingsView {
        SessionSettingsView {
            master_fps_num: 60000,
            master_fps_den: 1001,
            default_width: 1920,
            default_height: 1080,
            theme: Seq::empty(),
            default_multiview_unit_id: 0,
            frame_buffer_frames: 1,
            default_present_interval: 1,
            flip_swapchain_limit: 0,
            internal_color_format: InternalColorFormat::Uyvy,
            rebar_optimization: false,
            rebar_direct_sample: false,
            ndi_gpu_upload: false,
            preview_color: RgbColor { r: 0, g: 200, b: 0 },
            program_color: RgbColor { r: 220, g: 0, b: 0 },
            inactive_color: RgbColor { r: 64, g: 64, b: 64 },
            multiview_label_size: 0x4180_0000,
            multiview_label_unit: MvLabelUnit::Px,
            multiview_label_anchor: MvLabelAnchor::Bottom,
            vmix_api_enabled: false,
            vmix_api_port: 8088,
            vmix_api_user: Seq::empty(),
            vmix_api_password: Seq::empty(),
            vmix_tcp_enabled: false,
            native_api_enabled: false,
            native_api_port: 8089,
            renderer: Renderer::Auto,
            last_session_path: None,
        }
    }
}

impl Default for SessionSettings {
    fn default() -> (r: Self)
        ensures
            r@ == SessionSettings::spec_default(),
    {
        let r = SessionSettings {
            master_fps_num: 60000,
            master_fps_den: 1001,
            default_width: 1920,
            default_height: 1080,
            theme: String::new(),
            default_multiview_unit_id: 0,
            frame_buffer_frames: 1,
            default_present_interval: 1,
            flip_swapchain_limit: 0,
            internal_color_format: InternalColorFormat::Uyvy,
            rebar_optimization: false,
            rebar_direct_sample: false,
            ndi_gpu_upload: false,
            preview_color: RgbColor { r: 0, g: 200, b: 0 },
            program_color: RgbColor { r: 220, g: 0, b: 0 },
            inactive_color: RgbColor { r: 64, g: 64, b: 64 },
            multiview_label_size: 0x4180_0000,
            multiview_label_unit: MvLabelUnit::Px,
            multiview_label_anchor: MvLabelAnchor::Bottom,
            vmix_api_enabled: false,
            vmix_api_port: 8088,
            vmix_api_user: String::new(),
            vmix_api_password: String::new(),
            vmix_tcp_enabled: false,
            native_api_enabled: false,
            native_api_port: 8089,
            renderer: Renderer::Auto,
            last_session_path: None,
        };
        r
    }
}

impl InputDto {
    /// What [`Default::default`] gives.
    pub open spec fn spec_default() -> InputDtoView {
        InputDtoView {
            id: 0,
            guid: Seq::empty(),
            name: Seq::empty(),
            kind: InputKind::Color,
            path_or_address: None,
            color_r: 0,
            color_g: 0,
            color_b: 0,
            scroll: false,
            tone_hz: 0,
            tone_level_dbfs: 0xc1a0_0000,
            bus_mask: 1,
            gain: 0x3f80_0000,
            mute: false,
            use_gpu: false,
            frame_buffer_frames: 1,
            bandwidth_save: BandwidthSave::NotOnPreviewOrProgram,
            keep_full_on_multiview: false,
            omt_quality: OmtQuality::Default,
            ndi_bandwidth: NdiBandwidth::Highest,
            video_loop: true,
            video_play_when: VideoPlayWhen::Never,
            video_restart_when: VideoTriggerWhen::Never,
            video_pause_when: VideoTriggerWhen::Never,
            capture_width: 0,
            capture_height: 0,
            capture_fps_num: 0,
            capture_fps_den: 0,
            tags: Seq::empty(),
            mix_source: MixSource::MuProgram,
            mix_target_id: 0,
            mix_audio_bus_id: 0,
            audio_capture_mode: AudioCaptureMode::Mic,
            audio_device_kind: AudioDeviceKind::NoDevice,
            audio_device_id: Seq::empty(),
            audio_map_left: 0,
            audio_map_right: 1,
            audio_process_exe: Seq::empty(),
            audio_process_aumid: Seq::empty(),
        }
    }
}

impl Default for InputDto {
    fn default() -> (r: Self)
        ensures
            r@ == InputDto::spec_default(),
    {
        let r = InputDto {
            id: 0,
            guid: String::new(),
            name: String::new(),
            kind: InputKind::Color,
            path_or_address: None,
            color_r: 0,
            color_g: 0,
            color_b: 0,
            scroll: false,
            tone_hz: 0,
            tone_level_dbfs: 0xc1a0_0000,
            bus_mask: 1,
            gain: 0x3f80_0000,
            mute: false,
            use_gpu: false,
            frame_buffer_frames: 1,
            bandwidth_save: BandwidthSave::NotOnPreviewOrProgram,
            keep_full_on_multiview: false,
            omt_quality: OmtQuality::Default,
            ndi_bandwidth: NdiBandwidth::Highest,
            video_loop: true,
            video_play_when: VideoPlayWhen::Never,
            video_restart_when: VideoTriggerWhen::Never,
            video_pause_when: VideoTriggerWhen::Never,
            capture_width: 0,
            capture_height: 0,
            capture_fps_num: 0,
            capture_fps_den: 0,
            tags: Vec::new(),
            mix_source: MixSource::MuProgram,
            mix_target_id: 0,
            mix_audio_bus_id: 0,
            audio_capture_mode: AudioCaptureMode::Mic,
            audio_device_kind: AudioDeviceKind::NoDevice,
            audio_device_id: String::new(),
            audio_map_left: 0,
            audio_map_right: 1,
            audio_process_exe: String::new(),
            audio_process_aumid: String::new(),
        };
        proof {
            assert(r.tags@.map_values(|t: String| t@) =~= Seq::empty());
        }
        r
    }
}

impl SceneLayer {
    /// What [`Default::default`] gives.
    pub open spec fn default_value() -> Self {
        SceneLayer { input_id: 0, x: 0, y: 0, width: 0x3f80_0000, height: 0x3f80_0000, opacity: 0x3f80_0000, z: 0, audio_follow: false, locked: false, size_linked: true, crop_x: 0, crop_y: 0, crop_width: 0x3f80_0000, crop_height: 0x3f80_0000, hidden: false }
    }
}

impl Default for SceneLayer {
    fn default() -> (r: Self)
        ensures
            r == SceneLayer::default_value(),
    {
        SceneLayer {
            input_id: 0,
            x: 0,
            y: 0,
            width: 0x3f80_0000,
            height: 0x3f80_0000,
            opacity: 0x3f80_0000,
            z: 0,
            audio_follow: false,
            locked: false,
            size_linked: true,
            crop_x: 0,
            crop_y: 0,
            crop_width: 0x3f80_0000,
            crop_height: 0x3f80_0000,
            hidden: false,
        }
    }
}

impl SceneDto {
    /// What [`Default::default`] gives.
    pub open spec fn spec_default() -> SceneDtoView {
        SceneDtoView {
            id: 0,
            guid: Seq::empty(),
            name: Seq::empty(),
            layers: Seq::empty(),
            tags: Seq::empty(),
            preview_collapsed: false,
        }
    }
}

impl Default for SceneDto {
    fn default() -> (r: Self)
        ensures
            r@ == SceneDto::spec_default(),
    {
        let r = SceneDto {
            id: 0,
            guid: String::new(),
            name: String::new(),
            layers: Vec::new(),
            tags: Vec::new(),
            preview_collapsed: false,
        };
        proof {
            assert(r.tags@.map_values(|t: String| t@) =~= Seq::empty());
        }
        r
    }
}

impl SceneLayerGeom {
    /// What [`Default::default`] gives.
    pub open spec fn default_value() -> Self {
        SceneLayerGeom { x: 0, y: 0, width: 0x3f80_0000, height: 0x3f80_0000, opacity: 0x3f80_0000, z: 0, crop_x: 0, crop_y: 0, crop_width: 0x3f80_0000, crop_height: 0x3f80_0000 }
    }
}

impl Default for SceneLayerGeom {
    fn default() -> (r: Self)
        ensures
            r == SceneLayerGeom::default_value(),
    {
        SceneLayerGeom {
            x: 0,
            y: 0,
            width: 0x3f80_0000,
            height: 0x3f80_0000,
            opacity: 0x3f80_0000,
            z: 0,
            crop_x: 0,
            crop_y: 0,
            crop_width: 0x3f80_0000,
            crop_height: 0x3f80_0000,
        }
    }
}

impl SceneLayoutPreset {
    /// What [`Default::default`] gives.
    pub open spec fn spec_default() -> SceneLayoutPresetView {
        SceneLayoutPresetView {
            name: Seq::empty(),
            layers: Seq::empty(),
        }
    }
}

impl Default for SceneLayoutPreset {
    fn default() -> (r: Self)
        ensures
            r@ == SceneLayoutPreset::spec_default(),
    {
        let r = SceneLayoutPreset {
            name: String::new(),
            layers: Vec::new(),
        };
        proof {
        }
        r
    }
}

impl TransitionPreset {
    /// What [`Default::default`] gives.
    pub open spec fn spec_default() -> TransitionPresetView {
        TransitionPresetView {
            kind: 0,
            duration_value: 0,
            duration_unit: 0,
            swap: false,
            keep_preview: false,
            easing: 0,
            direction: 0,
            dip_r: 0,
            dip_g: 0,
            dip_b: 0,
            dip_a: 0x3f80_0000,
            softness: 0x3ca3_d70a,
            param: 0,
            custom_wgsl: Seq::empty(),
            label: Seq::empty(),
        }
    }
}

impl Default for TransitionPreset {
    fn default() -> (r: Self)
        ensures
            r@ == TransitionPreset::spec_default(),
    {
        let r = TransitionPreset {
            kind: 0,
            duration_value: 0,
            duration_unit: 0,
            swap: false,
            keep_preview: false,
            easing: 0,
            direction: 0,
            dip_r: 0,
            dip_g: 0,
            dip_b: 0,
            dip_a: 0x3f80_0000,
            softness: 0x3ca3_d70a,
            param: 0,
            custom_wgsl: String::new(),
            label: String::new(),
        };
        r
    }
}

impl OverlaySlot {
    /// What [`Default::default`] gives.
    pub open spec fn default_value() -> Self {
        OverlaySlot { scene_gpu_id: 0, x: 0x3f1e_b852, y: 0x3da3_d70a, width: 0x3ea3_d70a, height: 0x3ea3_d70a, opacity: 0x3f80_0000, z: 0, enabled: true, transition_kind: 1, duration_value: 15, duration_unit: 0, audio_follow: true, source_kind: 0, locked: false, hidden: false, size_linked: true, crop_x: 0, crop_y: 0, crop_width: 0x3f80_0000, crop_height: 0x3f80_0000 }
    }
}

impl Default for OverlaySlot {
    fn default() -> (r: Self)
        ensures
            r == OverlaySlot::default_value(),
    {
        OverlaySlot {
            scene_gpu_id: 0,
            x: 0x3f1e_b852,
            y: 0x3da3_d70a,
            width: 0x3ea3_d70a,
            height: 0x3ea3_d70a,
            opacity: 0x3f80_0000,
            z: 0,
            enabled: true,
            transition_kind: 1,
            duration_value: 15,
            duration_unit: 0,
            audio_follow: true,
            source_kind: 0,
            locked: false,
            hidden: false,
            size_linked: true,
            crop_x: 0,
            crop_y: 0,
            crop_width: 0x3f80_0000,
            crop_height: 0x3f80_0000,
        }
    }
}

impl UnitDto {
    /// What [`Default::default`] gives.
    pub open spec fn spec_default() -> UnitDtoView {
        UnitDtoView {
            id: 0,
            name: Seq::empty(),
            width: 0,
            height: 0,
            fps_num: 0,
            fps_den: 0,
            transitions: Seq::empty(),
            overlays: Seq::empty(),
            audio_bus_id: 0,
            audio_link: AudioLinkMode::Follow,
            switcher_scene_filter: SwitcherSceneFilter::All,
            switcher_scene_ids: Seq::empty(),
            always_on_top: false,
            preview_scene_id: 0,
            program_scene_id: 0,
        }
    }
}

impl Default for UnitDto {
    fn default() -> (r: Self)
        ensures
            r@ == UnitDto::spec_default(),
    {
        let r = UnitDto {
            id: 0,
            name: String::new(),
            width: 0,
            height: 0,
            fps_num: 0,
            fps_den: 0,
            transitions: Vec::new(),
            overlays: Vec::new(),
            audio_bus_id: 0,
            audio_link: AudioLinkMode::Follow,
            switcher_scene_filter: SwitcherSceneFilter::All,
            switcher_scene_ids: Vec::new(),
            always_on_top: false,
            preview_scene_id: 0,
            program_scene_id: 0,
        };
        proof {
            assert(r.transitions@.map_values(|t: TransitionPreset| t@) =~= Seq::empty());
        }
        r
    }
}

impl OutputDto {
    /// What [`Default::default`] gives.
    pub open spec fn spec_default() -> OutputDtoView {
        OutputDtoView {
            id: 0,
            name: Seq::empty(),
            transport: OutputTransport::Omt,
            source_kind: OutputSourceKind::MuProgram,
            source_id: 0,
            unit_id: 0,
            use_gpu: false,
            enabled: true,
            audio_bus_id: 0,
            skip_encode_when_no_receivers: true,
        }
    }
}

impl Default for OutputDto {
    fn default() -> (r: Self)
        ensures
            r@ == OutputDto::spec_default(),
    {
        let r = OutputDto {
            id: 0,
            name: String::new(),
            transport: OutputTransport::Omt,
            source_kind: OutputSourceKind::MuProgram,
            source_id: 0,
            unit_id: 0,
            use_gpu: false,
            enabled: true,
            audio_bus_id: 0,
            skip_encode_when_no_receivers: true,
        };
        r
    }
}

impl MvSlot {
    /// What [`Default::default`] gives.
    pub open spec fn spec_default() -> MvSlotView {
        MvSlotView {
            kind: MvSlotKind::Empty,
            source_id: 0,
            label_follow: true,
            label: Seq::empty(),
        }
    }
}

impl Default for MvSlot {
    fn default() -> (r: Self)
        ensures
            r@ == MvSlot::spec_default(),
    {
        let r = MvSlot {
            kind: MvSlotKind::Empty,
            source_id: 0,
            label_follow: true,
            label: String::new(),
        };
        r
    }
}

impl MultiviewDto {
    /// What [`Default::default`] gives.
    pub open spec fn spec_default() -> MultiviewDtoView {
        MultiviewDtoView {
            id: 0,
            name: Seq::empty(),
            preview_unit_id: 0,
            program_unit_id: 0,
            present_interval: 1,
            tiles: Seq::empty(),
            template: MultiviewTemplate::PreviewProgram8,
            preview_label_follow: true,
            preview_label: Seq::empty(),
            program_label_follow: true,
            program_label: Seq::empty(),
            label_anchor: None,
            label_size: None,
            label_unit: None,
            always_on_top: false,
        }
    }
}

impl Default for MultiviewDto {
    fn default() -> (r: Self)
        ensures
            r@ == MultiviewDto::spec_default(),
    {
        let r = MultiviewDto {
            id: 0,
            name: String::new(),
            preview_unit_id: 0,
            program_unit_id: 0,
            present_interval: 1,
            tiles: Vec::new(),
            template: MultiviewTemplate::PreviewProgram8,
            preview_label_follow: true,
            preview_label: String::new(),
            program_label_follow: true,
            program_label: String::new(),
            label_anchor: None,
            label_size: None,
            label_unit: None,
            always_on_top: false,
        };
        proof {
            assert(r.tiles@.map_values(|t: MvSlot| t@) =~= Seq::empty());
        }
        r
    }
}

impl BusDto {
    /// What [`Default::default`] gives.
    pub open spec fn spec_default() -> BusDtoView {
        BusDtoView {
            id: 0,
            name: Seq::empty(),
            role: AudioBusRole::Master,
            device_kind: AudioDeviceKind::NoDevice,
            device_id: Seq::empty(),
            map_left: 0,
            map_right: 1,
            bit: 0,
            gain: 0x3f80_0000,
            mute: false,
        }
    }
}

impl Default for BusDto {
    fn default() -> (r: Self)
        ensures
            r@ == BusDto::spec_default(),
    {
        let r = BusDto {
            id: 0,
            name: String::new(),
            role: AudioBusRole::Master,
            device_kind: AudioDeviceKind::NoDevice,
            device_id: String::new(),
            map_left: 0,
            map_right: 1,
            bit: 0,
            gain: 0x3f80_0000,
            mute: false,
        };
        r
    }
}

impl Document {
    /// What [`Default::default`] gives.
    pub open spec fn spec_default() -> DocumentView {
        DocumentView {
            version: 2,
            scene_presets: Seq::empty(),
            input_tags: Seq::empty(),
            scene_tags: Seq::empty(),
            settings: SessionSettings::spec_default(),
            inputs: Seq::empty(),
            scenes: Seq::empty(),
            units: Seq::empty(),
            outputs: Seq::empty(),
            multiviews: Seq::empty(),
            buses: Seq::empty(),
            next_input_id: 0,
            next_scene_id: 0,
            next_unit_id: 0,
            next_output_id: 0,
            next_multiview_id: 0,
            next_bus_id: 0,
            selected_unit_id: 0,
            headphone_copy_master: false,
        }
    }
}

impl Default for Document {
    fn default() -> (r: Self)
        ensures
            r@ == Document::spec_default(),
    {
        let r = Document {
            version: 2,
            scene_presets: Vec::new(),
            input_tags: Vec::new(),
            scene_tags: Vec::new(),
            settings: SessionSettings::default(),
            inputs: Vec::new(),
            scenes: Vec::new(),
            units: Vec::new(),
            outputs: Vec::new(),
            multiviews: Vec::new(),
            buses: Vec::new(),
            next_input_id: 0,
            next_scene_id: 0,
            next_unit_id: 0,
            next_output_id: 0,
            next_multiview_id: 0,
            next_bus_id: 0,
            selected_unit_id: 0,
            headphone_copy_master: false,
        };
        proof {
            assert(r.scene_presets@.map_values(|t: SceneLayoutPreset| t@) =~= Seq::empty());
            assert(r.input_tags@.map_values(|t: String| t@) =~= Seq::empty());
            assert(r.scene_tags@.map_values(|t: String| t@) =~= Seq::empty());
            assert(r.inputs@.map_values(|t: InputDto| t@) =~= Seq::empty());
            assert(r.scenes@.map_values(|t: SceneDto| t@) =~= Seq::empty());
            assert(r.units@.map_values(|t: UnitDto| t@) =~= Seq::empty());
            assert(r.outputs@.map_values(|t: OutputDto| t@) =~= Seq::empty());
            assert(r.multiviews@.map_values(|t: MultiviewDto| t@) =~= Seq::empty());
            assert(r.buses@.map_values(|t: BusDto| t@) =~= Seq::empty());
        }
        r
    }
}

impl InputKind {
    /// Every kind but `Audio` carries video.
    pub open spec fn spec_has_video(self) -> bool {
        self != InputKind::Audio
    }

    pub fn has_video(self) -> (r: bool)
        ensures
            r == self.spec_has_video(),
    {
        !matches!(self, InputKind::Audio)
    }
}

} // verus!
