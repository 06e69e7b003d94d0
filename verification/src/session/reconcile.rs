//! Planning of the mixer operations that take the running graph from one
//! session document to the next.
//!
//! Whether a still or video file exists is a question for the file system;
//! the caller hands in the (trimmed) paths that name existing regular files
//! as `files`.

use vstd::prelude::*;

use crate::ids::{
    multiview_gpu_id, mu_preview, mu_program, scene_gpu_id, spec_mu_preview, spec_mu_program,
    spec_multiview_gpu_id, spec_scene_gpu_id, MULTIVIEW_BASE, MU_ID_MASK, MU_SOURCE_FLAG,
    SCENE_BASE,
};
use crate::live::{LiveState, UnitLiveState};
use crate::port::{
    AudioCaptureApply, AudioCaptureApplyView, BusApply, BusApplyView, GeneratorApply,
    GeneratorApplyView, LiveConnectApply, LiveConnectApplyView, MixInputApply, MixInputApplyView,
    MultiviewApply, MultiviewApplyView, OutputApply, OutputApplyView, OverlayLayer,
    OverlayLayerView, PaneSource, PaneSourceView, SceneApply, SceneApplyView, VideoStartApply,
    VideoStartApplyView,
};
use crate::session::edit::str_eq;
use crate::session::model::{
    AudioBusRole, AudioCaptureMode, AudioDeviceKind, AudioLinkMode, BandwidthSave, BusDto,
    BusDtoView, Document, DocumentView, InputDto, InputDtoView, InputKind, MixSource, MultiviewDto,
    MultiviewDtoView, MultiviewTemplate, MvSlotKind, MvSlotView, NdiBandwidth, OmtQuality,
    OutputDto, OutputDtoView, OutputSourceKind, OutputTransport, SceneDto, SceneDtoView,
    SceneLayer, UnitDtoView, VideoPlayWhen,
};
use crate::session::edit::{input_id_seq, multiview_id_seq, scene_id_seq, unit_id_seq};
use crate::session::mutate::{input_ids, multiview_ids, scene_ids, unit_ids};
use crate::session::relink::{
    media_file_missing, missing_media_message, spec_media_file_missing, spec_missing_media_message,
    texts,
};
use crate::session::validate::{bus_id_list, bus_ids, output_id_list, output_ids, vec_contains};
use crate::text::owned;

verus! {

#[derive(Debug)]
pub enum ReconcileOp {
    Settings,
    CreateUnit { id: u64, width: u32, height: u32 },
    ConfigureUnit { id: u64, width: u32, height: u32, fps_num: u32, fps_den: u32 },
    DestroyUnit { id: u64 },
    UpsertBus(BusApply),
    RemoveBus { id: u64 },
    DefineGenerator(GeneratorApply),
    DefineMixInput(MixInputApply),
    LoadStill { id: u64, path: String },
    StartVideo(VideoStartApply),
    ConnectOmt(LiveConnectApply),
    ConnectNdi(LiveConnectApply),
    StartAudioCapture(AudioCaptureApply),
    DestroySource { id: u64 },
    FailInput { id: u64, message: String },
    DefineScene(SceneApply),
    DestroyScene { id: u64 },
    DefineMultiview { spec: MultiviewApply, preview_unit: u64, program_unit: u64 },
    SetLiveState { unit_id: u64, program: u64, preview: u64 },
    AddOutput(OutputApply),
    RemoveOutput { id: u64 },
    /// `gain` is the bit pattern of an `f32`.
    AudioInput { id: u64, bus_mask: u32, gain: u32, mute: bool },
    AudioUnitLink { unit_id: u64, bus_id: u64, mode: u32 },
    HeadphoneCopyMaster { enabled: bool },
    ConfigureVmixApi { http_enabled: bool, tcp_enabled: bool, port: u32, user: String, pass: String },
    ConfigureNativeApi { enabled: bool, port: u32 },
}

/// Mathematical content of a [`ReconcileOp`].
pub enum OpView {
    Settings,
    CreateUnit { id: u64, width: u32, height: u32 },
    ConfigureUnit { id: u64, width: u32, height: u32, fps_num: u32, fps_den: u32 },
    DestroyUnit { id: u64 },
    UpsertBus(BusApplyView),
    RemoveBus { id: u64 },
    DefineGenerator(GeneratorApplyView),
    DefineMixInput(MixInputApplyView),
    LoadStill { id: u64, path: Seq<char> },
    StartVideo(VideoStartApplyView),
    ConnectOmt(LiveConnectApplyView),
    ConnectNdi(LiveConnectApplyView),
    StartAudioCapture(AudioCaptureApplyView),
    DestroySource { id: u64 },
    FailInput { id: u64, message: Seq<char> },
    DefineScene(SceneApplyView),
    DestroyScene { id: u64 },
    DefineMultiview { spec: MultiviewApplyView, preview_unit: u64, program_unit: u64 },
    SetLiveState { unit_id: u64, program: u64, preview: u64 },
    AddOutput(OutputApplyView),
    RemoveOutput { id: u64 },
    AudioInput { id: u64, bus_mask: u32, gain: u32, mute: bool },
    AudioUnitLink { unit_id: u64, bus_id: u64, mode: u32 },
    HeadphoneCopyMaster { enabled: bool },
    ConfigureVmixApi {
        http_enabled: bool,
        tcp_enabled: bool,
        port: u32,
        user: Seq<char>,
        pass: Seq<char>,
    },
    ConfigureNativeApi { enabled: bool, port: u32 },
}

impl View for ReconcileOp {
    type V = OpView;

    open spec fn view(&self) -> OpView {
        match self {
            ReconcileOp::Settings => OpView::Settings,
            ReconcileOp::CreateUnit { id, width, height } => OpView::CreateUnit {
                id: *id,
                width: *width,
                height: *height,
            },
            ReconcileOp::ConfigureUnit { id, width, height, fps_num, fps_den } =>
                OpView::ConfigureUnit {
                id: *id,
                width: *width,
                height: *height,
                fps_num: *fps_num,
                fps_den: *fps_den,
            },
            ReconcileOp::DestroyUnit { id } => OpView::DestroyUnit { id: *id },
            ReconcileOp::UpsertBus(b) => OpView::UpsertBus(b@),
            ReconcileOp::RemoveBus { id } => OpView::RemoveBus { id: *id },
            ReconcileOp::DefineGenerator(g) => OpView::DefineGenerator(g@),
            ReconcileOp::DefineMixInput(m) => OpView::DefineMixInput(m@),
            ReconcileOp::LoadStill { id, path } => OpView::LoadStill { id: *id, path: path@ },
            ReconcileOp::StartVideo(v) => OpView::StartVideo(v@),
            ReconcileOp::ConnectOmt(c) => OpView::ConnectOmt(c@),
            ReconcileOp::ConnectNdi(c) => OpView::ConnectNdi(c@),
            ReconcileOp::StartAudioCapture(a) => OpView::StartAudioCapture(a@),
            ReconcileOp::DestroySource { id } => OpView::DestroySource { id: *id },
            ReconcileOp::FailInput { id, message } => OpView::FailInput {
                id: *id,
                message: message@,
            },
            ReconcileOp::DefineScene(s) => OpView::DefineScene(s@),
            ReconcileOp::DestroyScene { id } => OpView::DestroyScene { id: *id },
            ReconcileOp::DefineMultiview { spec, preview_unit, program_unit } =>
                OpView::DefineMultiview {
                spec: spec@,
                preview_unit: *preview_unit,
                program_unit: *program_unit,
            },
            ReconcileOp::SetLiveState { unit_id, program, preview } => OpView::SetLiveState {
                unit_id: *unit_id,
                program: *program,
                preview: *preview,
            },
            ReconcileOp::AddOutput(o) => OpView::AddOutput(o@),
            ReconcileOp::RemoveOutput { id } => OpView::RemoveOutput { id: *id },
            ReconcileOp::AudioInput { id, bus_mask, gain, mute } => OpView::AudioInput {
                id: *id,
                bus_mask: *bus_mask,
                gain: *gain,
                mute: *mute,
            },
            ReconcileOp::AudioUnitLink { unit_id, bus_id, mode } => OpView::AudioUnitLink {
                unit_id: *unit_id,
                bus_id: *bus_id,
                mode: *mode,
            },
            ReconcileOp::HeadphoneCopyMaster { enabled } => OpView::HeadphoneCopyMaster {
                enabled: *enabled,
            },
            ReconcileOp::ConfigureVmixApi { http_enabled, tcp_enabled, port, user, pass } =>
                OpView::ConfigureVmixApi {
                http_enabled: *http_enabled,
                tcp_enabled: *tcp_enabled,
                port: *port,
                user: user@,
                pass: pass@,
            },
            ReconcileOp::ConfigureNativeApi { enabled, port } => OpView::ConfigureNativeApi {
                enabled: *enabled,
                port: *port,
            },
        }
    }
}

pub open spec fn ops_view(ops: Seq<ReconcileOp>) -> Seq<OpView> {
    ops.map_values(|o: ReconcileOp| o@)
}

/// ABI value of an OMT receive quality.
pub open spec fn spec_omt_quality_to_abi(q: OmtQuality) -> u32 {
    match q {
        OmtQuality::Default => 0,
        OmtQuality::Low => 1,
        OmtQuality::Medium => 50,
        OmtQuality::High => 100,
    }
}

pub fn omt_quality_to_abi(quality: OmtQuality) -> (r: u32)
    ensures
        r == spec_omt_quality_to_abi(quality),
{
    match quality {
        OmtQuality::Default => 0,
        OmtQuality::Low => 1,
        OmtQuality::Medium => 50,
        OmtQuality::High => 100,
    }
}

pub open spec fn device_kind_abi(k: AudioDeviceKind) -> u32 {
    match k {
        AudioDeviceKind::NoDevice => 0,
        AudioDeviceKind::Wasapi => 1,
        AudioDeviceKind::Asio => 2,
        AudioDeviceKind::CoreAudio => 3,
    }
}

fn device_kind_to_abi(k: AudioDeviceKind) -> (r: u32)
    ensures
        r == device_kind_abi(k),
{
    match k {
        AudioDeviceKind::NoDevice => 0,
        AudioDeviceKind::Wasapi => 1,
        AudioDeviceKind::Asio => 2,
        AudioDeviceKind::CoreAudio => 3,
    }
}

pub open spec fn bus_role_abi(r: AudioBusRole) -> u32 {
    match r {
        AudioBusRole::Master => 0,
        AudioBusRole::Headphone => 1,
        AudioBusRole::Aux => 2,
    }
}

pub open spec fn clamp_channel(c: i32) -> u32 {
    if c < 0 {
        0
    } else {
        c as u32
    }
}

/// What the mixer is told about an audio bus.
pub open spec fn spec_bus_apply(b: BusDtoView) -> BusApplyView {
    BusApplyView {
        id: b.id,
        name: b.name,
        role: bus_role_abi(b.role),
        device_kind: device_kind_abi(b.device_kind),
        device_id: b.device_id,
        map_left: clamp_channel(b.map_left),
        map_right: clamp_channel(b.map_right),
        exclusive: false,
        gain: b.gain,
        mute: b.mute,
    }
}

fn bus_apply(b: &BusDto) -> (r: BusApply)
    ensures
        r@ == spec_bus_apply(b@),
{
    BusApply {
        id: b.id,
        name: b.name.clone(),
        role: match b.role {
            AudioBusRole::Master => 0,
            AudioBusRole::Headphone => 1,
            AudioBusRole::Aux => 2,
        },
        device_kind: device_kind_to_abi(b.device_kind),
        device_id: b.device_id.clone(),
        map_left: if b.map_left < 0 {
            0
        } else {
            b.map_left as u32
        },
        map_right: if b.map_right < 0 {
            0
        } else {
            b.map_right as u32
        },
        exclusive: false,
        gain: b.gain,
        mute: b.mute,
    }
}

/// The input's path, or empty text when it has none.
pub open spec fn path_or_empty(input: InputDtoView) -> Seq<char> {
    match input.path_or_address {
        Some(p) => p,
        None => Seq::empty(),
    }
}

fn path_or_empty_exec(input: &InputDto) -> (r: String)
    ensures
        r@ == path_or_empty(input@),
{
    match &input.path_or_address {
        Some(p) => p.clone(),
        None => String::new(),
    }
}

pub open spec fn save_mode_abi(b: BandwidthSave) -> u32 {
    match b {
        BandwidthSave::AlwaysLow => 0,
        BandwidthSave::NotOnProgram => 1,
        BandwidthSave::NotOnPreviewOrProgram => 2,
        BandwidthSave::AlwaysFull => 3,
    }
}

/// How an OMT or NDI input is connected.
pub open spec fn spec_live_connect(input: InputDtoView) -> LiveConnectApplyView {
    LiveConnectApplyView {
        id: input.id,
        address: path_or_empty(input),
        use_gpu: input.use_gpu,
        frame_buffer_frames: input.frame_buffer_frames,
        quality_or_bandwidth: if input.kind == InputKind::NDI {
            if input.ndi_bandwidth == NdiBandwidth::Lowest {
                1
            } else {
                0
            }
        } else {
            spec_omt_quality_to_abi(input.omt_quality)
        },
        save_mode: save_mode_abi(input.bandwidth_save),
        keep_full_on_multiview: input.keep_full_on_multiview,
    }
}

fn live_connect(input: &InputDto) -> (r: LiveConnectApply)
    ensures
        r@ == spec_live_connect(input@),
{
    LiveConnectApply {
        id: input.id,
        address: path_or_empty_exec(input),
        use_gpu: input.use_gpu,
        frame_buffer_frames: input.frame_buffer_frames,
        quality_or_bandwidth: if input.kind == InputKind::NDI {
            if input.ndi_bandwidth == NdiBandwidth::Lowest {
                1
            } else {
                0
            }
        } else {
            omt_quality_to_abi(input.omt_quality)
        },
        save_mode: match input.bandwidth_save {
            BandwidthSave::AlwaysLow => 0,
            BandwidthSave::NotOnProgram => 1,
            BandwidthSave::NotOnPreviewOrProgram => 2,
            BandwidthSave::AlwaysFull => 3,
        },
        keep_full_on_multiview: input.keep_full_on_multiview,
    }
}

/// A video file or capture device starts playing unless it waits for a
/// trigger.
pub open spec fn starts_playing(w: VideoPlayWhen) -> bool {
    w == VideoPlayWhen::Never || w == VideoPlayWhen::Always
}

pub open spec fn spec_video_start(input: InputDtoView, capture: bool) -> VideoStartApplyView {
    VideoStartApplyView {
        id: input.id,
        path: path_or_empty(input),
        capture,
        loop_playback: input.video_loop,
        playing: starts_playing(input.video_play_when),
        width: input.capture_width,
        height: input.capture_height,
        fps_num: input.capture_fps_num,
        fps_den: input.capture_fps_den,
        frame_buffer_frames: input.frame_buffer_frames,
        position_hns: 0,
    }
}

fn video_start(input: &InputDto, capture: bool) -> (r: VideoStartApply)
    ensures
        r@ == spec_video_start(input@, capture),
{
    VideoStartApply {
        id: input.id,
        path: path_or_empty_exec(input),
        capture,
        loop_playback: input.video_loop,
        playing: match input.video_play_when {
            VideoPlayWhen::Never | VideoPlayWhen::Always => true,
            _ => false,
        },
        width: input.capture_width,
        height: input.capture_height,
        fps_num: input.capture_fps_num,
        fps_den: input.capture_fps_den,
        frame_buffer_frames: input.frame_buffer_frames,
        position_hns: 0,
    }
}

pub open spec fn mix_source_abi(s: MixSource) -> u32 {
    match s {
        MixSource::MuPreview => 1,
        MixSource::MuProgram => 2,
        MixSource::SessionMultiview => 3,
    }
}

/// A Mix input on a session multiview names the layout id; the mixer wants
/// the layout's GPU id.
pub open spec fn spec_mix_input(input: InputDtoView) -> MixInputApplyView {
    let t = input.mix_target_id;
    MixInputApplyView {
        id: input.id,
        target_id: if input.mix_source == MixSource::SessionMultiview && t != 0 && t < MULTIVIEW_BASE {
            spec_multiview_gpu_id(t)
        } else {
            t
        },
        source_kind: mix_source_abi(input.mix_source),
        delay: input.frame_buffer_frames,
        audio_bus_id: input.mix_audio_bus_id,
    }
}

pub open spec fn capture_mode_abi(m: AudioCaptureMode) -> u32 {
    match m {
        AudioCaptureMode::Mic => 0,
        AudioCaptureMode::EndpointLoopback => 1,
        AudioCaptureMode::ProcessLoopback => 2,
    }
}

pub open spec fn spec_audio_capture(input: InputDtoView) -> AudioCaptureApplyView {
    AudioCaptureApplyView {
        id: input.id,
        kind: device_kind_abi(input.audio_device_kind),
        device_id: if input.audio_device_id.len() == 0 {
            path_or_empty(input)
        } else {
            input.audio_device_id
        },
        mode: capture_mode_abi(input.audio_capture_mode),
        map_left: input.audio_map_left,
        map_right: input.audio_map_right,
        process_exe: input.audio_process_exe,
        process_aumid: input.audio_process_aumid,
    }
}

/// The operation that brings an input up. A still or video whose file is
/// missing fails instead of loading.
pub open spec fn spec_input_op(input: InputDtoView, files: Seq<Seq<char>>) -> OpView {
    match input.kind {
        InputKind::Color | InputKind::Bars | InputKind::Black => OpView::DefineGenerator(
            GeneratorApplyView {
                id: input.id,
                bars: input.kind == InputKind::Bars,
                r: input.color_r,
                g: input.color_g,
                b: input.color_b,
                scroll: input.scroll,
                tone_hz: input.tone_hz,
                tone_level_dbfs: input.tone_level_dbfs,
            },
        ),
        InputKind::Still => match spec_missing_media_message(input, files) {
            Some(m) => OpView::FailInput { id: input.id, message: m },
            None => OpView::LoadStill { id: input.id, path: path_or_empty(input) },
        },
        InputKind::Video => match spec_missing_media_message(input, files) {
            Some(m) => OpView::FailInput { id: input.id, message: m },
            None => OpView::StartVideo(spec_video_start(input, false)),
        },
        InputKind::UVC => OpView::StartVideo(spec_video_start(input, true)),
        InputKind::OMT => OpView::ConnectOmt(spec_live_connect(input)),
        InputKind::NDI => OpView::ConnectNdi(spec_live_connect(input)),
        InputKind::Mix => OpView::DefineMixInput(spec_mix_input(input)),
        InputKind::Audio => OpView::StartAudioCapture(spec_audio_capture(input)),
    }
}

fn input_op(input: &InputDto, files: &Vec<String>) -> (r: ReconcileOp)
    ensures
        r@ == spec_input_op(input@, texts(files@)),
{
    match input.kind {
        InputKind::Color | InputKind::Bars | InputKind::Black => ReconcileOp::DefineGenerator(
            GeneratorApply {
                id: input.id,
                bars: input.kind == InputKind::Bars,
                r: input.color_r,
                g: input.color_g,
                b: input.color_b,
                scroll: input.scroll,
                tone_hz: input.tone_hz,
                tone_level_dbfs: input.tone_level_dbfs,
            },
        ),
        InputKind::Still => match missing_media_message(input, files) {
            Some(message) => ReconcileOp::FailInput { id: input.id, message },
            None => ReconcileOp::LoadStill { id: input.id, path: path_or_empty_exec(input) },
        },
        InputKind::Video => match missing_media_message(input, files) {
            Some(message) => ReconcileOp::FailInput { id: input.id, message },
            None => ReconcileOp::StartVideo(video_start(input, false)),
        },
        InputKind::UVC => ReconcileOp::StartVideo(video_start(input, true)),
        InputKind::OMT => ReconcileOp::ConnectOmt(live_connect(input)),
        InputKind::NDI => ReconcileOp::ConnectNdi(live_connect(input)),
        InputKind::Mix => {
            let mut target_id = input.mix_target_id;
            if input.mix_source == MixSource::SessionMultiview && target_id != 0 && target_id
                < MULTIVIEW_BASE {
                target_id = multiview_gpu_id(target_id);
            }
            ReconcileOp::DefineMixInput(
                MixInputApply {
                    id: input.id,
                    target_id,
                    source_kind: match input.mix_source {
                        MixSource::MuPreview => 1,
                        MixSource::MuProgram => 2,
                        MixSource::SessionMultiview => 3,
                    },
                    delay: input.frame_buffer_frames,
                    audio_bus_id: input.mix_audio_bus_id,
                },
            )
        },
        InputKind::Audio => ReconcileOp::StartAudioCapture(
            AudioCaptureApply {
                id: input.id,
                kind: device_kind_to_abi(input.audio_device_kind),
                device_id: if input.audio_device_id.unicode_len() == 0 {
                    path_or_empty_exec(input)
                } else {
                    input.audio_device_id.clone()
                },
                mode: match input.audio_capture_mode {
                    AudioCaptureMode::Mic => 0,
                    AudioCaptureMode::EndpointLoopback => 1,
                    AudioCaptureMode::ProcessLoopback => 2,
                },
                map_left: input.audio_map_left,
                map_right: input.audio_map_right,
                process_exe: input.audio_process_exe.clone(),
                process_aumid: input.audio_process_aumid.clone(),
            },
        ),
    }
}

/// The operations that bring an input up: exactly one.
pub fn input_ops(input: &InputDto, files: &Vec<String>) -> (r: Vec<ReconcileOp>)
    ensures
        ops_view(r@) == seq![spec_input_op(input@, texts(files@))],
{
    let op = input_op(input, files);
    let r = vec![op];
    assert(ops_view(r@) =~= seq![spec_input_op(input@, texts(files@))]);
    r
}

/// A scene layer as the mixer composites it.
pub open spec fn layer_view(l: SceneLayer) -> OverlayLayerView {
    OverlayLayerView {
        source_id: l.input_id,
        x: l.x,
        y: l.y,
        width: l.width,
        height: l.height,
        crop_x: l.crop_x,
        crop_y: l.crop_y,
        crop_width: l.crop_width,
        crop_height: l.crop_height,
        opacity: l.opacity,
        z: l.z,
        audio_follow: l.audio_follow,
        hidden: l.hidden,
        label: Seq::empty(),
    }
}

pub open spec fn spec_scene_apply(scene: SceneDtoView, width: u32, height: u32) -> SceneApplyView {
    SceneApplyView {
        id: spec_scene_gpu_id(scene.id),
        width,
        height,
        layers: scene.layers.map_values(|l: SceneLayer| layer_view(l)),
    }
}

fn scene_apply(scene: &SceneDto, width: u32, height: u32) -> (r: SceneApply)
    ensures
        r@ == spec_scene_apply(scene@, width, height),
{
    let mut layers: Vec<OverlayLayer> = Vec::new();
    let mut i: usize = 0;
    while i < scene.layers.len()
        invariant
            i <= scene.layers.len(),
            layers@.map_values(|t: OverlayLayer| t@) =~= scene@.layers.map_values(
                |l: SceneLayer| layer_view(l),
            ).take(i as int),
        decreases scene.layers.len() - i,
    {
        let l = scene.layers[i];
        let x = OverlayLayer {
            source_id: l.input_id,
            x: l.x,
            y: l.y,
            width: l.width,
            height: l.height,
            crop_x: l.crop_x,
            crop_y: l.crop_y,
            crop_width: l.crop_width,
            crop_height: l.crop_height,
            opacity: l.opacity,
            z: l.z,
            audio_follow: l.audio_follow,
            hidden: l.hidden,
            label: String::new(),
        };
        let ghost before = layers@;
        layers.push(x);
        proof {
            assert(layers@.map_values(|t: OverlayLayer| t@) =~= before.map_values(
                |t: OverlayLayer| t@,
            ).push(x@));
        }
        i = i + 1;
    }
    assert(scene@.layers.map_values(|l: SceneLayer| layer_view(l)).take(i as int) =~= scene@.layers.map_values(
        |l: SceneLayer| layer_view(l),
    ));
    SceneApply { id: scene_gpu_id(scene.id), width, height, layers }
}

/// The source id a multiview tile shows, encoded for the mixer.
pub open spec fn spec_encode_slot(kind: MvSlotKind, source_id: u64) -> u64 {
    match kind {
        MvSlotKind::Empty => 0,
        MvSlotKind::Input => source_id,
        MvSlotKind::Scene => if source_id < SCENE_BASE {
            spec_scene_gpu_id(source_id)
        } else {
            source_id
        },
        MvSlotKind::MuPreview => spec_mu_preview(source_id),
        MvSlotKind::MuProgram => spec_mu_program(source_id),
    }
}

pub fn encode_slot(kind: MvSlotKind, source_id: u64) -> (r: u64)
    ensures
        r == spec_encode_slot(kind, source_id),
{
    match kind {
        MvSlotKind::Empty => 0,
        MvSlotKind::Input => source_id,
        MvSlotKind::Scene => if source_id < SCENE_BASE {
            scene_gpu_id(source_id)
        } else {
            source_id
        },
        MvSlotKind::MuPreview => mu_preview(source_id),
        MvSlotKind::MuProgram => mu_program(source_id),
    }
}

/// How many panes a template arranges.
pub open spec fn spec_tile_count(t: MultiviewTemplate) -> nat {
    match t {
        MultiviewTemplate::PreviewProgram8 => 10,
        MultiviewTemplate::PreviewProgram8Bottom => 10,
        MultiviewTemplate::PreviewProgram8Left => 10,
        MultiviewTemplate::PreviewProgram8Right => 10,
        MultiviewTemplate::PreviewProgram2 => 4,
        MultiviewTemplate::Quad4TopLeft => 7,
        MultiviewTemplate::Quad4TopRight => 7,
        MultiviewTemplate::Quad4BottomLeft => 7,
        MultiviewTemplate::Quad4BottomRight => 7,
        MultiviewTemplate::Large5TopLeft => 6,
        MultiviewTemplate::Large5TopRight => 6,
        MultiviewTemplate::Large5BottomLeft => 6,
        MultiviewTemplate::Large5BottomRight => 6,
        MultiviewTemplate::Grid2x2 => 4,
        MultiviewTemplate::Grid3x3 => 9,
        MultiviewTemplate::Grid4x4 => 16,
    }
}

impl MultiviewTemplate {
    pub fn tile_count(self) -> (r: usize)
        ensures
            r == spec_tile_count(self),
    {
        match self {
            MultiviewTemplate::PreviewProgram8 => 10,
            MultiviewTemplate::PreviewProgram8Bottom => 10,
            MultiviewTemplate::PreviewProgram8Left => 10,
            MultiviewTemplate::PreviewProgram8Right => 10,
            MultiviewTemplate::PreviewProgram2 => 4,
            MultiviewTemplate::Quad4TopLeft => 7,
            MultiviewTemplate::Quad4TopRight => 7,
            MultiviewTemplate::Quad4BottomLeft => 7,
            MultiviewTemplate::Quad4BottomRight => 7,
            MultiviewTemplate::Large5TopLeft => 6,
            MultiviewTemplate::Large5TopRight => 6,
            MultiviewTemplate::Large5BottomLeft => 6,
            MultiviewTemplate::Large5BottomRight => 6,
            MultiviewTemplate::Grid2x2 => 4,
            MultiviewTemplate::Grid3x3 => 9,
            MultiviewTemplate::Grid4x4 => 16,
        }
    }
}

/// Templates whose panes lie in the same places: two Preview/Program panes
/// over a two-pane row is the 2x2 grid.
pub open spec fn geometry_class(t: MultiviewTemplate) -> MultiviewTemplate {
    if t == MultiviewTemplate::PreviewProgram2 {
        MultiviewTemplate::Grid2x2
    } else {
        t
    }
}

pub open spec fn first_input_with(inputs: Seq<InputDtoView>, id: u64, i: int) -> int
    decreases inputs.len() - i,
{
    if i >= inputs.len() || inputs[i].id == id {
        i
    } else {
        first_input_with(inputs, id, i + 1)
    }
}

/// A scene a tile names, by GPU id or by plain id.
pub open spec fn scene_matches_tile(s: SceneDtoView, source_id: u64) -> bool {
    spec_scene_gpu_id(s.id) == source_id || s.id == source_id
}

pub open spec fn first_scene_for(scenes: Seq<SceneDtoView>, source_id: u64, i: int) -> int
    decreases scenes.len() - i,
{
    if i >= scenes.len() || scene_matches_tile(scenes[i], source_id) {
        i
    } else {
        first_scene_for(scenes, source_id, i + 1)
    }
}

pub open spec fn first_unit_with(units: Seq<UnitDtoView>, id: u64, i: int) -> int
    decreases units.len() - i,
{
    if i >= units.len() || units[i].id == id {
        i
    } else {
        first_unit_with(units, id, i + 1)
    }
}

pub open spec fn name_at_or_empty<T>(items: Seq<T>, k: int, name: spec_fn(T) -> Seq<char>) -> Seq<char> {
    if 0 <= k < items.len() {
        name(items[k])
    } else {
        Seq::empty()
    }
}

/// Label of pane `index`: the tile's own label, or when it follows its
/// source, the source's name (`PRV  ` / `PGM  ` before a unit's name).
pub open spec fn spec_tile_label(layout: MultiviewDtoView, index: int, d: DocumentView) -> Seq<char> {
    if !(0 <= index < layout.tiles.len()) {
        Seq::empty()
    } else {
        let tile = layout.tiles[index];
        if !tile.label_follow {
            tile.label
        } else {
            match tile.kind {
                MvSlotKind::Input => name_at_or_empty(
                    d.inputs,
                    first_input_with(d.inputs, tile.source_id, 0),
                    |x: InputDtoView| x.name,
                ),
                MvSlotKind::Scene => name_at_or_empty(
                    d.scenes,
                    first_scene_for(d.scenes, tile.source_id, 0),
                    |x: SceneDtoView| x.name,
                ),
                MvSlotKind::MuPreview => "PRV  "@ + name_at_or_empty(
                    d.units,
                    first_unit_with(d.units, tile.source_id, 0),
                    |x: UnitDtoView| x.name,
                ),
                MvSlotKind::MuProgram => "PGM  "@ + name_at_or_empty(
                    d.units,
                    first_unit_with(d.units, tile.source_id, 0),
                    |x: UnitDtoView| x.name,
                ),
                MvSlotKind::Empty => Seq::empty(),
            }
        }
    }
}

fn input_name_of(doc: &Document, id: u64) -> (r: String)
    ensures
        r@ == name_at_or_empty(doc@.inputs, first_input_with(doc@.inputs, id, 0), |x: InputDtoView| x.name),
{
    let mut i: usize = 0;
    while i < doc.inputs.len()
        invariant
            i <= doc.inputs.len(),
            first_input_with(doc@.inputs, id, 0) == first_input_with(doc@.inputs, id, i as int),
        decreases doc.inputs.len() - i,
    {
        if doc.inputs[i].id == id {
            assert(first_input_with(doc@.inputs, id, i as int) == i);
            assert(doc@.inputs[i as int] == doc.inputs@[i as int]@);
            return doc.inputs[i].name.clone();
        }
        i = i + 1;
    }
    String::new()
}

fn scene_name_for(doc: &Document, source_id: u64) -> (r: String)
    ensures
        r@ == name_at_or_empty(
            doc@.scenes,
            first_scene_for(doc@.scenes, source_id, 0),
            |x: SceneDtoView| x.name,
        ),
{
    let mut i: usize = 0;
    while i < doc.scenes.len()
        invariant
            i <= doc.scenes.len(),
            first_scene_for(doc@.scenes, source_id, 0) == first_scene_for(
                doc@.scenes,
                source_id,
                i as int,
            ),
        decreases doc.scenes.len() - i,
    {
        if scene_gpu_id(doc.scenes[i].id) == source_id || doc.scenes[i].id == source_id {
            assert(first_scene_for(doc@.scenes, source_id, i as int) == i);
            assert(doc@.scenes[i as int] == doc.scenes@[i as int]@);
            return doc.scenes[i].name.clone();
        }
        i = i + 1;
    }
    String::new()
}

fn unit_name_of(doc: &Document, id: u64) -> (r: String)
    ensures
        r@ == name_at_or_empty(doc@.units, first_unit_with(doc@.units, id, 0), |x: UnitDtoView| x.name),
{
    let mut i: usize = 0;
    while i < doc.units.len()
        invariant
            i <= doc.units.len(),
            first_unit_with(doc@.units, id, 0) == first_unit_with(doc@.units, id, i as int),
        decreases doc.units.len() - i,
    {
        if doc.units[i].id == id {
            assert(first_unit_with(doc@.units, id, i as int) == i);
            assert(doc@.units[i as int] == doc.units@[i as int]@);
            return doc.units[i].name.clone();
        }
        i = i + 1;
    }
    String::new()
}

fn tile_label(layout: &MultiviewDto, index: usize, doc: &Document) -> (r: String)
    ensures
        r@ == spec_tile_label(layout@, index as int, doc@),
{
    if index >= layout.tiles.len() {
        return String::new();
    }
    let tile = &layout.tiles[index];
    assert(layout@.tiles[index as int] == tile@);
    if !tile.label_follow {
        return tile.label.clone();
    }
    match tile.kind {
        MvSlotKind::Input => input_name_of(doc, tile.source_id),
        MvSlotKind::Scene => scene_name_for(doc, tile.source_id),
        MvSlotKind::MuPreview => {
            let mut m = owned("PRV  ");
            let n = unit_name_of(doc, tile.source_id);
            m.append(n.as_str());
            m
        },
        MvSlotKind::MuProgram => {
            let mut m = owned("PGM  ");
            let n = unit_name_of(doc, tile.source_id);
            m.append(n.as_str());
            m
        },
        MvSlotKind::Empty => String::new(),
    }
}

/// Index of the first tile of a kind, or the tile count when none is.
pub open spec fn first_tile_of(tiles: Seq<MvSlotView>, kind: MvSlotKind, i: int) -> int
    decreases tiles.len() - i,
{
    if i >= tiles.len() || tiles[i].kind == kind {
        i
    } else {
        first_tile_of(tiles, kind, i + 1)
    }
}

/// The unit a multiview's Preview (or Program) label binds to: the first
/// tile of that kind, else the layout's stored unit; at least 1.
pub open spec fn bound_unit(layout: MultiviewDtoView, kind: MvSlotKind, fallback: u64) -> u64 {
    let k = first_tile_of(layout.tiles, kind, 0);
    let v = if 0 <= k < layout.tiles.len() {
        layout.tiles[k].source_id
    } else {
        fallback
    };
    if v >= 1 {
        v
    } else {
        1
    }
}

pub open spec fn pane_source(layout: MultiviewDtoView, d: DocumentView, i: int) -> PaneSourceView {
    PaneSourceView {
        source_id: if i < layout.tiles.len() {
            spec_encode_slot(layout.tiles[i].kind, layout.tiles[i].source_id)
        } else {
            0
        },
        label: spec_tile_label(layout, i, d),
    }
}

/// The multiview definition of a layout: one pane per pane of its template,
/// pane `i` showing tile `i` (nothing where there is no such tile).
pub open spec fn spec_multiview_apply(layout: MultiviewDtoView, d: DocumentView, width: u32, height: u32) -> MultiviewApplyView {
    MultiviewApplyView {
        id: spec_multiview_gpu_id(layout.id),
        width,
        height,
        template: layout.template,
        panes: Seq::new(spec_tile_count(layout.template), |i: int| pane_source(layout, d, i)),
    }
}

pub open spec fn spec_multiview_op(layout: MultiviewDtoView, d: DocumentView, width: u32, height: u32) -> OpView {
    OpView::DefineMultiview {
        spec: spec_multiview_apply(layout, d, width, height),
        preview_unit: bound_unit(layout, MvSlotKind::MuPreview, layout.preview_unit_id),
        program_unit: bound_unit(layout, MvSlotKind::MuProgram, layout.program_unit_id),
    }
}

fn bound_unit_exec(layout: &MultiviewDto, kind: MvSlotKind, fallback: u64) -> (r: u64)
    ensures
        r == bound_unit(layout@, kind, fallback),
{
    let mut i: usize = 0;
    while i < layout.tiles.len()
        invariant
            i <= layout.tiles.len(),
            first_tile_of(layout@.tiles, kind, 0) == first_tile_of(layout@.tiles, kind, i as int),
        decreases layout.tiles.len() - i,
    {
        if layout.tiles[i].kind == kind {
            assert(layout@.tiles[i as int] == layout.tiles@[i as int]@);
            assert(first_tile_of(layout@.tiles, kind, i as int) == i);
            let v = layout.tiles[i].source_id;
            return if v >= 1 {
                v
            } else {
                1
            };
        }
        i = i + 1;
    }
    if fallback >= 1 {
        fallback
    } else {
        1
    }
}

fn multiview_op(layout: &MultiviewDto, doc: &Document, width: u32, height: u32) -> (r: ReconcileOp)
    ensures
        r@ == spec_multiview_op(layout@, doc@, width, height),
{
    let n = layout.template.tile_count();
    let ghost want = Seq::new(spec_tile_count(layout@.template), |i: int| pane_source(layout@, doc@, i));
    let mut panes: Vec<PaneSource> = Vec::new();
    let mut i: usize = 0;
    while i < n
        invariant
            i <= n,
            n == spec_tile_count(layout@.template),
            want == Seq::new(spec_tile_count(layout@.template), |i: int| pane_source(layout@, doc@, i)),
            panes@.map_values(|t: PaneSource| t@) =~= want.take(i as int),
        decreases n - i,
    {
        let source_id = if i < layout.tiles.len() {
            assert(layout@.tiles[i as int] == layout.tiles@[i as int]@);
            encode_slot(layout.tiles[i].kind, layout.tiles[i].source_id)
        } else {
            0
        };
        let label = tile_label(layout, i, doc);
        let x = PaneSource { source_id, label };
        let ghost before = panes@;
        panes.push(x);
        proof {
            assert(panes@.map_values(|t: PaneSource| t@) =~= before.map_values(|t: PaneSource| t@).push(
                x@,
            ));
        }
        i = i + 1;
    }
    assert(want.take(n as int) =~= want);
    let preview_unit = bound_unit_exec(layout, MvSlotKind::MuPreview, layout.preview_unit_id);
    let program_unit = bound_unit_exec(layout, MvSlotKind::MuProgram, layout.program_unit_id);
    ReconcileOp::DefineMultiview {
        spec: MultiviewApply {
            id: multiview_gpu_id(layout.id),
            width,
            height,
            template: layout.template,
            panes,
        },
        preview_unit,
        program_unit,
    }
}

/// A multiview definition with its template replaced by the class of
/// templates whose panes lie in the same places: two definitions the mixer
/// cannot tell apart have the same key.
pub open spec fn multiview_key(op: OpView) -> OpView {
    match op {
        OpView::DefineMultiview { spec, preview_unit, program_unit } => OpView::DefineMultiview {
            spec: MultiviewApplyView { template: geometry_class(spec.template), ..spec },
            preview_unit,
            program_unit,
        },
        _ => op,
    }
}

fn same_multiview(a: &ReconcileOp, b: &ReconcileOp) -> (r: bool)
    requires
        a is DefineMultiview,
        b is DefineMultiview,
    ensures
        r == (multiview_key(a@) == multiview_key(b@)),
{
    match (a, b) {
        (
            ReconcileOp::DefineMultiview { spec: sa, preview_unit: pa, program_unit: ga },
            ReconcileOp::DefineMultiview { spec: sb, preview_unit: pb, program_unit: gb },
        ) => {
            let ca = if sa.template == MultiviewTemplate::PreviewProgram2 {
                MultiviewTemplate::Grid2x2
            } else {
                sa.template
            };
            let cb = if sb.template == MultiviewTemplate::PreviewProgram2 {
                MultiviewTemplate::Grid2x2
            } else {
                sb.template
            };
            if *pa != *pb || *ga != *gb || sa.id != sb.id || sa.width != sb.width || sa.height
                != sb.height || ca != cb || sa.panes.len() != sb.panes.len() {
                proof {
                    if multiview_key(a@) == multiview_key(b@) {
                        assert(sa@.panes.len() == sa.panes@.len());
                        assert(sb@.panes.len() == sb.panes@.len());
                    }
                }
                return false;
            }
            let ghost same_keys = multiview_key(a@) == multiview_key(b@);
            proof {
                if same_keys {
                    assert(multiview_key(a@)->spec.panes == sa@.panes);
                    assert(multiview_key(b@)->spec.panes == sb@.panes);
                }
            }
            let mut i: usize = 0;
            while i < sa.panes.len()
                invariant
                    i <= sa.panes.len(),
                    sa.panes.len() == sb.panes.len(),
                    same_keys == (multiview_key(a@) == multiview_key(b@)),
                    same_keys ==> sa@.panes == sb@.panes,
                    forall|j: int| 0 <= j < i ==> sa@.panes[j] == sb@.panes[j],
                decreases sa.panes.len() - i,
            {
                assert(sa@.panes[i as int] == sa.panes@[i as int]@);
                assert(sb@.panes[i as int] == sb.panes@[i as int]@);
                if sa.panes[i].source_id != sb.panes[i].source_id || !str_eq(
                    sa.panes[i].label.as_str(),
                    sb.panes[i].label.as_str(),
                ) {
                    proof {
                        if same_keys {
                            assert(sa@.panes[i as int] == sb@.panes[i as int]);
                        }
                    }
                    return false;
                }
                i = i + 1;
            }
            assert(sa@.panes =~= sb@.panes);
            true
        },
        _ => false,
    }
}

pub open spec fn output_source_kind_abi(k: OutputSourceKind) -> u32 {
    match k {
        OutputSourceKind::Scene => 0,
        OutputSourceKind::MuPreview => 1,
        OutputSourceKind::MuProgram => 2,
        OutputSourceKind::Multiview => 3,
        OutputSourceKind::Input => 4,
    }
}

pub open spec fn transport_abi(t: OutputTransport) -> u32 {
    match t {
        OutputTransport::Omt => 0,
        OutputTransport::Ndi => 1,
        OutputTransport::DeckLink => 2,
    }
}

/// The mixer wants GPU ids for multiview and scene sources given by plain
/// id; a multiview output carries no audio bus.
pub open spec fn spec_output_apply(o: OutputDtoView) -> OutputApplyView {
    let s = o.source_id;
    OutputApplyView {
        id: o.id,
        transport: transport_abi(o.transport),
        name: o.name,
        source_kind: output_source_kind_abi(o.source_kind),
        source_id: if o.source_kind == OutputSourceKind::Multiview && s != 0 && s < MULTIVIEW_BASE {
            spec_multiview_gpu_id(s)
        } else if o.source_kind == OutputSourceKind::Scene && s != 0 && s < SCENE_BASE {
            spec_scene_gpu_id(s)
        } else {
            s
        },
        unit_id: o.unit_id,
        use_gpu: o.use_gpu,
        audio_bus_id: if o.source_kind == OutputSourceKind::Multiview {
            0
        } else {
            o.audio_bus_id
        },
        skip_encode_when_no_receivers: o.skip_encode_when_no_receivers,
    }
}

pub fn output_apply(output: &OutputDto) -> (r: OutputApply)
    ensures
        r@ == spec_output_apply(output@),
{
    let mut source_id = output.source_id;
    if output.source_kind == OutputSourceKind::Multiview && source_id != 0 && source_id
        < MULTIVIEW_BASE {
        source_id = multiview_gpu_id(source_id);
    } else if output.source_kind == OutputSourceKind::Scene && source_id != 0 && source_id
        < SCENE_BASE {
        source_id = scene_gpu_id(source_id);
    }
    OutputApply {
        id: output.id,
        transport: match output.transport {
            OutputTransport::Omt => 0,
            OutputTransport::Ndi => 1,
            OutputTransport::DeckLink => 2,
        },
        name: output.name.clone(),
        source_kind: match output.source_kind {
            OutputSourceKind::Scene => 0,
            OutputSourceKind::MuPreview => 1,
            OutputSourceKind::MuProgram => 2,
            OutputSourceKind::Multiview => 3,
            OutputSourceKind::Input => 4,
        },
        source_id,
        unit_id: output.unit_id,
        use_gpu: output.use_gpu,
        audio_bus_id: if output.source_kind == OutputSourceKind::Multiview {
            0
        } else {
            output.audio_bus_id
        },
        skip_encode_when_no_receivers: output.skip_encode_when_no_receivers,
    }
}

/// Two versions of an input that the mixer would bring up the same way.
pub open spec fn spec_input_desired_equal(a: InputDtoView, b: InputDtoView) -> bool {
    &&& a.kind == b.kind
    &&& a.path_or_address == b.path_or_address
    &&& a.color_r == b.color_r
    &&& a.color_g == b.color_g
    &&& a.color_b == b.color_b
    &&& a.scroll == b.scroll
    &&& a.use_gpu == b.use_gpu
    &&& a.frame_buffer_frames == b.frame_buffer_frames
    &&& a.mix_target_id == b.mix_target_id
    &&& a.mix_source == b.mix_source
    &&& a.capture_width == b.capture_width
    &&& a.capture_height == b.capture_height
    &&& a.capture_fps_num == b.capture_fps_num
    &&& a.capture_fps_den == b.capture_fps_den
}

fn same_path(a: &Option<String>, b: &Option<String>) -> (r: bool)
    ensures
        r == ((match a {
            Some(t) => Some(t@),
            None => None,
        }) == (match b {
            Some(t) => Some(t@),
            None => None,
        })),
{
    match (a, b) {
        (Some(x), Some(y)) => str_eq(x.as_str(), y.as_str()),
        (None, None) => true,
        _ => false,
    }
}

pub fn input_desired_equal(a: &InputDto, b: &InputDto) -> (r: bool)
    ensures
        r == spec_input_desired_equal(a@, b@),
{
    a.kind == b.kind && same_path(&a.path_or_address, &b.path_or_address) && a.color_r == b.color_r
        && a.color_g == b.color_g && a.color_b == b.color_b && a.scroll == b.scroll && a.use_gpu
        == b.use_gpu && a.frame_buffer_frames == b.frame_buffer_frames && a.mix_target_id
        == b.mix_target_id && a.mix_source == b.mix_source && a.capture_width == b.capture_width
        && a.capture_height == b.capture_height && a.capture_fps_num == b.capture_fps_num
        && a.capture_fps_den == b.capture_fps_den
}

/// Two versions of an output that publish the same way.
pub open spec fn spec_output_equal(a: OutputDtoView, b: OutputDtoView) -> bool {
    &&& a.transport == b.transport
    &&& a.name == b.name
    &&& a.source_kind == b.source_kind
    &&& a.source_id == b.source_id
    &&& a.unit_id == b.unit_id
    &&& a.use_gpu == b.use_gpu
    &&& a.enabled == b.enabled
    &&& a.audio_bus_id == b.audio_bus_id
    &&& a.skip_encode_when_no_receivers == b.skip_encode_when_no_receivers
}

pub fn output_equal(a: &OutputDto, b: &OutputDto) -> (r: bool)
    ensures
        r == spec_output_equal(a@, b@),
{
    a.transport == b.transport && str_eq(a.name.as_str(), b.name.as_str()) && a.source_kind
        == b.source_kind && a.source_id == b.source_id && a.unit_id == b.unit_id && a.use_gpu
        == b.use_gpu && a.enabled == b.enabled && a.audio_bus_id == b.audio_bus_id
        && a.skip_encode_when_no_receivers == b.skip_encode_when_no_receivers
}

/// `f(0) + f(1) + ... + f(n - 1)`.
pub open spec fn flat(n: int, f: spec_fn(int) -> Seq<OpView>) -> Seq<OpView>
    decreases n,
{
    if n <= 0 {
        Seq::empty()
    } else {
        flat(n - 1, f) + f(n - 1)
    }
}

fn extend(ops: &mut Vec<ReconcileOp>, more: Vec<ReconcileOp>)
    ensures
        ops_view(final(ops)@) == ops_view(old(ops)@) + ops_view(more@),
{
    let mut more = more;
    let ghost a = ops@;
    let ghost b = more@;
    ops.append(&mut more);
    assert(ops_view(ops@) =~= ops_view(a) + ops_view(b));
}

fn push_op(ops: &mut Vec<ReconcileOp>, op: ReconcileOp)
    ensures
        ops_view(final(ops)@) == ops_view(old(ops)@).push(op@),
{
    let ghost a = ops@;
    let ghost v = op@;
    ops.push(op);
    assert(ops_view(ops@) =~= ops_view(a).push(v));
}

fn single(op: ReconcileOp) -> (r: Vec<ReconcileOp>)
    ensures
        ops_view(r@) == seq![op@],
{
    let ghost v = op@;
    let r = vec![op];
    assert(ops_view(r@) =~= seq![v]);
    r
}

/// The document a plan compares against: the previous one, or an empty one
/// on a cold start.
pub open spec fn prev_doc(prev: Option<DocumentView>) -> DocumentView {
    match prev {
        Some(p) => p,
        None => Document::spec_default(),
    }
}

fn find_unit(units: &Vec<crate::session::model::UnitDto>, id: u64) -> (r: usize)
    ensures
        r == first_unit_with(units@.map_values(|t: crate::session::model::UnitDto| t@), id, 0),
        r <= units.len(),
{
    let ghost v = units@.map_values(|t: crate::session::model::UnitDto| t@);
    let mut i: usize = 0;
    while i < units.len()
        invariant
            i <= units.len(),
            v == units@.map_values(|t: crate::session::model::UnitDto| t@),
            first_unit_with(v, id, 0) == first_unit_with(v, id, i as int),
        decreases units.len() - i,
    {
        if units[i].id == id {
            assert(first_unit_with(v, id, i as int) == i);
            return i;
        }
        i = i + 1;
    }
    i
}

fn find_input(inputs: &Vec<InputDto>, id: u64) -> (r: usize)
    ensures
        r == first_input_with(inputs@.map_values(|t: InputDto| t@), id, 0),
        r <= inputs.len(),
{
    let ghost v = inputs@.map_values(|t: InputDto| t@);
    let mut i: usize = 0;
    while i < inputs.len()
        invariant
            i <= inputs.len(),
            v == inputs@.map_values(|t: InputDto| t@),
            first_input_with(v, id, 0) == first_input_with(v, id, i as int),
        decreases inputs.len() - i,
    {
        if inputs[i].id == id {
            assert(first_input_with(v, id, i as int) == i);
            return i;
        }
        i = i + 1;
    }
    i
}

pub open spec fn first_scene_with(scenes: Seq<SceneDtoView>, id: u64, i: int) -> int
    decreases scenes.len() - i,
{
    if i >= scenes.len() || scenes[i].id == id {
        i
    } else {
        first_scene_with(scenes, id, i + 1)
    }
}

fn find_scene(scenes: &Vec<SceneDto>, id: u64) -> (r: usize)
    ensures
        r == first_scene_with(scenes@.map_values(|t: SceneDto| t@), id, 0),
        r <= scenes.len(),
{
    let ghost v = scenes@.map_values(|t: SceneDto| t@);
    let mut i: usize = 0;
    while i < scenes.len()
        invariant
            i <= scenes.len(),
            v == scenes@.map_values(|t: SceneDto| t@),
            first_scene_with(v, id, 0) == first_scene_with(v, id, i as int),
        decreases scenes.len() - i,
    {
        if scenes[i].id == id {
            assert(first_scene_with(v, id, i as int) == i);
            return i;
        }
        i = i + 1;
    }
    i
}

pub open spec fn first_output_with(outputs: Seq<OutputDtoView>, id: u64, i: int) -> int
    decreases outputs.len() - i,
{
    if i >= outputs.len() || outputs[i].id == id {
        i
    } else {
        first_output_with(outputs, id, i + 1)
    }
}

fn find_output(outputs: &Vec<OutputDto>, id: u64) -> (r: usize)
    ensures
        r == first_output_with(outputs@.map_values(|t: OutputDto| t@), id, 0),
        r <= outputs.len(),
{
    let ghost v = outputs@.map_values(|t: OutputDto| t@);
    let mut i: usize = 0;
    while i < outputs.len()
        invariant
            i <= outputs.len(),
            v == outputs@.map_values(|t: OutputDto| t@),
            first_output_with(v, id, 0) == first_output_with(v, id, i as int),
        decreases outputs.len() - i,
    {
        if outputs[i].id == id {
            assert(first_output_with(v, id, i as int) == i);
            return i;
        }
        i = i + 1;
    }
    i
}

// ---- Mixing Units ----

pub open spec fn unit_changed(p: UnitDtoView, u: UnitDtoView) -> bool {
    p.width != u.width || p.height != u.height || p.fps_num != u.fps_num || p.fps_den != u.fps_den
}

/// A new unit is created; a new or resized (or re-timed) unit is configured.
pub open spec fn unit_item_ops(prev_units: Seq<UnitDtoView>, u: UnitDtoView) -> Seq<OpView> {
    let k = first_unit_with(prev_units, u.id, 0);
    let known = k < prev_units.len();
    (if known {
        Seq::empty()
    } else {
        seq![OpView::CreateUnit { id: u.id, width: u.width, height: u.height }]
    }) + (if !known || unit_changed(prev_units[k], u) {
        seq![
            OpView::ConfigureUnit {
                id: u.id,
                width: u.width,
                height: u.height,
                fps_num: u.fps_num,
                fps_den: u.fps_den,
            },
        ]
    } else {
        Seq::empty()
    })
}

pub open spec fn unit_items(pd: DocumentView, next: DocumentView) -> spec_fn(int) -> Seq<OpView> {
    |i: int| unit_item_ops(pd.units, next.units[i])
}

fn unit_item(prev: &Document, u: &crate::session::model::UnitDto) -> (r: Vec<ReconcileOp>)
    ensures
        ops_view(r@) == unit_item_ops(prev@.units, u@),
{
    let k = find_unit(&prev.units, u.id);
    let mut r: Vec<ReconcileOp> = Vec::new();
    if k >= prev.units.len() {
        push_op(&mut r, ReconcileOp::CreateUnit { id: u.id, width: u.width, height: u.height });
    }
    let changed = if k < prev.units.len() {
        assert(prev@.units[k as int] == prev.units@[k as int]@);
        let p = &prev.units[k];
        p.width != u.width || p.height != u.height || p.fps_num != u.fps_num || p.fps_den != u.fps_den
    } else {
        true
    };
    if changed {
        push_op(
            &mut r,
            ReconcileOp::ConfigureUnit {
                id: u.id,
                width: u.width,
                height: u.height,
                fps_num: u.fps_num,
                fps_den: u.fps_den,
            },
        );
    }
    assert(ops_view(r@) =~= unit_item_ops(prev@.units, u@));
    r
}

fn push_unit_section(ops: &mut Vec<ReconcileOp>, prev: &Document, next: &Document)
    ensures
        ops_view(final(ops)@) == ops_view(old(ops)@) + flat(
            next@.units.len() as int,
            unit_items(prev@, next@),
        ),
{
    let ghost base = ops_view(ops@);
    let mut i: usize = 0;
    while i < next.units.len()
        invariant
            i <= next.units.len(),
            ops_view(ops@) == base + flat(i as int, unit_items(prev@, next@)),
        decreases next.units.len() - i,
    {
        assert(next@.units[i as int] == next.units@[i as int]@);
        let item = unit_item(prev, &next.units[i]);
        extend(ops, item);
        assert(ops_view(ops@) =~= base + flat(i + 1, unit_items(prev@, next@)));
        i = i + 1;
    }
}

// ---- Audio buses ----

pub open spec fn bus_items(next: DocumentView) -> spec_fn(int) -> Seq<OpView> {
    |i: int| seq![OpView::UpsertBus(spec_bus_apply(next.buses[i]))]
}

fn push_bus_section(ops: &mut Vec<ReconcileOp>, next: &Document)
    ensures
        ops_view(final(ops)@) == ops_view(old(ops)@) + flat(next@.buses.len() as int, bus_items(next@)),
{
    let ghost base = ops_view(ops@);
    let mut i: usize = 0;
    while i < next.buses.len()
        invariant
            i <= next.buses.len(),
            ops_view(ops@) == base + flat(i as int, bus_items(next@)),
        decreases next.buses.len() - i,
    {
        assert(next@.buses[i as int] == next.buses@[i as int]@);
        push_op(ops, ReconcileOp::UpsertBus(bus_apply(&next.buses[i])));
        assert(ops_view(ops@) =~= base + flat(i + 1, bus_items(next@)));
        i = i + 1;
    }
}

/// A bus of the previous document that the next one lacks is removed.
pub open spec fn bus_removal_items(pd: DocumentView, next: DocumentView) -> spec_fn(int) -> Seq<OpView> {
    |i: int|
        if bus_ids(next).contains(pd.buses[i].id) {
            Seq::empty()
        } else {
            seq![OpView::RemoveBus { id: pd.buses[i].id }]
        }
}

fn push_bus_removals(ops: &mut Vec<ReconcileOp>, prev: &Document, next: &Document)
    ensures
        ops_view(final(ops)@) == ops_view(old(ops)@) + flat(
            prev@.buses.len() as int,
            bus_removal_items(prev@, next@),
        ),
{
    let ghost base = ops_view(ops@);
    let next_ids = bus_id_list(next);
    let mut i: usize = 0;
    while i < prev.buses.len()
        invariant
            i <= prev.buses.len(),
            next_ids@ == bus_ids(next@),
            ops_view(ops@) == base + flat(i as int, bus_removal_items(prev@, next@)),
        decreases prev.buses.len() - i,
    {
        assert(prev@.buses[i as int] == prev.buses@[i as int]@);
        if !vec_contains(&next_ids, prev.buses[i].id) {
            push_op(ops, ReconcileOp::RemoveBus { id: prev.buses[i].id });
        }
        assert(ops_view(ops@) =~= base + flat(i + 1, bus_removal_items(prev@, next@)));
        i = i + 1;
    }
}

// ---- Inputs ----

/// An input that changed how the mixer brings it up is torn down (unless
/// its file was already missing) and brought up again; a new input is
/// brought up.
pub open spec fn input_item_ops(prev_inputs: Seq<InputDtoView>, x: InputDtoView, files: Seq<Seq<char>>) -> Seq<
    OpView,
> {
    let k = first_input_with(prev_inputs, x.id, 0);
    if k < prev_inputs.len() {
        let p = prev_inputs[k];
        if spec_input_desired_equal(p, x) {
            Seq::empty()
        } else {
            (if !spec_media_file_missing(p, files) {
                seq![OpView::DestroySource { id: x.id }]
            } else {
                Seq::empty()
            }) + seq![spec_input_op(x, files)]
        }
    } else {
        seq![spec_input_op(x, files)]
    }
}

pub open spec fn input_items(pd: DocumentView, next: DocumentView, files: Seq<Seq<char>>) -> spec_fn(
    int,
) -> Seq<OpView> {
    |i: int| input_item_ops(pd.inputs, next.inputs[i], files)
}

fn input_item(prev: &Document, x: &InputDto, files: &Vec<String>) -> (r: Vec<ReconcileOp>)
    ensures
        ops_view(r@) == input_item_ops(prev@.inputs, x@, texts(files@)),
{
    let k = find_input(&prev.inputs, x.id);
    if k < prev.inputs.len() {
        assert(prev@.inputs[k as int] == prev.inputs@[k as int]@);
        let p = &prev.inputs[k];
        if input_desired_equal(p, x) {
            let r: Vec<ReconcileOp> = Vec::new();
            assert(ops_view(r@) =~= Seq::empty());
            return r;
        }
        let mut r: Vec<ReconcileOp> = Vec::new();
        if !media_file_missing(p, files) {
            push_op(&mut r, ReconcileOp::DestroySource { id: x.id });
        }
        push_op(&mut r, input_op(x, files));
        assert(ops_view(r@) =~= input_item_ops(prev@.inputs, x@, texts(files@)));
        r
    } else {
        input_ops(x, files)
    }
}

fn push_input_section(ops: &mut Vec<ReconcileOp>, prev: &Document, next: &Document, files: &Vec<String>)
    ensures
        ops_view(final(ops)@) == ops_view(old(ops)@) + flat(
            next@.inputs.len() as int,
            input_items(prev@, next@, texts(files@)),
        ),
{
    let ghost base = ops_view(ops@);
    let mut i: usize = 0;
    while i < next.inputs.len()
        invariant
            i <= next.inputs.len(),
            ops_view(ops@) == base + flat(i as int, input_items(prev@, next@, texts(files@))),
        decreases next.inputs.len() - i,
    {
        assert(next@.inputs[i as int] == next.inputs@[i as int]@);
        let item = input_item(prev, &next.inputs[i], files);
        extend(ops, item);
        assert(ops_view(ops@) =~= base + flat(i + 1, input_items(prev@, next@, texts(files@))));
        i = i + 1;
    }
}

/// An input of the previous document that the next one lacks is destroyed.
pub open spec fn input_removal_items(pd: DocumentView, next: DocumentView) -> spec_fn(int) -> Seq<OpView> {
    |i: int|
        if input_id_seq(next).contains(pd.inputs[i].id) {
            Seq::empty()
        } else {
            seq![OpView::DestroySource { id: pd.inputs[i].id }]
        }
}

fn push_input_removals(ops: &mut Vec<ReconcileOp>, prev: &Document, next: &Document)
    ensures
        ops_view(final(ops)@) == ops_view(old(ops)@) + flat(
            prev@.inputs.len() as int,
            input_removal_items(prev@, next@),
        ),
{
    let ghost base = ops_view(ops@);
    let next_ids = input_ids(next);
    let mut i: usize = 0;
    while i < prev.inputs.len()
        invariant
            i <= prev.inputs.len(),
            next_ids@ == input_id_seq(next@),
            ops_view(ops@) == base + flat(i as int, input_removal_items(prev@, next@)),
        decreases prev.inputs.len() - i,
    {
        assert(prev@.inputs[i as int] == prev.inputs@[i as int]@);
        if !vec_contains(&next_ids, prev.inputs[i].id) {
            push_op(ops, ReconcileOp::DestroySource { id: prev.inputs[i].id });
        }
        assert(ops_view(ops@) =~= base + flat(i + 1, input_removal_items(prev@, next@)));
        i = i + 1;
    }
}

// ---- Scenes ----

/// A scene is (re)defined unless the previous document defines it the same
/// way.
pub open spec fn scene_item_ops(prev_scenes: Seq<SceneDtoView>, sc: SceneDtoView, width: u32, height: u32) -> Seq<
    OpView,
> {
    let k = first_scene_with(prev_scenes, sc.id, 0);
    if k < prev_scenes.len() && spec_scene_apply(prev_scenes[k], width, height) == spec_scene_apply(
        sc,
        width,
        height,
    ) {
        Seq::empty()
    } else {
        seq![OpView::DefineScene(spec_scene_apply(sc, width, height))]
    }
}

pub open spec fn scene_items(pd: DocumentView, next: DocumentView) -> spec_fn(int) -> Seq<OpView> {
    |i: int|
        scene_item_ops(
            pd.scenes,
            next.scenes[i],
            next.settings.default_width,
            next.settings.default_height,
        )
}

fn same_layers(a: &SceneDto, b: &SceneDto, width: u32, height: u32) -> (r: bool)
    ensures
        r == (spec_scene_apply(a@, width, height) == spec_scene_apply(b@, width, height)),
{
    let ghost la = a@.layers.map_values(|l: SceneLayer| layer_view(l));
    let ghost lb = b@.layers.map_values(|l: SceneLayer| layer_view(l));
    if scene_gpu_id(a.id) != scene_gpu_id(b.id) || a.layers.len() != b.layers.len() {
        proof {
            if spec_scene_apply(a@, width, height) == spec_scene_apply(b@, width, height) {
                assert(la.len() == lb.len());
            }
        }
        return false;
    }
    let mut i: usize = 0;
    while i < a.layers.len()
        invariant
            i <= a.layers.len(),
            a.layers.len() == b.layers.len(),
            la == a@.layers.map_values(|l: SceneLayer| layer_view(l)),
            lb == b@.layers.map_values(|l: SceneLayer| layer_view(l)),
            forall|j: int| 0 <= j < i ==> la[j] == lb[j],
        decreases a.layers.len() - i,
    {
        let x = a.layers[i];
        let y = b.layers[i];
        if !(x.input_id == y.input_id && x.x == y.x && x.y == y.y && x.width == y.width && x.height
            == y.height && x.crop_x == y.crop_x && x.crop_y == y.crop_y && x.crop_width
            == y.crop_width && x.crop_height == y.crop_height && x.opacity == y.opacity && x.z == y.z
            && x.audio_follow == y.audio_follow && x.hidden == y.hidden) {
            proof {
                if la == lb {
                    assert(la[i as int] == lb[i as int]);
                }
            }
            return false;
        }
        assert(la[i as int] == lb[i as int]);
        i = i + 1;
    }
    assert(la =~= lb);
    true
}

fn push_scene_section(ops: &mut Vec<ReconcileOp>, prev: &Document, next: &Document)
    ensures
        ops_view(final(ops)@) == ops_view(old(ops)@) + flat(
            next@.scenes.len() as int,
            scene_items(prev@, next@),
        ),
{
    let ghost base = ops_view(ops@);
    let width = next.settings.default_width;
    let height = next.settings.default_height;
    let mut i: usize = 0;
    while i < next.scenes.len()
        invariant
            i <= next.scenes.len(),
            width == next@.settings.default_width,
            height == next@.settings.default_height,
            ops_view(ops@) == base + flat(i as int, scene_items(prev@, next@)),
        decreases next.scenes.len() - i,
    {
        assert(next@.scenes[i as int] == next.scenes@[i as int]@);
        let sc = &next.scenes[i];
        let k = find_scene(&prev.scenes, sc.id);
        let unchanged = if k < prev.scenes.len() {
            assert(prev@.scenes[k as int] == prev.scenes@[k as int]@);
            same_layers(&prev.scenes[k], sc, width, height)
        } else {
            false
        };
        if !unchanged {
            push_op(ops, ReconcileOp::DefineScene(scene_apply(sc, width, height)));
        }
        assert(ops_view(ops@) =~= base + flat(i + 1, scene_items(prev@, next@)));
        i = i + 1;
    }
}

/// A scene of the previous document that the next one lacks is destroyed.
pub open spec fn scene_removal_items(pd: DocumentView, next: DocumentView) -> spec_fn(int) -> Seq<OpView> {
    |i: int|
        if scene_id_seq(next).contains(pd.scenes[i].id) {
            Seq::empty()
        } else {
            seq![OpView::DestroyScene { id: spec_scene_gpu_id(pd.scenes[i].id) }]
        }
}

fn push_scene_removals(ops: &mut Vec<ReconcileOp>, prev: &Document, next: &Document)
    ensures
        ops_view(final(ops)@) == ops_view(old(ops)@) + flat(
            prev@.scenes.len() as int,
            scene_removal_items(prev@, next@),
        ),
{
    let ghost base = ops_view(ops@);
    let next_ids = scene_ids(next);
    let mut i: usize = 0;
    while i < prev.scenes.len()
        invariant
            i <= prev.scenes.len(),
            next_ids@ == scene_id_seq(next@),
            ops_view(ops@) == base + flat(i as int, scene_removal_items(prev@, next@)),
        decreases prev.scenes.len() - i,
    {
        assert(prev@.scenes[i as int] == prev.scenes@[i as int]@);
        if !vec_contains(&next_ids, prev.scenes[i].id) {
            push_op(ops, ReconcileOp::DestroyScene { id: scene_gpu_id(prev.scenes[i].id) });
        }
        assert(ops_view(ops@) =~= base + flat(i + 1, scene_removal_items(prev@, next@)));
        i = i + 1;
    }
}

// ---- Multiviews ----

/// A multiview is (re)defined unless a previous layout with its id defined
/// it the same way.
pub open spec fn multiview_item_ops(pd: DocumentView, next: DocumentView, layout: MultiviewDtoView) -> Seq<
    OpView,
> {
    let w = next.settings.default_width;
    let h = next.settings.default_height;
    let op = spec_multiview_op(layout, next, w, h);
    if exists|j: int|
        0 <= j < pd.multiviews.len() && pd.multiviews[j].id == layout.id && #[trigger] multiview_key(
            spec_multiview_op(pd.multiviews[j], pd, w, h),
        ) == multiview_key(op) {
        Seq::empty()
    } else {
        seq![op]
    }
}

pub open spec fn multiview_items(pd: DocumentView, next: DocumentView) -> spec_fn(int) -> Seq<OpView> {
    |i: int| multiview_item_ops(pd, next, next.multiviews[i])
}

fn multiview_item(prev: &Document, next: &Document, layout: &MultiviewDto) -> (r: Vec<ReconcileOp>)
    ensures
        ops_view(r@) == multiview_item_ops(prev@, next@, layout@),
{
    let w = next.settings.default_width;
    let h = next.settings.default_height;
    let op = multiview_op(layout, next, w, h);
    let ghost want = multiview_key(spec_multiview_op(layout@, next@, w, h));
    let mut j: usize = 0;
    while j < prev.multiviews.len()
        invariant
            j <= prev.multiviews.len(),
            op@ == spec_multiview_op(layout@, next@, w, h),
            want == multiview_key(op@),
            w == next@.settings.default_width,
            h == next@.settings.default_height,
            forall|t: int|
                0 <= t < j ==> !(prev@.multiviews[t].id == layout@.id && #[trigger] multiview_key(
                    spec_multiview_op(prev@.multiviews[t], prev@, w, h),
                ) == want),
        decreases prev.multiviews.len() - j,
    {
        assert(prev@.multiviews[j as int] == prev.multiviews@[j as int]@);
        if prev.multiviews[j].id == layout.id {
            let prev_op = multiview_op(&prev.multiviews[j], prev, w, h);
            if same_multiview(&prev_op, &op) {
                let r: Vec<ReconcileOp> = Vec::new();
                assert(ops_view(r@) =~= Seq::empty());
                return r;
            }
        }
        j = j + 1;
    }
    single(op)
}

fn push_multiview_section(ops: &mut Vec<ReconcileOp>, prev: &Document, next: &Document)
    ensures
        ops_view(final(ops)@) == ops_view(old(ops)@) + flat(
            next@.multiviews.len() as int,
            multiview_items(prev@, next@),
        ),
{
    let ghost base = ops_view(ops@);
    let mut i: usize = 0;
    while i < next.multiviews.len()
        invariant
            i <= next.multiviews.len(),
            ops_view(ops@) == base + flat(i as int, multiview_items(prev@, next@)),
        decreases next.multiviews.len() - i,
    {
        assert(next@.multiviews[i as int] == next.multiviews@[i as int]@);
        let item = multiview_item(prev, next, &next.multiviews[i]);
        extend(ops, item);
        assert(ops_view(ops@) =~= base + flat(i + 1, multiview_items(prev@, next@)));
        i = i + 1;
    }
}

/// A multiview of the previous document that the next one lacks is
/// destroyed.
pub open spec fn multiview_removal_items(pd: DocumentView, next: DocumentView) -> spec_fn(int) -> Seq<
    OpView,
> {
    |i: int|
        if multiview_id_seq(next).contains(pd.multiviews[i].id) {
            Seq::empty()
        } else {
            seq![OpView::DestroyScene { id: spec_multiview_gpu_id(pd.multiviews[i].id) }]
        }
}

fn push_multiview_removals(ops: &mut Vec<ReconcileOp>, prev: &Document, next: &Document)
    ensures
        ops_view(final(ops)@) == ops_view(old(ops)@) + flat(
            prev@.multiviews.len() as int,
            multiview_removal_items(prev@, next@),
        ),
{
    let ghost base = ops_view(ops@);
    let next_ids = multiview_ids(next);
    let mut i: usize = 0;
    while i < prev.multiviews.len()
        invariant
            i <= prev.multiviews.len(),
            next_ids@ == multiview_id_seq(next@),
            ops_view(ops@) == base + flat(i as int, multiview_removal_items(prev@, next@)),
        decreases prev.multiviews.len() - i,
    {
        assert(prev@.multiviews[i as int] == prev.multiviews@[i as int]@);
        if !vec_contains(&next_ids, prev.multiviews[i].id) {
            push_op(ops, ReconcileOp::DestroyScene { id: multiview_gpu_id(prev.multiviews[i].id) });
        }
        assert(ops_view(ops@) =~= base + flat(i + 1, multiview_removal_items(prev@, next@)));
        i = i + 1;
    }
}

// ---- Live buses and audio links ----

/// Preview of a new unit without a stored scene: the first scene.
pub open spec fn fallback_preview(next: DocumentView) -> u64 {
    if next.scenes.len() > 0 {
        spec_scene_gpu_id(next.scenes[0].id)
    } else {
        0
    }
}

/// Program of a new unit without a stored scene: the second scene, else
/// the Preview fallback.
pub open spec fn fallback_program(next: DocumentView) -> u64 {
    if next.scenes.len() > 1 {
        spec_scene_gpu_id(next.scenes[1].id)
    } else {
        fallback_preview(next)
    }
}

pub open spec fn link_mode_abi(m: AudioLinkMode) -> u32 {
    match m {
        AudioLinkMode::Follow => 0,
        AudioLinkMode::Independent => 1,
    }
}

/// A new unit gets its buses seeded (stored scenes win over the fallbacks);
/// every unit gets its audio link.
pub open spec fn live_item_ops(pd: DocumentView, next: DocumentView, u: UnitDtoView) -> Seq<OpView> {
    (if !unit_id_seq(pd).contains(u.id) {
        seq![
            OpView::SetLiveState {
                unit_id: u.id,
                program: if u.program_scene_id != 0 {
                    spec_scene_gpu_id(u.program_scene_id)
                } else {
                    fallback_program(next)
                },
                preview: if u.preview_scene_id != 0 {
                    spec_scene_gpu_id(u.preview_scene_id)
                } else {
                    fallback_preview(next)
                },
            },
        ]
    } else {
        Seq::empty()
    }) + seq![
        OpView::AudioUnitLink {
            unit_id: u.id,
            bus_id: if u.audio_bus_id == 0 {
                1
            } else {
                u.audio_bus_id
            },
            mode: link_mode_abi(u.audio_link),
        },
    ]
}

pub open spec fn live_items(pd: DocumentView, next: DocumentView) -> spec_fn(int) -> Seq<OpView> {
    |i: int| live_item_ops(pd, next, next.units[i])
}

fn push_live_section(ops: &mut Vec<ReconcileOp>, prev: &Document, next: &Document)
    ensures
        ops_view(final(ops)@) == ops_view(old(ops)@) + flat(
            next@.units.len() as int,
            live_items(prev@, next@),
        ),
{
    let ghost base = ops_view(ops@);
    let prev_ids = unit_ids(prev);
    let preview_default = if next.scenes.len() > 0 {
        scene_gpu_id(next.scenes[0].id)
    } else {
        0
    };
    let program_default = if next.scenes.len() > 1 {
        scene_gpu_id(next.scenes[1].id)
    } else {
        preview_default
    };
    let mut i: usize = 0;
    while i < next.units.len()
        invariant
            i <= next.units.len(),
            prev_ids@ == unit_id_seq(prev@),
            preview_default == fallback_preview(next@),
            program_default == fallback_program(next@),
            ops_view(ops@) == base + flat(i as int, live_items(prev@, next@)),
        decreases next.units.len() - i,
    {
        assert(next@.units[i as int] == next.units@[i as int]@);
        let u = &next.units[i];
        if !vec_contains(&prev_ids, u.id) {
            let preview = if u.preview_scene_id != 0 {
                scene_gpu_id(u.preview_scene_id)
            } else {
                preview_default
            };
            let program = if u.program_scene_id != 0 {
                scene_gpu_id(u.program_scene_id)
            } else {
                program_default
            };
            push_op(ops, ReconcileOp::SetLiveState { unit_id: u.id, program, preview });
        }
        push_op(
            ops,
            ReconcileOp::AudioUnitLink {
                unit_id: u.id,
                bus_id: if u.audio_bus_id == 0 {
                    1
                } else {
                    u.audio_bus_id
                },
                mode: match u.audio_link {
                    AudioLinkMode::Follow => 0,
                    AudioLinkMode::Independent => 1,
                },
            },
        );
        assert(ops_view(ops@) =~= base + flat(i + 1, live_items(prev@, next@)));
        i = i + 1;
    }
}

pub open spec fn audio_items(next: DocumentView) -> spec_fn(int) -> Seq<OpView> {
    |i: int|
        seq![
            OpView::AudioInput {
                id: next.inputs[i].id,
                bus_mask: next.inputs[i].bus_mask,
                gain: next.inputs[i].gain,
                mute: next.inputs[i].mute,
            },
        ]
}

fn push_audio_section(ops: &mut Vec<ReconcileOp>, next: &Document)
    ensures
        ops_view(final(ops)@) == ops_view(old(ops)@) + flat(next@.inputs.len() as int, audio_items(next@)),
{
    let ghost base = ops_view(ops@);
    let mut i: usize = 0;
    while i < next.inputs.len()
        invariant
            i <= next.inputs.len(),
            ops_view(ops@) == base + flat(i as int, audio_items(next@)),
        decreases next.inputs.len() - i,
    {
        assert(next@.inputs[i as int] == next.inputs@[i as int]@);
        let x = &next.inputs[i];
        push_op(
            ops,
            ReconcileOp::AudioInput { id: x.id, bus_mask: x.bus_mask, gain: x.gain, mute: x.mute },
        );
        assert(ops_view(ops@) =~= base + flat(i + 1, audio_items(next@)));
        i = i + 1;
    }
}

// ---- Outputs ----

/// A disabled or DeckLink output is only removed (when it was running); a
/// changed output is removed and added again; a new one is added.
pub open spec fn output_item_ops(prev_outputs: Seq<OutputDtoView>, o: OutputDtoView) -> Seq<OpView> {
    let k = first_output_with(prev_outputs, o.id, 0);
    let known = k < prev_outputs.len();
    if !o.enabled || o.transport == OutputTransport::DeckLink {
        if known {
            seq![OpView::RemoveOutput { id: o.id }]
        } else {
            Seq::empty()
        }
    } else if known && spec_output_equal(prev_outputs[k], o) {
        Seq::empty()
    } else {
        (if known {
            seq![OpView::RemoveOutput { id: o.id }]
        } else {
            Seq::empty()
        }) + seq![OpView::AddOutput(spec_output_apply(o))]
    }
}

pub open spec fn output_items(pd: DocumentView, next: DocumentView) -> spec_fn(int) -> Seq<OpView> {
    |i: int| output_item_ops(pd.outputs, next.outputs[i])
}

proof fn lemma_first_output_found(outputs: Seq<OutputDtoView>, id: u64, i: int)
    requires
        0 <= i <= outputs.len(),
    ensures
        first_output_with(outputs, id, i) < outputs.len() <==> exists|j: int|
            i <= j < outputs.len() && outputs[j].id == id,
    decreases outputs.len() - i,
{
    if i < outputs.len() {
        lemma_first_output_found(outputs, id, i + 1);
        if outputs[i].id != id && exists|j: int| i <= j < outputs.len() && outputs[j].id == id {
            let j = choose|j: int| i <= j < outputs.len() && outputs[j].id == id;
            assert(i + 1 <= j);
        }
    }
}

fn output_item(prev: &Document, o: &OutputDto) -> (r: Vec<ReconcileOp>)
    ensures
        ops_view(r@) == output_item_ops(prev@.outputs, o@),
{
    let k = find_output(&prev.outputs, o.id);
    let mut r: Vec<ReconcileOp> = Vec::new();
    if !o.enabled || o.transport == OutputTransport::DeckLink {
        if k < prev.outputs.len() {
            push_op(&mut r, ReconcileOp::RemoveOutput { id: o.id });
        }
        assert(ops_view(r@) =~= output_item_ops(prev@.outputs, o@));
        return r;
    }
    if k < prev.outputs.len() {
        assert(prev@.outputs[k as int] == prev.outputs@[k as int]@);
        if output_equal(&prev.outputs[k], o) {
            assert(ops_view(r@) =~= output_item_ops(prev@.outputs, o@));
            return r;
        }
        push_op(&mut r, ReconcileOp::RemoveOutput { id: o.id });
    }
    push_op(&mut r, ReconcileOp::AddOutput(output_apply(o)));
    assert(ops_view(r@) =~= output_item_ops(prev@.outputs, o@));
    r
}

fn push_output_section(ops: &mut Vec<ReconcileOp>, prev: &Document, next: &Document)
    ensures
        ops_view(final(ops)@) == ops_view(old(ops)@) + flat(
            next@.outputs.len() as int,
            output_items(prev@, next@),
        ),
{
    let ghost base = ops_view(ops@);
    let mut i: usize = 0;
    while i < next.outputs.len()
        invariant
            i <= next.outputs.len(),
            ops_view(ops@) == base + flat(i as int, output_items(prev@, next@)),
        decreases next.outputs.len() - i,
    {
        assert(next@.outputs[i as int] == next.outputs@[i as int]@);
        let item = output_item(prev, &next.outputs[i]);
        extend(ops, item);
        assert(ops_view(ops@) =~= base + flat(i + 1, output_items(prev@, next@)));
        i = i + 1;
    }
}

/// A running output of the previous document is removed unless the next
/// document has an output with its id and it was enabled.
pub open spec fn output_removal_items(pd: DocumentView, next: DocumentView) -> spec_fn(int) -> Seq<
    OpView,
> {
    |i: int|
        if output_ids(next).contains(pd.outputs[i].id) && pd.outputs[i].enabled {
            Seq::empty()
        } else {
            seq![OpView::RemoveOutput { id: pd.outputs[i].id }]
        }
}

fn push_output_removals(ops: &mut Vec<ReconcileOp>, prev: &Document, next: &Document)
    ensures
        ops_view(final(ops)@) == ops_view(old(ops)@) + flat(
            prev@.outputs.len() as int,
            output_removal_items(prev@, next@),
        ),
{
    let ghost base = ops_view(ops@);
    let next_ids = output_id_list(next);
    let mut i: usize = 0;
    while i < prev.outputs.len()
        invariant
            i <= prev.outputs.len(),
            next_ids@ == output_ids(next@),
            ops_view(ops@) == base + flat(i as int, output_removal_items(prev@, next@)),
        decreases prev.outputs.len() - i,
    {
        assert(prev@.outputs[i as int] == prev.outputs@[i as int]@);
        if !(vec_contains(&next_ids, prev.outputs[i].id) && prev.outputs[i].enabled) {
            push_op(ops, ReconcileOp::RemoveOutput { id: prev.outputs[i].id });
        }
        assert(ops_view(ops@) =~= base + flat(i + 1, output_removal_items(prev@, next@)));
        i = i + 1;
    }
}

// ---- API endpoints and unit teardown ----

/// The vMix API is configured on a cold start and whenever its settings
/// change.
pub open spec fn vmix_ops(prev: Option<DocumentView>, next: DocumentView) -> Seq<OpView> {
    let n = next.settings;
    let changed = match prev {
        None => true,
        Some(p) => p.settings.vmix_api_enabled != n.vmix_api_enabled || p.settings.vmix_tcp_enabled
            != n.vmix_tcp_enabled || p.settings.vmix_api_port != n.vmix_api_port
            || p.settings.vmix_api_user != n.vmix_api_user || p.settings.vmix_api_password
            != n.vmix_api_password,
    };
    if changed {
        seq![
            OpView::ConfigureVmixApi {
                http_enabled: n.vmix_api_enabled,
                tcp_enabled: n.vmix_tcp_enabled,
                port: n.vmix_api_port,
                user: n.vmix_api_user,
                pass: n.vmix_api_password,
            },
        ]
    } else {
        Seq::empty()
    }
}

fn push_vmix(ops: &mut Vec<ReconcileOp>, previous: Option<&Document>, next: &Document)
    ensures
        ops_view(final(ops)@) == ops_view(old(ops)@) + vmix_ops(
            match previous {
                Some(p) => Some(p@),
                None => None,
            },
            next@,
        ),
{
    let ghost base = ops_view(ops@);
    let n = &next.settings;
    let changed = match previous {
        None => true,
        Some(p) => p.settings.vmix_api_enabled != n.vmix_api_enabled || p.settings.vmix_tcp_enabled
            != n.vmix_tcp_enabled || p.settings.vmix_api_port != n.vmix_api_port || !str_eq(
            p.settings.vmix_api_user.as_str(),
            n.vmix_api_user.as_str(),
        ) || !str_eq(p.settings.vmix_api_password.as_str(), n.vmix_api_password.as_str()),
    };
    if changed {
        push_op(
            ops,
            ReconcileOp::ConfigureVmixApi {
                http_enabled: n.vmix_api_enabled,
                tcp_enabled: n.vmix_tcp_enabled,
                port: n.vmix_api_port,
                user: n.vmix_api_user.clone(),
                pass: n.vmix_api_password.clone(),
            },
        );
    }
    assert(ops_view(ops@) =~= base + vmix_ops(
        match previous {
            Some(p) => Some(p@),
            None => None,
        },
        next@,
    ));
}

/// A unit of the previous document that the next one lacks is destroyed.
pub open spec fn unit_removal_items(pd: DocumentView, next: DocumentView) -> spec_fn(int) -> Seq<OpView> {
    |i: int|
        if unit_id_seq(next).contains(pd.units[i].id) {
            Seq::empty()
        } else {
            seq![OpView::DestroyUnit { id: pd.units[i].id }]
        }
}

fn push_unit_removals(ops: &mut Vec<ReconcileOp>, prev: &Document, next: &Document)
    ensures
        ops_view(final(ops)@) == ops_view(old(ops)@) + flat(
            prev@.units.len() as int,
            unit_removal_items(prev@, next@),
        ),
{
    let ghost base = ops_view(ops@);
    let next_ids = unit_ids(next);
    let mut i: usize = 0;
    while i < prev.units.len()
        invariant
            i <= prev.units.len(),
            next_ids@ == unit_id_seq(next@),
            ops_view(ops@) == base + flat(i as int, unit_removal_items(prev@, next@)),
        decreases prev.units.len() - i,
    {
        assert(prev@.units[i as int] == prev.units@[i as int]@);
        if !vec_contains(&next_ids, prev.units[i].id) {
            push_op(ops, ReconcileOp::DestroyUnit { id: prev.units[i].id });
        }
        assert(ops_view(ops@) =~= base + flat(i + 1, unit_removal_items(prev@, next@)));
        i = i + 1;
    }
}

// ---- The plan ----

/// The operations, in order, that take the mixer from `prev` (or from
/// nothing) to `next`.
pub open spec fn spec_plan(prev: Option<DocumentView>, next: DocumentView, files: Seq<Seq<char>>) -> Seq<
    OpView,
> {
    let pd = prev_doc(prev);
    seq![OpView::Settings] + flat(next.units.len() as int, unit_items(pd, next)) + flat(
        next.buses.len() as int,
        bus_items(next),
    ) + flat(pd.buses.len() as int, bus_removal_items(pd, next)) + flat(
        next.inputs.len() as int,
        input_items(pd, next, files),
    ) + flat(pd.inputs.len() as int, input_removal_items(pd, next)) + flat(
        next.scenes.len() as int,
        scene_items(pd, next),
    ) + flat(pd.scenes.len() as int, scene_removal_items(pd, next)) + flat(
        next.multiviews.len() as int,
        multiview_items(pd, next),
    ) + flat(pd.multiviews.len() as int, multiview_removal_items(pd, next)) + flat(
        next.units.len() as int,
        live_items(pd, next),
    ) + flat(next.inputs.len() as int, audio_items(next)) + seq![
        OpView::HeadphoneCopyMaster { enabled: next.headphone_copy_master },
    ] + flat(next.outputs.len() as int, output_items(pd, next)) + flat(
        pd.outputs.len() as int,
        output_removal_items(pd, next),
    ) + vmix_ops(prev, next) + flat(pd.units.len() as int, unit_removal_items(pd, next))
}

/// Plans the mixer operations that apply `next` on top of `previous` (or
/// from nothing). `files` are the paths that name existing regular files.
pub fn plan(previous: Option<&Document>, next: &Document, files: &Vec<String>) -> (r: Vec<ReconcileOp>)
    ensures
        ops_view(r@) == spec_plan(
            match previous {
                Some(p) => Some(p@),
                None => None,
            },
            next@,
            texts(files@),
        ),
{
    let empty = Document::default();
    let prev: &Document = match previous {
        Some(p) => p,
        None => &empty,
    };
    let mut ops: Vec<ReconcileOp> = Vec::new();
    push_op(&mut ops, ReconcileOp::Settings);
    push_unit_section(&mut ops, prev, next);
    push_bus_section(&mut ops, next);
    push_bus_removals(&mut ops, prev, next);
    push_input_section(&mut ops, prev, next, files);
    push_input_removals(&mut ops, prev, next);
    push_scene_section(&mut ops, prev, next);
    push_scene_removals(&mut ops, prev, next);
    push_multiview_section(&mut ops, prev, next);
    push_multiview_removals(&mut ops, prev, next);
    push_live_section(&mut ops, prev, next);
    push_audio_section(&mut ops, next);
    push_op(&mut ops, ReconcileOp::HeadphoneCopyMaster { enabled: next.headphone_copy_master });
    push_output_section(&mut ops, prev, next);
    push_output_removals(&mut ops, prev, next);
    push_vmix(&mut ops, previous, next);
    push_unit_removals(&mut ops, prev, next);
    proof {
        let ghost pv = match previous {
            Some(p) => Some(p@),
            None => None,
        };
        assert(prev@ == prev_doc(pv));
        assert(ops_view(ops@) =~= spec_plan(pv, next@, texts(files@)));
    }
    ops
}

// ---- Repair of the live buses ----

/// A live bus source the next document still has: nothing (0), a unit's
/// Preview or Program, a multiview, a scene, or an input.
pub open spec fn spec_source_still_live(d: DocumentView, source: u64) -> bool {
    if source == 0 {
        true
    } else if source & MU_SOURCE_FLAG == MU_SOURCE_FLAG {
        unit_id_seq(d).contains(source & MU_ID_MASK)
    } else if source & MULTIVIEW_BASE == MULTIVIEW_BASE {
        exists|j: int| 0 <= j < d.multiviews.len() && spec_multiview_gpu_id(d.multiviews[j].id) == source
    } else if source & SCENE_BASE == SCENE_BASE {
        exists|j: int| 0 <= j < d.scenes.len() && spec_scene_gpu_id(d.scenes[j].id) == source
    } else {
        input_id_seq(d).contains(source)
    }
}

fn source_still_live(doc: &Document, source: u64) -> (r: bool)
    ensures
        r == spec_source_still_live(doc@, source),
{
    if source == 0 {
        return true;
    }
    if source & MU_SOURCE_FLAG == MU_SOURCE_FLAG {
        let ids = unit_ids(doc);
        return vec_contains(&ids, source & MU_ID_MASK);
    }
    if source & MULTIVIEW_BASE == MULTIVIEW_BASE {
        let mut j: usize = 0;
        while j < doc.multiviews.len()
            invariant
                j <= doc.multiviews.len(),
                source != 0,
                source & MU_SOURCE_FLAG != MU_SOURCE_FLAG,
                source & MULTIVIEW_BASE == MULTIVIEW_BASE,
                forall|t: int| 0 <= t < j ==> spec_multiview_gpu_id(doc@.multiviews[t].id) != source,
            decreases doc.multiviews.len() - j,
        {
            assert(doc@.multiviews[j as int] == doc.multiviews@[j as int]@);
            if multiview_gpu_id(doc.multiviews[j].id) == source {
                return true;
            }
            j = j + 1;
        }
        return false;
    }
    if source & SCENE_BASE == SCENE_BASE {
        let mut j: usize = 0;
        while j < doc.scenes.len()
            invariant
                j <= doc.scenes.len(),
                source != 0,
                source & MU_SOURCE_FLAG != MU_SOURCE_FLAG,
                source & MULTIVIEW_BASE != MULTIVIEW_BASE,
                source & SCENE_BASE == SCENE_BASE,
                forall|t: int| 0 <= t < j ==> spec_scene_gpu_id(doc@.scenes[t].id) != source,
            decreases doc.scenes.len() - j,
        {
            assert(doc@.scenes[j as int] == doc.scenes@[j as int]@);
            if scene_gpu_id(doc.scenes[j].id) == source {
                return true;
            }
            j = j + 1;
        }
        return false;
    }
    let ids = input_ids(doc);
    vec_contains(&ids, source)
}

/// A unit whose Program or Preview source is gone is retargeted to the
/// first/second scene; a unit whose sources remain is left alone.
pub open spec fn repair_item_ops(next: DocumentView, live: Map<u64, UnitLiveState>, u: UnitDtoView) -> Seq<
    OpView,
> {
    if !live.contains_key(u.id) {
        Seq::empty()
    } else {
        let state = live[u.id];
        let program = if spec_source_still_live(next, state.program_source) {
            state.program_source
        } else {
            fallback_program(next)
        };
        let preview = if spec_source_still_live(next, state.preview_source) {
            state.preview_source
        } else {
            fallback_preview(next)
        };
        if program != state.program_source || preview != state.preview_source {
            seq![OpView::SetLiveState { unit_id: u.id, program, preview }]
        } else {
            Seq::empty()
        }
    }
}

pub open spec fn repair_items(next: DocumentView, live: Map<u64, UnitLiveState>) -> spec_fn(int) -> Seq<
    OpView,
> {
    |i: int| repair_item_ops(next, live, next.units[i])
}

/// Retargets Program/Preview only when the live source disappeared from
/// the next document. Does not invent a new bus layout for settings-only
/// replacements.
pub fn repair_live(next: &Document, live: &LiveState) -> (r: Vec<ReconcileOp>)
    ensures
        ops_view(r@) == flat(next@.units.len() as int, repair_items(next@, live.units@)),
{
    broadcast use vstd::std_specs::hash::group_hash_axioms;

    let preview_default = if next.scenes.len() > 0 {
        scene_gpu_id(next.scenes[0].id)
    } else {
        0
    };
    let program_default = if next.scenes.len() > 1 {
        scene_gpu_id(next.scenes[1].id)
    } else {
        preview_default
    };
    let mut ops: Vec<ReconcileOp> = Vec::new();
    let mut i: usize = 0;
    while i < next.units.len()
        invariant
            i <= next.units.len(),
            preview_default == fallback_preview(next@),
            program_default == fallback_program(next@),
            ops_view(ops@) == flat(i as int, repair_items(next@, live.units@)),
        decreases next.units.len() - i,
    {
        assert(next@.units[i as int] == next.units@[i as int]@);
        let id = next.units[i].id;
        match live.units.get(&id) {
            Some(state) => {
                let program = if source_still_live(next, state.program_source) {
                    state.program_source
                } else {
                    program_default
                };
                let preview = if source_still_live(next, state.preview_source) {
                    state.preview_source
                } else {
                    preview_default
                };
                if program != state.program_source || preview != state.preview_source {
                    push_op(&mut ops, ReconcileOp::SetLiveState { unit_id: id, program, preview });
                }
            },
            None => {},
        }
        assert(ops_view(ops@) =~= flat(i + 1, repair_items(next@, live.units@)));
        i = i + 1;
    }
    ops
}

// ---- Re-planning an unchanged document ----

/// An operation that brings something up, reconfigures it or tears it
/// down. Settings, bus upserts, audio levels and links, the headphone copy,
/// output removals and the native API are not among them.
pub open spec fn restarts(op: OpView) -> bool {
    !(op is Settings || op is UpsertBus || op is AudioInput || op is AudioUnitLink
        || op is HeadphoneCopyMaster || op is RemoveOutput || op is ConfigureNativeApi)
}

pub open spec fn restart_free(ops: Seq<OpView>) -> bool {
    forall|k: int| 0 <= k < ops.len() ==> !restarts(#[trigger] ops[k])
}

pub open spec fn distinct_ids(ids: Seq<u64>) -> bool {
    forall|i: int, j: int| 0 <= i < j < ids.len() ==> ids[i] != ids[j]
}

proof fn lemma_restart_free_add(a: Seq<OpView>, b: Seq<OpView>)
    requires
        restart_free(a),
        restart_free(b),
    ensures
        restart_free(a + b),
{
    assert forall|k: int| 0 <= k < (a + b).len() implies !restarts(#[trigger] (a + b)[k]) by {
        if k < a.len() {
            assert((a + b)[k] == a[k]);
        } else {
            assert((a + b)[k] == b[k - a.len()]);
        }
    }
}

proof fn lemma_flat_restart_free(n: int, f: spec_fn(int) -> Seq<OpView>)
    requires
        forall|i: int| 0 <= i < n ==> restart_free(#[trigger] f(i)),
    ensures
        restart_free(flat(n, f)),
    decreases n,
{
    if n > 0 {
        lemma_flat_restart_free(n - 1, f);
        lemma_restart_free_add(flat(n - 1, f), f(n - 1));
    }
}

proof fn lemma_first_unit_self(units: Seq<UnitDtoView>, i: int, j: int)
    requires
        0 <= j <= i < units.len(),
        distinct_ids(units.map_values(|x: UnitDtoView| x.id)),
    ensures
        first_unit_with(units, units[i].id, j) == i,
    decreases i - j,
{
    if j < i {
        let ids = units.map_values(|x: UnitDtoView| x.id);
        assert(ids[j] != ids[i]);
        lemma_first_unit_self(units, i, j + 1);
    }
}

proof fn lemma_first_input_self(inputs: Seq<InputDtoView>, i: int, j: int)
    requires
        0 <= j <= i < inputs.len(),
        distinct_ids(inputs.map_values(|x: InputDtoView| x.id)),
    ensures
        first_input_with(inputs, inputs[i].id, j) == i,
    decreases i - j,
{
    if j < i {
        let ids = inputs.map_values(|x: InputDtoView| x.id);
        assert(ids[j] != ids[i]);
        lemma_first_input_self(inputs, i, j + 1);
    }
}

proof fn lemma_first_scene_self(scenes: Seq<SceneDtoView>, i: int, j: int)
    requires
        0 <= j <= i < scenes.len(),
        distinct_ids(scenes.map_values(|x: SceneDtoView| x.id)),
    ensures
        first_scene_with(scenes, scenes[i].id, j) == i,
    decreases i - j,
{
    if j < i {
        let ids = scenes.map_values(|x: SceneDtoView| x.id);
        assert(ids[j] != ids[i]);
        lemma_first_scene_self(scenes, i, j + 1);
    }
}

proof fn lemma_first_output_self(outputs: Seq<OutputDtoView>, i: int, j: int)
    requires
        0 <= j <= i < outputs.len(),
        distinct_ids(outputs.map_values(|x: OutputDtoView| x.id)),
    ensures
        first_output_with(outputs, outputs[i].id, j) == i,
    decreases i - j,
{
    if j < i {
        let ids = outputs.map_values(|x: OutputDtoView| x.id);
        assert(ids[j] != ids[i]);
        lemma_first_output_self(outputs, i, j + 1);
    }
}

/// The operation connects a live OMT (or NDI) input with the id to the
/// address (when there is one).
pub open spec fn connects_to(op: OpView, kind: InputKind, id: u64, address: Option<Seq<char>>) -> bool {
    match op {
        OpView::ConnectOmt(c) => kind == InputKind::OMT && c.id == id && (address matches Some(a) ==> c.address
            == a),
        OpView::ConnectNdi(c) => kind == InputKind::NDI && c.id == id && (address matches Some(a) ==> c.address
            == a),
        _ => false,
    }
}

proof fn lemma_flat_part(n: int, f: spec_fn(int) -> Seq<OpView>, i: int)
    requires
        0 <= i < n,
    ensures
        flat(i, f).len() + f(i).len() <= flat(n, f).len(),
        forall|t: int| 0 <= t < f(i).len() ==> flat(n, f)[flat(i, f).len() + t] == #[trigger] f(i)[t],
    decreases n,
{
    if i < n - 1 {
        lemma_flat_part(n - 1, f, i);
        assert forall|t: int| 0 <= t < f(i).len() implies flat(n, f)[flat(i, f).len() + t] == #[trigger] f(i)[t] by {
            assert(flat(n, f) == flat(n - 1, f) + f(n - 1));
        }
    } else {
        assert(flat(n, f) == flat(i, f) + f(i));
    }
}

/// When an input keeps its id but its path or address, kind, colour,
/// scrolling, GPU use, frame buffering, mix target or source, or capture
/// format changes, the plan brings it up again as it now is: the operation that defines, loads,
/// starts or connects it appears, right after the teardown of the old
/// source (no teardown when the old source was a media file that was
/// already missing); an OMT or NDI input is connected to its new address.
/// Input ids are taken to be unique, as validation requires.
pub proof fn lemma_changed_input_is_brought_up_again(
    prev: DocumentView,
    next: DocumentView,
    files: Seq<Seq<char>>,
    i: int,
    j: int,
)
    requires
        0 <= i < next.inputs.len(),
        0 <= j < prev.inputs.len(),
        prev.inputs[j].id == next.inputs[i].id,
        distinct_ids(input_id_seq(prev)),
        ({
            let a = prev.inputs[j];
            let b = next.inputs[i];
            ||| a.path_or_address != b.path_or_address
            ||| a.kind != b.kind
            ||| a.color_r != b.color_r
            ||| a.color_g != b.color_g
            ||| a.color_b != b.color_b
            ||| a.scroll != b.scroll
            ||| a.use_gpu != b.use_gpu
            ||| a.frame_buffer_frames != b.frame_buffer_frames
            ||| a.mix_target_id != b.mix_target_id
            ||| a.mix_source != b.mix_source
            ||| a.capture_width != b.capture_width
            ||| a.capture_height != b.capture_height
            ||| a.capture_fps_num != b.capture_fps_num
            ||| a.capture_fps_den != b.capture_fps_den
        }),
    ensures
        ({
            let plan = spec_plan(Some(prev), next, files);
            let x = next.inputs[i];
            exists|q: int|
                {
                    &&& 0 <= q < plan.len()
                    &&& #[trigger] plan[q] == spec_input_op(x, files)
                    &&& !spec_media_file_missing(prev.inputs[j], files) ==> q >= 1 && plan[q - 1] == (
                    OpView::DestroySource { id: x.id })
                    &&& (x.kind == InputKind::OMT || x.kind == InputKind::NDI) ==> connects_to(
                        plan[q],
                        x.kind,
                        x.id,
                        x.path_or_address,
                    )
                }
        }),
{
    let plan = spec_plan(Some(prev), next, files);
    let x = next.inputs[i];
    let pd = prev_doc(Some(prev));
    assert(input_id_seq(prev) =~= prev.inputs.map_values(|y: InputDtoView| y.id));
    lemma_first_input_self(prev.inputs, j, 0);
    assert(!spec_input_desired_equal(prev.inputs[j], x));
    let f = input_items(pd, next, files);
    let items = f(i);
    let missing = spec_media_file_missing(prev.inputs[j], files);
    assert(items == input_item_ops(prev.inputs, x, files));
    lemma_flat_part(next.inputs.len() as int, f, i);
    let a = seq![OpView::Settings] + flat(next.units.len() as int, unit_items(pd, next)) + flat(
        next.buses.len() as int,
        bus_items(next),
    ) + flat(pd.buses.len() as int, bus_removal_items(pd, next));
    let fi = flat(next.inputs.len() as int, f);
    let ab = a + fi;
    let off: int = (a.len() + flat(i, f).len()) as int;
    let q: int = if missing { off } else { off + 1 };
    let t: int = q - a.len() - flat(i, f).len();
    assert(items[t] == spec_input_op(x, files));
    assert(fi[flat(i, f).len() + t] == items[t]);
    assert(ab[q] == fi[q - a.len()]);
    assert(plan[q] == ab[q]);
    if !missing {
        assert(items[0] == (OpView::DestroySource { id: x.id }));
        assert(fi[flat(i, f).len() as int] == items[0]);
        assert(ab[q - 1] == fi[q - 1 - a.len()]);
        assert(plan[q - 1] == ab[q - 1]);
    }
    if x.kind == InputKind::OMT || x.kind == InputKind::NDI {
        assert(spec_live_connect(x).address == path_or_empty(x));
    }
}

proof fn lemma_flat_contains(n: int, f: spec_fn(int) -> Seq<OpView>, i: int, e: OpView)
    requires
        0 <= i < n,
        f(i).contains(e),
    ensures
        flat(n, f).contains(e),
{
    lemma_flat_part(n, f, i);
    let fi = f(i);
    let t = choose|t: int| 0 <= t < fi.len() && fi[t] == e;
    assert(flat(n, f)[flat(i, f).len() + t] == fi[t]);
}

proof fn lemma_concat_contains()
    ensures
        forall|a: Seq<OpView>, b: Seq<OpView>, e: OpView|
            a.contains(e) || b.contains(e) ==> #[trigger] (a + b).contains(e),
{
    assert forall|a: Seq<OpView>, b: Seq<OpView>, e: OpView| a.contains(e) || b.contains(e) implies #[trigger] (a
        + b).contains(e) by {
        if a.contains(e) {
            let i = choose|i: int| 0 <= i < a.len() && a[i] == e;
            assert((a + b)[i] == e);
        } else {
            let i = choose|i: int| 0 <= i < b.len() && b[i] == e;
            assert((a + b)[a.len() + i] == e);
        }
    }
}

/// What the next document no longer has, the plan tears down: each input
/// of the previous document whose id no input of the next one has is
/// destroyed, each such scene is destroyed (by its GPU id), each such
/// output removed and each such Mixing Unit destroyed.
pub proof fn lemma_plan_tears_down_removed(prev: DocumentView, next: DocumentView, files: Seq<Seq<char>>)
    ensures
        ({
            let plan = spec_plan(Some(prev), next, files);
            &&& forall|i: int|
                0 <= i < prev.inputs.len() && (forall|k: int| 0 <= k < next.inputs.len() ==> next.inputs[k].id
                    != (#[trigger] prev.inputs[i]).id) ==> plan.contains(OpView::DestroySource { id: prev.inputs[i].id })
            &&& forall|i: int|
                0 <= i < prev.scenes.len() && (forall|k: int| 0 <= k < next.scenes.len() ==> next.scenes[k].id
                    != (#[trigger] prev.scenes[i]).id) ==> plan.contains(
                    OpView::DestroyScene { id: spec_scene_gpu_id(prev.scenes[i].id) },
                )
            &&& forall|i: int|
                0 <= i < prev.outputs.len() && (forall|k: int| 0 <= k < next.outputs.len() ==> next.outputs[k].id
                    != (#[trigger] prev.outputs[i]).id) ==> plan.contains(OpView::RemoveOutput { id: prev.outputs[i].id })
            &&& forall|i: int|
                0 <= i < prev.units.len() && (forall|k: int| 0 <= k < next.units.len() ==> next.units[k].id
                    != (#[trigger] prev.units[i]).id) ==> plan.contains(OpView::DestroyUnit { id: prev.units[i].id })
        }),
{
    let plan = spec_plan(Some(prev), next, files);
    let pd = prev_doc(Some(prev));
    lemma_concat_contains();
    assert forall|i: int|
        0 <= i < prev.inputs.len() && (forall|k: int| 0 <= k < next.inputs.len() ==> next.inputs[k].id
            != (#[trigger] prev.inputs[i]).id) implies plan.contains(OpView::DestroySource { id: prev.inputs[i].id }) by {
        let id = prev.inputs[i].id;
        if input_id_seq(next).contains(id) {
            let k = choose|k: int| 0 <= k < input_id_seq(next).len() && input_id_seq(next)[k] == id;
            assert(next.inputs[k].id == id);
        }
        let e = OpView::DestroySource { id };
        assert(input_removal_items(pd, next)(i)[0] == e);
        lemma_flat_contains(pd.inputs.len() as int, input_removal_items(pd, next), i, e);
    }
    assert forall|i: int|
        0 <= i < prev.scenes.len() && (forall|k: int| 0 <= k < next.scenes.len() ==> next.scenes[k].id
            != (#[trigger] prev.scenes[i]).id) implies plan.contains(
            OpView::DestroyScene { id: spec_scene_gpu_id(prev.scenes[i].id) },
        ) by {
        let id = prev.scenes[i].id;
        if scene_id_seq(next).contains(id) {
            let k = choose|k: int| 0 <= k < scene_id_seq(next).len() && scene_id_seq(next)[k] == id;
            assert(next.scenes[k].id == id);
        }
        let e = OpView::DestroyScene { id: spec_scene_gpu_id(id) };
        assert(scene_removal_items(pd, next)(i)[0] == e);
        lemma_flat_contains(pd.scenes.len() as int, scene_removal_items(pd, next), i, e);
    }
    assert forall|i: int|
        0 <= i < prev.outputs.len() && (forall|k: int| 0 <= k < next.outputs.len() ==> next.outputs[k].id
            != (#[trigger] prev.outputs[i]).id) implies plan.contains(OpView::RemoveOutput { id: prev.outputs[i].id }) by {
        let id = prev.outputs[i].id;
        if output_ids(next).contains(id) {
            let k = choose|k: int| 0 <= k < output_ids(next).len() && output_ids(next)[k] == id;
            assert(next.outputs[k].id == id);
        }
        let e = OpView::RemoveOutput { id };
        assert(output_removal_items(pd, next)(i)[0] == e);
        lemma_flat_contains(pd.outputs.len() as int, output_removal_items(pd, next), i, e);
    }
    assert forall|i: int|
        0 <= i < prev.units.len() && (forall|k: int| 0 <= k < next.units.len() ==> next.units[k].id
            != (#[trigger] prev.units[i]).id) implies plan.contains(OpView::DestroyUnit { id: prev.units[i].id }) by {
        let id = prev.units[i].id;
        if unit_id_seq(next).contains(id) {
            let k = choose|k: int| 0 <= k < unit_id_seq(next).len() && unit_id_seq(next)[k] == id;
            assert(next.units[k].id == id);
        }
        let e = OpView::DestroyUnit { id };
        assert(unit_removal_items(pd, next)(i)[0] == e);
        lemma_flat_contains(pd.units.len() as int, unit_removal_items(pd, next), i, e);
    }
}

proof fn lemma_first_input_absent(inputs: Seq<InputDtoView>, id: u64, i: int)
    requires
        0 <= i,
        forall|k: int| 0 <= k < inputs.len() ==> (#[trigger] inputs[k]).id != id,
    ensures
        first_input_with(inputs, id, i) >= inputs.len(),
    decreases inputs.len() - i,
{
    if i < inputs.len() {
        lemma_first_input_absent(inputs, id, i + 1);
    }
}

proof fn lemma_first_unit_absent(units: Seq<UnitDtoView>, id: u64, i: int)
    requires
        0 <= i,
        forall|k: int| 0 <= k < units.len() ==> (#[trigger] units[k]).id != id,
    ensures
        first_unit_with(units, id, i) >= units.len(),
    decreases units.len() - i,
{
    if i < units.len() {
        lemma_first_unit_absent(units, id, i + 1);
    }
}

proof fn lemma_first_output_absent(outputs: Seq<OutputDtoView>, id: u64, i: int)
    requires
        0 <= i,
        forall|k: int| 0 <= k < outputs.len() ==> (#[trigger] outputs[k]).id != id,
    ensures
        first_output_with(outputs, id, i) >= outputs.len(),
    decreases outputs.len() - i,
{
    if i < outputs.len() {
        lemma_first_output_absent(outputs, id, i + 1);
    }
}

/// What the next document adds or changes, the plan brings up: a new input
/// is brought up; a new Mixing Unit is created and configured at its size
/// and frame rate, and a kept unit whose size or frame rate changed is
/// configured again; an enabled, non-DeckLink output that is new, or whose
/// transport, name, source, unit, GPU use, audio bus or encode skipping
/// changed, is (re)added, after the old one is removed. Ids of the previous
/// document are taken to be unique, as validation requires.
pub proof fn lemma_plan_brings_up_new_and_changed(prev: DocumentView, next: DocumentView, files: Seq<Seq<char>>)
    requires
        distinct_ids(unit_id_seq(prev)),
        distinct_ids(output_ids(prev)),
    ensures
        ({
            let plan = spec_plan(Some(prev), next, files);
            &&& forall|i: int|
                0 <= i < next.inputs.len() && (forall|k: int| 0 <= k < prev.inputs.len() ==> prev.inputs[k].id
                    != (#[trigger] next.inputs[i]).id) ==> plan.contains(spec_input_op(next.inputs[i], files))
            &&& forall|i: int|
                0 <= i < next.units.len() && (forall|k: int| 0 <= k < prev.units.len() ==> prev.units[k].id
                    != (#[trigger] next.units[i]).id) ==> plan.contains(
                    OpView::CreateUnit { id: next.units[i].id, width: next.units[i].width, height: next.units[i].height },
                ) && plan.contains(
                    OpView::ConfigureUnit {
                        id: next.units[i].id,
                        width: next.units[i].width,
                        height: next.units[i].height,
                        fps_num: next.units[i].fps_num,
                        fps_den: next.units[i].fps_den,
                    },
                )
            &&& forall|i: int, j: int|
                0 <= i < next.units.len() && 0 <= j < prev.units.len() && (#[trigger] prev.units[j]).id == (
                #[trigger] next.units[i]).id && (prev.units[j].width != next.units[i].width || prev.units[j].height
                    != next.units[i].height || prev.units[j].fps_num != next.units[i].fps_num
                    || prev.units[j].fps_den != next.units[i].fps_den) ==> plan.contains(
                    OpView::ConfigureUnit {
                        id: next.units[i].id,
                        width: next.units[i].width,
                        height: next.units[i].height,
                        fps_num: next.units[i].fps_num,
                        fps_den: next.units[i].fps_den,
                    },
                )
            &&& forall|i: int|
                0 <= i < next.outputs.len() && (#[trigger] next.outputs[i]).enabled && next.outputs[i].transport
                    != OutputTransport::DeckLink && (forall|k: int| 0 <= k < prev.outputs.len() ==> prev.outputs[k].id
                    != next.outputs[i].id) ==> plan.contains(OpView::AddOutput(spec_output_apply(next.outputs[i])))
            &&& forall|i: int, j: int|
                0 <= i < next.outputs.len() && 0 <= j < prev.outputs.len() && (#[trigger] prev.outputs[j]).id == (
                #[trigger] next.outputs[i]).id && next.outputs[i].enabled && next.outputs[i].transport
                    != OutputTransport::DeckLink && ({
                    let a = prev.outputs[j];
                    let b = next.outputs[i];
                    ||| a.transport != b.transport
                    ||| a.name != b.name
                    ||| a.source_kind != b.source_kind
                    ||| a.source_id != b.source_id
                    ||| a.unit_id != b.unit_id
                    ||| a.use_gpu != b.use_gpu
                    ||| a.enabled != b.enabled
                    ||| a.audio_bus_id != b.audio_bus_id
                    ||| a.skip_encode_when_no_receivers != b.skip_encode_when_no_receivers
                }) ==> plan.contains(OpView::RemoveOutput { id: next.outputs[i].id }) && plan.contains(
                    OpView::AddOutput(spec_output_apply(next.outputs[i])),
                )
        }),
{
    let plan = spec_plan(Some(prev), next, files);
    let pd = prev_doc(Some(prev));
    lemma_concat_contains();
    assert(unit_id_seq(prev) =~= prev.units.map_values(|y: UnitDtoView| y.id));
    assert(output_ids(prev) =~= prev.outputs.map_values(|y: OutputDtoView| y.id));
    assert forall|i: int|
        0 <= i < next.inputs.len() && (forall|k: int| 0 <= k < prev.inputs.len() ==> prev.inputs[k].id
            != (#[trigger] next.inputs[i]).id) implies plan.contains(spec_input_op(next.inputs[i], files)) by {
        let x = next.inputs[i];
        lemma_first_input_absent(prev.inputs, x.id, 0);
        let items = input_items(pd, next, files)(i);
        assert(items[0] == spec_input_op(x, files));
        lemma_flat_contains(next.inputs.len() as int, input_items(pd, next, files), i, spec_input_op(x, files));
    }
    assert forall|i: int|
        0 <= i < next.units.len() && (forall|k: int| 0 <= k < prev.units.len() ==> prev.units[k].id
            != (#[trigger] next.units[i]).id) implies plan.contains(
            OpView::CreateUnit { id: next.units[i].id, width: next.units[i].width, height: next.units[i].height },
        ) && plan.contains(
            OpView::ConfigureUnit {
                id: next.units[i].id,
                width: next.units[i].width,
                height: next.units[i].height,
                fps_num: next.units[i].fps_num,
                fps_den: next.units[i].fps_den,
            },
        ) by {
        let u = next.units[i];
        lemma_first_unit_absent(prev.units, u.id, 0);
        let items = unit_items(pd, next)(i);
        let c = OpView::CreateUnit { id: u.id, width: u.width, height: u.height };
        let g = OpView::ConfigureUnit { id: u.id, width: u.width, height: u.height, fps_num: u.fps_num, fps_den: u.fps_den };
        assert(items[0] == c);
        assert(items[1] == g);
        lemma_flat_contains(next.units.len() as int, unit_items(pd, next), i, c);
        lemma_flat_contains(next.units.len() as int, unit_items(pd, next), i, g);
    }
    assert forall|i: int, j: int|
        0 <= i < next.units.len() && 0 <= j < prev.units.len() && (#[trigger] prev.units[j]).id == (
        #[trigger] next.units[i]).id && (prev.units[j].width != next.units[i].width || prev.units[j].height
            != next.units[i].height || prev.units[j].fps_num != next.units[i].fps_num || prev.units[j].fps_den
            != next.units[i].fps_den) implies plan.contains(
            OpView::ConfigureUnit {
                id: next.units[i].id,
                width: next.units[i].width,
                height: next.units[i].height,
                fps_num: next.units[i].fps_num,
                fps_den: next.units[i].fps_den,
            },
        ) by {
        let u = next.units[i];
        lemma_first_unit_self(prev.units, j, 0);
        let items = unit_items(pd, next)(i);
        let g = OpView::ConfigureUnit { id: u.id, width: u.width, height: u.height, fps_num: u.fps_num, fps_den: u.fps_den };
        assert(items[0] == g);
        lemma_flat_contains(next.units.len() as int, unit_items(pd, next), i, g);
    }
    assert forall|i: int|
        0 <= i < next.outputs.len() && (#[trigger] next.outputs[i]).enabled && next.outputs[i].transport
            != OutputTransport::DeckLink && (forall|k: int| 0 <= k < prev.outputs.len() ==> prev.outputs[k].id
            != next.outputs[i].id) implies plan.contains(OpView::AddOutput(spec_output_apply(next.outputs[i]))) by {
        let o = next.outputs[i];
        lemma_first_output_absent(prev.outputs, o.id, 0);
        let items = output_items(pd, next)(i);
        let e = OpView::AddOutput(spec_output_apply(o));
        assert(items[0] == e);
        lemma_flat_contains(next.outputs.len() as int, output_items(pd, next), i, e);
    }
    assert forall|i: int, j: int|
        0 <= i < next.outputs.len() && 0 <= j < prev.outputs.len() && (#[trigger] prev.outputs[j]).id == (
        #[trigger] next.outputs[i]).id && next.outputs[i].enabled && next.outputs[i].transport
            != OutputTransport::DeckLink && ({
            let a = prev.outputs[j];
            let b = next.outputs[i];
            ||| a.transport != b.transport
            ||| a.name != b.name
            ||| a.source_kind != b.source_kind
            ||| a.source_id != b.source_id
            ||| a.unit_id != b.unit_id
            ||| a.use_gpu != b.use_gpu
            ||| a.enabled != b.enabled
            ||| a.audio_bus_id != b.audio_bus_id
            ||| a.skip_encode_when_no_receivers != b.skip_encode_when_no_receivers
        }) implies plan.contains(OpView::RemoveOutput { id: next.outputs[i].id }) && plan.contains(
            OpView::AddOutput(spec_output_apply(next.outputs[i])),
        ) by {
        let o = next.outputs[i];
        lemma_first_output_self(prev.outputs, j, 0);
        assert(!spec_output_equal(prev.outputs[j], o));
        let items = output_items(pd, next)(i);
        let r = OpView::RemoveOutput { id: o.id };
        let e = OpView::AddOutput(spec_output_apply(o));
        assert(items[0] == r);
        assert(items[1] == e);
        lemma_flat_contains(next.outputs.len() as int, output_items(pd, next), i, r);
        lemma_flat_contains(next.outputs.len() as int, output_items(pd, next), i, e);
    }
}

/// Re-planning a document against itself restarts nothing: no unit is
/// created, reconfigured or destroyed, no source, scene or multiview is
/// (re)defined or torn down, no live bus is reseeded, no output is added and
/// the API endpoints are not reconfigured. Only idempotent updates remain
/// (settings, bus and audio levels, links, removal of outputs that are not
/// running). Ids are taken to be unique, as validation requires.
pub proof fn lemma_replan_restarts_nothing(d: DocumentView, files: Seq<Seq<char>>)
    requires
        distinct_ids(unit_id_seq(d)),
        distinct_ids(input_id_seq(d)),
        distinct_ids(scene_id_seq(d)),
        distinct_ids(output_ids(d)),
    ensures
        restart_free(spec_plan(Some(d), d, files)),
{
    let w = d.settings.default_width;
    let h = d.settings.default_height;
    assert(unit_id_seq(d) == d.units.map_values(|x: UnitDtoView| x.id));
    assert(input_id_seq(d) == d.inputs.map_values(|x: InputDtoView| x.id));
    assert(scene_id_seq(d) == d.scenes.map_values(|x: SceneDtoView| x.id));
    assert(output_ids(d) == d.outputs.map_values(|x: OutputDtoView| x.id));
    assert forall|i: int| 0 <= i < d.units.len() implies restart_free(
        #[trigger] unit_items(d, d)(i),
    ) by {
        lemma_first_unit_self(d.units, i, 0);
        assert(unit_items(d, d)(i) =~= Seq::<OpView>::empty());
    }
    assert forall|i: int| 0 <= i < d.buses.len() implies restart_free(#[trigger] bus_items(d)(i)) by {
        assert(bus_items(d)(i)[0] is UpsertBus);
    }
    assert forall|i: int| 0 <= i < d.buses.len() implies restart_free(
        #[trigger] bus_removal_items(d, d)(i),
    ) by {
        assert(bus_ids(d)[i] == d.buses[i].id);
    }
    assert forall|i: int| 0 <= i < d.inputs.len() implies restart_free(
        #[trigger] input_items(d, d, files)(i),
    ) by {
        lemma_first_input_self(d.inputs, i, 0);
    }
    assert forall|i: int| 0 <= i < d.inputs.len() implies restart_free(
        #[trigger] input_removal_items(d, d)(i),
    ) by {
        assert(input_id_seq(d)[i] == d.inputs[i].id);
    }
    assert forall|i: int| 0 <= i < d.scenes.len() implies restart_free(
        #[trigger] scene_items(d, d)(i),
    ) by {
        lemma_first_scene_self(d.scenes, i, 0);
    }
    assert forall|i: int| 0 <= i < d.scenes.len() implies restart_free(
        #[trigger] scene_removal_items(d, d)(i),
    ) by {
        assert(scene_id_seq(d)[i] == d.scenes[i].id);
    }
    assert forall|i: int| 0 <= i < d.multiviews.len() implies restart_free(
        #[trigger] multiview_items(d, d)(i),
    ) by {
        let layout = d.multiviews[i];
        assert(multiview_key(spec_multiview_op(d.multiviews[i], d, w, h)) == multiview_key(
            spec_multiview_op(layout, d, w, h),
        ));
    }
    assert forall|i: int| 0 <= i < d.multiviews.len() implies restart_free(
        #[trigger] multiview_removal_items(d, d)(i),
    ) by {
        assert(multiview_id_seq(d)[i] == d.multiviews[i].id);
    }
    assert forall|i: int| 0 <= i < d.units.len() implies restart_free(#[trigger] live_items(d, d)(i)) by {
        assert(unit_id_seq(d)[i] == d.units[i].id);
        let ops = live_items(d, d)(i);
        assert(ops.len() == 1);
        assert(ops[0] is AudioUnitLink);
    }
    assert forall|i: int| 0 <= i < d.inputs.len() implies restart_free(#[trigger] audio_items(d)(i)) by {
        assert(audio_items(d)(i)[0] is AudioInput);
    }
    assert forall|i: int| 0 <= i < d.outputs.len() implies restart_free(
        #[trigger] output_items(d, d)(i),
    ) by {
        lemma_first_output_self(d.outputs, i, 0);
    }
    assert forall|i: int| 0 <= i < d.outputs.len() implies restart_free(
        #[trigger] output_removal_items(d, d)(i),
    ) by {}
    assert forall|i: int| 0 <= i < d.units.len() implies restart_free(
        #[trigger] unit_removal_items(d, d)(i),
    ) by {
        assert(unit_id_seq(d)[i] == d.units[i].id);
    }
    lemma_flat_restart_free(d.units.len() as int, unit_items(d, d));
    lemma_flat_restart_free(d.buses.len() as int, bus_items(d));
    lemma_flat_restart_free(d.buses.len() as int, bus_removal_items(d, d));
    lemma_flat_restart_free(d.inputs.len() as int, input_items(d, d, files));
    lemma_flat_restart_free(d.inputs.len() as int, input_removal_items(d, d));
    lemma_flat_restart_free(d.scenes.len() as int, scene_items(d, d));
    lemma_flat_restart_free(d.scenes.len() as int, scene_removal_items(d, d));
    lemma_flat_restart_free(d.multiviews.len() as int, multiview_items(d, d));
    lemma_flat_restart_free(d.multiviews.len() as int, multiview_removal_items(d, d));
    lemma_flat_restart_free(d.units.len() as int, live_items(d, d));
    lemma_flat_restart_free(d.inputs.len() as int, audio_items(d));
    lemma_flat_restart_free(d.outputs.len() as int, output_items(d, d));
    lemma_flat_restart_free(d.outputs.len() as int, output_removal_items(d, d));
    lemma_flat_restart_free(d.units.len() as int, unit_removal_items(d, d));
    assert(vmix_ops(Some(d), d) =~= Seq::<OpView>::empty());
    let s0 = seq![OpView::Settings];
    let a1 = flat(d.units.len() as int, unit_items(d, d));
    let a2 = flat(d.buses.len() as int, bus_items(d));
    let a3 = flat(d.buses.len() as int, bus_removal_items(d, d));
    let a4 = flat(d.inputs.len() as int, input_items(d, d, files));
    let a5 = flat(d.inputs.len() as int, input_removal_items(d, d));
    let a6 = flat(d.scenes.len() as int, scene_items(d, d));
    let a7 = flat(d.scenes.len() as int, scene_removal_items(d, d));
    let a8 = flat(d.multiviews.len() as int, multiview_items(d, d));
    let a9 = flat(d.multiviews.len() as int, multiview_removal_items(d, d));
    let a10 = flat(d.units.len() as int, live_items(d, d));
    let a11 = flat(d.inputs.len() as int, audio_items(d));
    let s12 = seq![OpView::HeadphoneCopyMaster { enabled: d.headphone_copy_master }];
    let a13 = flat(d.outputs.len() as int, output_items(d, d));
    let a14 = flat(d.outputs.len() as int, output_removal_items(d, d));
    let a15 = vmix_ops(Some(d), d);
    let a16 = flat(d.units.len() as int, unit_removal_items(d, d));
    assert(restart_free(s0));
    assert(restart_free(s12));
    assert(restart_free(a15));
    lemma_restart_free_add(s0, a1);
    lemma_restart_free_add(s0 + a1, a2);
    lemma_restart_free_add(s0 + a1 + a2, a3);
    lemma_restart_free_add(s0 + a1 + a2 + a3, a4);
    lemma_restart_free_add(s0 + a1 + a2 + a3 + a4, a5);
    lemma_restart_free_add(s0 + a1 + a2 + a3 + a4 + a5, a6);
    lemma_restart_free_add(s0 + a1 + a2 + a3 + a4 + a5 + a6, a7);
    lemma_restart_free_add(s0 + a1 + a2 + a3 + a4 + a5 + a6 + a7, a8);
    lemma_restart_free_add(s0 + a1 + a2 + a3 + a4 + a5 + a6 + a7 + a8, a9);
    lemma_restart_free_add(s0 + a1 + a2 + a3 + a4 + a5 + a6 + a7 + a8 + a9, a10);
    lemma_restart_free_add(s0 + a1 + a2 + a3 + a4 + a5 + a6 + a7 + a8 + a9 + a10, a11);
    lemma_restart_free_add(s0 + a1 + a2 + a3 + a4 + a5 + a6 + a7 + a8 + a9 + a10 + a11, s12);
    lemma_restart_free_add(s0 + a1 + a2 + a3 + a4 + a5 + a6 + a7 + a8 + a9 + a10 + a11 + s12, a13);
    lemma_restart_free_add(
        s0 + a1 + a2 + a3 + a4 + a5 + a6 + a7 + a8 + a9 + a10 + a11 + s12 + a13,
        a14,
    );
    lemma_restart_free_add(
        s0 + a1 + a2 + a3 + a4 + a5 + a6 + a7 + a8 + a9 + a10 + a11 + s12 + a13 + a14,
        a15,
    );
    lemma_restart_free_add(
        s0 + a1 + a2 + a3 + a4 + a5 + a6 + a7 + a8 + a9 + a10 + a11 + s12 + a13 + a14 + a15,
        a16,
    );
    assert(prev_doc(Some(d)) == d);
}

} // verus!
