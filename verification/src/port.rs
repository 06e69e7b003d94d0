//! What the control domain hands the mixer to bring a resource up.
//!
//! Values the mixer takes as `f32` are held as the IEEE-754 bit pattern of
//! that `f32`.

use vstd::prelude::*;

use std::collections::HashMap;

use crate::error::{ControlError, ControlResult};
use crate::live::{LiveState, UnitLiveState};
use crate::session::model::{MultiviewTemplate, Renderer};

verus! {

/// One layer of a scene as the mixer composites it.
#[derive(Debug)]
pub struct OverlayLayer {
    pub source_id: u64,
    /// Bit pattern of an `f32`.
    pub x: u32,
    /// Bit pattern of an `f32`.
    pub y: u32,
    /// Bit pattern of an `f32`.
    pub width: u32,
    /// Bit pattern of an `f32`.
    pub height: u32,
    /// Bit pattern of an `f32`.
    pub crop_x: u32,
    /// Bit pattern of an `f32`.
    pub crop_y: u32,
    /// Bit pattern of an `f32`.
    pub crop_width: u32,
    /// Bit pattern of an `f32`.
    pub crop_height: u32,
    /// Bit pattern of an `f32`.
    pub opacity: u32,
    pub z: i32,
    pub audio_follow: bool,
    pub hidden: bool,
    pub label: String,
}

/// Mathematical content of [`OverlayLayer`].
pub struct OverlayLayerView {
    pub source_id: u64,
    pub x: u32,
    pub y: u32,
    pub width: u32,
    pub height: u32,
    pub crop_x: u32,
    pub crop_y: u32,
    pub crop_width: u32,
    pub crop_height: u32,
    pub opacity: u32,
    pub z: i32,
    pub audio_follow: bool,
    pub hidden: bool,
    pub label: Seq<char>,
}

impl View for OverlayLayer {
    type V = OverlayLayerView;

    open spec fn view(&self) -> OverlayLayerView {
        OverlayLayerView {
            source_id: self.source_id,
            x: self.x,
            y: self.y,
            width: self.width,
            height: self.height,
            crop_x: self.crop_x,
            crop_y: self.crop_y,
            crop_width: self.crop_width,
            crop_height: self.crop_height,
            opacity: self.opacity,
            z: self.z,
            audio_follow: self.audio_follow,
            hidden: self.hidden,
            label: self.label@,
        }
    }
}

impl Clone for OverlayLayer {
    fn clone(&self) -> (r: Self)
        ensures
            r@ == self@,
    {
        let r = OverlayLayer {
            source_id: self.source_id,
            x: self.x,
            y: self.y,
            width: self.width,
            height: self.height,
            crop_x: self.crop_x,
            crop_y: self.crop_y,
            crop_width: self.crop_width,
            crop_height: self.crop_height,
            opacity: self.opacity,
            z: self.z,
            audio_follow: self.audio_follow,
            hidden: self.hidden,
            label: self.label.clone(),
        };
        r
    }
}

/// A scene (or multiview) as the mixer defines it.
#[derive(Debug)]
pub struct SceneApply {
    pub id: u64,
    pub width: u32,
    pub height: u32,
    pub layers: Vec<OverlayLayer>,
}

/// Mathematical content of [`SceneApply`].
pub struct SceneApplyView {
    pub id: u64,
    pub width: u32,
    pub height: u32,
    pub layers: Seq<OverlayLayerView>,
}

impl View for SceneApply {
    type V = SceneApplyView;

    open spec fn view(&self) -> SceneApplyView {
        SceneApplyView {
            id: self.id,
            width: self.width,
            height: self.height,
            layers: self.layers@.map_values(|t: OverlayLayer| t@),
        }
    }
}

impl Clone for SceneApply {
    fn clone(&self) -> (r: Self)
        ensures
            r@ == self@,
    {
        let r = SceneApply {
            id: self.id,
            width: self.width,
            height: self.height,
            layers: self.layers.clone(),
        };
        proof {
            assert forall|i: int| 0 <= i < self.layers@.len() implies r.layers@[i]@ == self.layers@[i]@ by {
                assert(vstd::pervasive::cloned(self.layers@[i], r.layers@[i]));
            }
            assert(r.layers@.map_values(|t: OverlayLayer| t@) =~= self.layers@.map_values(|t: OverlayLayer| t@));
        }
        r
    }
}

/// What one pane of a multiview shows, and its label.
#[derive(Debug)]
pub struct PaneSource {
    pub source_id: u64,
    pub label: String,
}

/// Mathematical content of [`PaneSource`].
pub struct PaneSourceView {
    pub source_id: u64,
    pub label: Seq<char>,
}

impl View for PaneSource {
    type V = PaneSourceView;

    open spec fn view(&self) -> PaneSourceView {
        PaneSourceView {
            source_id: self.source_id,
            label: self.label@,
        }
    }
}

impl Clone for PaneSource {
    fn clone(&self) -> (r: Self)
        ensures
            r@ == self@,
    {
        let r = PaneSource {
            source_id: self.source_id,
            label: self.label.clone(),
        };
        r
    }
}

/// A multiview as the mixer defines it: the pane arrangement of its template, and what each pane shows. The pane geometry follows from the template.
#[derive(Debug)]
pub struct MultiviewApply {
    pub id: u64,
    pub width: u32,
    pub height: u32,
    pub template: MultiviewTemplate,
    pub panes: Vec<PaneSource>,
}

/// Mathematical content of [`MultiviewApply`].
pub struct MultiviewApplyView {
    pub id: u64,
    pub width: u32,
    pub height: u32,
    pub template: MultiviewTemplate,
    pub panes: Seq<PaneSourceView>,
}

impl View for MultiviewApply {
    type V = MultiviewApplyView;

    open spec fn view(&self) -> MultiviewApplyView {
        MultiviewApplyView {
            id: self.id,
            width: self.width,
            height: self.height,
            template: self.template,
            panes: self.panes@.map_values(|t: PaneSource| t@),
        }
    }
}

impl Clone for MultiviewApply {
    fn clone(&self) -> (r: Self)
        ensures
            r@ == self@,
    {
        let r = MultiviewApply {
            id: self.id,
            width: self.width,
            height: self.height,
            template: self.template,
            panes: self.panes.clone(),
        };
        proof {
            assert forall|i: int| 0 <= i < self.panes@.len() implies r.panes@[i]@ == self.panes@[i]@ by {
                assert(vstd::pervasive::cloned(self.panes@[i], r.panes@[i]));
            }
            assert(r.panes@.map_values(|t: PaneSource| t@) =~= self.panes@.map_values(|t: PaneSource| t@));
        }
        r
    }
}

/// A colour, bars or black generator.
#[derive(Debug)]
pub struct GeneratorApply {
    pub id: u64,
    pub bars: bool,
    /// Bit pattern of an `f32`.
    pub r: u32,
    /// Bit pattern of an `f32`.
    pub g: u32,
    /// Bit pattern of an `f32`.
    pub b: u32,
    pub scroll: bool,
    /// Bit pattern of an `f32`.
    pub tone_hz: u32,
    /// Bit pattern of an `f32`.
    pub tone_level_dbfs: u32,
}

/// Mathematical content of [`GeneratorApply`].
pub struct GeneratorApplyView {
    pub id: u64,
    pub bars: bool,
    pub r: u32,
    pub g: u32,
    pub b: u32,
    pub scroll: bool,
    pub tone_hz: u32,
    pub tone_level_dbfs: u32,
}

impl View for GeneratorApply {
    type V = GeneratorApplyView;

    open spec fn view(&self) -> GeneratorApplyView {
        GeneratorApplyView {
            id: self.id,
            bars: self.bars,
            r: self.r,
            g: self.g,
            b: self.b,
            scroll: self.scroll,
            tone_hz: self.tone_hz,
            tone_level_dbfs: self.tone_level_dbfs,
        }
    }
}

impl Clone for GeneratorApply {
    fn clone(&self) -> (r: Self)
        ensures
            r@ == self@,
    {
        let r = GeneratorApply {
            id: self.id,
            bars: self.bars,
            r: self.r,
            g: self.g,
            b: self.b,
            scroll: self.scroll,
            tone_hz: self.tone_hz,
            tone_level_dbfs: self.tone_level_dbfs,
        };
        r
    }
}

/// An input that takes another Mixing Unit's bus or a multiview.
#[derive(Debug)]
pub struct MixInputApply {
    pub id: u64,
    pub target_id: u64,
    pub source_kind: u32,
    pub delay: u32,
    pub audio_bus_id: u64,
}

/// Mathematical content of [`MixInputApply`].
pub struct MixInputApplyView {
    pub id: u64,
    pub target_id: u64,
    pub source_kind: u32,
    pub delay: u32,
    pub audio_bus_id: u64,
}

impl View for MixInputApply {
    type V = MixInputApplyView;

    open spec fn view(&self) -> MixInputApplyView {
        MixInputApplyView {
            id: self.id,
            target_id: self.target_id,
            source_kind: self.source_kind,
            delay: self.delay,
            audio_bus_id: self.audio_bus_id,
        }
    }
}

impl Clone for MixInputApply {
    fn clone(&self) -> (r: Self)
        ensures
            r@ == self@,
    {
        let r = MixInputApply {
            id: self.id,
            target_id: self.target_id,
            source_kind: self.source_kind,
            delay: self.delay,
            audio_bus_id: self.audio_bus_id,
        };
        r
    }
}

/// A file or capture-device video source.
#[derive(Debug)]
pub struct VideoStartApply {
    pub id: u64,
    pub path: String,
    pub capture: bool,
    pub loop_playback: bool,
    pub playing: bool,
    pub width: u32,
    pub height: u32,
    pub fps_num: u32,
    pub fps_den: u32,
    pub frame_buffer_frames: u32,
    pub position_hns: i64,
}

/// Mathematical content of [`VideoStartApply`].
pub struct VideoStartApplyView {
    pub id: u64,
    pub path: Seq<char>,
    pub capture: bool,
    pub loop_playback: bool,
    pub playing: bool,
    pub width: u32,
    pub height: u32,
    pub fps_num: u32,
    pub fps_den: u32,
    pub frame_buffer_frames: u32,
    pub position_hns: i64,
}

impl View for VideoStartApply {
    type V = VideoStartApplyView;

    open spec fn view(&self) -> VideoStartApplyView {
        VideoStartApplyView {
            id: self.id,
            path: self.path@,
            capture: self.capture,
            loop_playback: self.loop_playback,
            playing: self.playing,
            width: self.width,
            height: self.height,
            fps_num: self.fps_num,
            fps_den: self.fps_den,
            frame_buffer_frames: self.frame_buffer_frames,
            position_hns: self.position_hns,
        }
    }
}

impl Clone for VideoStartApply {
    fn clone(&self) -> (r: Self)
        ensures
            r@ == self@,
    {
        let r = VideoStartApply {
            id: self.id,
            path: self.path.clone(),
            capture: self.capture,
            loop_playback: self.loop_playback,
            playing: self.playing,
            width: self.width,
            height: self.height,
            fps_num: self.fps_num,
            fps_den: self.fps_den,
            frame_buffer_frames: self.frame_buffer_frames,
            position_hns: self.position_hns,
        };
        r
    }
}

/// An OMT or NDI network source.
#[derive(Debug)]
pub struct LiveConnectApply {
    pub id: u64,
    pub address: String,
    pub use_gpu: bool,
    pub frame_buffer_frames: u32,
    pub quality_or_bandwidth: u32,
    pub save_mode: u32,
    pub keep_full_on_multiview: bool,
}

/// Mathematical content of [`LiveConnectApply`].
pub struct LiveConnectApplyView {
    pub id: u64,
    pub address: Seq<char>,
    pub use_gpu: bool,
    pub frame_buffer_frames: u32,
    pub quality_or_bandwidth: u32,
    pub save_mode: u32,
    pub keep_full_on_multiview: bool,
}

impl View for LiveConnectApply {
    type V = LiveConnectApplyView;

    open spec fn view(&self) -> LiveConnectApplyView {
        LiveConnectApplyView {
            id: self.id,
            address: self.address@,
            use_gpu: self.use_gpu,
            frame_buffer_frames: self.frame_buffer_frames,
            quality_or_bandwidth: self.quality_or_bandwidth,
            save_mode: self.save_mode,
            keep_full_on_multiview: self.keep_full_on_multiview,
        }
    }
}

impl Clone for LiveConnectApply {
    fn clone(&self) -> (r: Self)
        ensures
            r@ == self@,
    {
        let r = LiveConnectApply {
            id: self.id,
            address: self.address.clone(),
            use_gpu: self.use_gpu,
            frame_buffer_frames: self.frame_buffer_frames,
            quality_or_bandwidth: self.quality_or_bandwidth,
            save_mode: self.save_mode,
            keep_full_on_multiview: self.keep_full_on_multiview,
        };
        r
    }
}

/// A published output.
#[derive(Debug)]
pub struct OutputApply {
    pub id: u64,
    pub transport: u32,
    pub name: String,
    pub source_kind: u32,
    pub source_id: u64,
    pub unit_id: u64,
    pub use_gpu: bool,
    pub audio_bus_id: u64,
    pub skip_encode_when_no_receivers: bool,
}

/// Mathematical content of [`OutputApply`].
pub struct OutputApplyView {
    pub id: u64,
    pub transport: u32,
    pub name: Seq<char>,
    pub source_kind: u32,
    pub source_id: u64,
    pub unit_id: u64,
    pub use_gpu: bool,
    pub audio_bus_id: u64,
    pub skip_encode_when_no_receivers: bool,
}

impl View for OutputApply {
    type V = OutputApplyView;

    open spec fn view(&self) -> OutputApplyView {
        OutputApplyView {
            id: self.id,
            transport: self.transport,
            name: self.name@,
            source_kind: self.source_kind,
            source_id: self.source_id,
            unit_id: self.unit_id,
            use_gpu: self.use_gpu,
            audio_bus_id: self.audio_bus_id,
            skip_encode_when_no_receivers: self.skip_encode_when_no_receivers,
        }
    }
}

impl Clone for OutputApply {
    fn clone(&self) -> (r: Self)
        ensures
            r@ == self@,
    {
        let r = OutputApply {
            id: self.id,
            transport: self.transport,
            name: self.name.clone(),
            source_kind: self.source_kind,
            source_id: self.source_id,
            unit_id: self.unit_id,
            use_gpu: self.use_gpu,
            audio_bus_id: self.audio_bus_id,
            skip_encode_when_no_receivers: self.skip_encode_when_no_receivers,
        };
        r
    }
}

/// An audio bus.
#[derive(Debug)]
pub struct BusApply {
    pub id: u64,
    pub name: String,
    pub role: u32,
    pub device_kind: u32,
    pub device_id: String,
    pub map_left: u32,
    pub map_right: u32,
    pub exclusive: bool,
    /// Bit pattern of an `f32`.
    pub gain: u32,
    pub mute: bool,
}

/// Mathematical content of [`BusApply`].
pub struct BusApplyView {
    pub id: u64,
    pub name: Seq<char>,
    pub role: u32,
    pub device_kind: u32,
    pub device_id: Seq<char>,
    pub map_left: u32,
    pub map_right: u32,
    pub exclusive: bool,
    pub gain: u32,
    pub mute: bool,
}

impl View for BusApply {
    type V = BusApplyView;

    open spec fn view(&self) -> BusApplyView {
        BusApplyView {
            id: self.id,
            name: self.name@,
            role: self.role,
            device_kind: self.device_kind,
            device_id: self.device_id@,
            map_left: self.map_left,
            map_right: self.map_right,
            exclusive: self.exclusive,
            gain: self.gain,
            mute: self.mute,
        }
    }
}

impl Clone for BusApply {
    fn clone(&self) -> (r: Self)
        ensures
            r@ == self@,
    {
        let r = BusApply {
            id: self.id,
            name: self.name.clone(),
            role: self.role,
            device_kind: self.device_kind,
            device_id: self.device_id.clone(),
            map_left: self.map_left,
            map_right: self.map_right,
            exclusive: self.exclusive,
            gain: self.gain,
            mute: self.mute,
        };
        r
    }
}

/// An audio capture input.
#[derive(Debug)]
pub struct AudioCaptureApply {
    pub id: u64,
    pub kind: u32,
    pub device_id: String,
    pub mode: u32,
    pub map_left: i32,
    pub map_right: i32,
    pub process_exe: String,
    pub process_aumid: String,
}

/// Mathematical content of [`AudioCaptureApply`].
pub struct AudioCaptureApplyView {
    pub id: u64,
    pub kind: u32,
    pub device_id: Seq<char>,
    pub mode: u32,
    pub map_left: i32,
    pub map_right: i32,
    pub process_exe: Seq<char>,
    pub process_aumid: Seq<char>,
}

impl View for AudioCaptureApply {
    type V = AudioCaptureApplyView;

    open spec fn view(&self) -> AudioCaptureApplyView {
        AudioCaptureApplyView {
            id: self.id,
            kind: self.kind,
            device_id: self.device_id@,
            mode: self.mode,
            map_left: self.map_left,
            map_right: self.map_right,
            process_exe: self.process_exe@,
            process_aumid: self.process_aumid@,
        }
    }
}

impl Clone for AudioCaptureApply {
    fn clone(&self) -> (r: Self)
        ensures
            r@ == self@,
    {
        let r = AudioCaptureApply {
            id: self.id,
            kind: self.kind,
            device_id: self.device_id.clone(),
            mode: self.mode,
            map_left: self.map_left,
            map_right: self.map_right,
            process_exe: self.process_exe.clone(),
            process_aumid: self.process_aumid.clone(),
        };
        r
    }
}

/// An automatic transition on a unit. Dip color, softness and the style
/// parameter are `f32` bit patterns.
#[derive(Debug, Clone, Copy, PartialEq, Eq, Structural)]
pub struct AutoApply {
    pub unit_id: u64,
    pub kind: u32,
    pub duration_ms: u32,
    pub swap: bool,
    pub keep_preview: bool,
    pub easing: u32,
    pub direction: u32,
    pub dip_r: u32,
    pub dip_g: u32,
    pub dip_b: u32,
    pub dip_a: u32,
    pub incoming: u64,
    pub softness: u32,
    pub param: u32,
}

/// An overlay fading on or off. Geometry and opacity are `f32` bit patterns.
#[derive(Debug, Clone, Copy, PartialEq, Eq, Structural)]
pub struct OverlayAutoApply {
    pub unit_id: u64,
    pub to_on: bool,
    pub duration_ms: u32,
    pub source_id: u64,
    pub x: u32,
    pub y: u32,
    pub width: u32,
    pub height: u32,
    pub opacity: u32,
    pub z: i32,
    pub audio_follow: bool,
    pub hidden: bool,
}

/// A request made of the mixer, by its contents.
pub enum PortRequest {
    Create { fps_num: u32, fps_den: u32, renderer: Renderer },
    Destroy,
    CreateUnit { id: u64, width: u32, height: u32 },
    DestroyUnit { id: u64 },
    ConfigureUnit { id: u64, width: u32, height: u32, fps_num: u32, fps_den: u32 },
    DefineScene(SceneApplyView),
    DefineMultiviewScene(MultiviewApplyView),
    DestroyScene { id: u64 },
    DefineGenerator(GeneratorApplyView),
    DefineMixInput(MixInputApplyView),
    LoadStill { id: u64, path: Seq<char> },
    VideoStart(VideoStartApplyView),
    OmtConnect(LiveConnectApplyView),
    NdiConnect(LiveConnectApplyView),
    AudioCaptureStart(AudioCaptureApplyView),
    DestroySource { id: u64 },
    SetLiveSave { id: u64, mode: u32, flags: u32 },
    SetOmtQuality { id: u64, quality: u32 },
    OutputAdd(OutputApplyView),
    OutputRemove { id: u64 },
    AudioBusUpsert(BusApplyView),
    AudioBusRemove { id: u64 },
    AudioSetInput { id: u64, bus_mask: u32, gain: u32, mute: bool },
    AudioSetBusGain { id: u64, gain: u32, mute: bool },
    AudioSetUnitLink { unit_id: u64, bus_id: u64, mode: u32 },
    AudioSetHeadphoneCopyMaster { enabled: bool },
    SetMasterFps { fps_num: u32, fps_den: u32 },
    SetFrameBuffer { frames: u32 },
    SetRebarOptimization { enabled: bool },
    SetNdiGpuUpload { enabled: bool },
    SetBusColors { preview: Seq<u8>, program: Seq<u8>, inactive: Seq<u8> },
    SetMvLabel { scene_id: u64, size: u32, percent: bool, top: bool },
    BindMultiview { scene_id: u64, preview_unit: u64, program_unit: u64 },
    UnitCut { unit_id: u64, swap: bool, incoming: u64 },
    UnitAuto(AutoApply),
    UnitSetPreview { unit_id: u64, scene_gpu_id: u64 },
    UnitSetMix { unit_id: u64, mix: u32 },
    UnitSetState { unit_id: u64, program: u64, preview: u64, mix: u32 },
    VideoSetPlaying { id: u64, playing: bool },
    VideoSetLoop { id: u64, looping: bool },
    VideoSeek { id: u64, position_hns: i64 },
    Snapshot { unit_id: u64, kind: u32, path: Seq<char> },
    ConfigureVmixApi { http_enabled: bool, tcp_enabled: bool, port: u32, user: Seq<char>, pass: Seq<char> },
    ConfigureNativeApi { enabled: bool, port: u32 },
}

/// A request made of the mixer and what it answered.
pub type PortCall = (PortRequest, ControlResult<()>);

/// `after` is `before` followed by the requests `reqs`, made in order
/// until the first that was refused: every request but the last made was
/// answered `Ok`, the calls stopped early only on a refusal, and `r` is the
/// answer to the last request made (`Ok` when there were none).
pub open spec fn made_in_order(before: Seq<PortCall>, after: Seq<PortCall>, reqs: Seq<PortRequest>, r: ControlResult<()>) -> bool {
    let k = after.len() - before.len();
    &&& 0 <= k <= reqs.len()
    &&& after.take(before.len() as int) == before
    &&& forall|i: int| 0 <= i < k ==> (#[trigger] after[before.len() + i]).0 == reqs[i]
    &&& forall|i: int| 0 <= i < k - 1 ==> (#[trigger] after[before.len() + i]).1 is Ok
    &&& (k == 0 ==> reqs.len() == 0 && r is Ok)
    &&& (k > 0 ==> r == after.last().1)
    &&& (k < reqs.len() ==> r is Err)
}

/// A single request, made and answered.
pub proof fn lemma_single_in_order(before: Seq<PortCall>, c: PortCall, req: PortRequest)
    requires
        c.0 == req,
    ensures
        made_in_order(before, before.push(c), seq![req], c.1),
{
    let after = before.push(c);
    assert(after.take(before.len() as int) =~= before);
    assert(after[before.len() + 0int] == c);
}

/// No request at all.
pub proof fn lemma_none_in_order(before: Seq<PortCall>)
    ensures
        made_in_order(before, before, Seq::empty(), Ok(())),
{
    assert(before.take(before.len() as int) =~= before);
}

/// `after` is `before` followed by the requests `reqs`, each made once
/// and in order, whatever was answered.
pub open spec fn requested_all(before: Seq<PortCall>, after: Seq<PortCall>, reqs: Seq<PortRequest>) -> bool {
    &&& after.len() == before.len() + reqs.len()
    &&& after.take(before.len() as int) == before
    &&& forall|i: int| 0 <= i < reqs.len() ==> (#[trigger] after[before.len() + i]).0 == reqs[i]
}

/// One request more, the next of `reqs`, keeps them made in order.
pub proof fn lemma_requested_one_more(
    before: Seq<PortCall>,
    mid: Seq<PortCall>,
    c: PortCall,
    reqs: Seq<PortRequest>,
    k: int,
)
    requires
        0 <= k < reqs.len(),
        requested_all(before, mid, reqs.take(k)),
        c.0 == reqs[k],
    ensures
        requested_all(before, mid.push(c), reqs.take(k + 1)),
{
    let after = mid.push(c);
    assert(after.take(before.len() as int) =~= mid.take(before.len() as int));
    assert forall|i: int| 0 <= i < k + 1 implies (#[trigger] after[before.len() + i]).0 == reqs.take(k + 1)[i] by {
        if i < k {
            assert(after[before.len() + i] == mid[before.len() + i]);
            assert(reqs.take(k)[i] == reqs[i]);
        }
    }
}

/// `after` is `before` followed by more requests, one of which was refused.
pub open spec fn refused_later(before: Seq<PortCall>, after: Seq<PortCall>) -> bool {
    &&& before.len() <= after.len()
    &&& after.take(before.len() as int) == before
    &&& exists|i: int| before.len() <= i < after.len() && (#[trigger] after[i]).1 is Err
}

/// `after` is `before` followed by more requests, and a failure `r` is a
/// refusal by the mixer among them.
pub open spec fn fails_only_by_refusal(before: Seq<PortCall>, after: Seq<PortCall>, r: ControlResult<()>) -> bool {
    extends(before, after) && (r is Err ==> refused_later(before, after))
}

/// One request more: the log grows by it, and its refusal is a refusal.
pub proof fn lemma_one_more(before: Seq<PortCall>, c: PortCall)
    ensures
        extends(before, before.push(c)),
        c.1 is Err ==> refused_later(before, before.push(c)),
{
    assert(before.push(c).take(before.len() as int) =~= before);
    assert(before.push(c)[before.len() as int] == c);
}

/// Growing the log twice grows it, and an earlier refusal stays one.
pub proof fn lemma_extends_trans(a: Seq<PortCall>, b: Seq<PortCall>, c: Seq<PortCall>)
    requires
        extends(a, b),
        extends(b, c),
    ensures
        extends(a, c),
        refused_later(a, b) ==> refused_later(a, c),
        refused_later(b, c) ==> refused_later(a, c),
{
    assert(c.take(a.len() as int) =~= b.take(a.len() as int)) by {
        assert forall|i: int| 0 <= i < a.len() implies c.take(a.len() as int)[i] == b.take(a.len() as int)[i] by {
            assert(c.take(b.len() as int)[i] == c[i]);
        }
    }
    if refused_later(a, b) {
        let i = choose|i: int| a.len() <= i < b.len() && (#[trigger] b[i]).1 is Err;
        assert(c.take(b.len() as int)[i] == c[i]);
        assert(c[i].1 is Err);
    }
    if refused_later(b, c) {
        let i = choose|i: int| b.len() <= i < c.len() && (#[trigger] c[i]).1 is Err;
        assert(c[i].1 is Err);
    }
}

/// `after` is `before` followed by more requests.
pub open spec fn extends(before: Seq<PortCall>, after: Seq<PortCall>) -> bool {
    before.len() <= after.len() && after.take(before.len() as int) == before
}

/// The mixer as the control service drives it. Implementations talk to the
/// GPU mixer; `NullMixer` keeps state in memory. Gains, mix positions and
/// label sizes are `f32` bit patterns.
pub trait MixerPort {
    /// Every request this mixer was asked to carry out, with its answer,
    /// oldest first. The methods below promise to add to it; a mixer that
    /// keeps no such record inherits the empty one and cannot keep that
    /// promise under proof.
    closed spec fn requests(&self) -> Seq<PortCall> {
        Seq::empty()
    }

    fn ping(&self) -> (r: u32) {
        0x4549_5649
    }

    fn create(&mut self, fps_num: u32, fps_den: u32, renderer: Renderer) -> (r: ControlResult<()>)
        ensures
            final(self).requests() == old(self).requests().push((PortRequest::Create { fps_num, fps_den, renderer }, r)),
    ;

    fn destroy(&mut self) -> (r: ControlResult<()>)
        ensures
            final(self).requests() == old(self).requests().push((PortRequest::Destroy, r)),
    ;

    fn is_ready(&self) -> bool;

    fn create_unit(&mut self, id: u64, width: u32, height: u32) -> (r: ControlResult<()>)
        ensures
            final(self).requests() == old(self).requests().push((PortRequest::CreateUnit { id, width, height }, r)),
    ;

    fn destroy_unit(&mut self, id: u64) -> (r: ControlResult<()>)
        ensures
            final(self).requests() == old(self).requests().push((PortRequest::DestroyUnit { id }, r)),
    ;

    fn configure_unit(&mut self, id: u64, width: u32, height: u32, fps_num: u32, fps_den: u32) -> (r: ControlResult<()>)
        ensures
            final(self).requests() == old(self).requests().push((PortRequest::ConfigureUnit { id, width, height, fps_num, fps_den }, r)),
    ;

    fn define_scene(&mut self, spec: SceneApply) -> (r: ControlResult<()>)
        ensures
            final(self).requests() == old(self).requests().push((PortRequest::DefineScene(spec@), r)),
    ;

    /// Lays out a multiview's panes on its template and defines it as a scene.
    fn define_multiview_scene(&mut self, spec: MultiviewApply) -> (r: ControlResult<()>)
        ensures
            final(self).requests() == old(self).requests().push((PortRequest::DefineMultiviewScene(spec@), r)),
    ;

    fn destroy_scene(&mut self, id: u64) -> (r: ControlResult<()>)
        ensures
            final(self).requests() == old(self).requests().push((PortRequest::DestroyScene { id }, r)),
    ;

    fn define_generator(&mut self, spec: GeneratorApply) -> (r: ControlResult<()>)
        ensures
            final(self).requests() == old(self).requests().push((PortRequest::DefineGenerator(spec@), r)),
    ;

    fn define_mix_input(&mut self, spec: MixInputApply) -> (r: ControlResult<()>)
        ensures
            final(self).requests() == old(self).requests().push((PortRequest::DefineMixInput(spec@), r)),
    ;

    fn load_still(&mut self, id: u64, path: &str) -> (r: ControlResult<()>)
        ensures
            final(self).requests() == old(self).requests().push((PortRequest::LoadStill { id, path: path@ }, r)),
    ;

    fn video_start(&mut self, spec: VideoStartApply) -> (r: ControlResult<()>)
        ensures
            final(self).requests() == old(self).requests().push((PortRequest::VideoStart(spec@), r)),
    ;

    fn omt_connect(&mut self, spec: LiveConnectApply) -> (r: ControlResult<()>)
        ensures
            final(self).requests() == old(self).requests().push((PortRequest::OmtConnect(spec@), r)),
    ;

    fn ndi_connect(&mut self, spec: LiveConnectApply) -> (r: ControlResult<()>)
        ensures
            final(self).requests() == old(self).requests().push((PortRequest::NdiConnect(spec@), r)),
    ;

    fn audio_capture_start(&mut self, spec: AudioCaptureApply) -> (r: ControlResult<()>)
        ensures
            final(self).requests() == old(self).requests().push((PortRequest::AudioCaptureStart(spec@), r)),
    ;

    fn destroy_source(&mut self, id: u64) -> (r: ControlResult<()>)
        ensures
            final(self).requests() == old(self).requests().push((PortRequest::DestroySource { id }, r)),
    ;

    fn set_live_save(&mut self, id: u64, mode: u32, flags: u32) -> (r: ControlResult<()>)
        ensures
            final(self).requests() == old(self).requests().push((PortRequest::SetLiveSave { id, mode, flags }, r)),
    ;

    fn set_omt_quality(&mut self, id: u64, quality: u32) -> (r: ControlResult<()>)
        ensures
            final(self).requests() == old(self).requests().push((PortRequest::SetOmtQuality { id, quality }, r)),
    ;

    fn output_add(&mut self, spec: OutputApply) -> (r: ControlResult<()>)
        ensures
            final(self).requests() == old(self).requests().push((PortRequest::OutputAdd(spec@), r)),
    ;

    fn output_remove(&mut self, id: u64) -> (r: ControlResult<()>)
        ensures
            final(self).requests() == old(self).requests().push((PortRequest::OutputRemove { id }, r)),
    ;

    fn audio_bus_upsert(&mut self, spec: BusApply) -> (r: ControlResult<()>)
        ensures
            final(self).requests() == old(self).requests().push((PortRequest::AudioBusUpsert(spec@), r)),
    ;

    fn audio_bus_remove(&mut self, id: u64) -> (r: ControlResult<()>)
        ensures
            final(self).requests() == old(self).requests().push((PortRequest::AudioBusRemove { id }, r)),
    ;

    fn audio_set_input(&mut self, id: u64, bus_mask: u32, gain: u32, mute: bool) -> (r: ControlResult<()>)
        ensures
            final(self).requests() == old(self).requests().push((PortRequest::AudioSetInput { id, bus_mask, gain, mute }, r)),
    ;

    fn audio_set_bus_gain(&mut self, id: u64, gain: u32, mute: bool) -> (r: ControlResult<()>)
        ensures
            final(self).requests() == old(self).requests().push((PortRequest::AudioSetBusGain { id, gain, mute }, r)),
    ;

    fn audio_set_unit_link(&mut self, unit_id: u64, bus_id: u64, mode: u32) -> (r: ControlResult<()>)
        ensures
            final(self).requests() == old(self).requests().push((PortRequest::AudioSetUnitLink { unit_id, bus_id, mode }, r)),
    ;

    fn audio_set_headphone_copy_master(&mut self, enabled: bool) -> (r: ControlResult<()>)
        ensures
            final(self).requests() == old(self).requests().push((PortRequest::AudioSetHeadphoneCopyMaster { enabled }, r)),
    ;

    fn set_master_fps(&mut self, fps_num: u32, fps_den: u32) -> (r: ControlResult<()>)
        ensures
            final(self).requests() == old(self).requests().push((PortRequest::SetMasterFps { fps_num, fps_den }, r)),
    ;

    fn set_frame_buffer(&mut self, frames: u32) -> (r: ControlResult<()>)
        ensures
            final(self).requests() == old(self).requests().push((PortRequest::SetFrameBuffer { frames }, r)),
    ;

    fn set_rebar_optimization(&mut self, enabled: bool) -> (r: ControlResult<()>)
        ensures
            final(self).requests() == old(self).requests().push((PortRequest::SetRebarOptimization { enabled }, r)),
    ;

    fn set_ndi_gpu_upload(&mut self, enabled: bool) -> (r: ControlResult<()>)
        ensures
            final(self).requests() == old(self).requests().push((PortRequest::SetNdiGpuUpload { enabled }, r)),
    ;

    fn set_bus_colors(&mut self, preview: [u8; 3], program: [u8; 3], inactive: [u8; 3]) -> (r: ControlResult<()>)
        ensures
            final(self).requests() == old(self).requests().push((PortRequest::SetBusColors { preview: preview@, program: program@, inactive: inactive@ }, r)),
    ;

    fn set_mv_label(&mut self, scene_id: u64, size: u32, percent: bool, top: bool) -> (r: ControlResult<()>)
        ensures
            final(self).requests() == old(self).requests().push((PortRequest::SetMvLabel { scene_id, size, percent, top }, r)),
    ;

    fn bind_multiview(&mut self, scene_id: u64, preview_unit: u64, program_unit: u64) -> (r: ControlResult<()>)
        ensures
            final(self).requests() == old(self).requests().push((PortRequest::BindMultiview { scene_id, preview_unit, program_unit }, r)),
    ;

    fn unit_cut(&mut self, unit_id: u64, swap: bool, incoming: u64) -> (r: ControlResult<()>)
        ensures
            final(self).requests() == old(self).requests().push((PortRequest::UnitCut { unit_id, swap, incoming }, r)),
    ;

    fn unit_auto(&mut self, spec: AutoApply) -> (r: ControlResult<()>)
        ensures
            final(self).requests() == old(self).requests().push((PortRequest::UnitAuto(spec), r)),
    ;

    fn unit_set_preview(&mut self, unit_id: u64, scene_gpu_id: u64) -> (r: ControlResult<()>)
        ensures
            final(self).requests() == old(self).requests().push((PortRequest::UnitSetPreview { unit_id, scene_gpu_id }, r)),
    ;

    fn unit_set_mix(&mut self, unit_id: u64, mix: u32) -> (r: ControlResult<()>)
        ensures
            final(self).requests() == old(self).requests().push((PortRequest::UnitSetMix { unit_id, mix }, r)),
    ;

    fn unit_set_state(&mut self, unit_id: u64, program: u64, preview: u64, mix: u32) -> (r: ControlResult<()>)
        ensures
            final(self).requests() == old(self).requests().push((PortRequest::UnitSetState { unit_id, program, preview, mix }, r)),
    ;

    fn overlay_auto(&mut self, spec: OverlayAutoApply) -> (r: ControlResult<()>) {
        let _ = spec;
        Ok(())
    }

    fn unit_live(&self, unit_id: u64) -> ControlResult<UnitLiveState>;

    fn live_state(&self) -> ControlResult<LiveState>;

    fn video_set_playing(&mut self, id: u64, playing: bool) -> (r: ControlResult<()>)
        ensures
            final(self).requests() == old(self).requests().push((PortRequest::VideoSetPlaying { id, playing }, r)),
    ;

    fn video_set_loop(&mut self, id: u64, looping: bool) -> (r: ControlResult<()>)
        ensures
            final(self).requests() == old(self).requests().push((PortRequest::VideoSetLoop { id, looping }, r)),
    ;

    fn video_seek(&mut self, id: u64, position_hns: i64) -> (r: ControlResult<()>)
        ensures
            final(self).requests() == old(self).requests().push((PortRequest::VideoSeek { id, position_hns }, r)),
    ;

    fn snapshot(&mut self, unit_id: u64, kind: u32, path: &str) -> (r: ControlResult<()>)
        ensures
            final(self).requests() == old(self).requests().push((PortRequest::Snapshot { unit_id, kind, path: path@ }, r)),
    ;

    fn configure_vmix_api(&mut self, http_enabled: bool, tcp_enabled: bool, port: u32, user: &str, pass: &str) -> (r: ControlResult<()>)
        ensures
            final(self).requests() == old(self).requests().push((PortRequest::ConfigureVmixApi { http_enabled, tcp_enabled, port, user: user@, pass: pass@ }, r)),
    ;

    fn configure_native_api(&mut self, enabled: bool, port: u32) -> (r: ControlResult<()>)
        ensures
            final(self).requests() == old(self).requests().push((PortRequest::ConfigureNativeApi { enabled, port }, r)),
    ;

    fn discover_omt(&self) -> (r: ControlResult<String>) {
        Ok(String::new())
    }

    fn discover_ndi(&self) -> (r: ControlResult<String>) {
        Ok(String::new())
    }
}

/// In-memory mixer for contract tests and headless runs. It does not touch
/// the GPU or I/O: it only tracks readiness and each unit's live buses.
pub struct NullMixer {
    ready: bool,
    units: HashMap<u64, UnitLiveState>,
    log: Ghost<Seq<PortCall>>,
}

/// A unit's live state with its buses set.
pub open spec fn with_buses(u: UnitLiveState, program: u64, preview: u64) -> UnitLiveState {
    UnitLiveState { program_source: program, preview_source: preview, ..u }
}

/// A cut: with `swap` Program and Preview trade places; otherwise a non-zero
/// incoming source goes to Program.
pub open spec fn after_cut(u: UnitLiveState, swap: bool, incoming: u64) -> UnitLiveState {
    if swap {
        with_buses(u, u.preview_source, u.program_source)
    } else if incoming != 0 {
        with_buses(u, incoming, u.preview_source)
    } else {
        u
    }
}

impl NullMixer {
    pub closed spec fn spec_ready(&self) -> bool {
        self.ready
    }

    pub closed spec fn spec_units(&self) -> Map<u64, UnitLiveState> {
        self.units@
    }

    pub fn new() -> (r: Self)
        ensures
            !r.spec_ready(),
            r.spec_units() == Map::<u64, UnitLiveState>::empty(),
            r.requests() == Seq::<PortCall>::empty(),
    {
        NullMixer { ready: false, units: HashMap::new(), log: Ghost(Seq::empty()) }
    }

    /// The unit's state, created empty when missing, taken out of the map.
    fn take_unit(&mut self, unit_id: u64) -> (r: UnitLiveState)
        ensures
            final(self).spec_units() == old(self).spec_units().remove(unit_id),
            final(self).spec_ready() == old(self).spec_ready(),
            final(self).requests() == old(self).requests(),
            old(self).spec_units().contains_key(unit_id) ==> r == old(self).spec_units()[unit_id],
            !old(self).spec_units().contains_key(unit_id) ==> r.program_source == 0 && r.preview_source
                == 0 && r.mix == 0 && !r.transitioning && r.incoming_source == 0
                && r.overlay_sources@.len() == 0,
    {
        broadcast use vstd::std_specs::hash::group_hash_axioms;

        match self.units.remove(&unit_id) {
            Some(u) => u,
            None => UnitLiveState::default(),
        }
    }

    /// Cuts the unit's buses (see `after_cut`), creating the unit empty
    /// when missing.
    fn cut_buses(&mut self, unit_id: u64, swap: bool, incoming: u64)
        ensures
            final(self).spec_ready() == old(self).spec_ready(),
            final(self).requests() == old(self).requests(),
            final(self).spec_units().dom() == old(self).spec_units().dom().insert(unit_id),
            old(self).spec_units().contains_key(unit_id) ==> final(self).spec_units()[unit_id]
                == after_cut(old(self).spec_units()[unit_id], swap, incoming),
            forall|k: u64| #[trigger] old(self).spec_units().contains_key(k) && k != unit_id
                ==> final(self).spec_units()[k] == old(self).spec_units()[k],
    {
        broadcast use vstd::std_specs::hash::group_hash_axioms;

        let mut u = self.take_unit(unit_id);
        if swap {
            let program = u.program_source;
            u.program_source = u.preview_source;
            u.preview_source = program;
        } else if incoming != 0 {
            u.program_source = incoming;
        }
        self.units.insert(unit_id, u);
        proof {
            assert(self.spec_units().dom() =~= old(self).spec_units().dom().insert(unit_id));
        }
    }
}

impl Default for NullMixer {
    fn default() -> (r: Self)
        ensures
            !r.spec_ready(),
            r.spec_units() == Map::<u64, UnitLiveState>::empty(),
            r.requests() == Seq::<PortCall>::empty(),
    {
        NullMixer::new()
    }
}

impl MixerPort for NullMixer {
    closed spec fn requests(&self) -> Seq<PortCall> {
        self.log@
    }

    fn create(&mut self, fps_num: u32, fps_den: u32, renderer: Renderer) -> (r: ControlResult<()>)
        ensures
            r is Ok,
            final(self).spec_ready(),
            final(self).spec_units() == old(self).spec_units(),
    {
        self.ready = true;
        self.log = Ghost(self.log@.push((PortRequest::Create { fps_num, fps_den, renderer }, Ok(()))));
        Ok(())
    }

    fn destroy(&mut self) -> (r: ControlResult<()>)
        ensures
            r is Ok,
            !final(self).spec_ready(),
            final(self).spec_units() == Map::<u64, UnitLiveState>::empty(),
    {
        self.ready = false;
        self.units.clear();
        self.log = Ghost(self.log@.push((PortRequest::Destroy, Ok(()))));
        Ok(())
    }

    fn is_ready(&self) -> (r: bool)
        ensures
            r == self.spec_ready(),
    {
        self.ready
    }

    fn create_unit(&mut self, id: u64, width: u32, height: u32) -> (r: ControlResult<()>)
        ensures
            r is Ok,
            final(self).spec_ready() == old(self).spec_ready(),
            final(self).spec_units().dom() == old(self).spec_units().dom().insert(id),
            forall|k: u64| #[trigger] old(self).spec_units().contains_key(k) ==> final(self).spec_units()[k]
                == old(self).spec_units()[k],
    {
        broadcast use vstd::std_specs::hash::group_hash_axioms;

        let u = self.take_unit(id);
        self.units.insert(id, u);
        proof {
            assert(self.spec_units().dom() =~= old(self).spec_units().dom().insert(id));
        }
        self.log = Ghost(self.log@.push((PortRequest::CreateUnit { id, width, height }, Ok(()))));
        Ok(())
    }

    fn destroy_unit(&mut self, id: u64) -> (r: ControlResult<()>)
        ensures
            r is Ok,
            final(self).spec_ready() == old(self).spec_ready(),
            final(self).spec_units() == old(self).spec_units().remove(id),
    {
        broadcast use vstd::std_specs::hash::group_hash_axioms;

        let _ = self.units.remove(&id);
        self.log = Ghost(self.log@.push((PortRequest::DestroyUnit { id }, Ok(()))));
        Ok(())
    }

    fn configure_unit(&mut self, id: u64, width: u32, height: u32, fps_num: u32, fps_den: u32) -> (r: ControlResult<()>)
        ensures
            r is Ok,
            final(self).spec_ready() == old(self).spec_ready(),
            final(self).spec_units() == old(self).spec_units(),
    {
        self.log = Ghost(self.log@.push((PortRequest::ConfigureUnit { id, width, height, fps_num, fps_den }, Ok(()))));
        Ok(())
    }

    fn define_scene(&mut self, spec: SceneApply) -> (r: ControlResult<()>)
        ensures
            r is Ok,
            final(self).spec_ready() == old(self).spec_ready(),
            final(self).spec_units() == old(self).spec_units(),
    {
        self.log = Ghost(self.log@.push((PortRequest::DefineScene(spec@), Ok(()))));
        Ok(())
    }

    fn define_multiview_scene(&mut self, spec: MultiviewApply) -> (r: ControlResult<()>)
        ensures
            r is Ok,
            final(self).spec_ready() == old(self).spec_ready(),
            final(self).spec_units() == old(self).spec_units(),
    {
        self.log = Ghost(self.log@.push((PortRequest::DefineMultiviewScene(spec@), Ok(()))));
        Ok(())
    }

    fn destroy_scene(&mut self, id: u64) -> (r: ControlResult<()>)
        ensures
            r is Ok,
            final(self).spec_ready() == old(self).spec_ready(),
            final(self).spec_units() == old(self).spec_units(),
    {
        self.log = Ghost(self.log@.push((PortRequest::DestroyScene { id }, Ok(()))));
        Ok(())
    }

    fn define_generator(&mut self, spec: GeneratorApply) -> (r: ControlResult<()>)
        ensures
            r is Ok,
            final(self).spec_ready() == old(self).spec_ready(),
            final(self).spec_units() == old(self).spec_units(),
    {
        self.log = Ghost(self.log@.push((PortRequest::DefineGenerator(spec@), Ok(()))));
        Ok(())
    }

    fn define_mix_input(&mut self, spec: MixInputApply) -> (r: ControlResult<()>)
        ensures
            r is Ok,
            final(self).spec_ready() == old(self).spec_ready(),
            final(self).spec_units() == old(self).spec_units(),
    {
        self.log = Ghost(self.log@.push((PortRequest::DefineMixInput(spec@), Ok(()))));
        Ok(())
    }

    fn load_still(&mut self, id: u64, path: &str) -> (r: ControlResult<()>)
        ensures
            r is Ok,
            final(self).spec_ready() == old(self).spec_ready(),
            final(self).spec_units() == old(self).spec_units(),
    {
        self.log = Ghost(self.log@.push((PortRequest::LoadStill { id, path: path@ }, Ok(()))));
        Ok(())
    }

    fn video_start(&mut self, spec: VideoStartApply) -> (r: ControlResult<()>)
        ensures
            r is Ok,
            final(self).spec_ready() == old(self).spec_ready(),
            final(self).spec_units() == old(self).spec_units(),
    {
        self.log = Ghost(self.log@.push((PortRequest::VideoStart(spec@), Ok(()))));
        Ok(())
    }

    fn omt_connect(&mut self, spec: LiveConnectApply) -> (r: ControlResult<()>)
        ensures
            r is Ok,
            final(self).spec_ready() == old(self).spec_ready(),
            final(self).spec_units() == old(self).spec_units(),
    {
        self.log = Ghost(self.log@.push((PortRequest::OmtConnect(spec@), Ok(()))));
        Ok(())
    }

    fn ndi_connect(&mut self, spec: LiveConnectApply) -> (r: ControlResult<()>)
        ensures
            r is Ok,
            final(self).spec_ready() == old(self).spec_ready(),
            final(self).spec_units() == old(self).spec_units(),
    {
        self.log = Ghost(self.log@.push((PortRequest::NdiConnect(spec@), Ok(()))));
        Ok(())
    }

    fn audio_capture_start(&mut self, spec: AudioCaptureApply) -> (r: ControlResult<()>)
        ensures
            r is Ok,
            final(self).spec_ready() == old(self).spec_ready(),
            final(self).spec_units() == old(self).spec_units(),
    {
        self.log = Ghost(self.log@.push((PortRequest::AudioCaptureStart(spec@), Ok(()))));
        Ok(())
    }

    fn destroy_source(&mut self, id: u64) -> (r: ControlResult<()>)
        ensures
            r is Ok,
            final(self).spec_ready() == old(self).spec_ready(),
            final(self).spec_units() == old(self).spec_units(),
    {
        self.log = Ghost(self.log@.push((PortRequest::DestroySource { id }, Ok(()))));
        Ok(())
    }

    fn set_live_save(&mut self, id: u64, mode: u32, flags: u32) -> (r: ControlResult<()>)
        ensures
            r is Ok,
            final(self).spec_ready() == old(self).spec_ready(),
            final(self).spec_units() == old(self).spec_units(),
    {
        self.log = Ghost(self.log@.push((PortRequest::SetLiveSave { id, mode, flags }, Ok(()))));
        Ok(())
    }

    fn set_omt_quality(&mut self, id: u64, quality: u32) -> (r: ControlResult<()>)
        ensures
            r is Ok,
            final(self).spec_ready() == old(self).spec_ready(),
            final(self).spec_units() == old(self).spec_units(),
    {
        self.log = Ghost(self.log@.push((PortRequest::SetOmtQuality { id, quality }, Ok(()))));
        Ok(())
    }

    fn output_add(&mut self, spec: OutputApply) -> (r: ControlResult<()>)
        ensures
            r is Ok,
            final(self).spec_ready() == old(self).spec_ready(),
            final(self).spec_units() == old(self).spec_units(),
    {
        self.log = Ghost(self.log@.push((PortRequest::OutputAdd(spec@), Ok(()))));
        Ok(())
    }

    fn output_remove(&mut self, id: u64) -> (r: ControlResult<()>)
        ensures
            r is Ok,
            final(self).spec_ready() == old(self).spec_ready(),
            final(self).spec_units() == old(self).spec_units(),
    {
        self.log = Ghost(self.log@.push((PortRequest::OutputRemove { id }, Ok(()))));
        Ok(())
    }

    fn audio_bus_upsert(&mut self, spec: BusApply) -> (r: ControlResult<()>)
        ensures
            r is Ok,
            final(self).spec_ready() == old(self).spec_ready(),
            final(self).spec_units() == old(self).spec_units(),
    {
        self.log = Ghost(self.log@.push((PortRequest::AudioBusUpsert(spec@), Ok(()))));
        Ok(())
    }

    fn audio_bus_remove(&mut self, id: u64) -> (r: ControlResult<()>)
        ensures
            r is Ok,
            final(self).spec_ready() == old(self).spec_ready(),
            final(self).spec_units() == old(self).spec_units(),
    {
        self.log = Ghost(self.log@.push((PortRequest::AudioBusRemove { id }, Ok(()))));
        Ok(())
    }

    fn audio_set_input(&mut self, id: u64, bus_mask: u32, gain: u32, mute: bool) -> (r: ControlResult<()>)
        ensures
            r is Ok,
            final(self).spec_ready() == old(self).spec_ready(),
            final(self).spec_units() == old(self).spec_units(),
    {
        self.log = Ghost(self.log@.push((PortRequest::AudioSetInput { id, bus_mask, gain, mute }, Ok(()))));
        Ok(())
    }

    fn audio_set_bus_gain(&mut self, id: u64, gain: u32, mute: bool) -> (r: ControlResult<()>)
        ensures
            r is Ok,
            final(self).spec_ready() == old(self).spec_ready(),
            final(self).spec_units() == old(self).spec_units(),
    {
        self.log = Ghost(self.log@.push((PortRequest::AudioSetBusGain { id, gain, mute }, Ok(()))));
        Ok(())
    }

    fn audio_set_unit_link(&mut self, unit_id: u64, bus_id: u64, mode: u32) -> (r: ControlResult<()>)
        ensures
            r is Ok,
            final(self).spec_ready() == old(self).spec_ready(),
            final(self).spec_units() == old(self).spec_units(),
    {
        self.log = Ghost(self.log@.push((PortRequest::AudioSetUnitLink { unit_id, bus_id, mode }, Ok(()))));
        Ok(())
    }

    fn audio_set_headphone_copy_master(&mut self, enabled: bool) -> (r: ControlResult<()>)
        ensures
            r is Ok,
            final(self).spec_ready() == old(self).spec_ready(),
            final(self).spec_units() == old(self).spec_units(),
    {
        self.log = Ghost(self.log@.push((PortRequest::AudioSetHeadphoneCopyMaster { enabled }, Ok(()))));
        Ok(())
    }

    fn set_master_fps(&mut self, fps_num: u32, fps_den: u32) -> (r: ControlResult<()>)
        ensures
            r is Ok,
            final(self).spec_ready() == old(self).spec_ready(),
            final(self).spec_units() == old(self).spec_units(),
    {
        self.log = Ghost(self.log@.push((PortRequest::SetMasterFps { fps_num, fps_den }, Ok(()))));
        Ok(())
    }

    fn set_frame_buffer(&mut self, frames: u32) -> (r: ControlResult<()>)
        ensures
            r is Ok,
            final(self).spec_ready() == old(self).spec_ready(),
            final(self).spec_units() == old(self).spec_units(),
    {
        self.log = Ghost(self.log@.push((PortRequest::SetFrameBuffer { frames }, Ok(()))));
        Ok(())
    }

    fn set_rebar_optimization(&mut self, enabled: bool) -> (r: ControlResult<()>)
        ensures
            r is Ok,
            final(self).spec_ready() == old(self).spec_ready(),
            final(self).spec_units() == old(self).spec_units(),
    {
        self.log = Ghost(self.log@.push((PortRequest::SetRebarOptimization { enabled }, Ok(()))));
        Ok(())
    }

    fn set_ndi_gpu_upload(&mut self, enabled: bool) -> (r: ControlResult<()>)
        ensures
            r is Ok,
            final(self).spec_ready() == old(self).spec_ready(),
            final(self).spec_units() == old(self).spec_units(),
    {
        self.log = Ghost(self.log@.push((PortRequest::SetNdiGpuUpload { enabled }, Ok(()))));
        Ok(())
    }

    fn set_bus_colors(&mut self, preview: [u8; 3], program: [u8; 3], inactive: [u8; 3]) -> (r: ControlResult<()>)
        ensures
            r is Ok,
            final(self).spec_ready() == old(self).spec_ready(),
            final(self).spec_units() == old(self).spec_units(),
    {
        self.log = Ghost(self.log@.push((PortRequest::SetBusColors { preview: preview@, program: program@, inactive: inactive@ }, Ok(()))));
        Ok(())
    }

    fn set_mv_label(&mut self, scene_id: u64, size: u32, percent: bool, top: bool) -> (r: ControlResult<()>)
        ensures
            r is Ok,
            final(self).spec_ready() == old(self).spec_ready(),
            final(self).spec_units() == old(self).spec_units(),
    {
        self.log = Ghost(self.log@.push((PortRequest::SetMvLabel { scene_id, size, percent, top }, Ok(()))));
        Ok(())
    }

    fn bind_multiview(&mut self, scene_id: u64, preview_unit: u64, program_unit: u64) -> (r: ControlResult<()>)
        ensures
            r is Ok,
            final(self).spec_ready() == old(self).spec_ready(),
            final(self).spec_units() == old(self).spec_units(),
    {
        self.log = Ghost(self.log@.push((PortRequest::BindMultiview { scene_id, preview_unit, program_unit }, Ok(()))));
        Ok(())
    }

    fn video_set_playing(&mut self, id: u64, playing: bool) -> (r: ControlResult<()>)
        ensures
            r is Ok,
            final(self).spec_ready() == old(self).spec_ready(),
            final(self).spec_units() == old(self).spec_units(),
    {
        self.log = Ghost(self.log@.push((PortRequest::VideoSetPlaying { id, playing }, Ok(()))));
        Ok(())
    }

    fn video_set_loop(&mut self, id: u64, looping: bool) -> (r: ControlResult<()>)
        ensures
            r is Ok,
            final(self).spec_ready() == old(self).spec_ready(),
            final(self).spec_units() == old(self).spec_units(),
    {
        self.log = Ghost(self.log@.push((PortRequest::VideoSetLoop { id, looping }, Ok(()))));
        Ok(())
    }

    fn video_seek(&mut self, id: u64, position_hns: i64) -> (r: ControlResult<()>)
        ensures
            r is Ok,
            final(self).spec_ready() == old(self).spec_ready(),
            final(self).spec_units() == old(self).spec_units(),
    {
        self.log = Ghost(self.log@.push((PortRequest::VideoSeek { id, position_hns }, Ok(()))));
        Ok(())
    }

    fn snapshot(&mut self, unit_id: u64, kind: u32, path: &str) -> (r: ControlResult<()>)
        ensures
            r is Ok,
            final(self).spec_ready() == old(self).spec_ready(),
            final(self).spec_units() == old(self).spec_units(),
    {
        self.log = Ghost(self.log@.push((PortRequest::Snapshot { unit_id, kind, path: path@ }, Ok(()))));
        Ok(())
    }

    fn configure_vmix_api(&mut self, http_enabled: bool, tcp_enabled: bool, port: u32, user: &str, pass: &str) -> (r: ControlResult<()>)
        ensures
            r is Ok,
            final(self).spec_ready() == old(self).spec_ready(),
            final(self).spec_units() == old(self).spec_units(),
    {
        self.log = Ghost(self.log@.push((PortRequest::ConfigureVmixApi { http_enabled, tcp_enabled, port, user: user@, pass: pass@ }, Ok(()))));
        Ok(())
    }

    fn configure_native_api(&mut self, enabled: bool, port: u32) -> (r: ControlResult<()>)
        ensures
            r is Ok,
            final(self).spec_ready() == old(self).spec_ready(),
            final(self).spec_units() == old(self).spec_units(),
    {
        self.log = Ghost(self.log@.push((PortRequest::ConfigureNativeApi { enabled, port }, Ok(()))));
        Ok(())
    }

    fn unit_cut(&mut self, unit_id: u64, swap: bool, incoming: u64) -> (r: ControlResult<()>)
        ensures
            r is Ok,
            final(self).spec_ready() == old(self).spec_ready(),
            final(self).spec_units().dom() == old(self).spec_units().dom().insert(unit_id),
            old(self).spec_units().contains_key(unit_id) ==> final(self).spec_units()[unit_id]
                == after_cut(old(self).spec_units()[unit_id], swap, incoming),
            forall|k: u64| #[trigger] old(self).spec_units().contains_key(k) && k != unit_id
                ==> final(self).spec_units()[k] == old(self).spec_units()[k],
    {
        self.cut_buses(unit_id, swap, incoming);
        self.log = Ghost(self.log@.push((PortRequest::UnitCut { unit_id, swap, incoming }, Ok(()))));
        Ok(())
    }

    fn unit_auto(&mut self, spec: AutoApply) -> (r: ControlResult<()>)
        ensures
            r is Ok,
            final(self).spec_ready() == old(self).spec_ready(),
            final(self).spec_units().dom() == old(self).spec_units().dom().insert(spec.unit_id),
            old(self).spec_units().contains_key(spec.unit_id) ==> final(self).spec_units()[spec.unit_id]
                == after_cut(old(self).spec_units()[spec.unit_id], spec.swap, spec.incoming),
    {
        self.cut_buses(spec.unit_id, spec.swap, spec.incoming);
        self.log = Ghost(self.log@.push((PortRequest::UnitAuto(spec), Ok(()))));
        Ok(())
    }

    fn unit_set_preview(&mut self, unit_id: u64, scene_gpu_id: u64) -> (r: ControlResult<()>)
        ensures
            r is Ok,
            final(self).spec_ready() == old(self).spec_ready(),
            final(self).spec_units().dom() == old(self).spec_units().dom().insert(unit_id),
            final(self).spec_units()[unit_id].preview_source == scene_gpu_id,
            old(self).spec_units().contains_key(unit_id) ==> final(self).spec_units()[unit_id]
                == (UnitLiveState { preview_source: scene_gpu_id, ..old(self).spec_units()[unit_id] }),
    {
        broadcast use vstd::std_specs::hash::group_hash_axioms;

        let mut u = self.take_unit(unit_id);
        u.preview_source = scene_gpu_id;
        self.units.insert(unit_id, u);
        proof {
            assert(self.spec_units().dom() =~= old(self).spec_units().dom().insert(unit_id));
        }
        self.log = Ghost(self.log@.push((PortRequest::UnitSetPreview { unit_id, scene_gpu_id }, Ok(()))));
        Ok(())
    }

    fn unit_set_mix(&mut self, unit_id: u64, mix: u32) -> (r: ControlResult<()>)
        ensures
            r is Ok,
            final(self).spec_ready() == old(self).spec_ready(),
            final(self).spec_units().dom() == old(self).spec_units().dom().insert(unit_id),
            final(self).spec_units()[unit_id].mix == mix,
            old(self).spec_units().contains_key(unit_id) ==> final(self).spec_units()[unit_id]
                == (UnitLiveState { mix, ..old(self).spec_units()[unit_id] }),
    {
        broadcast use vstd::std_specs::hash::group_hash_axioms;

        let mut u = self.take_unit(unit_id);
        u.mix = mix;
        self.units.insert(unit_id, u);
        proof {
            assert(self.spec_units().dom() =~= old(self).spec_units().dom().insert(unit_id));
        }
        self.log = Ghost(self.log@.push((PortRequest::UnitSetMix { unit_id, mix }, Ok(()))));
        Ok(())
    }

    fn unit_set_state(&mut self, unit_id: u64, program: u64, preview: u64, mix: u32) -> (r: ControlResult<()>)
        ensures
            r is Ok,
            final(self).spec_ready() == old(self).spec_ready(),
            final(self).spec_units().dom() == old(self).spec_units().dom().insert(unit_id),
            final(self).spec_units()[unit_id].program_source == program,
            final(self).spec_units()[unit_id].preview_source == preview,
            final(self).spec_units()[unit_id].mix == mix,
            !final(self).spec_units()[unit_id].transitioning,
            final(self).spec_units()[unit_id].incoming_source == 0,
            final(self).spec_units()[unit_id].overlay_sources@.len() == 0,
    {
        broadcast use vstd::std_specs::hash::group_hash_axioms;

        let mut u = UnitLiveState::default();
        u.program_source = program;
        u.preview_source = preview;
        u.mix = mix;
        self.units.insert(unit_id, u);
        proof {
            assert(self.spec_units().dom() =~= old(self).spec_units().dom().insert(unit_id));
        }
        self.log = Ghost(self.log@.push((PortRequest::UnitSetState { unit_id, program, preview, mix }, Ok(()))));
        Ok(())
    }

    fn unit_live(&self, unit_id: u64) -> (r: ControlResult<UnitLiveState>)
        ensures
            self.spec_units().contains_key(unit_id) ==> (r matches Ok(u) && u.program_source
                == self.spec_units()[unit_id].program_source && u.preview_source
                == self.spec_units()[unit_id].preview_source && u.mix == self.spec_units()[unit_id].mix),
            !self.spec_units().contains_key(unit_id) ==> (r matches Err(e) && e@.kind
                == crate::error::ErrorKind::NotFound && e@.message == "unit"@),
    {
        broadcast use vstd::std_specs::hash::group_hash_axioms;

        match self.units.get(&unit_id) {
            Some(u) => Ok(
                UnitLiveState {
                    program_source: u.program_source,
                    preview_source: u.preview_source,
                    mix: u.mix,
                    transitioning: u.transitioning,
                    incoming_source: u.incoming_source,
                    overlay_sources: u.overlay_sources.clone(),
                },
            ),
            None => Err(ControlError::not_found("unit")),
        }
    }

    fn live_state(&self) -> (r: ControlResult<LiveState>)
        ensures
            r matches Ok(l) && l.units@ == self.spec_units(),
    {
        Ok(LiveState { units: self.units.clone() })
    }
}

} // verus!
