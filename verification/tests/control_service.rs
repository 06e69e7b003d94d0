use std::collections::HashMap;
use std::sync::{Arc, Mutex};

use eiviz::command::{Command, Incoming};
use eiviz::error::{ControlError, ControlResult};
use eiviz::ids::scene_gpu_id;
use eiviz::lifecycle::Lifecycle;
use eiviz::live::{LiveState, UnitLiveState};
use eiviz::port::{
    AudioCaptureApply, AutoApply, BusApply, GeneratorApply, LiveConnectApply, MixInputApply, MixerPort,
    MultiviewApply, NullMixer, OutputApply, SceneApply, VideoStartApply,
};
use eiviz::query::Query;
use eiviz::service::{ControlService, RequestKey};
use eiviz::session::model::{Document, InputDto, InputKind, Renderer, SceneDto, SceneLayer, UnitDto};

#[derive(Clone, Default)]
struct FakeMixer {
    ready: bool,
    units: Arc<Mutex<HashMap<u64, UnitLiveState>>>,
    ops: Arc<Mutex<Vec<String>>>,
    fail_omt: bool,
}

impl FakeMixer {
    fn ops(&self) -> Vec<String> {
        self.ops.lock().map(|slot| slot.clone()).unwrap_or_default()
    }
    fn units(&self) -> HashMap<u64, UnitLiveState> {
        self.units.lock().map(|slot| slot.clone()).unwrap_or_default()
    }
    fn push_op(&self, op: String) {
        if let Ok(mut slot) = self.ops.lock() {
            slot.push(op);
        }
    }
}

impl MixerPort for FakeMixer {
    fn create(&mut self, _fps_num: u32, _fps_den: u32, _renderer: Renderer) -> ControlResult<()> {
        self.ready = true;
        self.push_op("create".into());
        Ok(())
    }
    fn destroy(&mut self) -> ControlResult<()> {
        self.ready = false;
        Ok(())
    }
    fn is_ready(&self) -> bool {
        self.ready
    }
    fn create_unit(&mut self, id: u64, _w: u32, _h: u32) -> ControlResult<()> {
        if let Ok(mut slot) = self.units.lock() {
            slot.insert(id, UnitLiveState::default());
        }
        self.push_op(format!("create_unit {id}"));
        Ok(())
    }
    fn destroy_unit(&mut self, id: u64) -> ControlResult<()> {
        if let Ok(mut slot) = self.units.lock() {
            slot.remove(&id);
        }
        Ok(())
    }
    fn configure_unit(&mut self, id: u64, _w: u32, _h: u32, _n: u32, _d: u32) -> ControlResult<()> {
        self.push_op(format!("configure_unit {id}"));
        Ok(())
    }
    fn define_scene(&mut self, spec: SceneApply) -> ControlResult<()> {
        self.push_op(format!("define_scene {}", spec.id));
        Ok(())
    }
    fn define_multiview_scene(&mut self, spec: MultiviewApply) -> ControlResult<()> {
        self.push_op(format!("define_multiview {}", spec.id));
        Ok(())
    }
    fn destroy_scene(&mut self, id: u64) -> ControlResult<()> {
        self.push_op(format!("destroy_scene {id}"));
        Ok(())
    }
    fn define_generator(&mut self, spec: GeneratorApply) -> ControlResult<()> {
        self.push_op(format!("generator {}", spec.id));
        Ok(())
    }
    fn define_mix_input(&mut self, spec: MixInputApply) -> ControlResult<()> {
        self.push_op(format!("mix {}", spec.id));
        Ok(())
    }
    fn load_still(&mut self, id: u64, _path: &str) -> ControlResult<()> {
        self.push_op(format!("still {id}"));
        Ok(())
    }
    fn video_start(&mut self, spec: VideoStartApply) -> ControlResult<()> {
        self.push_op(format!("video {}", spec.id));
        Ok(())
    }
    fn omt_connect(&mut self, spec: LiveConnectApply) -> ControlResult<()> {
        if self.fail_omt {
            return Err(ControlError::invalid("omt refused"));
        }
        self.push_op(format!("omt {}", spec.id));
        Ok(())
    }
    fn ndi_connect(&mut self, spec: LiveConnectApply) -> ControlResult<()> {
        self.push_op(format!("ndi {}", spec.id));
        Ok(())
    }
    fn audio_capture_start(&mut self, spec: AudioCaptureApply) -> ControlResult<()> {
        self.push_op(format!("capture {}", spec.id));
        Ok(())
    }
    fn destroy_source(&mut self, id: u64) -> ControlResult<()> {
        self.push_op(format!("destroy_source {id}"));
        Ok(())
    }
    fn set_live_save(&mut self, _id: u64, _mode: u32, _flags: u32) -> ControlResult<()> {
        Ok(())
    }
    fn set_omt_quality(&mut self, _id: u64, _q: u32) -> ControlResult<()> {
        Ok(())
    }
    fn output_add(&mut self, spec: OutputApply) -> ControlResult<()> {
        self.push_op(format!("output {}", spec.id));
        Ok(())
    }
    fn output_remove(&mut self, id: u64) -> ControlResult<()> {
        self.push_op(format!("remove_output {id}"));
        Ok(())
    }
    fn audio_bus_upsert(&mut self, spec: BusApply) -> ControlResult<()> {
        self.push_op(format!("bus {}", spec.id));
        Ok(())
    }
    fn audio_bus_remove(&mut self, _id: u64) -> ControlResult<()> {
        Ok(())
    }
    fn audio_set_input(&mut self, _id: u64, _m: u32, _g: u32, _mute: bool) -> ControlResult<()> {
        Ok(())
    }
    fn audio_set_bus_gain(&mut self, _id: u64, _g: u32, _m: bool) -> ControlResult<()> {
        Ok(())
    }
    fn audio_set_unit_link(&mut self, _u: u64, _b: u64, _m: u32) -> ControlResult<()> {
        Ok(())
    }
    fn audio_set_headphone_copy_master(&mut self, _e: bool) -> ControlResult<()> {
        Ok(())
    }
    fn set_master_fps(&mut self, _n: u32, _d: u32) -> ControlResult<()> {
        Ok(())
    }
    fn set_frame_buffer(&mut self, _f: u32) -> ControlResult<()> {
        Ok(())
    }
    fn set_rebar_optimization(&mut self, _e: bool) -> ControlResult<()> {
        Ok(())
    }
    fn set_ndi_gpu_upload(&mut self, _e: bool) -> ControlResult<()> {
        Ok(())
    }
    fn set_bus_colors(&mut self, _a: [u8; 3], _b: [u8; 3], _c: [u8; 3]) -> ControlResult<()> {
        Ok(())
    }
    fn set_mv_label(&mut self, _id: u64, _s: u32, _p: bool, _t: bool) -> ControlResult<()> {
        Ok(())
    }
    fn bind_multiview(&mut self, _s: u64, _p: u64, _g: u64) -> ControlResult<()> {
        Ok(())
    }
    fn unit_cut(&mut self, unit_id: u64, swap: bool, incoming: u64) -> ControlResult<()> {
        if let Ok(mut units) = self.units.lock() {
            let unit = units.entry(unit_id).or_default();
            if swap {
                std::mem::swap(&mut unit.program_source, &mut unit.preview_source);
            } else if incoming != 0 {
                unit.program_source = incoming;
            }
        }
        self.push_op(format!("cut {unit_id}"));
        Ok(())
    }
    fn unit_auto(&mut self, spec: AutoApply) -> ControlResult<()> {
        self.push_op(format!("auto {} {}", spec.unit_id, spec.duration_ms));
        Ok(())
    }
    fn unit_set_preview(&mut self, unit_id: u64, scene_gpu_id: u64) -> ControlResult<()> {
        if let Ok(mut units) = self.units.lock() {
            units.entry(unit_id).or_default().preview_source = scene_gpu_id;
        }
        Ok(())
    }
    fn unit_set_mix(&mut self, unit_id: u64, mix: u32) -> ControlResult<()> {
        if let Ok(mut units) = self.units.lock() {
            units.entry(unit_id).or_default().mix = mix;
        }
        Ok(())
    }
    fn unit_set_state(&mut self, unit_id: u64, program: u64, preview: u64, mix: u32) -> ControlResult<()> {
        if let Ok(mut units) = self.units.lock() {
            units.insert(
                unit_id,
                UnitLiveState { program_source: program, preview_source: preview, mix, ..UnitLiveState::default() },
            );
        }
        Ok(())
    }
    fn unit_live(&self, unit_id: u64) -> ControlResult<UnitLiveState> {
        self.units
            .lock()
            .ok()
            .and_then(|slot| slot.get(&unit_id).cloned())
            .ok_or_else(|| ControlError::not_found("unit"))
    }
    fn live_state(&self) -> ControlResult<LiveState> {
        Ok(LiveState { units: self.units() })
    }
    fn video_set_playing(&mut self, id: u64, playing: bool) -> ControlResult<()> {
        self.push_op(format!("playing {id} {playing}"));
        Ok(())
    }
    fn video_set_loop(&mut self, _id: u64, _l: bool) -> ControlResult<()> {
        Ok(())
    }
    fn video_seek(&mut self, id: u64, _hns: i64) -> ControlResult<()> {
        self.push_op(format!("seek {id}"));
        Ok(())
    }
    fn snapshot(&mut self, unit_id: u64, kind: u32, _p: &str) -> ControlResult<()> {
        self.push_op(format!("snapshot {unit_id} {kind}"));
        Ok(())
    }
    fn configure_vmix_api(&mut self, _h: bool, _t: bool, _p: u32, _u: &str, _pw: &str) -> ControlResult<()> {
        Ok(())
    }
    fn configure_native_api(&mut self, _e: bool, _p: u32) -> ControlResult<()> {
        Ok(())
    }
}

fn scene(id: u64, input_id: u64) -> SceneDto {
    SceneDto {
        id,
        name: format!("Scene {id}"),
        layers: vec![SceneLayer { input_id, ..SceneLayer::default() }],
        ..SceneDto::default()
    }
}

fn bars_doc() -> Document {
    let mut d = Document::default();
    d.version = 2;
    d.inputs = vec![InputDto { id: 2, name: "Bars".into(), kind: InputKind::Bars, ..InputDto::default() }];
    d.scenes = vec![scene(1, 2), scene(2, 2)];
    d.units = vec![UnitDto { id: 1, name: "MU 1".into(), ..UnitDto::default() }];
    d
}

fn no_files() -> Vec<String> {
    Vec::new()
}

#[test]
fn replace_session_is_idempotent() {
    let fake = FakeMixer::default();
    let probe = fake.clone();
    let mut svc = ControlService::new(fake);
    svc.replace_session(bars_doc(), None, "1", &no_files()).unwrap();
    let first = probe.ops().len();
    svc.replace_session(bars_doc(), Some(1), "2", &no_files()).unwrap();
    let ops = probe.ops();
    assert!(ops.len() >= first);
    assert!(!ops[first..].iter().any(|op| op.starts_with("generator")));
}

#[test]
fn revision_conflict_is_rejected() {
    let mut svc = ControlService::new(FakeMixer::default());
    svc.replace_session(bars_doc(), None, "1", &no_files()).unwrap();
    let err = svc.replace_session(bars_doc(), Some(99), "2", &no_files()).unwrap_err();
    assert!(matches!(err, ControlError::Conflict { .. }));
}

#[test]
fn request_dedupe_does_not_double_cut() {
    let fake = FakeMixer::default();
    let probe = fake.clone();
    let mut svc = ControlService::new(fake);
    svc.replace_session(bars_doc(), None, "boot", &no_files()).unwrap();
    let key = RequestKey { client_instance_id: "t".into(), request_id: "cut-1".into() };
    let cmd = Command::Cut { unit_id: 1, swap: true, incoming: Incoming::Preview };
    svc.execute(key.clone(), cmd.clone(), &no_files()).unwrap();
    svc.execute(key, cmd, &no_files()).unwrap();
    assert_eq!(probe.ops().iter().filter(|op| op.starts_with("cut")).count(), 1);
}

#[test]
fn named_cut_does_not_swap_preview() {
    let fake = FakeMixer::default();
    let probe = fake.clone();
    let mut svc = ControlService::new(fake);
    svc.replace_session(bars_doc(), None, "boot", &no_files()).unwrap();
    let preview_before = probe.units()[&1].preview_source;
    svc.vmix_cut(1, "2", true).unwrap();
    let unit = probe.units()[&1].clone();
    assert_eq!(unit.preview_source, preview_before);
    assert_eq!(unit.program_source, scene_gpu_id(2));
}

#[test]
fn retried_request_returns_the_remembered_outcome() {
    let mut svc = ControlService::new(FakeMixer::default());
    svc.replace_session(bars_doc(), None, "boot", &no_files()).unwrap();
    let key = RequestKey { client_instance_id: "c".into(), request_id: "mix-1".into() };
    let first = svc.execute(key.clone(), Command::SetMix { unit_id: 1, value: 0x3f00_0000 }, &no_files()).unwrap();
    let again = svc.execute(key, Command::SetMix { unit_id: 1, value: 0 }, &no_files()).unwrap();
    assert_eq!(first, again);
}

#[test]
fn commands_are_refused_while_the_mixer_is_down() {
    let mut svc = ControlService::new(FakeMixer::default());
    let key = RequestKey { client_instance_id: "c".into(), request_id: String::new() };
    let err = svc.execute(key, Command::SetMix { unit_id: 1, value: 0 }, &no_files()).unwrap_err();
    assert!(matches!(err, ControlError::Unavailable { .. }));
    assert_eq!(err.message(), "mixer is not ready");
    assert_eq!(svc.revision(), 0);
    assert!(svc.events_after(0).is_empty());
}

#[test]
fn replace_starts_a_stopped_mixer() {
    let fake = FakeMixer::default();
    let probe = fake.clone();
    let mut svc = ControlService::new(fake);
    assert_eq!(svc.lifecycle(), Lifecycle::Stopped);
    let outcome = svc.replace_session(bars_doc(), None, "boot", &no_files()).unwrap();
    assert_eq!(outcome.revision, 1);
    assert_eq!(svc.lifecycle(), Lifecycle::Ready);
    assert_eq!(probe.ops()[0], "create");
    assert!(svc.document().is_some());
}

#[test]
fn failed_apply_restores_the_previous_session() {
    let mut fake = FakeMixer::default();
    fake.fail_omt = true;
    let mut svc = ControlService::new(fake);
    svc.replace_session(bars_doc(), None, "boot", &no_files()).unwrap();
    let mut next = bars_doc();
    next.inputs.push(InputDto { id: 3, name: "Cam".into(), kind: InputKind::OMT, ..InputDto::default() });
    let err = svc.replace_session(next, Some(1), "next", &no_files()).unwrap_err();
    assert_eq!(err.message(), "omt refused");
    assert_eq!(svc.revision(), 1);
    assert_eq!(svc.document().map(|d| d.inputs.len()), Some(1));
}

#[test]
fn live_command_is_announced() {
    let mut svc = ControlService::new(FakeMixer::default());
    svc.replace_session(bars_doc(), None, "boot", &no_files()).unwrap();
    let key = RequestKey { client_instance_id: "c".into(), request_id: "a-1".into() };
    let outcome = svc
        .execute(
            key,
            Command::Auto {
                unit_id: 1,
                kind: 1,
                duration_ms: 500,
                swap: true,
                keep_preview: false,
                easing: 0,
                direction: 0,
                dip_r: 0,
                dip_g: 0,
                dip_b: 0,
                dip_a: 0x3f80_0000,
                incoming: Incoming::Preview,
                softness: 0,
                param: 0,
            },
            &no_files(),
        )
        .unwrap();
    let events = svc.events_after(0);
    let kinds: Vec<&str> = events.iter().map(|e| e.kind_name()).collect();
    let n = kinds.len();
    assert_eq!(&kinds[n - 3..], &["CommandApplied", "TransitionStarted", "LiveChanged"]);
    assert_eq!(events[n - 1].meta().sequence, outcome.sequence);
    assert_eq!(outcome.revision, 1);
}

#[test]
fn vmix_fade_uses_at_least_one_millisecond() {
    let fake = FakeMixer::default();
    let probe = fake.clone();
    let mut svc = ControlService::new(fake);
    svc.replace_session(bars_doc(), None, "boot", &no_files()).unwrap();
    svc.vmix_auto(1, "", false, 0).unwrap();
    assert!(probe.ops().iter().any(|op| op == "auto 1 1"));
}

#[test]
fn unknown_vmix_scene_is_not_found() {
    let mut svc = ControlService::new(FakeMixer::default());
    svc.replace_session(bars_doc(), None, "boot", &no_files()).unwrap();
    let err = svc.vmix_preview(1, "Nope").unwrap_err();
    assert!(matches!(err, ControlError::NotFound { .. }));
    assert_eq!(svc.resolve_scene_gpu("0").unwrap(), 0);
    assert_eq!(svc.resolve_scene_id("Scene 2").unwrap(), 2);
}

#[test]
fn snapshot_needs_a_running_mixer() {
    let mut svc = ControlService::new(NullMixer::new());
    assert!(matches!(svc.snapshot(), Err(ControlError::Unavailable { .. })));
    svc.create_runtime(60, 1, Renderer::Auto).unwrap();
    let snap = svc.query(Query::GetRevision).unwrap();
    assert_eq!(snap.revision, 0);
    assert_eq!(snap.lifecycle, Lifecycle::Ready);
    assert_eq!(snap.document.version, Document::default().version);
    let key = RequestKey { client_instance_id: "c".into(), request_id: "bye".into() };
    let outcome = svc.execute(key, Command::Shutdown, &no_files()).unwrap();
    assert_eq!(outcome.revision, 0);
    assert_eq!(svc.lifecycle(), Lifecycle::Stopped);
}
