use std::collections::HashMap;

use eiviz::ids::scene_gpu_id;
use eiviz::live::{LiveState, UnitLiveState};
use eiviz::session::model::{
    Document, InputDto, InputKind, SceneDto, SceneLayer, UnitDto, VideoPlayWhen, VideoTriggerWhen,
};
use eiviz::video_trigger::{collect_roles, tick, tick_with_roles, VideoAction, VideoRoles};

fn layer(input_id: u64) -> SceneLayer {
    SceneLayer { input_id, width: 0x3f80_0000, height: 0x3f80_0000, ..SceneLayer::default() }
}

fn scene(id: u64, input_id: u64) -> SceneDto {
    SceneDto { id, name: format!("Scene {id}"), layers: vec![layer(input_id)], ..SceneDto::default() }
}

fn clip_doc(play: VideoPlayWhen, restart: VideoTriggerWhen, pause: VideoTriggerWhen) -> Document {
    let mut d = Document::default();
    d.inputs = vec![InputDto {
        id: 2,
        name: "Clip".into(),
        kind: InputKind::Video,
        path_or_address: Some("clip.mp4".into()),
        video_play_when: play,
        video_restart_when: restart,
        video_pause_when: pause,
        ..InputDto::default()
    }];
    d.scenes = vec![scene(1, 2)];
    d.units = vec![UnitDto { id: 1, name: "MU 1".into(), ..UnitDto::default() }];
    d
}

fn live_on(program: u64, preview: u64) -> LiveState {
    let mut live = LiveState::default();
    live.units.insert(
        1,
        UnitLiveState { program_source: program, preview_source: preview, ..UnitLiveState::default() },
    );
    live
}

#[test]
fn on_active_plays_when_program_rises() {
    let doc = clip_doc(VideoPlayWhen::OnActive, VideoTriggerWhen::Never, VideoTriggerWhen::Never);
    let live = live_on(scene_gpu_id(1), 0);
    let mut prev = HashMap::new();
    let actions = tick(&doc, &live, &mut prev);
    assert!(actions.contains(&(2, VideoAction::Play)));
    let again = tick(&doc, &live, &mut prev);
    assert!(!again.contains(&(2, VideoAction::Play)));
}

#[test]
fn never_restart_does_not_seek_when_program_rises() {
    let doc = clip_doc(VideoPlayWhen::Never, VideoTriggerWhen::Never, VideoTriggerWhen::Never);
    let live = live_on(scene_gpu_id(1), 0);
    let mut prev = HashMap::new();
    let actions = tick(&doc, &live, &mut prev);
    assert!(!actions.contains(&(2, VideoAction::SeekZero)));
    assert!(!actions.contains(&(2, VideoAction::Play)));
    let again = tick(&doc, &live, &mut prev);
    assert!(again.is_empty());
}

#[test]
fn on_active_play_wins_over_on_active_pause() {
    let doc = clip_doc(VideoPlayWhen::OnActive, VideoTriggerWhen::OnActive, VideoTriggerWhen::OnActive);
    let live = live_on(scene_gpu_id(1), 0);
    let mut prev = HashMap::new();
    let actions = tick(&doc, &live, &mut prev);
    assert!(actions.contains(&(2, VideoAction::SeekZero)));
    assert!(actions.contains(&(2, VideoAction::Play)));
    assert!(!actions.contains(&(2, VideoAction::Pause)));
}

#[test]
fn pause_on_active_still_freezes_when_play_is_preview() {
    let doc = clip_doc(VideoPlayWhen::OnPreview, VideoTriggerWhen::Never, VideoTriggerWhen::OnActive);
    let live = live_on(scene_gpu_id(1), 0);
    let mut prev = HashMap::new();
    let actions = tick(&doc, &live, &mut prev);
    assert!(actions.contains(&(2, VideoAction::Pause)));
    assert!(!actions.contains(&(2, VideoAction::Play)));
}

#[test]
fn always_play_is_edge_triggered() {
    let doc = clip_doc(VideoPlayWhen::Always, VideoTriggerWhen::Never, VideoTriggerWhen::Never);
    let live = live_on(scene_gpu_id(1), 0);
    let mut prev = HashMap::new();
    let actions = tick(&doc, &live, &mut prev);
    assert!(actions.contains(&(2, VideoAction::Play)));
    let again = tick(&doc, &live, &mut prev);
    assert!(!again.contains(&(2, VideoAction::Play)));
}

#[test]
fn colliding_scene_and_input_ids_do_not_recurse() {
    let mut doc = Document::default();
    doc.inputs = vec![InputDto { id: 2, name: "Bars".into(), kind: InputKind::Bars, ..InputDto::default() }];
    doc.scenes = vec![scene(1, 2), scene(2, 2)];
    doc.units = vec![UnitDto { id: 1, name: "MU 1".into(), ..UnitDto::default() }];
    let live = live_on(scene_gpu_id(2), scene_gpu_id(1));
    let roles = collect_roles(&doc, &live);
    assert_eq!(roles.get(&2).copied().unwrap_or_default().on_program, true);
}

#[test]
fn running_transition_shows_incoming_and_overlays_on_program() {
    let mut doc = clip_doc(VideoPlayWhen::OnActive, VideoTriggerWhen::Never, VideoTriggerWhen::Never);
    doc.scenes.push(scene(3, 7));
    let mut live = live_on(0, scene_gpu_id(1));
    live.units.get_mut(&1).unwrap().overlay_sources = vec![9];
    let roles = collect_roles(&doc, &live);
    assert_eq!(roles.get(&2), Some(&VideoRoles { on_program: false, on_preview: true }));
    assert_eq!(roles.get(&9), Some(&VideoRoles { on_program: true, on_preview: false }));
    live.units.get_mut(&1).unwrap().mix = 0x3f00_0000;
    let roles = collect_roles(&doc, &live);
    assert_eq!(roles.get(&2), Some(&VideoRoles { on_program: true, on_preview: true }));
    live.units.get_mut(&1).unwrap().incoming_source = scene_gpu_id(3);
    let roles = collect_roles(&doc, &live);
    assert_eq!(roles.get(&7), Some(&VideoRoles { on_program: true, on_preview: false }));
    assert_eq!(roles.get(&2), Some(&VideoRoles { on_program: false, on_preview: true }));
    live.units.get_mut(&1).unwrap().mix = 0x3a83_126f;
    assert!(collect_roles(&doc, &live).get(&7).is_none());
}

#[test]
fn always_play_with_given_roles_pauses_on_deactivation() {
    let doc = clip_doc(VideoPlayWhen::Always, VideoTriggerWhen::Never, VideoTriggerWhen::OnDeactivated);
    let mut on = HashMap::new();
    on.insert(2, VideoRoles { on_program: true, on_preview: false });
    let mut prev = HashMap::new();
    assert_eq!(tick_with_roles(&doc, &on, &mut prev), vec![(2, VideoAction::Play)]);
    assert!(tick_with_roles(&doc, &on, &mut prev).is_empty());
    let off: HashMap<u64, VideoRoles> = HashMap::new();
    assert_eq!(tick_with_roles(&doc, &off, &mut prev), vec![(2, VideoAction::Pause)]);
    assert_eq!(prev.get(&2), Some(&VideoRoles { on_program: false, on_preview: false }));
}
