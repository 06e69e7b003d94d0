//! Driving the mixer through a reconcile plan: each operation becomes the
//! port calls that bring it about, and the outcome of each resource that
//! can come up late is recorded.

use vstd::prelude::*;

use crate::error::{ControlError, ControlResult, ErrorKind};
use crate::ids::ResourceKind;
use crate::live::{ResourcePhase, ResourceStatus};
use crate::port::{
    extends, fails_only_by_refusal, lemma_none_in_order, lemma_one_more, lemma_single_in_order, made_in_order,
    refused_later, requested_all, MixerPort, MultiviewApply, MultiviewApplyView, PortCall, PortRequest,
};
use crate::session::model::{Document, MvLabelAnchor, MvLabelUnit, SessionSettingsView};
use crate::session::reconcile::{OpView, ReconcileOp};
use crate::text::owned;

verus! {

/// The status records a resource of `kind` and `id` in `phase` with `message`.
pub open spec fn records(s: ResourceStatus, kind: ResourceKind, id: u64, phase: ResourcePhase, message: Seq<char>) -> bool {
    s.kind == kind && s.id == id && s.phase == phase && s.message@ == message
}

pub fn ready(kind: ResourceKind, id: u64) -> (r: ResourceStatus)
    ensures
        records(r, kind, id, ResourcePhase::Ready, Seq::<char>::empty()),
{
    let r = ResourceStatus { kind, id, phase: ResourcePhase::Ready, message: String::new() };
    r
}

pub fn retrying(kind: ResourceKind, id: u64, message: &str) -> (r: ResourceStatus)
    ensures
        records(r, kind, id, ResourcePhase::Retrying, message@),
{
    ResourceStatus { kind, id, phase: ResourcePhase::Retrying, message: owned(message) }
}

pub fn failed(kind: ResourceKind, id: u64, message: &str) -> (r: ResourceStatus)
    ensures
        records(r, kind, id, ResourcePhase::Failed, message@),
{
    ResourceStatus { kind, id, phase: ResourcePhase::Failed, message: owned(message) }
}

/// What becomes of a port call for a resource that may come up late: a
/// success records it ready; an I/O failure records it retrying and is not
/// an error; any other failure is returned and records nothing.
pub open spec fn accepted(
    result: ControlResult<()>,
    kind: ResourceKind,
    id: u64,
    before: Seq<ResourceStatus>,
    after: Seq<ResourceStatus>,
    r: ControlResult<()>,
) -> bool {
    match result {
        Ok(()) => r is Ok && after.len() == before.len() + 1 && after.drop_last() == before && records(
            after.last(),
            kind,
            id,
            ResourcePhase::Ready,
            Seq::<char>::empty(),
        ),
        Err(e) => if e@.kind == ErrorKind::Io {
            r is Ok && after.len() == before.len() + 1 && after.drop_last() == before && records(
                after.last(),
                kind,
                id,
                ResourcePhase::Retrying,
                e@.message,
            )
        } else {
            r == result && after == before
        },
    }
}

pub fn accept_io(
    result: ControlResult<()>,
    statuses: &mut Vec<ResourceStatus>,
    kind: ResourceKind,
    id: u64,
) -> (r: ControlResult<()>)
    ensures
        accepted(result, kind, id, old(statuses)@, final(statuses)@, r),
{
    match result {
        Ok(()) => {
            statuses.push(ready(kind, id));
            proof {
                assert(statuses@.drop_last() =~= old(statuses)@);
            }
            Ok(())
        },
        Err(error) => {
            match error {
                ControlError::Io { message } => {
                    statuses.push(retrying(kind, id, message.as_str()));
                    proof {
                        assert(statuses@.drop_last() =~= old(statuses)@);
                    }
                    Ok(())
                },
                other => Err(other),
            }
        },
    }
}

/// An operation that brings up a resource that may come up late, with the
/// kind and id it is recorded under.
pub open spec fn late_resource(op: ReconcileOp) -> Option<(ResourceKind, u64)> {
    match op {
        ReconcileOp::DefineGenerator(spec) => Some((ResourceKind::Input, spec.id)),
        ReconcileOp::LoadStill { id, .. } => Some((ResourceKind::Input, id)),
        ReconcileOp::StartVideo(spec) => Some((ResourceKind::Input, spec.id)),
        ReconcileOp::ConnectOmt(spec) => Some((ResourceKind::Input, spec.id)),
        ReconcileOp::ConnectNdi(spec) => Some((ResourceKind::Input, spec.id)),
        ReconcileOp::StartAudioCapture(spec) => Some((ResourceKind::Input, spec.id)),
        ReconcileOp::AddOutput(spec) => Some((ResourceKind::Output, spec.id)),
        _ => None,
    }
}

/// What applying one operation records, whatever the port answered: a late
/// resource is recorded ready or retrying unless the call failed otherwise;
/// a mix input is recorded ready once defined; an input that could not be
/// resolved is recorded failed; nothing else records anything.
pub open spec fn applied(op: ReconcileOp, before: Seq<ResourceStatus>, after: Seq<ResourceStatus>, r: ControlResult<()>) -> bool {
    if late_resource(op) is Some {
        let (kind, id) = late_resource(op)->0;
        ||| (r is Err && r->Err_0@.kind != ErrorKind::Io && after == before)
        ||| (r is Ok && after.len() == before.len() + 1 && after.drop_last() == before && (records(
            after.last(),
            kind,
            id,
            ResourcePhase::Ready,
            Seq::<char>::empty(),
        ) || (after.last().kind == kind && after.last().id == id && after.last().phase
            == ResourcePhase::Retrying)))
    } else {
        match op {
            ReconcileOp::DefineMixInput(spec) => if r is Ok {
                after.len() == before.len() + 1 && after.drop_last() == before && records(
                    after.last(),
                    ResourceKind::Input,
                    spec.id,
                    ResourcePhase::Ready,
                    Seq::<char>::empty(),
                )
            } else {
                after == before
            },
            ReconcileOp::FailInput { id, message } => r is Ok && after.len() == before.len() + 1
                && after.drop_last() == before && records(
                after.last(),
                ResourceKind::Input,
                id,
                ResourcePhase::Failed,
                message@,
            ),
            _ => after == before,
        }
    }
}

proof fn lemma_accepted_applied(
    result: ControlResult<()>,
    op: ReconcileOp,
    kind: ResourceKind,
    id: u64,
    before: Seq<ResourceStatus>,
    after: Seq<ResourceStatus>,
    r: ControlResult<()>,
)
    requires
        late_resource(op) == Some((kind, id)),
        accepted(result, kind, id, before, after, r),
    ensures
        applied(op, before, after, r),
{
}

/// The requests that bring the mixer-wide settings about, in order.
pub open spec fn settings_requests(s: SessionSettingsView) -> Seq<PortRequest> {
    seq![
        PortRequest::SetMasterFps { fps_num: s.master_fps_num, fps_den: s.master_fps_den },
        PortRequest::SetFrameBuffer { frames: s.frame_buffer_frames },
        PortRequest::SetRebarOptimization { enabled: s.rebar_optimization },
        PortRequest::SetNdiGpuUpload { enabled: s.ndi_gpu_upload },
        PortRequest::SetBusColors {
            preview: seq![s.preview_color.r, s.preview_color.g, s.preview_color.b],
            program: seq![s.program_color.r, s.program_color.g, s.program_color.b],
            inactive: seq![s.inactive_color.r, s.inactive_color.g, s.inactive_color.b],
        },
    ]
}

/// The requests that define a multiview, bind it to its units and label
/// its panes as the settings say, in order.
pub open spec fn multiview_requests(
    s: SessionSettingsView,
    spec: MultiviewApplyView,
    preview_unit: u64,
    program_unit: u64,
) -> Seq<PortRequest> {
    seq![
        PortRequest::DefineMultiviewScene(spec),
        PortRequest::BindMultiview { scene_id: spec.id, preview_unit, program_unit },
        PortRequest::SetMvLabel {
            scene_id: spec.id,
            size: s.multiview_label_size,
            percent: s.multiview_label_unit is Percent,
            top: s.multiview_label_anchor is Top,
        },
    ]
}

/// The requests that bring a unit or bus operation about; none for any
/// other operation.
pub open spec fn unit_requests(op: OpView) -> Seq<PortRequest> {
    match op {
        OpView::CreateUnit { id, width, height } => seq![PortRequest::CreateUnit { id, width, height }],
        OpView::ConfigureUnit { id, width, height, fps_num, fps_den } => seq![
            PortRequest::ConfigureUnit { id, width, height, fps_num, fps_den },
        ],
        OpView::DestroyUnit { id } => seq![PortRequest::DestroyUnit { id }],
        OpView::UpsertBus(spec) => seq![PortRequest::AudioBusUpsert(spec)],
        OpView::RemoveBus { id } => seq![PortRequest::AudioBusRemove { id }],
        _ => Seq::empty(),
    }
}

/// The request that brings an input operation about; none for a failed
/// input (it is only recorded) or any other operation.
pub open spec fn input_requests(op: OpView) -> Seq<PortRequest> {
    match op {
        OpView::DefineGenerator(spec) => seq![PortRequest::DefineGenerator(spec)],
        OpView::DefineMixInput(spec) => seq![PortRequest::DefineMixInput(spec)],
        OpView::LoadStill { id, path } => seq![PortRequest::LoadStill { id, path }],
        OpView::StartVideo(spec) => seq![PortRequest::VideoStart(spec)],
        OpView::ConnectOmt(spec) => seq![PortRequest::OmtConnect(spec)],
        OpView::ConnectNdi(spec) => seq![PortRequest::NdiConnect(spec)],
        OpView::StartAudioCapture(spec) => seq![PortRequest::AudioCaptureStart(spec)],
        OpView::DestroySource { id } => seq![PortRequest::DestroySource { id }],
        _ => Seq::empty(),
    }
}

/// The requests that bring a scene or multiview operation about; none for
/// any other operation.
pub open spec fn scene_requests(s: SessionSettingsView, op: OpView) -> Seq<PortRequest> {
    match op {
        OpView::DefineScene(spec) => seq![PortRequest::DefineScene(spec)],
        OpView::DestroyScene { id } => seq![PortRequest::DestroyScene { id }],
        OpView::DefineMultiview { spec, preview_unit, program_unit } => multiview_requests(
            s,
            spec,
            preview_unit,
            program_unit,
        ),
        _ => Seq::empty(),
    }
}

/// The request that brings a live-state, output, audio routing or API
/// operation about; none for any other operation.
pub open spec fn live_op_requests(op: OpView) -> Seq<PortRequest> {
    match op {
        OpView::SetLiveState { unit_id, program, preview } => seq![
            PortRequest::UnitSetState { unit_id, program, preview, mix: 0 },
        ],
        OpView::AddOutput(spec) => seq![PortRequest::OutputAdd(spec)],
        OpView::RemoveOutput { id } => seq![PortRequest::OutputRemove { id }],
        OpView::AudioInput { id, bus_mask, gain, mute } => seq![
            PortRequest::AudioSetInput { id, bus_mask, gain, mute },
        ],
        OpView::AudioUnitLink { unit_id, bus_id, mode } => seq![
            PortRequest::AudioSetUnitLink { unit_id, bus_id, mode },
        ],
        OpView::HeadphoneCopyMaster { enabled } => seq![PortRequest::AudioSetHeadphoneCopyMaster { enabled }],
        OpView::ConfigureVmixApi { http_enabled, tcp_enabled, port, user, pass } => seq![
            PortRequest::ConfigureVmixApi { http_enabled, tcp_enabled, port, user, pass },
        ],
        OpView::ConfigureNativeApi { enabled, port } => seq![PortRequest::ConfigureNativeApi { enabled, port }],
        _ => Seq::empty(),
    }
}

/// The requests, in order, that bring one reconcile operation about under
/// the settings `s` of the session being applied.
pub open spec fn op_requests(s: SessionSettingsView, op: OpView) -> Seq<PortRequest> {
    if op is Settings {
        settings_requests(s)
    } else {
        unit_requests(op) + input_requests(op) + scene_requests(s, op) + live_op_requests(op)
    }
}

/// The requests, in order, that bring a whole plan about.
pub open spec fn plan_requests(s: SessionSettingsView, ops: Seq<OpView>) -> Seq<PortRequest>
    decreases ops.len(),
{
    if ops.len() == 0 {
        Seq::empty()
    } else {
        plan_requests(s, ops.drop_last()) + op_requests(s, ops.last())
    }
}

/// A request for a resource that may come up late.
pub open spec fn late_request(req: PortRequest) -> bool {
    ||| req is DefineGenerator
    ||| req is LoadStill
    ||| req is VideoStart
    ||| req is OmtConnect
    ||| req is NdiConnect
    ||| req is AudioCaptureStart
    ||| req is OutputAdd
}

/// An answer that lets applying go on: `Ok`, or an I/O failure for a
/// resource that may come up late (it is then recorded retrying).
pub open spec fn goes_on(c: PortCall) -> bool {
    ||| c.1 is Ok
    ||| (late_request(c.0) && (c.1 matches Err(e) && e@.kind == ErrorKind::Io))
}

/// `after` is `before` followed by the requests `reqs`, in order, each
/// answered so that applying went on.
pub open spec fn all_went_on(before: Seq<PortCall>, after: Seq<PortCall>, reqs: Seq<PortRequest>) -> bool {
    &&& requested_all(before, after, reqs)
    &&& forall|i: int| 0 <= i < reqs.len() ==> goes_on(#[trigger] after[before.len() + i])
}

/// Requests that went on, followed by more that went on.
pub proof fn lemma_went_on_concat(
    a: Seq<PortCall>,
    b: Seq<PortCall>,
    c: Seq<PortCall>,
    r1: Seq<PortRequest>,
    r2: Seq<PortRequest>,
)
    requires
        all_went_on(a, b, r1),
        all_went_on(b, c, r2),
    ensures
        all_went_on(a, c, r1 + r2),
{
    assert(c.take(a.len() as int) =~= a) by {
        assert forall|i: int| 0 <= i < a.len() implies c.take(a.len() as int)[i] == a[i] by {
            assert(c.take(b.len() as int)[i] == c[i]);
            assert(b.take(a.len() as int)[i] == b[i]);
        }
    }
    assert forall|i: int| 0 <= i < (r1 + r2).len() implies (#[trigger] c[a.len() + i]).0 == (r1 + r2)[i]
        && goes_on(c[a.len() + i]) by {
        if i < r1.len() {
            assert(c.take(b.len() as int)[a.len() + i] == c[a.len() + i]);
            assert(b[a.len() + i] == c[a.len() + i]);
        } else {
            let j = i - r1.len();
            assert(c[b.len() + j] == c[a.len() + i]);
        }
    }
}

/// Requests made in order that all succeeded went on.
proof fn lemma_made_ok(before: Seq<PortCall>, after: Seq<PortCall>, reqs: Seq<PortRequest>, r: ControlResult<()>)
    requires
        made_in_order(before, after, reqs, r),
        r is Ok,
    ensures
        all_went_on(before, after, reqs),
{
    let k = after.len() - before.len();
    assert forall|i: int| 0 <= i < reqs.len() implies goes_on(#[trigger] after[before.len() + i]) by {
        if i == k - 1 {
            assert(after[before.len() + i] == after.last());
        }
    }
}

/// A request sequence made in order only ever adds to what the mixer was
/// asked, and a failure among them is a refusal by the mixer.
pub proof fn lemma_made_in_order_refused(
    before: Seq<PortCall>,
    after: Seq<PortCall>,
    reqs: Seq<PortRequest>,
    r: ControlResult<()>,
)
    requires
        made_in_order(before, after, reqs, r),
    ensures
        extends(before, after),
        r is Err ==> refused_later(before, after),
{
    if r is Err {
        assert(after[after.len() - 1] == after.last());
    }
}

/// `after` is `before` followed by the first requests of `reqs`, in order:
/// every one made was answered `Ok` but possibly the last, and they stop
/// early only after a refusal.
pub open spec fn tried_in_order(before: Seq<PortCall>, after: Seq<PortCall>, reqs: Seq<PortRequest>) -> bool {
    let k = after.len() - before.len();
    &&& 0 <= k <= reqs.len()
    &&& (reqs.len() > 0 ==> k > 0)
    &&& after.take(before.len() as int) == before
    &&& forall|i: int| 0 <= i < k ==> (#[trigger] after[before.len() + i]).0 == reqs[i]
    &&& forall|i: int| 0 <= i < k - 1 ==> (#[trigger] after[before.len() + i]).1 is Ok
    &&& (k < reqs.len() ==> after.last().1 is Err)
}

/// A failure is the answer to the last request made.
pub open spec fn failed_with_last(before: Seq<PortCall>, after: Seq<PortCall>, r: ControlResult<()>) -> bool {
    r is Err ==> after.len() > before.len() && r == after.last().1
}

/// Requests made in order were tried in order, and a failure among them is
/// the last answer.
proof fn lemma_made_tried(before: Seq<PortCall>, after: Seq<PortCall>, reqs: Seq<PortRequest>, r: ControlResult<()>)
    requires
        made_in_order(before, after, reqs, r),
    ensures
        tried_in_order(before, after, reqs),
        failed_with_last(before, after, r),
{
}

/// Brings one reconcile operation about on the mixer.
pub fn apply_one<P: MixerPort>(port: &mut P, next: &Document, op: &ReconcileOp, statuses: &mut Vec<ResourceStatus>) -> (r:
    ControlResult<()>)
    ensures
        applied(*op, old(statuses)@, final(statuses)@, r),
        fails_only_by_refusal(old(port).requests(), final(port).requests(), r),
        r is Ok ==> all_went_on(old(port).requests(), final(port).requests(), op_requests(next@.settings, op@)),
        tried_in_order(old(port).requests(), final(port).requests(), op_requests(next@.settings, op@)),
        failed_with_last(old(port).requests(), final(port).requests(), r),
{
    let ghost before = port.requests();
    let r = match op {
        ReconcileOp::Settings => apply_settings(port, next),
        ReconcileOp::CreateUnit { .. } | ReconcileOp::ConfigureUnit { .. } | ReconcileOp::DestroyUnit {
            ..
        } | ReconcileOp::UpsertBus(_) | ReconcileOp::RemoveBus { .. } => apply_units(port, op),
        ReconcileOp::DefineGenerator(_) | ReconcileOp::DefineMixInput(_) | ReconcileOp::LoadStill {
            ..
        } | ReconcileOp::StartVideo(_) | ReconcileOp::ConnectOmt(_) | ReconcileOp::ConnectNdi(_)
        | ReconcileOp::StartAudioCapture(_) | ReconcileOp::DestroySource { .. }
        | ReconcileOp::FailInput { .. } => apply_inputs(port, op, statuses),
        ReconcileOp::DefineScene(_) | ReconcileOp::DestroyScene { .. } | ReconcileOp::DefineMultiview {
            ..
        } => apply_scenes(port, next, op),
        _ => apply_live(port, op, statuses),
    };
    proof {
        let reqs = op_requests(next@.settings, op@);
        if op is Settings {
            lemma_made_in_order_refused(before, port.requests(), settings_requests(next@.settings), r);
            lemma_made_tried(before, port.requests(), settings_requests(next@.settings), r);
            if r is Ok {
                lemma_made_ok(before, port.requests(), settings_requests(next@.settings), r);
            }
        } else if op is CreateUnit || op is ConfigureUnit || op is DestroyUnit || op is UpsertBus || op is RemoveBus {
            lemma_made_in_order_refused(before, port.requests(), unit_requests(op@), r);
            lemma_made_tried(before, port.requests(), unit_requests(op@), r);
            assert(reqs =~= unit_requests(op@));
            if r is Ok {
                lemma_made_ok(before, port.requests(), unit_requests(op@), r);
            }
        } else if op is DefineScene || op is DestroyScene || op is DefineMultiview {
            lemma_made_in_order_refused(before, port.requests(), scene_requests(next@.settings, op@), r);
            lemma_made_tried(before, port.requests(), scene_requests(next@.settings, op@), r);
            assert(reqs =~= scene_requests(next@.settings, op@));
            if r is Ok {
                lemma_made_ok(before, port.requests(), scene_requests(next@.settings, op@), r);
            }
        } else if op is DefineGenerator || op is DefineMixInput || op is LoadStill || op is StartVideo
            || op is ConnectOmt || op is ConnectNdi || op is StartAudioCapture || op is DestroySource
            || op is FailInput {
            assert(reqs =~= input_requests(op@));
        } else {
            assert(reqs =~= live_op_requests(op@));
        }
    }
    r
}

fn apply_units<P: MixerPort>(port: &mut P, op: &ReconcileOp) -> (r: ControlResult<()>)
    ensures
        made_in_order(old(port).requests(), final(port).requests(), unit_requests(op@), r),
{
    let ghost before = port.requests();
    let r = match op {
        ReconcileOp::CreateUnit { id, width, height } => port.create_unit(*id, *width, *height),
        ReconcileOp::ConfigureUnit { id, width, height, fps_num, fps_den } => port.configure_unit(
            *id,
            *width,
            *height,
            *fps_num,
            *fps_den,
        ),
        ReconcileOp::DestroyUnit { id } => port.destroy_unit(*id),
        ReconcileOp::UpsertBus(spec) => port.audio_bus_upsert(spec.clone()),
        ReconcileOp::RemoveBus { id } => port.audio_bus_remove(*id),
        _ => Ok(()),
    };
    proof {
        let reqs = unit_requests(op@);
        if reqs.len() == 1 {
            lemma_single_in_order(before, port.requests().last(), reqs[0]);
            assert(seq![reqs[0]] =~= reqs);
        } else {
            lemma_none_in_order(before);
        }
    }
    r
}

fn apply_inputs<P: MixerPort>(port: &mut P, op: &ReconcileOp, statuses: &mut Vec<ResourceStatus>) -> (r:
    ControlResult<()>)
    ensures
        match *op {
            ReconcileOp::DefineGenerator(_) | ReconcileOp::DefineMixInput(_) | ReconcileOp::LoadStill {
                ..
            } | ReconcileOp::StartVideo(_) | ReconcileOp::ConnectOmt(_) | ReconcileOp::ConnectNdi(_)
            | ReconcileOp::StartAudioCapture(_) | ReconcileOp::DestroySource { .. }
            | ReconcileOp::FailInput { .. } => applied(*op, old(statuses)@, final(statuses)@, r),
            _ => final(statuses)@ == old(statuses)@,
        },
        r is Ok ==> all_went_on(old(port).requests(), final(port).requests(), input_requests(op@)),
        fails_only_by_refusal(old(port).requests(), final(port).requests(), r),
        tried_in_order(old(port).requests(), final(port).requests(), input_requests(op@)),
        failed_with_last(old(port).requests(), final(port).requests(), r),
{
    let ghost before = port.requests();
    let r = match op {
        ReconcileOp::DefineGenerator(spec) => {
            let result = port.define_generator(spec.clone());
            let r = accept_io(result, statuses, ResourceKind::Input, spec.id);
            proof {
                lemma_accepted_applied(result, *op, ResourceKind::Input, spec.id, old(statuses)@, statuses@, r);
            }
            r
        },
        ReconcileOp::DefineMixInput(spec) => {
            match port.define_mix_input(spec.clone()) {
                Err(e) => Err(e),
                Ok(()) => {
                    statuses.push(ready(ResourceKind::Input, spec.id));
                    proof {
                        assert(statuses@.drop_last() =~= old(statuses)@);
                    }
                    Ok(())
                },
            }
        },
        ReconcileOp::LoadStill { id, path } => {
            let result = port.load_still(*id, path.as_str());
            let r = accept_io(result, statuses, ResourceKind::Input, *id);
            proof {
                lemma_accepted_applied(result, *op, ResourceKind::Input, *id, old(statuses)@, statuses@, r);
            }
            r
        },
        ReconcileOp::StartVideo(spec) => {
            let result = port.video_start(spec.clone());
            let r = accept_io(result, statuses, ResourceKind::Input, spec.id);
            proof {
                lemma_accepted_applied(result, *op, ResourceKind::Input, spec.id, old(statuses)@, statuses@, r);
            }
            r
        },
        ReconcileOp::ConnectOmt(spec) => {
            let result = port.omt_connect(spec.clone());
            let r = accept_io(result, statuses, ResourceKind::Input, spec.id);
            proof {
                lemma_accepted_applied(result, *op, ResourceKind::Input, spec.id, old(statuses)@, statuses@, r);
            }
            r
        },
        ReconcileOp::ConnectNdi(spec) => {
            let result = port.ndi_connect(spec.clone());
            let r = accept_io(result, statuses, ResourceKind::Input, spec.id);
            proof {
                lemma_accepted_applied(result, *op, ResourceKind::Input, spec.id, old(statuses)@, statuses@, r);
            }
            r
        },
        ReconcileOp::StartAudioCapture(spec) => {
            let result = port.audio_capture_start(spec.clone());
            let r = accept_io(result, statuses, ResourceKind::Input, spec.id);
            proof {
                lemma_accepted_applied(result, *op, ResourceKind::Input, spec.id, old(statuses)@, statuses@, r);
            }
            r
        },
        ReconcileOp::DestroySource { id } => port.destroy_source(*id),
        ReconcileOp::FailInput { id, message } => {
            statuses.push(failed(ResourceKind::Input, *id, message.as_str()));
            proof {
                assert(statuses@.drop_last() =~= old(statuses)@);
            }
            Ok(())
        },
        _ => Ok(()),
    };
    proof {
        if port.requests().len() == before.len() {
            lemma_none_in_order(before);
        } else {
            lemma_one_more(before, port.requests().last());
            assert(before.push(port.requests().last()) =~= port.requests());
            assert(port.requests()[before.len() + 0int] == port.requests().last());
        }
    }
    r
}

fn apply_scenes<P: MixerPort>(port: &mut P, next: &Document, op: &ReconcileOp) -> (r: ControlResult<()>)
    ensures
        made_in_order(old(port).requests(), final(port).requests(), scene_requests(next@.settings, op@), r),
{
    let ghost before = port.requests();
    let r = match op {
        ReconcileOp::DefineScene(spec) => port.define_scene(spec.clone()),
        ReconcileOp::DestroyScene { id } => port.destroy_scene(*id),
        ReconcileOp::DefineMultiview { spec, preview_unit, program_unit } => apply_multiview(
            port,
            next,
            spec,
            *preview_unit,
            *program_unit,
        ),
        _ => Ok(()),
    };
    proof {
        let reqs = scene_requests(next@.settings, op@);
        if op is DefineScene || op is DestroyScene {
            lemma_single_in_order(before, port.requests().last(), reqs[0]);
            assert(seq![reqs[0]] =~= reqs);
        } else if !(op is DefineMultiview) {
            lemma_none_in_order(before);
        }
    }
    r
}

fn apply_live<P: MixerPort>(port: &mut P, op: &ReconcileOp, statuses: &mut Vec<ResourceStatus>) -> (r:
    ControlResult<()>)
    ensures
        op is AddOutput ==> applied(*op, old(statuses)@, final(statuses)@, r),
        !(op is AddOutput) ==> final(statuses)@ == old(statuses)@,
        r is Ok ==> all_went_on(old(port).requests(), final(port).requests(), live_op_requests(op@)),
        fails_only_by_refusal(old(port).requests(), final(port).requests(), r),
        tried_in_order(old(port).requests(), final(port).requests(), live_op_requests(op@)),
        failed_with_last(old(port).requests(), final(port).requests(), r),
{
    let ghost before = port.requests();
    let r = match op {
        ReconcileOp::SetLiveState { unit_id, program, preview } => port.unit_set_state(
            *unit_id,
            *program,
            *preview,
            0,
        ),
        ReconcileOp::AddOutput(spec) => {
            let result = port.output_add(spec.clone());
            let r = accept_io(result, statuses, ResourceKind::Output, spec.id);
            proof {
                lemma_accepted_applied(result, *op, ResourceKind::Output, spec.id, old(statuses)@, statuses@, r);
            }
            r
        },
        ReconcileOp::RemoveOutput { id } => port.output_remove(*id),
        ReconcileOp::AudioInput { id, bus_mask, gain, mute } => port.audio_set_input(
            *id,
            *bus_mask,
            *gain,
            *mute,
        ),
        ReconcileOp::AudioUnitLink { unit_id, bus_id, mode } => port.audio_set_unit_link(
            *unit_id,
            *bus_id,
            *mode,
        ),
        ReconcileOp::HeadphoneCopyMaster { enabled } => port.audio_set_headphone_copy_master(*enabled),
        ReconcileOp::ConfigureVmixApi { http_enabled, tcp_enabled, port: api_port, user, pass } => port.configure_vmix_api(
            *http_enabled,
            *tcp_enabled,
            *api_port,
            user.as_str(),
            pass.as_str(),
        ),
        ReconcileOp::ConfigureNativeApi { enabled, port: ws_port } => port.configure_native_api(
            *enabled,
            *ws_port,
        ),
        _ => Ok(()),
    };
    proof {
        if port.requests().len() == before.len() {
            lemma_none_in_order(before);
        } else {
            lemma_one_more(before, port.requests().last());
            assert(before.push(port.requests().last()) =~= port.requests());
            assert(port.requests()[before.len() + 0int] == port.requests().last());
        }
    }
    r
}

fn apply_settings<P: MixerPort>(port: &mut P, next: &Document) -> (r: ControlResult<()>)
    ensures
        made_in_order(old(port).requests(), final(port).requests(), settings_requests(next@.settings), r),
{
    let ghost before = port.requests();
    let ghost reqs = settings_requests(next@.settings);
    let s = &next.settings;
    let first = port.set_master_fps(s.master_fps_num, s.master_fps_den);
    proof {
        assert(port.requests()[before.len() as int] == port.requests().last());
        assert(port.requests().take(before.len() as int) =~= before);
    }
    match first {
        Err(e) => {
            return Err(e);
        },
        Ok(()) => {},
    }
    let ghost after1 = port.requests();
    let second = port.set_frame_buffer(s.frame_buffer_frames);
    proof {
        lemma_step_in_order(before, after1, port.requests().last(), reqs, 1);
    }
    match second {
        Err(e) => {
            return Err(e);
        },
        Ok(()) => {},
    }
    let ghost after2 = port.requests();
    let third = port.set_rebar_optimization(s.rebar_optimization);
    proof {
        lemma_step_in_order(before, after2, port.requests().last(), reqs, 2);
    }
    match third {
        Err(e) => {
            return Err(e);
        },
        Ok(()) => {},
    }
    let ghost after3 = port.requests();
    let fourth = port.set_ndi_gpu_upload(s.ndi_gpu_upload);
    proof {
        lemma_step_in_order(before, after3, port.requests().last(), reqs, 3);
    }
    match fourth {
        Err(e) => {
            return Err(e);
        },
        Ok(()) => {},
    }
    let ghost after4 = port.requests();
    let preview = [s.preview_color.r, s.preview_color.g, s.preview_color.b];
    let program = [s.program_color.r, s.program_color.g, s.program_color.b];
    let inactive = [s.inactive_color.r, s.inactive_color.g, s.inactive_color.b];
    proof {
        assert(preview@ =~= seq![s.preview_color.r, s.preview_color.g, s.preview_color.b]);
        assert(program@ =~= seq![s.program_color.r, s.program_color.g, s.program_color.b]);
        assert(inactive@ =~= seq![s.inactive_color.r, s.inactive_color.g, s.inactive_color.b]);
    }
    let last = port.set_bus_colors(preview, program, inactive);
    proof {
        lemma_step_in_order(before, after4, port.requests().last(), reqs, 4);
    }
    last
}

/// One more request, the `k`-th, made after `k` that were answered `Ok`.
proof fn lemma_step_in_order(before: Seq<PortCall>, mid: Seq<PortCall>, c: PortCall, reqs: Seq<PortRequest>, k: int)
    requires
        0 < k < reqs.len(),
        mid.len() == before.len() + k,
        mid.take(before.len() as int) == before,
        forall|i: int| 0 <= i < k ==> (#[trigger] mid[before.len() + i]).0 == reqs[i],
        forall|i: int| 0 <= i < k ==> (#[trigger] mid[before.len() + i]).1 is Ok,
        c.0 == reqs[k],
    ensures
        mid.push(c).take(before.len() as int) == before,
        forall|i: int| 0 <= i < k + 1 ==> (#[trigger] mid.push(c)[before.len() + i]).0 == reqs[i],
        forall|i: int| 0 <= i < k ==> (#[trigger] mid.push(c)[before.len() + i]).1 is Ok,
{
    let after = mid.push(c);
    assert(after.take(before.len() as int) =~= mid.take(before.len() as int));
    assert forall|i: int| 0 <= i < k + 1 implies (#[trigger] after[before.len() + i]).0 == reqs[i] by {
        if i < k {
            assert(after[before.len() + i] == mid[before.len() + i]);
        }
    }
    assert forall|i: int| 0 <= i < k implies (#[trigger] after[before.len() + i]).1 is Ok by {
        assert(after[before.len() + i] == mid[before.len() + i]);
    }
}

fn apply_multiview<P: MixerPort>(
    port: &mut P,
    next: &Document,
    spec: &MultiviewApply,
    preview_unit: u64,
    program_unit: u64,
) -> (r: ControlResult<()>)
    ensures
        made_in_order(
            old(port).requests(),
            final(port).requests(),
            multiview_requests(next@.settings, spec@, preview_unit, program_unit),
            r,
        ),
{
    let ghost before = port.requests();
    let ghost reqs = multiview_requests(next@.settings, spec@, preview_unit, program_unit);
    let id = spec.id;
    let first = port.define_multiview_scene(spec.clone());
    proof {
        assert(port.requests()[before.len() as int] == port.requests().last());
        assert(port.requests().take(before.len() as int) =~= before);
    }
    match first {
        Err(e) => {
            return Err(e);
        },
        Ok(()) => {},
    }
    let ghost after1 = port.requests();
    let second = port.bind_multiview(id, preview_unit, program_unit);
    proof {
        lemma_step_in_order(before, after1, port.requests().last(), reqs, 1);
    }
    match second {
        Err(e) => {
            return Err(e);
        },
        Ok(()) => {},
    }
    let ghost after2 = port.requests();
    let percent = match next.settings.multiview_label_unit {
        MvLabelUnit::Percent => true,
        _ => false,
    };
    let top = match next.settings.multiview_label_anchor {
        MvLabelAnchor::Top => true,
        _ => false,
    };
    let last = port.set_mv_label(id, next.settings.multiview_label_size, percent, top);
    proof {
        lemma_step_in_order(before, after2, port.requests().last(), reqs, 2);
    }
    last
}

} // verus!
