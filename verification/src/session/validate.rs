//! Structural validation of a session document.
//!
//! The specification names the first problem that the checks meet, in the
//! order they run; the executable checks return exactly that problem's
//! message.

use vstd::prelude::*;

use crate::ids::{multiview_gpu_id, spec_multiview_gpu_id};
use crate::session::model::{
    AudioCaptureMode, AudioDeviceKind, Document, DocumentView, InputDto, InputDtoView, InputKind,
    MixSource, OutputSourceKind,
};
use crate::text::{
    decimal, eq_ignore_ascii_case, owned, signed_decimal, spec_decimal, spec_eq_ignore_ascii_case,
    spec_signed_decimal, spec_trim, trim,
};

verus! {

#[derive(Debug, Clone, PartialEq, Eq)]
pub struct ValidationError {
    pub message: String,
}

impl ValidationError {
    fn new(message: String) -> (r: Self)
        ensures
            r.message@ == message@,
    {
        ValidationError { message }
    }
}

/// Which id space a uniqueness problem is in.
#[derive(Debug, Clone, Copy, PartialEq, Eq, Structural)]
pub enum IdKind {
    Input,
    Scene,
    Unit,
    Output,
    Multiview,
    Bus,
}

pub open spec fn spec_id_kind_name(k: IdKind) -> Seq<char> {
    match k {
        IdKind::Input => "input"@,
        IdKind::Scene => "scene"@,
        IdKind::Unit => "unit"@,
        IdKind::Output => "output"@,
        IdKind::Multiview => "multiview"@,
        IdKind::Bus => "bus"@,
    }
}

fn id_kind_name(k: IdKind) -> (r: &'static str)
    ensures
        r@ == spec_id_kind_name(k),
{
    match k {
        IdKind::Input => "input",
        IdKind::Scene => "scene",
        IdKind::Unit => "unit",
        IdKind::Output => "output",
        IdKind::Multiview => "multiview",
        IdKind::Bus => "bus",
    }
}

/// The first problem that validation finds in a document.
pub enum ValidationIssue {
    UnsupportedVersion { version: i32 },
    NoScene,
    NoUnit,
    ReservedId { kind: IdKind },
    DuplicateId { kind: IdKind, id: u64 },
    DuplicateGuid { kind: IdKind, guid: Seq<char> },
    PreviewSceneMissing { unit: u64, scene: u64 },
    ProgramSceneMissing { unit: u64, scene: u64 },
    LayerInputMissing { scene: u64, input: u64 },
    LayerAudioOnly { scene: u64, input: u64 },
    ProcessLoopbackTarget { input: u64 },
    AsioLoopback { input: u64 },
    AsioPair { input: u64 },
    MixNoTarget { input: u64 },
    MixMultiviewMissing { input: u64, target: u64 },
    MixUnitMissing { input: u64, target: u64 },
    MixCycle { start: u64 },
    OutputUnitMissing { output: u64, unit: u64 },
    OutputBusMissing { output: u64, bus: u64 },
    MasterFpsZero,
}

/// `a` + decimal `n` + `b`.
pub open spec fn text3(a: Seq<char>, n: u64, b: Seq<char>) -> Seq<char> {
    a + spec_decimal(n as nat) + b
}

/// `a` + decimal `n` + `b` + decimal `m`.
pub open spec fn text4(a: Seq<char>, n: u64, b: Seq<char>, m: u64) -> Seq<char> {
    a + spec_decimal(n as nat) + b + spec_decimal(m as nat)
}

/// The message that reports an issue.
pub open spec fn issue_message(i: ValidationIssue) -> Seq<char> {
    match i {
        ValidationIssue::UnsupportedVersion { version } => "unsupported session version "@
            + spec_signed_decimal(version as int),
        ValidationIssue::NoScene => "session needs at least one Scene"@,
        ValidationIssue::NoUnit => "session needs at least one Mixing Unit"@,
        ValidationIssue::ReservedId { kind } => spec_id_kind_name(kind) + " id 0 is reserved"@,
        ValidationIssue::DuplicateId { kind, id } => "duplicate "@ + spec_id_kind_name(kind)
            + " id "@ + spec_decimal(id as nat),
        ValidationIssue::DuplicateGuid { kind, guid } => "duplicate "@ + spec_id_kind_name(kind)
            + " guid "@ + guid,
        ValidationIssue::PreviewSceneMissing { unit, scene } => text4(
            "mixing unit "@,
            unit,
            " preview references missing scene "@,
            scene,
        ),
        ValidationIssue::ProgramSceneMissing { unit, scene } => text4(
            "mixing unit "@,
            unit,
            " program references missing scene "@,
            scene,
        ),
        ValidationIssue::LayerInputMissing { scene, input } => text4(
            "scene "@,
            scene,
            " references missing input "@,
            input,
        ),
        ValidationIssue::LayerAudioOnly { scene, input } => text4(
            "scene "@,
            scene,
            " cannot place audio-only input "@,
            input,
        ),
        ValidationIssue::ProcessLoopbackTarget { input } => text3(
            "audio input "@,
            input,
            " needs a process exe or AUMID"@,
        ),
        ValidationIssue::AsioLoopback { input } => text3(
            "audio input "@,
            input,
            " cannot use ASIO with process loopback"@,
        ),
        ValidationIssue::AsioPair { input } => text3(
            "audio input "@,
            input,
            " ASIO pair is invalid"@,
        ),
        ValidationIssue::MixNoTarget { input } => text3("mix input "@, input, " has no target"@),
        ValidationIssue::MixMultiviewMissing { input, target } => text4(
            "mix input "@,
            input,
            " references missing multiview "@,
            target,
        ),
        ValidationIssue::MixUnitMissing { input, target } => text4(
            "mix input "@,
            input,
            " references missing unit "@,
            target,
        ),
        ValidationIssue::MixCycle { start } => text3("mix input cycle involving "@, start, ""@),
        ValidationIssue::OutputUnitMissing { output, unit } => text4(
            "output "@,
            output,
            " references missing unit "@,
            unit,
        ),
        ValidationIssue::OutputBusMissing { output, bus } => text4(
            "output "@,
            output,
            " references missing bus "@,
            bus,
        ),
        ValidationIssue::MasterFpsZero => "master fps is zero"@,
    }
}

/// The first index in `i..n` at which `f` reports an issue, and that issue.
pub open spec fn first_issue(n: int, f: spec_fn(int) -> Option<ValidationIssue>, i: int) -> Option<
    ValidationIssue,
>
    decreases n - i,
{
    if i >= n {
        None
    } else if f(i) is Some {
        f(i)
    } else {
        first_issue(n, f, i + 1)
    }
}

/// When no index in `i..n` has an issue, the scan finds none.
pub proof fn lemma_first_issue_none(n: int, f: spec_fn(int) -> Option<ValidationIssue>, i: int)
    requires
        forall|k: int| i <= k < n ==> (#[trigger] f(k)) is None,
    ensures
        first_issue(n, f, i) is None,
    decreases n - i,
{
    if i < n {
        lemma_first_issue_none(n, f, i + 1);
    }
}

/// `a` unless it is empty, then `b`.
pub open spec fn or_issue(a: Option<ValidationIssue>, b: Option<ValidationIssue>) -> Option<
    ValidationIssue,
> {
    if a is Some {
        a
    } else {
        b
    }
}

pub open spec fn input_ids(d: DocumentView) -> Seq<u64> {
    d.inputs.map_values(|x: InputDtoView| x.id)
}

pub open spec fn scene_ids(d: DocumentView) -> Seq<u64> {
    d.scenes.map_values(|x: crate::session::model::SceneDtoView| x.id)
}

pub open spec fn unit_ids(d: DocumentView) -> Seq<u64> {
    d.units.map_values(|x: crate::session::model::UnitDtoView| x.id)
}

pub open spec fn output_ids(d: DocumentView) -> Seq<u64> {
    d.outputs.map_values(|x: crate::session::model::OutputDtoView| x.id)
}

pub open spec fn multiview_ids(d: DocumentView) -> Seq<u64> {
    d.multiviews.map_values(|x: crate::session::model::MultiviewDtoView| x.id)
}

pub open spec fn bus_ids(d: DocumentView) -> Seq<u64> {
    d.buses.map_values(|x: crate::session::model::BusDtoView| x.id)
}

pub open spec fn input_guids(d: DocumentView) -> Seq<Seq<char>> {
    d.inputs.map_values(|x: InputDtoView| x.guid)
}

pub open spec fn scene_guids(d: DocumentView) -> Seq<Seq<char>> {
    d.scenes.map_values(|x: crate::session::model::SceneDtoView| x.guid)
}

/// Id `k` of `ids` is zero or repeats an earlier one.
pub open spec fn id_elem_issue(ids: Seq<u64>, kind: IdKind, k: int) -> Option<ValidationIssue> {
    if ids[k] == 0 {
        Some(ValidationIssue::ReservedId { kind })
    } else if exists|j: int| 0 <= j < k && ids[j] == ids[k] {
        Some(ValidationIssue::DuplicateId { kind, id: ids[k] })
    } else {
        None
    }
}

pub open spec fn id_elem_fn(ids: Seq<u64>, kind: IdKind) -> spec_fn(int) -> Option<ValidationIssue> {
    |k: int| id_elem_issue(ids, kind, k)
}

pub open spec fn ids_issue(ids: Seq<u64>, kind: IdKind) -> Option<ValidationIssue> {
    first_issue(ids.len() as int, id_elem_fn(ids, kind), 0)
}

/// GUID `k` is non-empty and equals an earlier non-empty GUID up to ASCII case.
pub open spec fn guid_elem_issue(guids: Seq<Seq<char>>, kind: IdKind, k: int) -> Option<
    ValidationIssue,
> {
    if guids[k].len() == 0 {
        None
    } else if exists|j: int|
        0 <= j < k && guids[j].len() > 0 && spec_eq_ignore_ascii_case(guids[j], guids[k]) {
        Some(ValidationIssue::DuplicateGuid { kind, guid: guids[k] })
    } else {
        None
    }
}

pub open spec fn guid_elem_fn(guids: Seq<Seq<char>>, kind: IdKind) -> spec_fn(int) -> Option<
    ValidationIssue,
> {
    |k: int| guid_elem_issue(guids, kind, k)
}

pub open spec fn guids_issue(guids: Seq<Seq<char>>, kind: IdKind) -> Option<ValidationIssue> {
    first_issue(guids.len() as int, guid_elem_fn(guids, kind), 0)
}

pub open spec fn unit_scene_issue(d: DocumentView, k: int) -> Option<ValidationIssue> {
    let u = d.units[k];
    if u.preview_scene_id != 0 && !scene_ids(d).contains(u.preview_scene_id) {
        Some(ValidationIssue::PreviewSceneMissing { unit: u.id, scene: u.preview_scene_id })
    } else if u.program_scene_id != 0 && !scene_ids(d).contains(u.program_scene_id) {
        Some(ValidationIssue::ProgramSceneMissing { unit: u.id, scene: u.program_scene_id })
    } else {
        None
    }
}

/// Index of the first input with id `id` at or after `i`.
pub open spec fn find_input_from(inputs: Seq<InputDtoView>, id: u64, i: int) -> Option<int>
    decreases inputs.len() - i,
{
    if i >= inputs.len() {
        None
    } else if inputs[i].id == id {
        Some(i)
    } else {
        find_input_from(inputs, id, i + 1)
    }
}

pub open spec fn layer_issue(d: DocumentView, k: int, l: int) -> Option<ValidationIssue> {
    let scene = d.scenes[k];
    let input_id = scene.layers[l].input_id;
    if !input_ids(d).contains(input_id) {
        Some(ValidationIssue::LayerInputMissing { scene: scene.id, input: input_id })
    } else if find_input_from(d.inputs, input_id, 0) matches Some(x) && !d.inputs[x].kind.spec_has_video() {
        Some(ValidationIssue::LayerAudioOnly { scene: scene.id, input: input_id })
    } else {
        None
    }
}

pub open spec fn layer_fn(d: DocumentView, k: int) -> spec_fn(int) -> Option<ValidationIssue> {
    |l: int| layer_issue(d, k, l)
}

pub open spec fn scene_layers_issue(d: DocumentView, k: int) -> Option<ValidationIssue> {
    first_issue(d.scenes[k].layers.len() as int, layer_fn(d, k), 0)
}

pub open spec fn unit_scene_fn(d: DocumentView) -> spec_fn(int) -> Option<ValidationIssue> {
    |k: int| unit_scene_issue(d, k)
}

pub open spec fn scene_layers_fn(d: DocumentView) -> spec_fn(int) -> Option<ValidationIssue> {
    |k: int| scene_layers_issue(d, k)
}

pub open spec fn audio_fn(d: DocumentView) -> spec_fn(int) -> Option<ValidationIssue> {
    |k: int| audio_issue(d, k)
}

pub open spec fn mix_fn(d: DocumentView) -> spec_fn(int) -> Option<ValidationIssue> {
    |k: int| mix_issue(d, k)
}

pub open spec fn cycle_fn(d: DocumentView) -> spec_fn(int) -> Option<ValidationIssue> {
    |k: int| cycle_issue(d, k)
}

pub open spec fn output_fn(d: DocumentView) -> spec_fn(int) -> Option<ValidationIssue> {
    |k: int| output_issue(d, k)
}

pub open spec fn audio_issue(d: DocumentView, k: int) -> Option<ValidationIssue> {
    let x = d.inputs[k];
    if x.kind != InputKind::Audio {
        None
    } else if x.audio_capture_mode == AudioCaptureMode::ProcessLoopback && spec_trim(
        x.audio_process_exe,
    ).len() == 0 && spec_trim(x.audio_process_aumid).len() == 0 {
        Some(ValidationIssue::ProcessLoopbackTarget { input: x.id })
    } else if x.audio_device_kind == AudioDeviceKind::Asio && x.audio_capture_mode
        == AudioCaptureMode::ProcessLoopback {
        Some(ValidationIssue::AsioLoopback { input: x.id })
    } else if x.audio_device_kind == AudioDeviceKind::Asio && (x.audio_map_left < 0
        || x.audio_map_right < 0) {
        Some(ValidationIssue::AsioPair { input: x.id })
    } else {
        None
    }
}

pub open spec fn multiview_matches(d: DocumentView, target: u64) -> bool {
    exists|m: int|
        0 <= m < d.multiviews.len() && (d.multiviews[m].id == target || spec_multiview_gpu_id(
            d.multiviews[m].id,
        ) == target)
}

pub open spec fn mix_issue(d: DocumentView, k: int) -> Option<ValidationIssue> {
    let x = d.inputs[k];
    if x.kind != InputKind::Mix {
        None
    } else if x.mix_target_id == 0 {
        Some(ValidationIssue::MixNoTarget { input: x.id })
    } else if x.mix_source == MixSource::SessionMultiview {
        if !multiview_matches(d, x.mix_target_id) {
            Some(ValidationIssue::MixMultiviewMissing { input: x.id, target: x.mix_target_id })
        } else {
            None
        }
    } else if !unit_ids(d).contains(x.mix_target_id) {
        Some(ValidationIssue::MixUnitMissing { input: x.id, target: x.mix_target_id })
    } else {
        None
    }
}

/// An input that feeds a Mixing Unit bus into the session: an edge from the
/// input's id to the unit id it takes.
pub open spec fn is_mix_edge(x: InputDtoView) -> bool {
    x.kind == InputKind::Mix && x.mix_source != MixSource::SessionMultiview && x.mix_target_id != 0
}

/// Target of the last mix edge among `inputs[0..k]` that leaves `node`.
pub open spec fn edge_scan(inputs: Seq<InputDtoView>, node: u64, k: int) -> Option<u64>
    decreases k,
{
    if k <= 0 {
        None
    } else if is_mix_edge(inputs[k - 1]) && inputs[k - 1].id == node {
        Some(inputs[k - 1].mix_target_id)
    } else {
        edge_scan(inputs, node, k - 1)
    }
}

/// The mix edge that leaves `node` (a later input overrides an earlier one).
pub open spec fn edge_of(d: DocumentView, node: u64) -> Option<u64> {
    edge_scan(d.inputs, node, d.inputs.len() as int)
}

/// The `j`-th node of the walk along mix edges from `start`, while the walk
/// stays on nodes that have an edge.
pub open spec fn walk(d: DocumentView, start: u64, j: nat) -> Option<u64>
    decreases j,
{
    if j == 0 {
        if edge_of(d, start) is Some {
            Some(start)
        } else {
            None
        }
    } else {
        match walk(d, start, (j - 1) as nat) {
            Some(c) => {
                let t = edge_of(d, c)->0;
                if edge_of(d, t) is Some {
                    Some(t)
                } else {
                    None
                }
            },
            None => None,
        }
    }
}

/// The walk from `start` comes back to a node it already visited.
pub open spec fn cycles_from(d: DocumentView, start: u64) -> bool {
    exists|i: nat, j: nat| i < j && #[trigger] walk(d, start, i) is Some && walk(d, start, i) == #[trigger] walk(d, start, j)
}

pub open spec fn cycle_issue(d: DocumentView, k: int) -> Option<ValidationIssue> {
    let x = d.inputs[k];
    if is_mix_edge(x) && cycles_from(d, x.id) {
        Some(ValidationIssue::MixCycle { start: x.id })
    } else {
        None
    }
}

pub open spec fn output_issue(d: DocumentView, k: int) -> Option<ValidationIssue> {
    let o = d.outputs[k];
    if (o.source_kind == OutputSourceKind::MuPreview || o.source_kind
        == OutputSourceKind::MuProgram) && o.unit_id != 0 && !unit_ids(d).contains(o.unit_id) {
        Some(ValidationIssue::OutputUnitMissing { output: o.id, unit: o.unit_id })
    } else if o.audio_bus_id != 0 && bus_ids(d).len() != 0 && !bus_ids(d).contains(o.audio_bus_id) {
        Some(ValidationIssue::OutputBusMissing { output: o.id, bus: o.audio_bus_id })
    } else {
        None
    }
}

/// Everything that validation checks after the document's shape, in order.
pub open spec fn reference_issue(d: DocumentView) -> Option<ValidationIssue> {
    or_issue(
        ids_issue(input_ids(d), IdKind::Input),
        or_issue(
            ids_issue(scene_ids(d), IdKind::Scene),
            or_issue(
                ids_issue(unit_ids(d), IdKind::Unit),
                or_issue(
                    ids_issue(output_ids(d), IdKind::Output),
                    or_issue(
                        ids_issue(multiview_ids(d), IdKind::Multiview),
                        or_issue(
                            ids_issue(bus_ids(d), IdKind::Bus),
                            or_issue(
                                guids_issue(input_guids(d), IdKind::Input),
                                or_issue(
                                    guids_issue(scene_guids(d), IdKind::Scene),
                                    link_issue(d),
                                ),
                            ),
                        ),
                    ),
                ),
            ),
        ),
    )
}

/// Checks of references between resources, in order.
pub open spec fn link_issue(d: DocumentView) -> Option<ValidationIssue> {
    or_issue(
        first_issue(d.units.len() as int, unit_scene_fn(d), 0),
        or_issue(
            first_issue(d.scenes.len() as int, scene_layers_fn(d), 0),
            or_issue(
                first_issue(d.inputs.len() as int, audio_fn(d), 0),
                or_issue(
                    first_issue(d.inputs.len() as int, mix_fn(d), 0),
                    or_issue(
                        first_issue(d.inputs.len() as int, cycle_fn(d), 0),
                        or_issue(
                            first_issue(d.outputs.len() as int, output_fn(d), 0),
                            if d.settings.master_fps_num == 0 || d.settings.master_fps_den == 0 {
                                Some(ValidationIssue::MasterFpsZero)
                            } else {
                                None
                            },
                        ),
                    ),
                ),
            ),
        ),
    )
}

/// The first problem in the document, or none when it is valid.
pub open spec fn validation_issue(d: DocumentView) -> Option<ValidationIssue> {
    if d.version != 2 {
        Some(ValidationIssue::UnsupportedVersion { version: d.version })
    } else if d.scenes.len() == 0 {
        Some(ValidationIssue::NoScene)
    } else if d.units.len() == 0 {
        Some(ValidationIssue::NoUnit)
    } else {
        reference_issue(d)
    }
}

/// A document that validation accepts.
pub open spec fn is_valid(d: DocumentView) -> bool {
    validation_issue(d) is None
}

/// `r` reports exactly `issue`: `Ok` when there is none, else its message.
pub open spec fn reports(r: Result<(), ValidationError>, issue: Option<ValidationIssue>) -> bool {
    match issue {
        None => r is Ok,
        Some(i) => r matches Err(e) && e.message@ == issue_message(i),
    }
}


fn text3_exec(a: &str, n: u64, b: &str) -> (r: String)
    ensures
        r@ == text3(a@, n, b@),
{
    let mut t = owned(a);
    let d = decimal(n);
    t.append(d.as_str());
    t.append(b);
    t
}

fn text4_exec(a: &str, n: u64, b: &str, m: u64) -> (r: String)
    ensures
        r@ == text4(a@, n, b@, m),
{
    let mut t = text3_exec(a, n, b);
    let d = decimal(m);
    t.append(d.as_str());
    t
}

fn issue(message: String, ghost_issue: Ghost<ValidationIssue>) -> (r: Result<(), ValidationError>)
    requires
        message@ == issue_message(ghost_issue@),
    ensures
        reports(r, Some(ghost_issue@)),
{
    Err(ValidationError::new(message))
}

/// Whether `v` holds `x`.
pub fn vec_contains(v: &Vec<u64>, x: u64) -> (r: bool)
    ensures
        r == v@.contains(x),
{
    let mut i: usize = 0;
    while i < v.len()
        invariant
            i <= v.len(),
            forall|j: int| 0 <= j < i ==> v@[j] != x,
        decreases v.len() - i,
    {
        if v[i] == x {
            assert(v@[i as int] == x);
            return true;
        }
        i = i + 1;
    }
    false
}

fn input_id_list(doc: &Document) -> (r: Vec<u64>)
    ensures
        r@ == input_ids(doc@),
{
    let mut r: Vec<u64> = Vec::new();
    let mut i: usize = 0;
    while i < doc.inputs.len()
        invariant
            i <= doc.inputs.len(),
            r@ =~= input_ids(doc@).take(i as int),
        decreases doc.inputs.len() - i,
    {
        r.push(doc.inputs[i].id);
        i = i + 1;
    }
    assert(input_ids(doc@).take(i as int) =~= input_ids(doc@));
    r
}

fn scene_id_list(doc: &Document) -> (r: Vec<u64>)
    ensures
        r@ == scene_ids(doc@),
{
    let mut r: Vec<u64> = Vec::new();
    let mut i: usize = 0;
    while i < doc.scenes.len()
        invariant
            i <= doc.scenes.len(),
            r@ =~= scene_ids(doc@).take(i as int),
        decreases doc.scenes.len() - i,
    {
        r.push(doc.scenes[i].id);
        i = i + 1;
    }
    assert(scene_ids(doc@).take(i as int) =~= scene_ids(doc@));
    r
}

fn unit_id_list(doc: &Document) -> (r: Vec<u64>)
    ensures
        r@ == unit_ids(doc@),
{
    let mut r: Vec<u64> = Vec::new();
    let mut i: usize = 0;
    while i < doc.units.len()
        invariant
            i <= doc.units.len(),
            r@ =~= unit_ids(doc@).take(i as int),
        decreases doc.units.len() - i,
    {
        r.push(doc.units[i].id);
        i = i + 1;
    }
    assert(unit_ids(doc@).take(i as int) =~= unit_ids(doc@));
    r
}

pub(crate) fn output_id_list(doc: &Document) -> (r: Vec<u64>)
    ensures
        r@ == output_ids(doc@),
{
    let mut r: Vec<u64> = Vec::new();
    let mut i: usize = 0;
    while i < doc.outputs.len()
        invariant
            i <= doc.outputs.len(),
            r@ =~= output_ids(doc@).take(i as int),
        decreases doc.outputs.len() - i,
    {
        r.push(doc.outputs[i].id);
        i = i + 1;
    }
    assert(output_ids(doc@).take(i as int) =~= output_ids(doc@));
    r
}

fn multiview_id_list(doc: &Document) -> (r: Vec<u64>)
    ensures
        r@ == multiview_ids(doc@),
{
    let mut r: Vec<u64> = Vec::new();
    let mut i: usize = 0;
    while i < doc.multiviews.len()
        invariant
            i <= doc.multiviews.len(),
            r@ =~= multiview_ids(doc@).take(i as int),
        decreases doc.multiviews.len() - i,
    {
        r.push(doc.multiviews[i].id);
        i = i + 1;
    }
    assert(multiview_ids(doc@).take(i as int) =~= multiview_ids(doc@));
    r
}

pub(crate) fn bus_id_list(doc: &Document) -> (r: Vec<u64>)
    ensures
        r@ == bus_ids(doc@),
{
    let mut r: Vec<u64> = Vec::new();
    let mut i: usize = 0;
    while i < doc.buses.len()
        invariant
            i <= doc.buses.len(),
            r@ =~= bus_ids(doc@).take(i as int),
        decreases doc.buses.len() - i,
    {
        r.push(doc.buses[i].id);
        i = i + 1;
    }
    assert(bus_ids(doc@).take(i as int) =~= bus_ids(doc@));
    r
}

/// Rejects an id of 0 and an id that occurs twice, reporting the first.
fn unique_ids(ids: &Vec<u64>, kind: IdKind) -> (r: Result<(), ValidationError>)
    ensures
        reports(r, ids_issue(ids@, kind)),
{
    let ghost f = id_elem_fn(ids@, kind);
    let mut k: usize = 0;
    while k < ids.len()
        invariant
            k <= ids.len(),
            f == id_elem_fn(ids@, kind),
            ids_issue(ids@, kind) == first_issue(ids@.len() as int, f, k as int),
        decreases ids.len() - k,
    {
        let id = ids[k];
        if id == 0 {
            let mut m = owned(id_kind_name(kind));
            m.append(" id 0 is reserved");
            return issue(m, Ghost(ValidationIssue::ReservedId { kind }));
        }
        let mut j: usize = 0;
        while j < k
            invariant
                j <= k < ids.len(),
                id == ids@[k as int],
                id != 0,
                f == id_elem_fn(ids@, kind),
                ids_issue(ids@, kind) == first_issue(ids@.len() as int, f, k as int),
                forall|t: int| 0 <= t < j ==> ids@[t] != id,
            decreases k - j,
        {
            if ids[j] == id {
                assert(exists|t: int| 0 <= t < k && ids@[t] == ids@[k as int]);
                let mut m = owned("duplicate ");
                m.append(id_kind_name(kind));
                m.append(" id ");
                let d = decimal(id);
                m.append(d.as_str());
                return issue(m, Ghost(ValidationIssue::DuplicateId { kind, id }));
            }
            j = j + 1;
        }
        k = k + 1;
    }
    Ok(())
}

pub(crate) fn input_guid_list(doc: &Document) -> (r: Vec<String>)
    ensures
        r@.map_values(|s: String| s@) == input_guids(doc@),
{
    let mut r: Vec<String> = Vec::new();
    let mut i: usize = 0;
    while i < doc.inputs.len()
        invariant
            i <= doc.inputs.len(),
            r.len() == i,
            r@.map_values(|s: String| s@) =~= input_guids(doc@).take(i as int),
        decreases doc.inputs.len() - i,
    {
        let ghost before = r@;
        r.push(doc.inputs[i].guid.clone());
        proof {
            assert(r@ == before.push(r@[i as int]));
            assert(r@.map_values(|s: String| s@) =~= before.map_values(|s: String| s@).push(
                r@[i as int]@,
            ));
            assert(input_guids(doc@).take(i + 1) =~= input_guids(doc@).take(i as int).push(input_guids(doc@)[i as int]));
        }
        i = i + 1;
    }
    assert(input_guids(doc@).take(i as int) =~= input_guids(doc@));
    r
}

pub(crate) fn scene_guid_list(doc: &Document) -> (r: Vec<String>)
    ensures
        r@.map_values(|s: String| s@) == scene_guids(doc@),
{
    let mut r: Vec<String> = Vec::new();
    let mut i: usize = 0;
    while i < doc.scenes.len()
        invariant
            i <= doc.scenes.len(),
            r.len() == i,
            r@.map_values(|s: String| s@) =~= scene_guids(doc@).take(i as int),
        decreases doc.scenes.len() - i,
    {
        let ghost before = r@;
        r.push(doc.scenes[i].guid.clone());
        proof {
            assert(r@ == before.push(r@[i as int]));
            assert(r@.map_values(|s: String| s@) =~= before.map_values(|s: String| s@).push(
                r@[i as int]@,
            ));
            assert(scene_guids(doc@).take(i + 1) =~= scene_guids(doc@).take(i as int).push(scene_guids(doc@)[i as int]));
        }
        i = i + 1;
    }
    assert(scene_guids(doc@).take(i as int) =~= scene_guids(doc@));
    r
}

/// Rejects two non-empty GUIDs that are equal up to ASCII case.
fn unique_guids(guids: &Vec<String>, kind: IdKind) -> (r: Result<(), ValidationError>)
    ensures
        reports(r, guids_issue(guids@.map_values(|s: String| s@), kind)),
{
    let ghost g = guids@.map_values(|s: String| s@);
    let ghost f = guid_elem_fn(g, kind);
    let mut k: usize = 0;
    while k < guids.len()
        invariant
            k <= guids.len(),
            g == guids@.map_values(|s: String| s@),
            f == guid_elem_fn(g, kind),
            guids_issue(g, kind) == first_issue(g.len() as int, f, k as int),
        decreases guids.len() - k,
    {
        let guid = guids[k].as_str();
        if guid.unicode_len() != 0 {
            let mut j: usize = 0;
            while j < k
                invariant
                    j <= k < guids.len(),
                    g == guids@.map_values(|s: String| s@),
                    guid@ == g[k as int],
                    g[k as int].len() > 0,
                    f == guid_elem_fn(g, kind),
                    guids_issue(g, kind) == first_issue(g.len() as int, f, k as int),
                    forall|t: int|
                        0 <= t < j ==> !(g[t].len() > 0 && spec_eq_ignore_ascii_case(g[t], g[k as int])),
                decreases k - j,
            {
                let other = guids[j].as_str();
                if other.unicode_len() != 0 && eq_ignore_ascii_case(other, guid) {
                    assert(other@ == g[j as int]);
                    assert(0 <= j < k && g[j as int].len() > 0 && spec_eq_ignore_ascii_case(
                        g[j as int],
                        g[k as int],
                    ));
                    let mut m = owned("duplicate ");
                    m.append(id_kind_name(kind));
                    m.append(" guid ");
                    m.append(guid);
                    return issue(m, Ghost(ValidationIssue::DuplicateGuid { kind, guid: g[k as int] }));
                }
                j = j + 1;
            }
        }
        k = k + 1;
    }
    Ok(())
}

fn unit_scene_refs(doc: &Document, scene_ids_v: &Vec<u64>) -> (r: Result<(), ValidationError>)
    requires
        scene_ids_v@ == scene_ids(doc@),
    ensures
        reports(r, first_issue(doc@.units.len() as int, unit_scene_fn(doc@), 0)),
{
    let ghost f = unit_scene_fn(doc@);
    let mut k: usize = 0;
    while k < doc.units.len()
        invariant
            k <= doc.units.len(),
            scene_ids_v@ == scene_ids(doc@),
            f == unit_scene_fn(doc@),
            first_issue(doc@.units.len() as int, f, 0) == first_issue(
                doc@.units.len() as int,
                f,
                k as int,
            ),
        decreases doc.units.len() - k,
    {
        let unit = &doc.units[k];
        if unit.preview_scene_id != 0 && !vec_contains(scene_ids_v, unit.preview_scene_id) {
            let m = text4_exec(
                "mixing unit ",
                unit.id,
                " preview references missing scene ",
                unit.preview_scene_id,
            );
            return issue(
                m,
                Ghost(
                    ValidationIssue::PreviewSceneMissing {
                        unit: unit.id,
                        scene: unit.preview_scene_id,
                    },
                ),
            );
        }
        if unit.program_scene_id != 0 && !vec_contains(scene_ids_v, unit.program_scene_id) {
            let m = text4_exec(
                "mixing unit ",
                unit.id,
                " program references missing scene ",
                unit.program_scene_id,
            );
            return issue(
                m,
                Ghost(
                    ValidationIssue::ProgramSceneMissing {
                        unit: unit.id,
                        scene: unit.program_scene_id,
                    },
                ),
            );
        }
        k = k + 1;
    }
    Ok(())
}

pub proof fn lemma_find_input_from(inputs: Seq<InputDtoView>, id: u64, i: int)
    requires
        0 <= i,
    ensures
        find_input_from(inputs, id, i) matches Some(x) ==> i <= x < inputs.len() && inputs[x].id
            == id,
        find_input_from(inputs, id, i) is None ==> forall|t: int|
            i <= t < inputs.len() ==> inputs[t].id != id,
    decreases inputs.len() - i,
{
    if i < inputs.len() && inputs[i].id != id {
        lemma_find_input_from(inputs, id, i + 1);
    }
}

/// Index of the first input with id `id`.
pub fn find_input(doc: &Document, id: u64) -> (r: Option<usize>)
    ensures
        match r {
            Some(i) => find_input_from(doc@.inputs, id, 0) == Some(i as int) && i
                < doc.inputs.len() && doc.inputs@[i as int].id == id,
            None => find_input_from(doc@.inputs, id, 0) is None,
        },
{
    proof {
        lemma_find_input_from(doc@.inputs, id, 0);
    }
    let mut i: usize = 0;
    while i < doc.inputs.len()
        invariant
            i <= doc.inputs.len(),
            find_input_from(doc@.inputs, id, 0) == find_input_from(doc@.inputs, id, i as int),
        decreases doc.inputs.len() - i,
    {
        if doc.inputs[i].id == id {
            return Some(i);
        }
        i = i + 1;
    }
    None
}

fn scene_layer_refs(doc: &Document, input_ids_v: &Vec<u64>) -> (r: Result<(), ValidationError>)
    requires
        input_ids_v@ == input_ids(doc@),
    ensures
        reports(r, first_issue(doc@.scenes.len() as int, scene_layers_fn(doc@), 0)),
{
    let ghost f = scene_layers_fn(doc@);
    let mut k: usize = 0;
    while k < doc.scenes.len()
        invariant
            k <= doc.scenes.len(),
            input_ids_v@ == input_ids(doc@),
            f == scene_layers_fn(doc@),
            first_issue(doc@.scenes.len() as int, f, 0) == first_issue(
                doc@.scenes.len() as int,
                f,
                k as int,
            ),
        decreases doc.scenes.len() - k,
    {
        let scene = &doc.scenes[k];
        let ghost g = layer_fn(doc@, k as int);
        let mut l: usize = 0;
        while l < scene.layers.len()
            invariant
                k < doc.scenes.len(),
                scene == &doc.scenes[k as int],
                l <= scene.layers.len(),
                input_ids_v@ == input_ids(doc@),
                f == scene_layers_fn(doc@),
                g == layer_fn(doc@, k as int),
                first_issue(doc@.scenes.len() as int, f, 0) == first_issue(
                    doc@.scenes.len() as int,
                    f,
                    k as int,
                ),
                scene_layers_issue(doc@, k as int) == first_issue(
                    scene.layers.len() as int,
                    g,
                    l as int,
                ),
            decreases scene.layers.len() - l,
        {
            let input_id = scene.layers[l].input_id;
            if !vec_contains(input_ids_v, input_id) {
                let m = text4_exec("scene ", scene.id, " references missing input ", input_id);
                return issue(
                    m,
                    Ghost(ValidationIssue::LayerInputMissing { scene: scene.id, input: input_id }),
                );
            }
            match find_input(doc, input_id) {
                Some(x) => {
                    if !doc.inputs[x].kind.has_video() {
                        let m = text4_exec(
                            "scene ",
                            scene.id,
                            " cannot place audio-only input ",
                            input_id,
                        );
                        return issue(
                            m,
                            Ghost(
                                ValidationIssue::LayerAudioOnly { scene: scene.id, input: input_id },
                            ),
                        );
                    }
                },
                None => {},
            }
            l = l + 1;
        }
        k = k + 1;
    }
    Ok(())
}

fn audio_refs(doc: &Document) -> (r: Result<(), ValidationError>)
    ensures
        reports(r, first_issue(doc@.inputs.len() as int, audio_fn(doc@), 0)),
{
    let ghost f = audio_fn(doc@);
    let mut k: usize = 0;
    while k < doc.inputs.len()
        invariant
            k <= doc.inputs.len(),
            f == audio_fn(doc@),
            first_issue(doc@.inputs.len() as int, f, 0) == first_issue(
                doc@.inputs.len() as int,
                f,
                k as int,
            ),
        decreases doc.inputs.len() - k,
    {
        let input = &doc.inputs[k];
        if input.kind == InputKind::Audio {
            let loopback = input.audio_capture_mode == AudioCaptureMode::ProcessLoopback;
            let asio = input.audio_device_kind == AudioDeviceKind::Asio;
            if loopback && trim(input.audio_process_exe.as_str()).unicode_len() == 0 && trim(
                input.audio_process_aumid.as_str(),
            ).unicode_len() == 0 {
                let m = text3_exec("audio input ", input.id, " needs a process exe or AUMID");
                return issue(m, Ghost(ValidationIssue::ProcessLoopbackTarget { input: input.id }));
            }
            if asio && loopback {
                let m = text3_exec(
                    "audio input ",
                    input.id,
                    " cannot use ASIO with process loopback",
                );
                return issue(m, Ghost(ValidationIssue::AsioLoopback { input: input.id }));
            }
            if asio && (input.audio_map_left < 0 || input.audio_map_right < 0) {
                let m = text3_exec("audio input ", input.id, " ASIO pair is invalid");
                return issue(m, Ghost(ValidationIssue::AsioPair { input: input.id }));
            }
        }
        k = k + 1;
    }
    Ok(())
}

fn multiview_target_exists(doc: &Document, target: u64) -> (r: bool)
    ensures
        r == multiview_matches(doc@, target),
{
    let mut m: usize = 0;
    while m < doc.multiviews.len()
        invariant
            m <= doc.multiviews.len(),
            forall|t: int|
                0 <= t < m ==> !(doc@.multiviews[t].id == target || spec_multiview_gpu_id(
                    doc@.multiviews[t].id,
                ) == target),
        decreases doc.multiviews.len() - m,
    {
        let id = doc.multiviews[m].id;
        if id == target || multiview_gpu_id(id) == target {
            assert(0 <= m < doc@.multiviews.len() && (doc@.multiviews[m as int].id == target
                || spec_multiview_gpu_id(doc@.multiviews[m as int].id) == target));
            return true;
        }
        m = m + 1;
    }
    false
}

fn mix_refs(doc: &Document, unit_ids_v: &Vec<u64>) -> (r: Result<(), ValidationError>)
    requires
        unit_ids_v@ == unit_ids(doc@),
    ensures
        reports(r, first_issue(doc@.inputs.len() as int, mix_fn(doc@), 0)),
{
    let ghost f = mix_fn(doc@);
    let mut k: usize = 0;
    while k < doc.inputs.len()
        invariant
            k <= doc.inputs.len(),
            unit_ids_v@ == unit_ids(doc@),
            f == mix_fn(doc@),
            first_issue(doc@.inputs.len() as int, f, 0) == first_issue(
                doc@.inputs.len() as int,
                f,
                k as int,
            ),
        decreases doc.inputs.len() - k,
    {
        let input = &doc.inputs[k];
        if input.kind == InputKind::Mix {
            let target = input.mix_target_id;
            if target == 0 {
                let m = text3_exec("mix input ", input.id, " has no target");
                return issue(m, Ghost(ValidationIssue::MixNoTarget { input: input.id }));
            }
            if input.mix_source == MixSource::SessionMultiview {
                if !multiview_target_exists(doc, target) {
                    let m = text4_exec(
                        "mix input ",
                        input.id,
                        " references missing multiview ",
                        target,
                    );
                    return issue(
                        m,
                        Ghost(ValidationIssue::MixMultiviewMissing { input: input.id, target }),
                    );
                }
            } else if !vec_contains(unit_ids_v, target) {
                let m = text4_exec("mix input ", input.id, " references missing unit ", target);
                return issue(m, Ghost(ValidationIssue::MixUnitMissing { input: input.id, target }));
            }
        }
        k = k + 1;
    }
    Ok(())
}

fn output_refs(doc: &Document, unit_ids_v: &Vec<u64>, bus_ids_v: &Vec<u64>) -> (r: Result<
    (),
    ValidationError,
>)
    requires
        unit_ids_v@ == unit_ids(doc@),
        bus_ids_v@ == bus_ids(doc@),
    ensures
        reports(r, first_issue(doc@.outputs.len() as int, output_fn(doc@), 0)),
{
    let ghost f = output_fn(doc@);
    let mut k: usize = 0;
    while k < doc.outputs.len()
        invariant
            k <= doc.outputs.len(),
            unit_ids_v@ == unit_ids(doc@),
            bus_ids_v@ == bus_ids(doc@),
            f == output_fn(doc@),
            first_issue(doc@.outputs.len() as int, f, 0) == first_issue(
                doc@.outputs.len() as int,
                f,
                k as int,
            ),
        decreases doc.outputs.len() - k,
    {
        let output = &doc.outputs[k];
        let unit_tap = output.source_kind == OutputSourceKind::MuPreview || output.source_kind
            == OutputSourceKind::MuProgram;
        if unit_tap && output.unit_id != 0 && !vec_contains(unit_ids_v, output.unit_id) {
            let m = text4_exec("output ", output.id, " references missing unit ", output.unit_id);
            return issue(
                m,
                Ghost(ValidationIssue::OutputUnitMissing { output: output.id, unit: output.unit_id }),
            );
        }
        if output.audio_bus_id != 0 && bus_ids_v.len() != 0 && !vec_contains(
            bus_ids_v,
            output.audio_bus_id,
        ) {
            let m = text4_exec(
                "output ",
                output.id,
                " references missing bus ",
                output.audio_bus_id,
            );
            return issue(
                m,
                Ghost(
                    ValidationIssue::OutputBusMissing { output: output.id, bus: output.audio_bus_id },
                ),
            );
        }
        k = k + 1;
    }
    Ok(())
}

proof fn lemma_edge_scan_source(inputs: Seq<InputDtoView>, node: u64, k: int)
    requires
        0 <= k <= inputs.len(),
        edge_scan(inputs, node, k) is Some,
    ensures
        exists|t: int| 0 <= t < k && inputs[t].id == node && is_mix_edge(inputs[t]),
    decreases k,
{
    if !(is_mix_edge(inputs[k - 1]) && inputs[k - 1].id == node) {
        lemma_edge_scan_source(inputs, node, k - 1);
    }
}

/// A node that has an edge is the id of some input.
proof fn lemma_edge_node_is_input(d: DocumentView, node: u64)
    requires
        edge_of(d, node) is Some,
    ensures
        input_ids(d).contains(node),
{
    lemma_edge_scan_source(d.inputs, node, d.inputs.len() as int);
    let t = choose|t: int| 0 <= t < d.inputs.len() && d.inputs[t].id == node && is_mix_edge(d.inputs[t]);
    assert(input_ids(d)[t] == node);
}

/// Once the walk has left the nodes with edges it never comes back.
proof fn lemma_walk_none_stays(d: DocumentView, start: u64, i: nat, j: nat)
    requires
        i <= j,
        walk(d, start, i) is None,
    ensures
        walk(d, start, j) is None,
    decreases j - i,
{
    if i < j {
        lemma_walk_none_stays(d, start, i, (j - 1) as nat);
    }
}

/// A repetition-free list of values that all occur in `t` is no longer than `t`.
proof fn lemma_distinct_within(s: Seq<u64>, t: Seq<u64>)
    requires
        s.no_duplicates(),
        forall|i: int| 0 <= i < s.len() ==> t.contains(#[trigger] s[i]),
    ensures
        s.len() <= t.len(),
{
    s.unique_seq_to_set();
    t.lemma_cardinality_of_set();
    assert forall|x: u64| s.to_set().contains(x) implies t.to_set().contains(x) by {
        let i = choose|i: int| 0 <= i < s.len() && s[i] == x;
        assert(t.contains(s[i]));
    }
    vstd::set_lib::lemma_len_subset(s.to_set(), t.to_set());
}

fn edge_lookup(doc: &Document, node: u64) -> (r: Option<u64>)
    ensures
        r == edge_of(doc@, node),
{
    let mut k: usize = doc.inputs.len();
    while k > 0
        invariant
            k <= doc.inputs.len(),
            edge_of(doc@, node) == edge_scan(doc@.inputs, node, k as int),
        decreases k,
    {
        let input = &doc.inputs[k - 1];
        if input.kind == InputKind::Mix && input.mix_source != MixSource::SessionMultiview
            && input.mix_target_id != 0 && input.id == node {
            return Some(input.mix_target_id);
        }
        k = k - 1;
    }
    None
}

/// Follows mix edges from `start` and reports whether the walk revisits a node.
fn walk_cycles(doc: &Document, start: u64) -> (r: bool)
    requires
        edge_of(doc@, start) is Some,
    ensures
        r == cycles_from(doc@, start),
{
    let ghost d = doc@;
    let mut seen: Vec<u64> = Vec::new();
    let mut cur = start;
    loop
        invariant
            d == doc@,
            walk(d, start, seen.len() as nat) == Some(cur),
            forall|i: int| 0 <= i < seen.len() ==> walk(d, start, i as nat) == Some(#[trigger] seen@[i]),
            forall|i: int| 0 <= i < seen.len() ==> edge_of(d, #[trigger] seen@[i]) is Some,
            seen@.no_duplicates(),
            edge_of(d, cur) is Some,
            seen.len() < doc.inputs.len(),
        decreases doc.inputs.len() - seen.len(),
    {
        if vec_contains(&seen, cur) {
            proof {
                let i = choose|i: int| 0 <= i < seen.len() && seen@[i] == cur;
                assert(walk(d, start, i as nat) == walk(d, start, seen.len() as nat));
                assert((i as nat) < (seen.len() as nat));
            }
            return true;
        }
        let ghost before = seen@;
        seen.push(cur);
        proof {
            assert(seen@ == before.push(cur));
            assert forall|i: int| 0 <= i < seen.len() implies input_ids(d).contains(
                #[trigger] seen@[i],
            ) by {
                lemma_edge_node_is_input(d, seen@[i]);
            }
            lemma_distinct_within(seen@, input_ids(d));
        }
        let t = match edge_lookup(doc, cur) {
            Some(t) => t,
            None => {
                return false;
            },
        };
        let ghost n = seen.len() as nat;
        assert(walk(d, start, n) == (if edge_of(d, t) is Some {
            Some(t)
        } else {
            None
        }));
        match edge_lookup(doc, t) {
            Some(_) => {
                proof {
                    if seen.len() >= doc.inputs.len() {
                        // `t` is a further node with an edge, distinct or not.
                        if !seen@.contains(t) {
                            let ext = seen@.push(t);
                            assert forall|i: int| 0 <= i < ext.len() implies input_ids(d).contains(
                                #[trigger] ext[i],
                            ) by {
                                if i < seen.len() {
                                    assert(ext[i] == seen@[i]);
                                    lemma_edge_node_is_input(d, seen@[i]);
                                } else {
                                    lemma_edge_node_is_input(d, t);
                                }
                            }
                            lemma_distinct_within(ext, input_ids(d));
                        }
                    }
                }
                if seen.len() >= doc.inputs.len() {
                    // The walk has visited as many distinct nodes as there are
                    // inputs, so `t` repeats one of them.
                    proof {
                        assert(seen@.contains(t));
                        let i = choose|i: int| 0 <= i < seen.len() && seen@[i] == t;
                        assert(walk(d, start, i as nat) == walk(d, start, n));
                        assert((i as nat) < n);
                    }
                    return true;
                }
                cur = t;
            },
            None => {
                proof {
                    assert forall|i: nat, j: nat|
                        i < j && #[trigger] walk(d, start, i) is Some implies walk(d, start, i)
                        != #[trigger] walk(d, start, j) by {
                        if j >= n {
                            lemma_walk_none_stays(d, start, n, j);
                        } else {
                            assert(walk(d, start, i) == Some(seen@[i as int]));
                            assert(walk(d, start, j) == Some(seen@[j as int]));
                        }
                    }
                }
                return false;
            },
        }
    }
}

fn mix_cycles(doc: &Document) -> (r: Result<(), ValidationError>)
    ensures
        reports(r, first_issue(doc@.inputs.len() as int, cycle_fn(doc@), 0)),
{
    let ghost f = cycle_fn(doc@);
    let mut k: usize = 0;
    while k < doc.inputs.len()
        invariant
            k <= doc.inputs.len(),
            f == cycle_fn(doc@),
            first_issue(doc@.inputs.len() as int, f, 0) == first_issue(
                doc@.inputs.len() as int,
                f,
                k as int,
            ),
        decreases doc.inputs.len() - k,
    {
        let input = &doc.inputs[k];
        if input.kind == InputKind::Mix && input.mix_source != MixSource::SessionMultiview
            && input.mix_target_id != 0 {
            proof {
                assert(is_mix_edge(doc@.inputs[k as int]));
                lemma_edge_scan_exists(doc@.inputs, input.id, k as int, doc@.inputs.len() as int);
            }
            if walk_cycles(doc, input.id) {
                let m = text3_exec("mix input cycle involving ", input.id, "");
                return issue(m, Ghost(ValidationIssue::MixCycle { start: input.id }));
            }
        }
        k = k + 1;
    }
    Ok(())
}

proof fn lemma_edge_scan_exists(inputs: Seq<InputDtoView>, node: u64, t: int, k: int)
    requires
        0 <= t < k <= inputs.len(),
        is_mix_edge(inputs[t]),
        inputs[t].id == node,
    ensures
        edge_scan(inputs, node, k) is Some,
    decreases k,
{
    if !(is_mix_edge(inputs[k - 1]) && inputs[k - 1].id == node) {
        lemma_edge_scan_exists(inputs, node, t, k - 1);
    }
}

/// Checks ids, GUIDs and every reference of the document, stopping at the
/// first problem.
pub fn validate(doc: &Document) -> (r: Result<(), ValidationError>)
    ensures
        reports(r, validation_issue(doc@)),
        r is Ok <==> is_valid(doc@),
{
    if doc.version != 2 {
        let mut m = owned("unsupported session version ");
        let v = signed_decimal(doc.version as i64);
        m.append(v.as_str());
        return issue(m, Ghost(ValidationIssue::UnsupportedVersion { version: doc.version }));
    }
    if doc.scenes.len() == 0 {
        return issue(owned("session needs at least one Scene"), Ghost(ValidationIssue::NoScene));
    }
    if doc.units.len() == 0 {
        return issue(
            owned("session needs at least one Mixing Unit"),
            Ghost(ValidationIssue::NoUnit),
        );
    }
    let input_ids_v = input_id_list(doc);
    let scene_ids_v = scene_id_list(doc);
    let unit_ids_v = unit_id_list(doc);
    let output_ids_v = output_id_list(doc);
    let multiview_ids_v = multiview_id_list(doc);
    let bus_ids_v = bus_id_list(doc);
    unique_ids(&input_ids_v, IdKind::Input)?;
    unique_ids(&scene_ids_v, IdKind::Scene)?;
    unique_ids(&unit_ids_v, IdKind::Unit)?;
    unique_ids(&output_ids_v, IdKind::Output)?;
    unique_ids(&multiview_ids_v, IdKind::Multiview)?;
    unique_ids(&bus_ids_v, IdKind::Bus)?;
    let input_guids_v = input_guid_list(doc);
    unique_guids(&input_guids_v, IdKind::Input)?;
    let scene_guids_v = scene_guid_list(doc);
    unique_guids(&scene_guids_v, IdKind::Scene)?;
    unit_scene_refs(doc, &scene_ids_v)?;
    scene_layer_refs(doc, &input_ids_v)?;
    audio_refs(doc)?;
    mix_refs(doc, &unit_ids_v)?;
    mix_cycles(doc)?;
    output_refs(doc, &unit_ids_v, &bus_ids_v)?;
    if doc.settings.master_fps_num == 0 || doc.settings.master_fps_den == 0 {
        return issue(owned("master fps is zero"), Ghost(ValidationIssue::MasterFpsZero));
    }
    Ok(())
}

/// Every id is non-zero and no two are equal.
pub open spec fn distinct_nonzero(ids: Seq<u64>) -> bool {
    &&& forall|i: int| 0 <= i < ids.len() ==> #[trigger] ids[i] != 0
    &&& forall|i: int, j: int| 0 <= i < j < ids.len() ==> #[trigger] ids[i] != #[trigger] ids[j]
}

/// No two non-empty GUIDs are equal up to ASCII case.
pub open spec fn guids_distinct(guids: Seq<Seq<char>>) -> bool {
    forall|i: int, j: int|
        0 <= i < j < guids.len() && guids[i].len() > 0 && guids[j].len() > 0 ==> !spec_eq_ignore_ascii_case(
            #[trigger] guids[i],
            #[trigger] guids[j],
        )
}

/// A scan that finds no issue found none at any index it passed.
pub proof fn lemma_first_issue_none_at(n: int, f: spec_fn(int) -> Option<ValidationIssue>, i: int)
    requires
        first_issue(n, f, i) is None,
    ensures
        forall|k: int| i <= k < n ==> (#[trigger] f(k)) is None,
    decreases n - i,
{
    if i < n {
        lemma_first_issue_none_at(n, f, i + 1);
    }
}

proof fn lemma_ids_clean(ids: Seq<u64>, kind: IdKind)
    requires
        ids_issue(ids, kind) is None,
    ensures
        distinct_nonzero(ids),
{
    lemma_first_issue_none_at(ids.len() as int, id_elem_fn(ids, kind), 0);
    assert forall|i: int| 0 <= i < ids.len() implies #[trigger] ids[i] != 0 by {
        assert(id_elem_fn(ids, kind)(i) is None);
    }
    assert forall|i: int, j: int| 0 <= i < j < ids.len() implies #[trigger] ids[i] != #[trigger] ids[j] by {
        assert(id_elem_fn(ids, kind)(j) is None);
    }
}

proof fn lemma_guids_clean(guids: Seq<Seq<char>>, kind: IdKind)
    requires
        guids_issue(guids, kind) is None,
    ensures
        guids_distinct(guids),
{
    lemma_first_issue_none_at(guids.len() as int, guid_elem_fn(guids, kind), 0);
    assert forall|i: int, j: int|
        0 <= i < j < guids.len() && guids[i].len() > 0 && guids[j].len() > 0 implies !spec_eq_ignore_ascii_case(
        #[trigger] guids[i],
        #[trigger] guids[j],
    ) by {
        assert(guid_elem_fn(guids, kind)(j) is None);
    }
}

/// What a document that validation accepts satisfies: version 2, at least
/// one scene and one unit; the ids of inputs, scenes, units, outputs,
/// multiviews and buses each non-zero and distinct; non-empty input and
/// scene GUIDs distinct ignoring ASCII case; every layer names an input
/// that carries video; every non-zero unit Preview and Program scene names a
/// scene; and a non-zero master frame rate.
pub proof fn lemma_valid_document(d: DocumentView)
    requires
        is_valid(d),
    ensures
        d.version == 2,
        d.scenes.len() > 0,
        d.units.len() > 0,
        distinct_nonzero(input_ids(d)),
        distinct_nonzero(scene_ids(d)),
        distinct_nonzero(unit_ids(d)),
        distinct_nonzero(output_ids(d)),
        distinct_nonzero(multiview_ids(d)),
        distinct_nonzero(bus_ids(d)),
        guids_distinct(input_guids(d)),
        guids_distinct(scene_guids(d)),
        forall|k: int, l: int|
            0 <= k < d.scenes.len() && 0 <= l < d.scenes[k].layers.len() ==> input_ids(d).contains(
                (#[trigger] d.scenes[k].layers[l]).input_id,
            ) && d.inputs[find_input_from(d.inputs, d.scenes[k].layers[l].input_id, 0)->0].kind.spec_has_video(),
        forall|k: int|
            0 <= k < d.units.len() ==> ((#[trigger] d.units[k]).preview_scene_id != 0 ==> scene_ids(d).contains(
                d.units[k].preview_scene_id,
            )) && (d.units[k].program_scene_id != 0 ==> scene_ids(d).contains(d.units[k].program_scene_id)),
        d.settings.master_fps_num != 0,
        d.settings.master_fps_den != 0,
{
    lemma_ids_clean(input_ids(d), IdKind::Input);
    lemma_ids_clean(scene_ids(d), IdKind::Scene);
    lemma_ids_clean(unit_ids(d), IdKind::Unit);
    lemma_ids_clean(output_ids(d), IdKind::Output);
    lemma_ids_clean(multiview_ids(d), IdKind::Multiview);
    lemma_ids_clean(bus_ids(d), IdKind::Bus);
    lemma_guids_clean(input_guids(d), IdKind::Input);
    lemma_guids_clean(scene_guids(d), IdKind::Scene);
    lemma_first_issue_none_at(d.units.len() as int, unit_scene_fn(d), 0);
    lemma_first_issue_none_at(d.scenes.len() as int, scene_layers_fn(d), 0);
    assert forall|k: int, l: int|
        0 <= k < d.scenes.len() && 0 <= l < d.scenes[k].layers.len() implies input_ids(d).contains(
        (#[trigger] d.scenes[k].layers[l]).input_id,
    ) && d.inputs[find_input_from(d.inputs, d.scenes[k].layers[l].input_id, 0)->0].kind.spec_has_video() by {
        assert(scene_layers_fn(d)(k) is None);
        lemma_first_issue_none_at(d.scenes[k].layers.len() as int, layer_fn(d, k), 0);
        assert(layer_fn(d, k)(l) is None);
        let id = d.scenes[k].layers[l].input_id;
        let x = choose|x: int| 0 <= x < input_ids(d).len() && input_ids(d)[x] == id;
        lemma_find_input_found(d.inputs, id, 0, x);
    }
    assert forall|k: int| 0 <= k < d.units.len() implies ((#[trigger] d.units[k]).preview_scene_id != 0
        ==> scene_ids(d).contains(d.units[k].preview_scene_id)) && (d.units[k].program_scene_id != 0
        ==> scene_ids(d).contains(d.units[k].program_scene_id)) by {
        assert(unit_scene_fn(d)(k) is None);
    }
}

/// A document that validation accepts has every Preview or Program output
/// tap no unit (id 0) or a unit of the document, and every output's
/// non-zero audio bus is one of the document's buses whenever it has any.
pub proof fn lemma_valid_outputs_reference(d: DocumentView)
    requires
        is_valid(d),
    ensures
        forall|k: int|
            0 <= k < d.outputs.len() && ((#[trigger] d.outputs[k]).source_kind == OutputSourceKind::MuPreview
                || d.outputs[k].source_kind == OutputSourceKind::MuProgram) && d.outputs[k].unit_id != 0 ==> exists|u: int|
                0 <= u < d.units.len() && d.units[u].id == d.outputs[k].unit_id,
        forall|k: int|
            0 <= k < d.outputs.len() && (#[trigger] d.outputs[k]).audio_bus_id != 0 && d.buses.len() > 0 ==> exists|b: int|
                0 <= b < d.buses.len() && d.buses[b].id == d.outputs[k].audio_bus_id,
{
    lemma_first_issue_none_at(d.outputs.len() as int, output_fn(d), 0);
    assert forall|k: int|
        0 <= k < d.outputs.len() && ((#[trigger] d.outputs[k]).source_kind == OutputSourceKind::MuPreview
            || d.outputs[k].source_kind == OutputSourceKind::MuProgram) && d.outputs[k].unit_id != 0 implies exists|u: int|
            0 <= u < d.units.len() && d.units[u].id == d.outputs[k].unit_id by {
        assert(output_fn(d)(k) is None);
        let x = d.outputs[k].unit_id;
        assert(unit_ids(d).contains(x));
        let u = choose|u: int| 0 <= u < unit_ids(d).len() && unit_ids(d)[u] == x;
        assert(d.units[u].id == x);
    }
    assert forall|k: int|
        0 <= k < d.outputs.len() && (#[trigger] d.outputs[k]).audio_bus_id != 0 && d.buses.len() > 0 implies exists|b: int|
            0 <= b < d.buses.len() && d.buses[b].id == d.outputs[k].audio_bus_id by {
        assert(output_fn(d)(k) is None);
        let x = d.outputs[k].audio_bus_id;
        assert(bus_ids(d).len() != 0);
        assert(bus_ids(d).contains(x));
        let b = choose|b: int| 0 <= b < bus_ids(d).len() && bus_ids(d)[b] == x;
        assert(d.buses[b].id == x);
    }
}

/// A document that validation accepts has every mix input take a target:
/// a multiview of the document (by id or GPU id) when it mixes a session
/// multiview, else one of the document's units. Every audio input that
/// captures a process names the process, no ASIO input captures a process,
/// and ASIO channel maps are not negative.
pub proof fn lemma_valid_inputs_reference(d: DocumentView)
    requires
        is_valid(d),
    ensures
        forall|k: int|
            0 <= k < d.inputs.len() && (#[trigger] d.inputs[k]).kind == InputKind::Mix ==> {
                &&& d.inputs[k].mix_target_id != 0
                &&& d.inputs[k].mix_source == MixSource::SessionMultiview ==> exists|m: int|
                    0 <= m < d.multiviews.len() && (d.multiviews[m].id == d.inputs[k].mix_target_id
                        || spec_multiview_gpu_id(d.multiviews[m].id) == d.inputs[k].mix_target_id)
                &&& d.inputs[k].mix_source != MixSource::SessionMultiview ==> exists|u: int|
                    0 <= u < d.units.len() && d.units[u].id == d.inputs[k].mix_target_id
            },
        forall|k: int|
            0 <= k < d.inputs.len() && (#[trigger] d.inputs[k]).kind == InputKind::Audio ==> {
                &&& d.inputs[k].audio_capture_mode == AudioCaptureMode::ProcessLoopback ==> (spec_trim(
                    d.inputs[k].audio_process_exe,
                ).len() != 0 || spec_trim(d.inputs[k].audio_process_aumid).len() != 0)
                &&& d.inputs[k].audio_device_kind == AudioDeviceKind::Asio ==> d.inputs[k].audio_capture_mode
                    != AudioCaptureMode::ProcessLoopback && d.inputs[k].audio_map_left >= 0
                    && d.inputs[k].audio_map_right >= 0
            },
{
    lemma_first_issue_none_at(d.inputs.len() as int, mix_fn(d), 0);
    lemma_first_issue_none_at(d.inputs.len() as int, audio_fn(d), 0);
    assert forall|k: int| 0 <= k < d.inputs.len() && (#[trigger] d.inputs[k]).kind == InputKind::Mix implies {
        &&& d.inputs[k].mix_target_id != 0
        &&& d.inputs[k].mix_source == MixSource::SessionMultiview ==> exists|m: int|
            0 <= m < d.multiviews.len() && (d.multiviews[m].id == d.inputs[k].mix_target_id
                || spec_multiview_gpu_id(d.multiviews[m].id) == d.inputs[k].mix_target_id)
        &&& d.inputs[k].mix_source != MixSource::SessionMultiview ==> exists|u: int|
            0 <= u < d.units.len() && d.units[u].id == d.inputs[k].mix_target_id
    } by {
        assert(mix_fn(d)(k) is None);
        let x = d.inputs[k].mix_target_id;
        if d.inputs[k].mix_source != MixSource::SessionMultiview {
            assert(unit_ids(d).contains(x));
            let u = choose|u: int| 0 <= u < unit_ids(d).len() && unit_ids(d)[u] == x;
            assert(d.units[u].id == x);
        }
    }
    assert forall|k: int| 0 <= k < d.inputs.len() && (#[trigger] d.inputs[k]).kind == InputKind::Audio implies {
        &&& d.inputs[k].audio_capture_mode == AudioCaptureMode::ProcessLoopback ==> (spec_trim(
            d.inputs[k].audio_process_exe,
        ).len() != 0 || spec_trim(d.inputs[k].audio_process_aumid).len() != 0)
        &&& d.inputs[k].audio_device_kind == AudioDeviceKind::Asio ==> d.inputs[k].audio_capture_mode
            != AudioCaptureMode::ProcessLoopback && d.inputs[k].audio_map_left >= 0
            && d.inputs[k].audio_map_right >= 0
    } by {
        assert(audio_fn(d)(k) is None);
    }
}

/// Searching from `i` finds an input with the id when one sits at `x >= i`.
proof fn lemma_find_input_found(inputs: Seq<InputDtoView>, id: u64, i: int, x: int)
    requires
        0 <= i <= x < inputs.len(),
        inputs[x].id == id,
    ensures
        find_input_from(inputs, id, i) is Some,
    decreases x - i,
{
    if inputs[i].id != id {
        lemma_find_input_found(inputs, id, i + 1, x);
    }
}

/// The document with input `k`'s file path replaced by `path`.
pub open spec fn with_input_path(d: DocumentView, k: int, path: Option<Seq<char>>) -> DocumentView {
    DocumentView { inputs: d.inputs.update(k, InputDtoView { path_or_address: path, ..d.inputs[k] }), ..d }
}

proof fn lemma_find_input_same(a: Seq<InputDtoView>, b: Seq<InputDtoView>, id: u64, i: int)
    requires
        0 <= i,
        a.len() == b.len(),
        forall|j: int| 0 <= j < a.len() ==> (#[trigger] a[j]).id == b[j].id,
    ensures
        find_input_from(a, id, i) == find_input_from(b, id, i),
        find_input_from(a, id, i) matches Some(f) ==> i <= f < a.len(),
    decreases a.len() - i,
{
    if i < a.len() {
        lemma_find_input_same(a, b, id, i + 1);
    }
}

proof fn lemma_edge_scan_same(a: Seq<InputDtoView>, b: Seq<InputDtoView>, node: u64, k: int)
    requires
        a.len() == b.len(),
        0 <= k <= a.len(),
        forall|j: int|
            0 <= j < a.len() ==> (#[trigger] a[j]).id == b[j].id && is_mix_edge(a[j]) == is_mix_edge(b[j])
                && a[j].mix_target_id == b[j].mix_target_id,
    ensures
        edge_scan(a, node, k) == edge_scan(b, node, k),
    decreases k,
{
    if k > 0 {
        lemma_edge_scan_same(a, b, node, k - 1);
    }
}

proof fn lemma_first_issue_same(
    n: int,
    f: spec_fn(int) -> Option<ValidationIssue>,
    g: spec_fn(int) -> Option<ValidationIssue>,
    i: int,
)
    requires
        forall|j: int| i <= j < n ==> #[trigger] f(j) == g(j),
    ensures
        first_issue(n, f, i) == first_issue(n, g, i),
    decreases n - i,
{
    if i < n {
        lemma_first_issue_same(n, f, g, i + 1);
    }
}

proof fn lemma_walk_same(d: DocumentView, e: DocumentView, start: u64, j: nat)
    requires
        forall|node: u64| #[trigger] edge_of(d, node) == edge_of(e, node),
    ensures
        walk(d, start, j) == walk(e, start, j),
    decreases j,
{
    if j > 0 {
        lemma_walk_same(d, e, start, (j - 1) as nat);
    }
}

/// Validation does not look at file paths: changing the path of any input,
/// for instance to a file that does not exist, leaves the first issue (and
/// so validity) as it was.
pub proof fn lemma_validation_ignores_paths(d: DocumentView, k: int, path: Option<Seq<char>>)
    requires
        0 <= k < d.inputs.len(),
    ensures
        validation_issue(with_input_path(d, k, path)) == validation_issue(d),
{
    let e = with_input_path(d, k, path);
    assert forall|j: int| 0 <= j < d.inputs.len() implies (#[trigger] e.inputs[j]).id == d.inputs[j].id
        && e.inputs[j].kind == d.inputs[j].kind && e.inputs[j].guid == d.inputs[j].guid
        && is_mix_edge(e.inputs[j]) == is_mix_edge(d.inputs[j])
        && e.inputs[j].mix_target_id == d.inputs[j].mix_target_id by {}
    assert(input_ids(e) =~= input_ids(d));
    assert(input_guids(e) =~= input_guids(d));
    assert(scene_ids(e) =~= scene_ids(d));
    assert(unit_ids(e) =~= unit_ids(d));
    assert(output_ids(e) =~= output_ids(d));
    assert(multiview_ids(e) =~= multiview_ids(d));
    assert(bus_ids(e) =~= bus_ids(d));
    assert(scene_guids(e) =~= scene_guids(d));
    assert(unit_scene_fn(e) =~= unit_scene_fn(d));
    assert forall|x: int| #[trigger] scene_layers_fn(e)(x) == scene_layers_fn(d)(x) by {
        assert forall|l: int| #[trigger] layer_fn(e, x)(l) == layer_fn(d, x)(l) by {
            let id = d.scenes[x].layers[l].input_id;
            lemma_find_input_same(e.inputs, d.inputs, id, 0);
        }
        assert(layer_fn(e, x) =~= layer_fn(d, x));
    }
    assert(scene_layers_fn(e) =~= scene_layers_fn(d));
    let n = d.inputs.len() as int;
    assert forall|x: int| 0 <= x < n implies #[trigger] audio_fn(e)(x) == audio_fn(d)(x) by {}
    lemma_first_issue_same(n, audio_fn(e), audio_fn(d), 0);
    assert forall|x: int| 0 <= x < n implies #[trigger] mix_fn(e)(x) == mix_fn(d)(x) by {}
    lemma_first_issue_same(n, mix_fn(e), mix_fn(d), 0);
    assert forall|node: u64| #[trigger] edge_of(e, node) == edge_of(d, node) by {
        lemma_edge_scan_same(e.inputs, d.inputs, node, d.inputs.len() as int);
    }
    assert forall|start: u64, j: nat| #[trigger] walk(e, start, j) == walk(d, start, j) by {
        lemma_walk_same(e, d, start, j);
    }
    assert forall|x: u64| #[trigger] cycles_from(e, x) == cycles_from(d, x) by {
        if cycles_from(d, x) {
            let (i, j) = choose|i: nat, j: nat| i < j && #[trigger] walk(d, x, i) is Some && walk(d, x, i) == #[trigger] walk(d, x, j);
            assert(walk(e, x, i) == walk(d, x, i) && walk(e, x, j) == walk(d, x, j));
        }
        if cycles_from(e, x) {
            let (i, j) = choose|i: nat, j: nat| i < j && #[trigger] walk(e, x, i) is Some && walk(e, x, i) == #[trigger] walk(e, x, j);
            assert(walk(e, x, i) == walk(d, x, i) && walk(e, x, j) == walk(d, x, j));
        }
    }
    assert forall|x: int| 0 <= x < n implies #[trigger] cycle_fn(e)(x) == cycle_fn(d)(x) by {
        assert(cycles_from(e, e.inputs[x].id) == cycles_from(d, e.inputs[x].id));
    }
    lemma_first_issue_same(n, cycle_fn(e), cycle_fn(d), 0);
    assert(output_fn(e) =~= output_fn(d));
}

/// The checks that run before a document is applied to the mixer; the same
/// as [`validate`].
pub fn validate_for_apply(doc: &Document) -> (r: Result<(), ValidationError>)
    ensures
        reports(r, validation_issue(doc@)),
        r is Ok <==> is_valid(doc@),
{
    validate(doc)
}

} // verus!
