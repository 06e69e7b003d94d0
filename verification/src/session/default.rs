//! The session a headless mixer starts with when no session file is given, and
//! dated session file names.

use vstd::prelude::*;

use crate::session::model::{
    AudioBusRole, BusDto, Document, InputDto, InputKind, OutputDto, OutputSourceKind,
    OutputTransport, SceneDto, SceneLayer, UnitDto,
};
use crate::session::validate::is_valid;
use crate::session::validate::{
    IdKind, audio_fn, bus_ids, cycle_fn, find_input_from, guid_elem_fn, id_elem_fn, input_guids,
    input_ids, layer_fn, lemma_first_issue_none, mix_fn, multiview_ids, output_fn, output_ids,
    scene_guids, scene_ids, scene_layers_fn, unit_ids, unit_scene_fn,
};
use crate::text::{decimal_padded, owned, push_char, spec_decimal, spec_decimal_padded};

verus! {

/// `f32` bit pattern of 1.0.
pub const F32_ONE_BITS: u32 = 0x3f80_0000;

fn color_input(id: u64, name: &str, kind: InputKind, r: u32, g: u32, b: u32) -> (x: InputDto)
    ensures
        x@ == (input_view_with(id, name@, kind, r, g, b, false, 0)),
{
    let mut x = InputDto::default();
    x.id = id;
    x.name = owned(name);
    x.kind = kind;
    x.color_r = r;
    x.color_g = g;
    x.color_b = b;
    x
}

/// The default input view with the fields that the default session sets.
pub open spec fn input_view_with(
    id: u64,
    name: Seq<char>,
    kind: InputKind,
    r: u32,
    g: u32,
    b: u32,
    scroll: bool,
    tone_hz: u32,
) -> crate::session::model::InputDtoView {
    crate::session::model::InputDtoView {
        id,
        name,
        kind,
        color_r: r,
        color_g: g,
        color_b: b,
        scroll,
        tone_hz,
        ..InputDto::spec_default()
    }
}

fn full_layer(input_id: u64) -> (l: SceneLayer)
    ensures
        l == (SceneLayer { input_id, ..SceneLayer::default_value() }),
{
    let mut l = SceneLayer::default();
    l.input_id = input_id;
    l
}

fn scene(id: u64, name: &str, input_id: u64) -> (s: SceneDto)
    ensures
        s@.id == id,
        s@.guid.len() == 0,
        s@.name == name@,
        s@.layers == seq![SceneLayer { input_id, ..SceneLayer::default_value() }],
        s@.tags.len() == 0,
{
    let mut s = SceneDto::default();
    s.id = id;
    s.name = owned(name);
    s.layers.push(full_layer(input_id));
    s
}

/// The four-input, two-scene, one-unit session that starts when no session
/// file is given: colour bars on Preview, red on Program, one OMT Program
/// output and a Master bus.
pub fn default_document() -> (doc: Document)
    ensures
        is_valid(doc@),
        doc@.version == 2,
        doc@.inputs.len() == 4,
        doc@.inputs[0] == input_view_with(1, "Color Red"@, InputKind::Color, F32_ONE_BITS, 0, 0, false, 0),
        doc@.inputs[1] == input_view_with(
            2,
            "SMPTE HD Bars"@,
            InputKind::Bars,
            0,
            0,
            0,
            true,
            0x447a_0000,
        ),
        doc@.inputs[2] == input_view_with(3, "Black"@, InputKind::Black, 0, 0, 0, false, 0),
        doc@.inputs[3] == input_view_with(4, "Blue"@, InputKind::Color, 0, 0, F32_ONE_BITS, false, 0),
        doc@.scenes.len() == 2,
        doc@.scenes[0].id == 1 && doc@.scenes[0].name == "Scene 1"@,
        doc@.scenes[0].layers == seq![SceneLayer { input_id: 2, ..SceneLayer::default_value() }],
        doc@.scenes[1].id == 2 && doc@.scenes[1].name == "Scene 2"@,
        doc@.scenes[1].layers == seq![SceneLayer { input_id: 1, ..SceneLayer::default_value() }],
        doc@.units.len() == 1,
        doc@.units[0].id == 1 && doc@.units[0].name == "Mixing Unit 1"@,
        doc@.units[0].preview_scene_id == 1 && doc@.units[0].program_scene_id == 2,
        doc@.units[0].audio_bus_id == 1,
        doc@.outputs.len() == 1,
        doc@.outputs[0].id == 100 && doc@.outputs[0].name == "eiviz-pgm"@,
        doc@.outputs[0].transport == OutputTransport::Omt,
        doc@.outputs[0].source_kind == OutputSourceKind::MuProgram,
        doc@.outputs[0].unit_id == 1 && !doc@.outputs[0].use_gpu,
        doc@.outputs[0].audio_bus_id == 1,
        doc@.buses.len() == 1,
        doc@.buses[0].id == 1 && doc@.buses[0].name == "Master"@,
        doc@.buses[0].role == AudioBusRole::Master,
        doc@.multiviews.len() == 0,
{
    let mut doc = Document::default();
    assert(doc.inputs@.map_values(|t: InputDto| t@).len() == doc.inputs@.len());
    assert(doc.scenes@.map_values(|t: SceneDto| t@).len() == doc.scenes@.len());
    assert(doc.units@.map_values(|t: UnitDto| t@).len() == doc.units@.len());
    assert(doc.outputs@.map_values(|t: OutputDto| t@).len() == doc.outputs@.len());
    assert(doc.buses@.map_values(|t: BusDto| t@).len() == doc.buses@.len());
    assert(doc.multiviews@.map_values(|t: crate::session::model::MultiviewDto| t@).len()
        == doc.multiviews@.len());
    doc.inputs.push(color_input(1, "Color Red", InputKind::Color, F32_ONE_BITS, 0, 0));
    let mut bars = color_input(2, "SMPTE HD Bars", InputKind::Bars, 0, 0, 0);
    bars.scroll = true;
    bars.tone_hz = 0x447a_0000;
    doc.inputs.push(bars);
    doc.inputs.push(color_input(3, "Black", InputKind::Black, 0, 0, 0));
    doc.inputs.push(color_input(4, "Blue", InputKind::Color, 0, 0, F32_ONE_BITS));
    doc.scenes.push(scene(1, "Scene 1", 2));
    doc.scenes.push(scene(2, "Scene 2", 1));
    let mut unit = UnitDto::default();
    unit.id = 1;
    unit.name = owned("Mixing Unit 1");
    unit.preview_scene_id = 1;
    unit.program_scene_id = 2;
    unit.audio_bus_id = 1;
    doc.units.push(unit);
    let mut output = OutputDto::default();
    output.id = 100;
    output.name = owned("eiviz-pgm");
    output.transport = OutputTransport::Omt;
    output.source_kind = OutputSourceKind::MuProgram;
    output.unit_id = 1;
    output.use_gpu = false;
    output.audio_bus_id = 1;
    doc.outputs.push(output);
    let mut bus = BusDto::default();
    bus.id = 1;
    bus.name = owned("Master");
    bus.role = AudioBusRole::Master;
    doc.buses.push(bus);
    proof {
        lemma_default_valid(doc@);
    }
    doc
}

proof fn lemma_default_valid(d: crate::session::model::DocumentView)
    requires
        d.version == 2,
        d.inputs.len() == 4,
        d.inputs[0] == input_view_with(1, "Color Red"@, InputKind::Color, F32_ONE_BITS, 0, 0, false, 0),
        d.inputs[1] == input_view_with(2, "SMPTE HD Bars"@, InputKind::Bars, 0, 0, 0, true, 0x447a_0000),
        d.inputs[2] == input_view_with(3, "Black"@, InputKind::Black, 0, 0, 0, false, 0),
        d.inputs[3] == input_view_with(4, "Blue"@, InputKind::Color, 0, 0, F32_ONE_BITS, false, 0),
        d.scenes.len() == 2,
        d.scenes[0].id == 1 && d.scenes[0].guid.len() == 0,
        d.scenes[0].layers == seq![SceneLayer { input_id: 2, ..SceneLayer::default_value() }],
        d.scenes[1].id == 2 && d.scenes[1].guid.len() == 0,
        d.scenes[1].layers == seq![SceneLayer { input_id: 1, ..SceneLayer::default_value() }],
        d.units.len() == 1,
        d.units[0].id == 1,
        d.units[0].preview_scene_id == 1 && d.units[0].program_scene_id == 2,
        d.outputs.len() == 1,
        d.outputs[0].id == 100,
        d.outputs[0].source_kind == OutputSourceKind::MuProgram,
        d.outputs[0].unit_id == 1,
        d.outputs[0].audio_bus_id == 1,
        d.buses.len() == 1,
        d.buses[0].id == 1,
        d.multiviews.len() == 0,
        d.settings.master_fps_num == 60000,
        d.settings.master_fps_den == 1001,
    ensures
        is_valid(d),
{

    let iid = input_ids(d);
    assert(iid =~= seq![1u64, 2, 3, 4]);
    assert(scene_ids(d) =~= seq![1u64, 2]);
    assert(unit_ids(d) =~= seq![1u64]);
    assert(output_ids(d) =~= seq![100u64]);
    assert(multiview_ids(d) =~= Seq::<u64>::empty());
    assert(bus_ids(d) =~= seq![1u64]);
    lemma_first_issue_none(4, id_elem_fn(iid, IdKind::Input), 0);
    lemma_first_issue_none(2, id_elem_fn(scene_ids(d), IdKind::Scene), 0);
    lemma_first_issue_none(1, id_elem_fn(unit_ids(d), IdKind::Unit), 0);
    lemma_first_issue_none(1, id_elem_fn(output_ids(d), IdKind::Output), 0);
    lemma_first_issue_none(1, id_elem_fn(bus_ids(d), IdKind::Bus), 0);
    lemma_first_issue_none(4, guid_elem_fn(input_guids(d), IdKind::Input), 0);
    lemma_first_issue_none(2, guid_elem_fn(scene_guids(d), IdKind::Scene), 0);
    assert(scene_ids(d).contains(1u64)) by { assert(scene_ids(d)[0] == 1); }
    assert(scene_ids(d).contains(2u64)) by { assert(scene_ids(d)[1] == 2); }
    lemma_first_issue_none(1, unit_scene_fn(d), 0);
    assert(iid.contains(2u64)) by { assert(iid[1] == 2); }
    assert(iid.contains(1u64)) by { assert(iid[0] == 1); }
    reveal_with_fuel(find_input_from, 3);
    assert(find_input_from(d.inputs, 2, 0) == Some(1int));
    assert(find_input_from(d.inputs, 1, 0) == Some(0int));
    lemma_first_issue_none(1, layer_fn(d, 0), 0);
    lemma_first_issue_none(1, layer_fn(d, 1), 0);
    lemma_first_issue_none(2, scene_layers_fn(d), 0);
    lemma_first_issue_none(4, audio_fn(d), 0);
    lemma_first_issue_none(4, mix_fn(d), 0);
    lemma_first_issue_none(4, cycle_fn(d), 0);
    assert(unit_ids(d).contains(1u64)) by { assert(unit_ids(d)[0] == 1); }
    assert(bus_ids(d).contains(1u64)) by { assert(bus_ids(d)[0] == 1); }
    lemma_first_issue_none(1, output_fn(d), 0);
}

/// Proleptic Gregorian (year, month, day) of a day count since 1970-01-01,
/// by the era arithmetic of Howard Hinnant's `civil_from_days`.
pub open spec fn spec_civil_from_days(days: int) -> (i32, u32, u32) {
    let z = days + 719_468;
    let era = z / 146_097;
    let doe = z - era * 146_097;
    let yoe = (doe - doe / 1_460 + doe / 36_524 - doe / 146_096) / 365;
    let y = yoe + era * 400;
    let doy = doe - (365 * yoe + yoe / 4 - yoe / 100);
    let mp = (5 * doy + 2) / 153;
    let d = doy - (153 * mp + 2) / 5 + 1;
    let m = if mp < 10 {
        mp + 3
    } else {
        mp - 9
    };
    let y = if m <= 2 {
        y + 1
    } else {
        y
    };
    (y as i32, m as u32, d as u32)
}

#[verifier::spinoff_prover]
fn civil_from_days(days: i64) -> (r: (i32, u32, u32))
    requires
        0 <= days <= 0x0010_0000_0000_0000,
    ensures
        r == spec_civil_from_days(days as int),
{
    let z = days + 719_468;
    let era = z / 146_097;
    assert(0 <= z - era * 146_097 < 146_097);
    let doe = z - era * 146_097;
    let yoe = (doe - doe / 1_460 + doe / 36_524 - doe / 146_096) / 365;
    let y = yoe + era * 400;
    let doy = doe - (365 * yoe + yoe / 4 - yoe / 100);
    let mp = (5 * doy + 2) / 153;
    let d = doy - (153 * mp + 2) / 5 + 1;
    let m = if mp < 10 {
        mp + 3
    } else {
        mp - 9
    };
    let y = if m <= 2 {
        y + 1
    } else {
        y
    };
    (y as i32, m as u32, d as u32)
}

/// `{:04}` of a year: zero-padded to four characters, sign included.
pub open spec fn spec_year_text(year: i32) -> Seq<char> {
    if year < 0 {
        seq!['-'] + spec_decimal_padded((-(year as int)) as nat, 3)
    } else {
        spec_decimal_padded(year as nat, 4)
    }
}

fn year_text(year: i32) -> (r: String)
    ensures
        r@ == spec_year_text(year),
{
    if year < 0 {
        let magnitude: u64 = (-(year as i64)) as u64;
        let mut s = String::new();
        push_char(&mut s, '-');
        let digits = decimal_padded(magnitude, 3);
        s.append(digits.as_str());
        s
    } else {
        decimal_padded(year as u64, 4)
    }
}

/// `eiviz-YYYYMMDD-hhmmss.eivz` for a UTC instant in Unix seconds.
#[verifier::opaque]
pub open spec fn spec_dated_session_filename(unix_secs: u64) -> Seq<char> {
    let days = unix_secs / 86_400;
    let tod = unix_secs % 86_400;
    let (year, month, day) = spec_civil_from_days(days as int);
    "eiviz-"@ + spec_year_text(year) + spec_decimal_padded(month as nat, 2) + spec_decimal_padded(
        day as nat,
        2,
    ) + "-"@ + spec_decimal_padded((tod / 3_600) as nat, 2) + spec_decimal_padded(
        ((tod % 3_600) / 60) as nat,
        2,
    ) + spec_decimal_padded((tod % 60) as nat, 2) + ".eivz"@
}

/// Session file name stamped with a UTC date and time.
pub fn dated_session_filename(unix_secs: u64) -> (r: String)
    ensures
        r@ == spec_dated_session_filename(unix_secs),
{
    proof {
        reveal(spec_dated_session_filename);
    }
    let days = (unix_secs / 86_400) as i64;
    let tod = unix_secs % 86_400;
    let hour = tod / 3_600;
    let min = (tod % 3_600) / 60;
    let sec = tod % 60;
    let (year, month, day) = civil_from_days(days);
    let mut out = owned("eiviz-");
    let t = year_text(year);
    out.append(t.as_str());
    let t = decimal_padded(month as u64, 2);
    out.append(t.as_str());
    let t = decimal_padded(day as u64, 2);
    out.append(t.as_str());
    out.append("-");
    let t = decimal_padded(hour, 2);
    out.append(t.as_str());
    let t = decimal_padded(min, 2);
    out.append(t.as_str());
    let t = decimal_padded(sec, 2);
    out.append(t.as_str());
    out.append(".eivz");
    out
}

/// Session file name stamped with the current UTC date and time.
pub fn dated_session_filename_now() -> (r: String)
    ensures
        exists|secs: u64| r@ == spec_dated_session_filename(secs),
{
    let secs = crate::clock::unix_ms() / 1000;
    dated_session_filename(secs)
}

} // verus!

verus! {

/// Days of the March-based years before year `y` of a 400-year era, up to
/// the era's own scale.
spec fn year_scale(doe: int) -> int {
    doe - doe / 1_460 + doe / 36_524 - doe / 146_096
}

/// First day (counted from March 1 of the era's year 0) of the era's
/// March-based year `y`.
spec fn year_start(y: int) -> int {
    365 * y + y / 4 - y / 100
}

proof fn lemma_year_start_scale(y: int)
    requires
        0 <= y < 400,
    ensures
        365 * y <= year_scale(year_start(y)) <= 365 * y + 364,
        y > 0 ==> year_scale(year_start(y) - 1) < 365 * y,
{
}

proof fn lemma_scale_monotone(a: int, b: int)
    requires
        0 <= a <= b,
    ensures
        year_scale(a) <= year_scale(b),
{
}

/// (year, month, day) of day `doe` of a 400-year era that starts on
/// March 1 of its year 0, with the year taken as the calendar year.
spec fn era_date(doe: int) -> (int, int, int) {
    let yoe = year_scale(doe) / 365;
    let doy = doe - year_start(yoe);
    let mp = (5 * doy + 2) / 153;
    let d = doy - (153 * mp + 2) / 5 + 1;
    let m = if mp < 10 {
        mp + 3
    } else {
        mp - 9
    };
    (if m <= 2 {
        yoe + 1
    } else {
        yoe
    }, m, d)
}

/// `a` comes before `b`: by year, then month, then day.
pub open spec fn date_before(a: (int, int, int), b: (int, int, int)) -> bool {
    ||| a.0 < b.0
    ||| (a.0 == b.0 && a.1 < b.1)
    ||| (a.0 == b.0 && a.1 == b.1 && a.2 < b.2)
}

proof fn lemma_year_of(doe: int)
    requires
        0 <= doe <= 146_096,
    ensures
        0 <= year_scale(doe) / 365 < 400,
        year_start(year_scale(doe) / 365) <= doe,
        year_scale(doe) / 365 < 399 ==> doe < year_start(year_scale(doe) / 365 + 1),
{
    let y = year_scale(doe) / 365;
    lemma_scale_monotone(0, doe);
    lemma_scale_monotone(doe, 146_096);
    assert(0 <= y < 400);
    lemma_year_start_scale(y);
    if doe < year_start(y) {
        lemma_scale_monotone(doe, year_start(y) - 1);
    }
    if y < 399 {
        lemma_year_start_scale(y + 1);
        if doe >= year_start(y + 1) {
            lemma_scale_monotone(year_start(y + 1), doe);
        }
    }
}

proof fn lemma_era_step(doe: int)
    requires
        0 <= doe < 146_096,
    ensures
        date_before(era_date(doe), era_date(doe + 1)),
{
    lemma_year_of(doe);
    lemma_year_of(doe + 1);
    let y0 = year_scale(doe) / 365;
    let y1 = year_scale(doe + 1) / 365;
    lemma_scale_monotone(doe, doe + 1);
    assert(y0 <= y1);
    if y0 < y1 {
        lemma_year_start_scale(y1);
        assert(y1 == y0 + 1);
        assert(doe + 1 == year_start(y1));
    }
}

proof fn lemma_era_ranges(doe: int)
    requires
        0 <= doe <= 146_096,
    ensures
        0 <= era_date(doe).0 <= 400,
        1 <= era_date(doe).1 <= 12,
        1 <= era_date(doe).2 <= 31,
{
    lemma_year_of(doe);
    let y = year_scale(doe) / 365;
    if y < 399 {
        lemma_year_start_scale(y + 1);
    }
}

/// The calendar date of a day count, as integers.
pub open spec fn civil_date(days: int) -> (int, int, int) {
    let c = spec_civil_from_days(days);
    (c.0 as int, c.1 as int, c.2 as int)
}

proof fn lemma_civil_by_era(days: int)
    requires
        0 <= days <= 100_000_000,
    ensures
        ({
            let z = days + 719_468;
            let era = z / 146_097;
            let doe = z - era * 146_097;
            &&& 0 <= doe <= 146_096
            &&& civil_date(days) == (era * 400 + era_date(doe).0, era_date(doe).1, era_date(doe).2)
        }),
{
    let z = days + 719_468;
    let era = z / 146_097;
    let doe = z - era * 146_097;
    lemma_era_ranges(doe);
    assert(0 <= era < 1000);
}

proof fn lemma_civil_step(days: int)
    requires
        0 <= days < 100_000_000,
    ensures
        date_before(civil_date(days), civil_date(days + 1)),
{
    lemma_civil_by_era(days);
    lemma_civil_by_era(days + 1);
    let z = days + 719_468;
    let era = z / 146_097;
    let doe = z - era * 146_097;
    if doe < 146_096 {
        lemma_era_step(doe);
        assert((z + 1) / 146_097 == era);
    } else {
        assert((z + 1) / 146_097 == era + 1);
        assert(era_date(146_096) == (400int, 2int, 29int));
        assert(era_date(0) == (0int, 3int, 1int));
    }
}

/// Later day counts have later calendar dates.
pub proof fn lemma_civil_monotone(a: int, b: int)
    requires
        0 <= a < b <= 100_000_000,
    ensures
        date_before(civil_date(a), civil_date(b)),
    decreases b - a,
{
    lemma_civil_step(b - 1);
    if a < b - 1 {
        lemma_civil_monotone(a, b - 1);
    }
}

/// The decimal digit character of `x` (0 to 9).
pub open spec fn digit_char(x: int) -> char {
    (('0' as u32) + x) as char
}

proof fn lemma_pad2(v: int)
    requires
        0 <= v < 100,
    ensures
        spec_decimal_padded(v as nat, 2) == seq![digit_char(v / 10), digit_char(v % 10)],
{
    reveal_with_fuel(spec_decimal, 3);
    if v < 10 {
        assert(spec_decimal_padded(v as nat, 2) =~= seq![digit_char(v / 10), digit_char(v % 10)]);
    } else {
        assert(spec_decimal((v / 10) as nat) == seq![digit_char(v / 10)]);
        assert(spec_decimal_padded(v as nat, 2) =~= seq![digit_char(v / 10), digit_char(v % 10)]);
    }
}

proof fn lemma_pad4(v: int)
    requires
        1000 <= v < 10000,
    ensures
        spec_year_text(v as i32) == seq![
            digit_char(v / 1000),
            digit_char(v / 100 % 10),
            digit_char(v / 10 % 10),
            digit_char(v % 10),
        ],
{
    reveal_with_fuel(spec_decimal, 5);
    assert(spec_decimal((v / 1000) as nat) == seq![digit_char(v / 1000)]);
    assert(spec_decimal((v / 100) as nat) =~= seq![digit_char(v / 1000), digit_char(v / 100 % 10)]);
    assert(spec_decimal((v / 10) as nat) =~= seq![
        digit_char(v / 1000),
        digit_char(v / 100 % 10),
        digit_char(v / 10 % 10),
    ]);
    assert(spec_decimal(v as nat) =~= seq![
        digit_char(v / 1000),
        digit_char(v / 100 % 10),
        digit_char(v / 10 % 10),
        digit_char(v % 10),
    ]);
}

/// The year, month, day, hour, minute and second of a UTC instant.
#[verifier::opaque]
pub open spec fn utc_fields(secs: u64) -> (int, int, int, int, int, int) {
    let (y, m, d) = civil_date((secs / 86_400) as int);
    let tod = secs % 86_400;
    (y, m, d, (tod / 3_600) as int, ((tod % 3_600) / 60) as int, (tod % 60) as int)
}

/// The fourteen digits of a file name's date and time, in order.
#[verifier::opaque]
pub open spec fn stamp_digits(f: (int, int, int, int, int, int)) -> Seq<int> {
    seq![
        f.0 / 1000, f.0 / 100 % 10, f.0 / 10 % 10, f.0 % 10,
        f.1 / 10, f.1 % 10, f.2 / 10, f.2 % 10,
        f.3 / 10, f.3 % 10, f.4 / 10, f.4 % 10, f.5 / 10, f.5 % 10,
    ]
}

/// `a` sorts before `b` character by character.
pub open spec fn text_before(a: Seq<char>, b: Seq<char>) -> bool {
    exists|i: int|
        0 <= i < a.len() && i < b.len() && a.take(i) == b.take(i) && (a[i] as u32) < (#[trigger] b[i] as u32)
}

/// A file name from its fourteen date and time digits.
#[verifier::opaque]
pub open spec fn name_from_digits(dg: Seq<int>) -> Seq<char> {
    "eiviz-"@ + seq![
        digit_char(dg[0]), digit_char(dg[1]), digit_char(dg[2]), digit_char(dg[3]),
        digit_char(dg[4]), digit_char(dg[5]), digit_char(dg[6]), digit_char(dg[7]),
    ] + "-"@ + seq![
        digit_char(dg[8]), digit_char(dg[9]), digit_char(dg[10]), digit_char(dg[11]),
        digit_char(dg[12]), digit_char(dg[13]),
    ] + ".eivz"@
}

/// The fields of an instant before the year 10000 are in range.
pub open spec fn fields_in_range(f: (int, int, int, int, int, int)) -> bool {
    &&& 1970 <= f.0 <= 9999
    &&& 1 <= f.1 <= 12
    &&& 1 <= f.2 <= 31
    &&& 0 <= f.3 < 24
    &&& 0 <= f.4 < 60
    &&& 0 <= f.5 < 60
}

/// The first day counted is 1970-01-01; day 2 932 896 is 9999-12-31.
pub proof fn lemma_civil_endpoints()
    ensures
        civil_date(0) == (1970int, 1int, 1int),
        civil_date(2_932_896) == (9999int, 12int, 31int),
{
    lemma_civil_by_era(0);
    lemma_civil_by_era(2_932_896);
}

#[verifier::spinoff_prover]
proof fn lemma_fields_in_range(secs: u64)
    requires
        secs < 253_402_300_800,
    ensures
        fields_in_range(utc_fields(secs)),
{
    reveal(utc_fields);
    let days = (secs / 86_400) as int;
    lemma_civil_by_era(days);
    let z = days + 719_468;
    lemma_era_ranges(z - (z / 146_097) * 146_097);
    lemma_civil_endpoints();
    if days > 0 {
        lemma_civil_monotone(0, days);
    }
    if days < 2_932_896 {
        lemma_civil_monotone(days, 2_932_896);
    }
}

proof fn lemma_name_digits(secs: u64)
    requires
        secs < 253_402_300_800,
    ensures
        spec_dated_session_filename(secs) == name_from_digits(stamp_digits(utc_fields(secs))),
{
    reveal(spec_dated_session_filename);
    reveal(utc_fields);
    reveal(stamp_digits);
    reveal(name_from_digits);
    lemma_fields_in_range(secs);
    let f = utc_fields(secs);
    let dg = stamp_digits(f);
    let c = spec_civil_from_days((secs / 86_400) as int);
    assert(c.0 as int == f.0 && c.1 as int == f.1 && c.2 as int == f.2);
    lemma_pad4(f.0);
    assert(c.0 == f.0 as i32);
    lemma_pad2(f.1);
    lemma_pad2(f.2);
    lemma_pad2(f.3);
    lemma_pad2(f.4);
    lemma_pad2(f.5);
    assert(spec_dated_session_filename(secs) =~= name_from_digits(dg));
}

/// `a` comes first: the digits agree up to some position, where `a`'s
/// digit is smaller.
pub open spec fn digits_before(a: Seq<int>, b: Seq<int>) -> bool {
    exists|k: int|
        0 <= k < 14 && (forall|j: int| 0 <= j < k ==> a[j] == b[j]) && #[trigger] a[k] < b[k]
}

proof fn lemma_fields_before(a: u64, b: u64)
    requires
        a < b < 253_402_300_800,
    ensures
        ({
            let fa = utc_fields(a);
            let fb = utc_fields(b);
            ||| date_before((fa.0, fa.1, fa.2), (fb.0, fb.1, fb.2))
            ||| ((fa.0, fa.1, fa.2) == (fb.0, fb.1, fb.2) && date_before((fa.3, fa.4, fa.5), (fb.3, fb.4, fb.5)))
        }),
{
    reveal(utc_fields);
    let da = (a / 86_400) as int;
    let db = (b / 86_400) as int;
    if da < db {
        lemma_civil_monotone(da, db);
    }
}

proof fn lemma_two_digits(x: int, y: int)
    requires
        0 <= x < y < 100,
    ensures
        x / 10 < y / 10 || (x / 10 == y / 10 && x % 10 < y % 10),
{
}

proof fn lemma_four_digits(x: int, y: int)
    requires
        1000 <= x < y < 10000,
    ensures
        ({
            ||| x / 1000 < y / 1000
            ||| (x / 1000 == y / 1000 && x / 100 % 10 < y / 100 % 10)
            ||| (x / 1000 == y / 1000 && x / 100 % 10 == y / 100 % 10 && x / 10 % 10 < y / 10 % 10)
            ||| (x / 1000 == y / 1000 && x / 100 % 10 == y / 100 % 10 && x / 10 % 10 == y / 10 % 10 && x % 10
                < y % 10)
        }),
{
    assert(x / 1000 == x / 100 / 10 && y / 1000 == y / 100 / 10);
    assert(x / 10 % 10 == x % 100 / 10 && y / 10 % 10 == y % 100 / 10);
    assert(x % 10 == x % 100 % 10 && y % 10 == y % 100 % 10);
    if x / 100 < y / 100 {
        lemma_two_digits(x / 100, y / 100);
    } else {
        assert(x / 100 == y / 100);
        lemma_two_digits(x % 100, y % 100);
    }
}

proof fn lemma_stamp_before(fa: (int, int, int, int, int, int), fb: (int, int, int, int, int, int))
    requires
        fields_in_range(fa),
        fields_in_range(fb),
        date_before((fa.0, fa.1, fa.2), (fb.0, fb.1, fb.2)) || ((fa.0, fa.1, fa.2) == (fb.0, fb.1, fb.2)
            && date_before((fa.3, fa.4, fa.5), (fb.3, fb.4, fb.5))),
    ensures
        digits_before(stamp_digits(fa), stamp_digits(fb)),
{
    reveal(stamp_digits);
    let a = stamp_digits(fa);
    let b = stamp_digits(fb);
    let k: int = if fa.0 != fb.0 {
        lemma_four_digits(fa.0, fb.0);
        if a[0] < b[0] { 0 } else if a[1] < b[1] { 1 } else if a[2] < b[2] { 2 } else { 3 }
    } else if fa.1 != fb.1 {
        lemma_two_digits(fa.1, fb.1);
        if a[4] < b[4] { 4 } else { 5 }
    } else if fa.2 != fb.2 {
        lemma_two_digits(fa.2, fb.2);
        if a[6] < b[6] { 6 } else { 7 }
    } else if fa.3 != fb.3 {
        lemma_two_digits(fa.3, fb.3);
        if a[8] < b[8] { 8 } else { 9 }
    } else if fa.4 != fb.4 {
        lemma_two_digits(fa.4, fb.4);
        if a[10] < b[10] { 10 } else { 11 }
    } else {
        lemma_two_digits(fa.5, fb.5);
        if a[12] < b[12] { 12 } else { 13 }
    };
    assert(0 <= k < 14 && (forall|j: int| 0 <= j < k ==> a[j] == b[j]) && a[k] < b[k]);
}

proof fn lemma_stamp_shape(f: (int, int, int, int, int, int))
    requires
        fields_in_range(f),
    ensures
        stamp_digits(f).len() == 14,
        forall|j: int| 0 <= j < 14 ==> 0 <= #[trigger] stamp_digits(f)[j] < 10,
{
    reveal(stamp_digits);
}

proof fn lemma_names_before(a: Seq<int>, b: Seq<int>)
    requires
        a.len() == 14,
        b.len() == 14,
        forall|j: int| 0 <= j < 14 ==> 0 <= #[trigger] a[j] < 10,
        forall|j: int| 0 <= j < 14 ==> 0 <= #[trigger] b[j] < 10,
        digits_before(a, b),
    ensures
        text_before(name_from_digits(a), name_from_digits(b)),
{
    reveal(name_from_digits);
    reveal_strlit("eiviz-");
    reveal_strlit("-");
    reveal_strlit(".eivz");
    let k = choose|k: int| 0 <= k < 14 && (forall|j: int| 0 <= j < k ==> a[j] == b[j]) && #[trigger] a[k] < b[k];
    let na = name_from_digits(a);
    let nb = name_from_digits(b);
    assert(na.len() == 26 && nb.len() == 26);
    let p = if k < 8 {
        6 + k
    } else {
        7 + k
    };
    assert forall|q: int| 0 <= q < p implies na[q] == nb[q] by {
        if 6 <= q < 14 {
            assert(a[q - 6] == b[q - 6]);
        } else if 15 <= q < 21 {
            assert(a[q - 7] == b[q - 7]);
        }
    }
    assert(na.take(p) =~= nb.take(p));
    assert(na[p] == digit_char(a[k]) && nb[p] == digit_char(b[k]));
    assert((digit_char(a[k]) as u32) < (digit_char(b[k]) as u32));
}

/// Dated session file names sort as their instants do: for two instants
/// before the year 10000, the earlier one's name comes first character by
/// character. Every such name is 26 characters, `eiviz-`, the UTC date and
/// time as `YYYYMMDD-hhmmss`, and `.eivz`.
#[verifier::spinoff_prover]
pub proof fn lemma_dated_names_sort(a: u64, b: u64)
    requires
        a < b < 253_402_300_800,
    ensures
        text_before(spec_dated_session_filename(a), spec_dated_session_filename(b)),
        spec_dated_session_filename(a).len() == 26,
        spec_dated_session_filename(a).take(6) == "eiviz-"@,
        spec_dated_session_filename(a).skip(21) == ".eivz"@,
{
    lemma_name_digits(a);
    lemma_name_digits(b);
    lemma_fields_in_range(a);
    lemma_fields_in_range(b);
    lemma_fields_before(a, b);
    lemma_stamp_before(utc_fields(a), utc_fields(b));
    lemma_stamp_shape(utc_fields(a));
    lemma_stamp_shape(utc_fields(b));
    lemma_names_before(stamp_digits(utc_fields(a)), stamp_digits(utc_fields(b)));
    lemma_name_shape(stamp_digits(utc_fields(a)));
}

proof fn lemma_name_shape(dg: Seq<int>)
    ensures
        name_from_digits(dg).len() == 26,
        name_from_digits(dg).take(6) == "eiviz-"@,
        name_from_digits(dg).skip(21) == ".eivz"@,
{
    reveal(name_from_digits);
    reveal_strlit("eiviz-");
    reveal_strlit("-");
    reveal_strlit(".eivz");
    let n = name_from_digits(dg);
    assert(n.take(6) =~= "eiviz-"@);
    assert(n.skip(21) =~= ".eivz"@);
}

/// Every dated session file name before the year 10000 has the shape
/// `eiviz-YYYYMMDD-hhmmss.eivz`: 26 characters, the prefix, fourteen
/// decimal digits with a hyphen after the eighth, and the suffix.
pub proof fn lemma_dated_name_shape(secs: u64)
    requires
        secs < 253_402_300_800,
    ensures
        spec_dated_session_filename(secs).len() == 26,
        spec_dated_session_filename(secs).take(6) == "eiviz-"@,
        spec_dated_session_filename(secs)[14] == '-',
        spec_dated_session_filename(secs).skip(21) == ".eivz"@,
        forall|i: int|
            (6 <= i < 14 || 15 <= i < 21) ==> '0' <= #[trigger] spec_dated_session_filename(secs)[i] <= '9',
{
    lemma_name_digits(secs);
    lemma_fields_in_range(secs);
    let dg = stamp_digits(utc_fields(secs));
    lemma_stamp_shape(utc_fields(secs));
    lemma_name_shape(dg);
    lemma_name_digit_chars(dg);
}

proof fn lemma_name_digit_chars(dg: Seq<int>)
    requires
        dg.len() == 14,
        forall|j: int| 0 <= j < 14 ==> 0 <= #[trigger] dg[j] < 10,
    ensures
        name_from_digits(dg)[14] == '-',
        forall|i: int| (6 <= i < 14 || 15 <= i < 21) ==> '0' <= #[trigger] name_from_digits(dg)[i] <= '9',
{
    reveal(name_from_digits);
    reveal_strlit("eiviz-");
    reveal_strlit("-");
    reveal_strlit(".eivz");
    let n = name_from_digits(dg);
    assert forall|i: int| (6 <= i < 14 || 15 <= i < 21) implies '0' <= #[trigger] n[i] <= '9' by {
        if i < 14 {
            assert(n[i] == digit_char(dg[i - 6]));
        } else {
            assert(n[i] == digit_char(dg[i - 7]));
        }
    }
}

} // verus!
