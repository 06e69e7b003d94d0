use eiviz::domain::audio::{AudioMatrix, AudioRoute};
use eiviz::domain::ids::{AudioBusId, InputId, MixingUnitId};
use eiviz::domain::project::Project;
use eiviz::domain::routing::RouteMode;
use eiviz::engine::{check_admission, primary_unit, AdmissionBudget, AdmissionRequest, EngineError};
use eiviz::domain::mixing::MixingUnit;

#[test]
fn admission_counts_inputs_units_and_pixels() {
    let project = Project::new("budget");
    let roomy = AdmissionBudget::default();
    assert!(check_admission(&project, &roomy, AdmissionRequest::AddInput).is_ok());
    assert!(check_admission(&project, &roomy, AdmissionRequest::AddMixingUnit).is_ok());
    let no_inputs = AdmissionBudget { max_inputs: 0, ..roomy };
    assert_eq!(
        check_admission(&project, &no_inputs, AdmissionRequest::AddInput),
        Err(EngineError::Admission("input count".into()))
    );
    let tiny = AdmissionBudget { max_pixel_bytes: 1920 * 1080 * 4 - 1, ..roomy };
    assert_eq!(
        check_admission(&project, &tiny, AdmissionRequest::AddInput),
        Err(EngineError::Admission("pixel budget".into()))
    );
    let one_unit = AdmissionBudget { max_units: 1, ..roomy };
    let err = check_admission(&project, &one_unit, AdmissionRequest::AddMixingUnit).unwrap_err();
    assert_eq!(err.to_string(), "admission denied: mixing unit count");
    assert!(check_admission(&project, &one_unit, AdmissionRequest::Other).is_ok());
}

#[test]
fn muted_soloed_and_following_routes() {
    let route = |solo: bool, muted: bool, mode: RouteMode| AudioRoute {
        input: InputId::new(),
        bus: AudioBusId::new(),
        mode,
        gain_db: 0,
        muted,
        solo,
        delay_ms: 0,
        pan: 0,
    };
    let plain = route(false, false, RouteMode::Manual);
    let mut matrix = AudioMatrix::default();
    matrix.routes = vec![plain];
    assert!(matrix.audible(&plain, false));
    assert!(!matrix.audible(&route(false, true, RouteMode::Manual), true));
    let follow = route(false, false, RouteMode::Follow { unit: MixingUnitId::new() });
    assert!(!matrix.audible(&follow, false));
    assert!(matrix.audible(&follow, true));
    let soloed = route(true, false, RouteMode::Manual);
    matrix.routes.push(soloed);
    assert!(!matrix.audible(&plain, true));
    assert!(matrix.audible(&soloed, true));
}

#[test]
fn primary_unit_is_the_smallest_unit_id() {
    let mut project = Project::new("units");
    let first = *project.mixing_units.keys().next().unwrap();
    assert_eq!(primary_unit(&project).0, first);
    let mut extra = MixingUnit::new("Mix 2");
    extra.id = MixingUnitId::from_u128(0);
    project.mixing_units.insert(0, extra);
    assert_eq!(primary_unit(&project).0, 0);
}
