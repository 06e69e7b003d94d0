use eiviz::error::ControlError;
use eiviz::ids::{ResourceKind, ResourceRef, Resolver};
use eiviz::session::model::{Document, InputDto, InputKind, UnitDto};

fn input(id: u64, name: &str, guid: &str) -> InputDto {
    InputDto { id, name: name.into(), guid: guid.into(), kind: InputKind::Color, ..InputDto::default() }
}

fn doc_with_inputs(inputs: Vec<InputDto>) -> Document {
    let mut d = Document::default();
    d.inputs = inputs;
    d
}

#[test]
fn name_collision_is_ambiguous() {
    let doc = doc_with_inputs(vec![
        input(2, "Cam", "aaaaaaaa-aaaa-aaaa-aaaa-aaaaaaaaaaaa"),
        input(3, "Cam", "bbbbbbbb-bbbb-bbbb-bbbb-bbbbbbbbbbbb"),
    ]);
    let err = Resolver.resolve_input(&doc, "Cam").unwrap_err();
    assert!(matches!(err, ControlError::Ambiguous { .. }));
    assert_eq!(err.message(), "input name Cam");
}

#[test]
fn guid_wins_over_name() {
    let doc = doc_with_inputs(vec![
        input(2, "Cam", "aaaaaaaa-aaaa-aaaa-aaaa-aaaaaaaaaaaa"),
        input(3, "Other", "bbbbbbbb-bbbb-bbbb-bbbb-bbbbbbbbbbbb"),
    ]);
    let hit = Resolver.resolve_input(&doc, "aaaaaaaa-aaaa-aaaa-aaaa-aaaaaaaaaaaa").unwrap();
    assert_eq!(hit.id, 2);
}

#[test]
fn numeric_id_then_trimmed_name() {
    let doc = doc_with_inputs(vec![input(2, "Cam", ""), input(3, "Other", "")]);
    assert_eq!(Resolver.resolve_input(&doc, " 3 ").unwrap().id, 3);
    assert_eq!(Resolver.resolve_input(&doc, "  other ").unwrap().id, 3);
    let err = Resolver.resolve_input(&doc, "   ").unwrap_err();
    assert_eq!(err.message(), "empty input selector");
    let err = Resolver.resolve_input(&doc, "Missing").unwrap_err();
    assert!(matches!(err, ControlError::NotFound { .. }));
    assert_eq!(err.message(), "input Missing");
}

#[test]
fn unit_selectors_use_selection_position_id_and_name() {
    let mut doc = Document::default();
    doc.units = vec![
        UnitDto { id: 7, name: "Main".into(), ..UnitDto::default() },
        UnitDto { id: 9, name: "Aux".into(), ..UnitDto::default() },
    ];
    doc.selected_unit_id = 9;
    assert_eq!(Resolver.resolve_unit(&doc, "").unwrap(), 9);
    assert_eq!(Resolver.resolve_unit(&doc, "0").unwrap(), 9);
    assert_eq!(Resolver.resolve_unit(&doc, "1").unwrap(), 7);
    assert_eq!(Resolver.resolve_unit(&doc, "9").unwrap(), 9);
    assert_eq!(Resolver.resolve_unit(&doc, "aux").unwrap(), 9);
    let err = Resolver.resolve_unit(&doc, "nope").unwrap_err();
    assert_eq!(err.message(), "mixing unit nope");
    doc.selected_unit_id = 0;
    assert_eq!(Resolver.resolve_unit(&doc, "").unwrap(), 7);
    doc.units.clear();
    assert_eq!(Resolver.resolve_unit(&doc, "").unwrap_err().message(), "no mixing unit");
}

#[test]
fn resource_kinds_and_numeric_refs() {
    assert_eq!(ResourceKind::Multiview.as_str(), "multiview");
    let r = ResourceRef::numeric(ResourceKind::Bus, 4);
    assert_eq!(r.id, 4);
    assert!(r.guid.is_empty() && r.name.is_empty());
}
