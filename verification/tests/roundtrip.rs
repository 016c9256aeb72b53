use sdmx::csv::{
    Action as CsvAction, DataOptions, InternedHeaders, Keys, Labels, MetadataOptions,
    parse_data_row, parse_metadata_row,
};
use sdmx::message::{CascadeValues, SimpleComponentValue, StringOrScv, StructureMessage};
use sdmx::codec::JsonForm;
use sdmx::fields::{Extensions, ParseError, ValueKind};
use sdmx::json::JsonValue;
use sdmx::metadata::{Attribute, MetadataMessage};
use sdmx::primitives::{Action, Annotation, LocalizedText, NumberOrString, SdmxValue};
use sdmx::schemes::{Codelist, CategoryScheme, ItemScheme};
use sdmx::structure::{AttributeAttachment, AttributeRelationship, Item, MaxOccurs};
use sdmx::text::{document_from_text, document_to_text, parse_metadata_message};

fn obj(fields: Vec<(&str, JsonValue)>) -> JsonValue {
    JsonValue::Obj(fields.into_iter().map(|(k, v)| (k.to_owned(), v)).collect())
}

fn s(t: &str) -> JsonValue {
    JsonValue::Str(t.to_owned())
}

#[test]
fn annotation_round_trip() {
    let doc = obj(vec![
        ("id", s("A1")),
        ("title", s("a title")),
        ("x", JsonValue::Int(1)),
    ]);
    let a = Annotation::from_json(doc).unwrap();
    assert_eq!(a.id.as_deref(), Some("A1"));
    assert_eq!(a.title.as_deref(), Some("a title"));
    // the unrecognized field sits in the side table
    assert_eq!(a.other.0.len(), 1);
    let out = a.to_json();
    let expected = obj(vec![
        ("id", s("A1")),
        ("title", s("a title")),
        ("x", JsonValue::Int(1)),
    ]);
    assert_eq!(out, expected);
    // and parses back to the same value
    let b = Annotation::from_json(a.to_json()).unwrap();
    assert_eq!(a, b);
}

#[test]
fn extension_preserved_through_text() {
    let text = r#"{"data":{"metadataSets":[]},"x":1}"#;
    let m = parse_metadata_message(text).unwrap();
    let rendered = sdmx::text::render_metadata_message(&m);
    assert!(rendered.contains("\"x\":1"));
    let again = parse_metadata_message(&rendered).unwrap();
    assert_eq!(m, again);
}

#[test]
fn optional_omission() {
    let a = Annotation {
        id: None,
        title: Some("only a title".to_owned()),
        type_: None,
        value: None,
        text: None,
        texts: None,
        links: None,
        other: Extensions(vec![]),
    };
    let out = document_to_text(&a.to_json());
    assert!(!out.contains("null"));
    assert_eq!(out, r#"{"title":"only a title"}"#);
}

#[test]
fn occurrence_unbounded() {
    let v = document_from_text("\"unbounded\"").unwrap();
    assert_eq!(MaxOccurs::from_json(v).unwrap(), MaxOccurs::Unbounded);
}

#[test]
fn occurrence_digit_token() {
    let v = s("5");
    assert_eq!(MaxOccurs::from_json(v).unwrap(), MaxOccurs::Signed(5));
    // a numeric token re-serializes as a number: the chosen shape is kept
    assert_eq!(MaxOccurs::Signed(5).to_json(), JsonValue::Int(5));
}

#[test]
fn occurrence_negative_fails() {
    assert!(MaxOccurs::from_json(s("-1")).is_err());
    assert!(MaxOccurs::from_json(JsonValue::Int(-1)).is_err());
}

#[test]
fn action_character_codes() {
    assert_eq!(CsvAction::try_from('A'), Ok(CsvAction::Append));
    assert_eq!(CsvAction::try_from('R'), Ok(CsvAction::Replace));
    assert_eq!(CsvAction::try_from('D'), Ok(CsvAction::Delete));
    assert_eq!(CsvAction::try_from('I'), Ok(CsvAction::Information));
    assert_eq!(CsvAction::try_from('X'), Err(()));
}

#[test]
fn action_defaults_to_information() {
    // no header entry for position 5: the action column is absent
    let headers = InternedHeaders(vec![(6, "DIM1".to_owned())]);
    let row: Vec<String> =
        ["dataflow", "AG", "DF", "1.0", "Flow", "ignored", "v1"].iter().map(|c| c.to_string()).collect();
    let opts = DataOptions::default();
    let rec = parse_data_row(&headers, &row, opts).unwrap();
    assert_eq!(rec.action, CsvAction::Information);
    assert_eq!(rec.components, vec![(6usize, "v1".to_owned())]);
    assert_eq!(rec.other, vec![(5usize, "ignored".to_owned())]);
}

#[test]
fn action_column_parsed_and_bad_code_fails() {
    let headers = InternedHeaders(vec![(5, "ACTION".to_owned())]);
    let row: Vec<String> =
        ["dataflow", "AG", "DF", "1.0", "Flow", "R"].iter().map(|c| c.to_string()).collect();
    let rec = parse_data_row(&headers, &row, DataOptions::default()).unwrap();
    assert_eq!(rec.action, CsvAction::Replace);
    let bad: Vec<String> =
        ["dataflow", "AG", "DF", "1.0", "Flow", "X"].iter().map(|c| c.to_string()).collect();
    assert!(parse_data_row(&headers, &bad, DataOptions::default()).is_err());
}

#[test]
fn labels_sensitivity() {
    let headers = InternedHeaders(vec![(5, "DIM1".to_owned())]);
    let row: Vec<String> =
        ["datastructure", "AG", "DSD", "2.0", "A structure", "v"].iter().map(|c| c.to_string()).collect();
    let mut id_opts = DataOptions::default();
    id_opts.labels = Labels::Id;
    let mut both_opts = DataOptions::default();
    both_opts.labels = Labels::Both;
    let a = parse_data_row(&headers, &row, id_opts).unwrap();
    let b = parse_data_row(&headers, &row, both_opts).unwrap();
    assert!(a.structure_name.is_none());
    let name = b.structure_name.as_ref().unwrap();
    assert_eq!(name.localized, "A structure");
    assert_eq!(a.structure, b.structure);
    assert_eq!(a.structure_id, b.structure_id);
    assert_eq!(a.action, b.action);
    assert_eq!(a.series_key, b.series_key);
    assert_eq!(a.obs_key, b.obs_key);
    assert_eq!(a.components, b.components);
    assert_eq!(a.other, b.other);
}

#[test]
fn key_columns_follow_options() {
    let headers = InternedHeaders(vec![(5, "SERIES_KEY".to_owned()), (6, "OBS_KEY".to_owned())]);
    let row: Vec<String> =
        ["dataflow", "AG", "DF", "1.0", "Flow", "s1", "o1"].iter().map(|c| c.to_string()).collect();
    let mut opts = DataOptions::default();
    opts.keys = Keys::Both;
    let rec = parse_data_row(&headers, &row, opts).unwrap();
    assert_eq!(rec.series_key.as_deref(), Some("s1"));
    assert_eq!(rec.obs_key.as_deref(), Some("o1"));
    // without the option the same cells are ordinary components
    let mut none_opts = DataOptions::default();
    none_opts.keys = Keys::NoKeys;
    let rec2 = parse_data_row(&headers, &row, none_opts).unwrap();
    assert_eq!(rec2.series_key, None);
    assert_eq!(rec2.components.len(), 2);
}

#[test]
fn item_scheme_uniformity() {
    let item = Item {
        id: "I1".to_owned(),
        name: None,
        names: None,
        description: None,
        descriptions: None,
        annotations: None,
        links: None,
        other: Extensions(vec![]),
    };
    let doc = obj(vec![("id", s("CL")), ("isPartial", JsonValue::Bool(true)), (
        "codes",
        JsonValue::Arr(vec![item.to_json()]),
    )]);
    let cl = Codelist::from_json(doc).unwrap();
    assert_eq!(cl.is_partial(), Some(true));
    assert_eq!(cl.items().map(|v| v.len()), Some(1));
    let doc2 = obj(vec![("id", s("CS")), ("isPartial", JsonValue::Bool(true)), (
        "categories",
        JsonValue::Arr(vec![Item::from_json(obj(vec![("id", s("I1"))])).unwrap().to_json()]),
    )]);
    let cs = CategoryScheme::from_json(doc2).unwrap();
    assert_eq!(cs.is_partial(), Some(true));
    assert_eq!(cs.items().map(|v| v.len()), Some(1));
    assert_eq!(cl.items().unwrap()[0].id, cs.items().unwrap()[0].id);
}

#[test]
fn attribute_relationship_priority_order() {
    // both a dataflow marker and a group stand in the input: dataflow wins
    let doc = obj(vec![("dataflow", JsonValue::Null), ("group", s("G1"))]);
    let rel = AttributeRelationship::from_json(doc).unwrap();
    assert!(matches!(rel.attachment, AttributeAttachment::Dataflow));
    // parsed twice, the same shape comes out
    let doc2 = obj(vec![("dataflow", JsonValue::Null), ("group", s("G1"))]);
    let rel2 = AttributeRelationship::from_json(doc2).unwrap();
    assert_eq!(rel, rel2);
}

#[test]
fn attribute_relationship_shapes() {
    let dims = obj(vec![(
        "dimensions",
        JsonValue::Arr(vec![s("FREQ"), s("REF_AREA")]),
    )]);
    let rel = AttributeRelationship::from_json(dims).unwrap();
    match &rel.attachment {
        AttributeAttachment::Dimensions { dimensions, optional_flags } => {
            assert_eq!(dimensions.len(), 2);
            assert!(optional_flags.is_none());
        },
        _ => panic!("the dimension shape was expected"),
    }
    // an input matching no recognized shape is a hard failure
    let none = obj(vec![("unrelated", JsonValue::Int(3))]);
    assert!(AttributeRelationship::from_json(none).is_err());
}

#[test]
fn nested_metadata_attributes() {
    let text = r#"{"id":"A","value":"v","attributes":[{"id":"B","value":7}]}"#;
    let v = document_from_text(text).unwrap();
    let a = Attribute::from_json(v).unwrap();
    assert_eq!(a.id, "A");
    let nested = a.attributes.as_ref().unwrap();
    assert_eq!(nested[0].id, "B");
    assert_eq!(nested[0].value, Some(SdmxValue::Integer(7)));
    let back = document_to_text(&a.to_json());
    assert_eq!(back, text);
}

#[test]
fn number_or_string_tags() {
    let n = NumberOrString::from_json(obj(vec![("Number", JsonValue::Int(5))])).unwrap();
    assert_eq!(n, NumberOrString::Number(5));
    let t = NumberOrString::from_json(obj(vec![("String", s("five"))])).unwrap();
    assert_eq!(t, NumberOrString::String("five".to_owned()));
    assert!(NumberOrString::from_json(obj(vec![("Other", s("x"))])).is_err());
}

#[test]
fn action_tokens() {
    assert_eq!(Action::from_json(s("Append")).unwrap(), Action::Append);
    assert_eq!(Action::from_json(s("Delete")).unwrap(), Action::Delete);
    match Action::from_json(s("Explode")) {
        Err(ParseError::Token(t)) => assert_eq!(t, "Explode"),
        other => panic!("a token error was expected, not {:?}", other),
    }
}

#[test]
fn required_field_missing() {
    // a metadata set misses its identifier
    let doc = obj(vec![("name", s("n"))]);
    match sdmx::metadata::MetadataSet::from_json(doc) {
        Err(ParseError::Missing(f)) => assert_eq!(f, "id"),
        other => panic!("a missing-field error was expected, not {:?}", other),
    }
}

#[test]
fn known_field_with_wrong_shape_fails() {
    let doc = obj(vec![("id", JsonValue::Int(3))]);
    match Annotation::from_json(doc) {
        Err(ParseError::Shape(f, k)) => {
            assert_eq!(f, "id");
            assert_eq!(k, ValueKind::Text);
        },
        other => panic!("a shape error was expected, not {:?}", other),
    }
}

#[test]
fn localized_text_round_trip() {
    let lt = LocalizedText(vec![("en".to_owned(), "Hello".to_owned()), (
        "fr".to_owned(),
        "Bonjour".to_owned(),
    )]);
    let out = lt.to_json();
    let back = LocalizedText::from_json(out).unwrap();
    assert_eq!(lt, back);
}

#[test]
fn message_envelope_round_trip() {
    let text = r#"{"meta":{"id":"M1","prepared":"2020","sender":{"id":"AG"}},"data":{"metadataSets":[{"id":"S","agencyID":"AG","name":"set","targets":["t"],"attributes":[{"id":"A","value":null,"attributes":null}]}]}}"#;
    let m = parse_metadata_message(text).unwrap();
    let rendered = sdmx::text::render_metadata_message(&m);
    let again: MetadataMessage = parse_metadata_message(&rendered).unwrap();
    assert_eq!(m, again);
}

#[test]
fn validity_window_ordered() {
    let ok = obj(vec![
        ("id", s("CL")),
        ("validFrom", s("2020-01-01")),
        ("validTo", s("2021-01-01")),
    ]);
    assert!(Codelist::from_json(ok).is_ok());
    let equal = obj(vec![
        ("id", s("CL")),
        ("validFrom", s("2020-01-01")),
        ("validTo", s("2020-01-01")),
    ]);
    assert!(Codelist::from_json(equal).is_ok());
    let reversed = obj(vec![
        ("id", s("CL")),
        ("validFrom", s("2021-01-01")),
        ("validTo", s("2020-01-01")),
    ]);
    match Codelist::from_json(reversed) {
        Err(ParseError::Shape(f, k)) => {
            assert_eq!(f, "validTo");
            assert_eq!(k, ValueKind::Window);
        },
        other => panic!("a window error was expected, not {:?}", other),
    }
}

#[test]
fn structure_message_header_required() {
    let headerless = obj(vec![("data", obj(vec![]))]);
    match StructureMessage::from_json(headerless) {
        Err(ParseError::Missing(f)) => assert_eq!(f, "meta"),
        other => panic!("a missing-header error was expected, not {:?}", other),
    }
    let text = r#"{"meta":{"id":"M","prepared":"2020","sender":{"id":"AG"}},"data":{"codelists":[]}}"#;
    let m = sdmx::text::parse_structure_message(text).unwrap();
    let rendered = sdmx::text::render_structure_message(&m);
    let again = sdmx::text::parse_structure_message(&rendered).unwrap();
    assert_eq!(m, again);
}

#[test]
fn scalar_or_object_disambiguation() {
    // a bare string takes the string shape
    let v = StringOrScv::from_json(s("A")).unwrap();
    assert_eq!(v, StringOrScv::String("A".to_owned()));
    // an object takes the component shape
    let scv = obj(vec![("value", s("A")), ("cascadeValues", JsonValue::Bool(true))]);
    let v2 = StringOrScv::from_json(scv).unwrap();
    match &v2 {
        StringOrScv::SimpleComponent(x) => {
            assert_eq!(x.value, "A");
            assert_eq!(x.cascade_values, CascadeValues::Boolean(true));
        },
        other => panic!("the object shape was expected, not {:?}", other),
    }
    // both shapes re-emit as they came
    assert_eq!(v.to_json(), s("A"));
    let back = v2.to_json();
    let v3 = StringOrScv::from_json(back).unwrap();
    assert_eq!(v2, v3);
    // the conversions choose the matching shape
    assert_eq!(StringOrScv::from("A".to_owned()), StringOrScv::String("A".to_owned()));
    let made = SimpleComponentValue::from_json(obj(vec![
        ("value", s("B")),
        ("cascadeValues", s("excluderoot")),
    ]))
    .unwrap();
    assert!(matches!(StringOrScv::from(made), StringOrScv::SimpleComponent(_)));
}

#[test]
fn metadata_row_targets_and_labels() {
    let headers = InternedHeaders(vec![
        (7, "TARGET_TYPE".to_owned()),
        (8, "TARGET_ID".to_owned()),
        (9, "TARGET_NAME".to_owned()),
        (10, "COMMENT".to_owned()),
    ]);
    let row: Vec<String> = ["dataflow", "AG", "MDF", "1.0", "Flow", "MS1", "A set", "dataflow",
        "AG:DF(1.0)", "The flow", "fine"].iter().map(|c| c.to_string()).collect();
    let mut opts = MetadataOptions::default();
    opts.labels = Labels::Both;
    let rec = parse_metadata_row(&headers, &row, opts).unwrap();
    assert_eq!(rec.metadataset_id, "MS1");
    assert_eq!(rec.metadataset_name.as_deref(), Some("A set"));
    assert_eq!(rec.target_types, vec!["dataflow".to_owned()]);
    assert_eq!(rec.target_ids, vec!["AG:DF(1.0)".to_owned()]);
    assert_eq!(rec.target_names.as_deref(), Some("The flow"));
    assert_eq!(rec.components, vec![(10usize, "fine".to_owned())]);
    assert_eq!(rec.others, vec![]);
    // under identifier-only labels the label cells are skipped
    let id_rec = parse_metadata_row(&headers, &row, MetadataOptions::default()).unwrap();
    assert_eq!(id_rec.metadataset_name, None);
    assert_eq!(id_rec.md_structure_name, None);
    assert_eq!(id_rec.target_names, None);
    assert_eq!(id_rec.target_types, rec.target_types);
    assert_eq!(id_rec.components, rec.components);
}

#[test]
fn time_format_never_changes_a_row() {
    let headers = InternedHeaders(vec![(5, "TIME_PERIOD".to_owned())]);
    let row: Vec<String> =
        ["dataflow", "AG", "DF", "1.0", "Flow", "2020-Q1"].iter().map(|c| c.to_string()).collect();
    let mut orig = DataOptions::default();
    orig.time_format = sdmx::csv::TimeFormat::Original;
    let mut norm = DataOptions::default();
    norm.time_format = sdmx::csv::TimeFormat::Normalized;
    let a = parse_data_row(&headers, &row, orig).unwrap();
    let b = parse_data_row(&headers, &row, norm).unwrap();
    assert_eq!(a, b);
}

#[test]
fn data_structure_definition_round_trip() {
    let text = r#"{"meta":{"id":"M","prepared":"2020","sender":{"id":"AG"}},"data":{"dataStructures":[{"id":"DSD","dataStructureComponents":{"dimensionList":{"dimensions":[{"position":0,"conceptIdentity":"FREQ"}]},"attributeList":{"id":"AL","attributes":[{"id":"OBS_STATUS","usage":"optional","attributeRelationship":{"observation":null},"conceptIdentity":"OBS_STATUS","localRepresentation":{"maxOccurs":"unbounded"}}]}}}]}}"#;
    let m = sdmx::text::parse_structure_message(text).unwrap();
    let data = m.data.as_ref().unwrap();
    let dsd = &data.data_structures.as_ref().unwrap()[0];
    let comps = dsd.data_structure_components.as_ref().unwrap();
    let attrs = comps.attribute_list.as_ref().unwrap().attributes.as_ref().unwrap();
    assert!(matches!(
        attrs[0].attribute_relationship.attachment,
        sdmx::structure::AttributeAttachment::Observation
    ));
    assert_eq!(
        attrs[0].local_representation.max_occurs,
        Some(sdmx::structure::MaxOccurs::Unbounded)
    );
    let rendered = sdmx::text::render_structure_message(&m);
    let again = sdmx::text::parse_structure_message(&rendered).unwrap();
    assert_eq!(m, again);
}
