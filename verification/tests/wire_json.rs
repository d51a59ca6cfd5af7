use plugin_sdk::annotations::{Annotation, FunctionAnnotation};
use plugin_sdk::errors::PluginError;
use plugin_sdk::json::{load_annotations, read_annotation, read_document, read_record};

fn simple(label: &str) -> Annotation {
    Annotation::SimpleType { label: label.to_string() }
}

fn value(text: &str) -> serde_json::Value {
    serde_json::from_str(text).unwrap()
}

#[test]
fn bare_label_reads_as_simple_type() {
    assert_eq!(read_annotation(&value(r#"{"type_name": "Int"}"#)), Some(simple("Int")));
    assert_eq!(read_annotation(&value(r#"{"type_name": "Decimal"}"#)), Some(simple("Decimal")));
}

#[test]
fn members_under_other_keys_are_ignored() {
    assert_eq!(
        read_annotation(&value(r#"{"type_name": "Int", "doc": "a number", "values": []}"#)),
        Some(simple("Int"))
    );
}

#[test]
fn first_slot_alone_reads_as_list_or_union() {
    assert_eq!(
        read_annotation(&value(r#"{"type_name": "List", "args": [{"type_name": "Int"}]}"#)),
        Some(Annotation::List { label: "List".to_string(), args: vec![simple("Int")] })
    );
    assert_eq!(
        read_annotation(&value(
            r#"{"type_name": "Union", "args": [{"type_name": "Int"}, {"type_name": "Str"}]}"#
        )),
        Some(Annotation::Union {
            label: "Union".to_string(),
            args: vec![simple("Int"), simple("Str")]
        })
    );
    assert_eq!(
        read_annotation(&value(r#"{"type_name": "Optional", "args": [{"type_name": "Int"}]}"#)),
        Some(Annotation::Union { label: "Optional".to_string(), args: vec![simple("Int")] })
    );
}

#[test]
fn both_slots_read_as_dict() {
    assert_eq!(
        read_annotation(&value(
            r#"{"type_name": "Dict", "args": [{"type_name": "Str"}], "values": [{"type_name": "Int"}]}"#
        )),
        Some(Annotation::Dict {
            label: "Dict".to_string(),
            args: vec![simple("Str")],
            values: vec![simple("Int")]
        })
    );
}

#[test]
fn nested_annotation_reads_in_order() {
    let text = r#"{"type_name": "Union", "args": [
        {"type_name": "List", "args": [{"type_name": "Dict",
            "args": [{"type_name": "Str"}], "values": [{"type_name": "Float"}]}]},
        {"type_name": "Bool"}]}"#;
    assert_eq!(
        read_annotation(&value(text)),
        Some(Annotation::Union {
            label: "Union".to_string(),
            args: vec![
                Annotation::List {
                    label: "List".to_string(),
                    args: vec![Annotation::Dict {
                        label: "Dict".to_string(),
                        args: vec![simple("Str")],
                        values: vec![simple("Float")]
                    }]
                },
                simple("Bool")
            ]
        })
    );
}

#[test]
fn what_is_no_annotation_reads_as_nothing() {
    assert_eq!(read_annotation(&value(r#""Int""#)), None);
    assert_eq!(read_annotation(&value(r#"null"#)), None);
    assert_eq!(read_annotation(&value(r#"[{"type_name": "Int"}]"#)), None);
    assert_eq!(read_annotation(&value(r#"{}"#)), None);
    assert_eq!(read_annotation(&value(r#"{"type_name": 3}"#)), None);
    assert_eq!(read_annotation(&value(r#"{"name": "Int"}"#)), None);
    assert_eq!(read_annotation(&value(r#"{"type_name": "List", "args": {}}"#)), None);
    assert_eq!(read_annotation(&value(r#"{"type_name": "List", "args": null}"#)), None);
    assert_eq!(read_annotation(&value(r#"{"type_name": "List", "args": ["Int"]}"#)), None);
    assert_eq!(
        read_annotation(&value(r#"{"type_name": "Dict", "args": [], "values": "x"}"#)),
        None
    );
    assert_eq!(
        read_annotation(&value(r#"{"type_name": "Dict", "args": [], "values": [7]}"#)),
        None
    );
}

#[test]
fn record_reads_with_and_without_return_type() {
    let with = value(
        r#"{"name": "add", "args": [["a", {"type_name": "Int"}], ["b", {"type_name": "Int"}]],
            "return_type": {"type_name": "Int"}}"#,
    );
    assert_eq!(
        read_record(&with),
        Some(FunctionAnnotation {
            name: "add".to_string(),
            args: vec![("a".to_string(), simple("Int")), ("b".to_string(), simple("Int"))],
            return_type: Some(simple("Int")),
        })
    );
    let without = value(r#"{"name": "ping", "args": []}"#);
    assert_eq!(
        read_record(&without),
        Some(FunctionAnnotation { name: "ping".to_string(), args: vec![], return_type: None })
    );
    let null = value(r#"{"name": "ping", "args": [], "return_type": null}"#);
    assert_eq!(
        read_record(&null),
        Some(FunctionAnnotation { name: "ping".to_string(), args: vec![], return_type: None })
    );
}

#[test]
fn what_is_no_record_reads_as_nothing() {
    assert_eq!(read_record(&value(r#"{"args": []}"#)), None);
    assert_eq!(read_record(&value(r#"{"name": "f"}"#)), None);
    assert_eq!(read_record(&value(r#"{"name": 1, "args": []}"#)), None);
    assert_eq!(read_record(&value(r#"{"name": "f", "args": {}}"#)), None);
    assert_eq!(read_record(&value(r#"{"name": "f", "args": [["a"]]}"#)), None);
    assert_eq!(read_record(&value(r#"{"name": "f", "args": [[1, {"type_name": "Int"}]]}"#)), None);
    assert_eq!(
        read_record(&value(r#"{"name": "f", "args": [["a", {"type_name": "Int"}, 0]]}"#)),
        None
    );
    assert_eq!(read_record(&value(r#"{"name": "f", "args": [{"a": {"type_name": "Int"}}]}"#)), None);
    assert_eq!(read_record(&value(r#"{"name": "f", "args": [], "return_type": "Int"}"#)), None);
    assert_eq!(read_record(&value(r#"["f", []]"#)), None);
}

#[test]
fn document_is_an_array_of_records() {
    assert_eq!(read_document(&value("[]")), Some(vec![]));
    assert_eq!(
        read_document(&value(r#"[{"name": "a", "args": []}, {"name": "b", "args": []}]"#)),
        Some(vec![
            FunctionAnnotation { name: "a".to_string(), args: vec![], return_type: None },
            FunctionAnnotation { name: "b".to_string(), args: vec![], return_type: None },
        ])
    );
    assert_eq!(read_document(&value(r#"{"name": "a", "args": []}"#)), None);
    assert_eq!(read_document(&value(r#"[{"name": "a", "args": []}, 3]"#)), None);
}

#[test]
fn load_annotations_reads_json_text() {
    let text = r#"[{"name": "add",
        "args": [["a", {"type_name": "Int"}], ["b", {"type_name": "Int"}]],
        "return_type": {"type_name": "Int"}}]"#;
    assert_eq!(
        load_annotations(text),
        Ok(vec![FunctionAnnotation {
            name: "add".to_string(),
            args: vec![("a".to_string(), simple("Int")), ("b".to_string(), simple("Int"))],
            return_type: Some(simple("Int")),
        }])
    );
}

#[test]
fn load_annotations_unescapes_json_strings() {
    let text = r#"[{"name": "café \"x\"", "args": [["a\nb", {"type_name": "Int"}]]}]"#;
    assert_eq!(
        load_annotations(text),
        Ok(vec![FunctionAnnotation {
            name: "caf\u{e9} \"x\"".to_string(),
            args: vec![("a\nb".to_string(), simple("Int"))],
            return_type: None,
        }])
    );
}

#[test]
fn load_annotations_reports_text_that_is_no_json() {
    assert_eq!(load_annotations(""), Err(PluginError::AdvertiseResultMalformed));
    assert_eq!(load_annotations("[{"), Err(PluginError::AdvertiseResultMalformed));
    assert_eq!(load_annotations("[] []"), Err(PluginError::AdvertiseResultMalformed));
    assert_eq!(load_annotations("not json"), Err(PluginError::AdvertiseResultMalformed));
}

#[test]
fn load_annotations_reports_json_that_is_no_advertisement() {
    assert_eq!(load_annotations("{}"), Err(PluginError::AdvertiseResultMalformed));
    assert_eq!(load_annotations("null"), Err(PluginError::AdvertiseResultMalformed));
    assert_eq!(load_annotations(r#"["add"]"#), Err(PluginError::AdvertiseResultMalformed));
    assert_eq!(
        load_annotations(r#"[{"name": "f", "args": [["a", {"type": "Int"}]]}]"#),
        Err(PluginError::AdvertiseResultMalformed)
    );
}

#[test]
fn load_annotations_takes_the_last_of_repeated_keys() {
    let text = r#"[{"name": "first", "name": "second", "args": []}]"#;
    assert_eq!(
        load_annotations(text),
        Ok(vec![FunctionAnnotation { name: "second".to_string(), args: vec![], return_type: None }])
    );
}
