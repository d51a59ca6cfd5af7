use plugin_sdk::annotations::{Annotation, FunctionAnnotation};
use plugin_sdk::errors::PluginError;
use plugin_sdk::plugin::collect_signatures;
use plugin_sdk::signature::FuncInfo;
use plugin_sdk::types::{FunctionArgumentType, PrimitiveType};

fn simple(label: &str) -> Annotation {
    Annotation::SimpleType { label: label.to_string() }
}

fn int_type() -> FunctionArgumentType {
    FunctionArgumentType::Primitive(PrimitiveType::Int)
}

fn record(name: &str, args: &[(&str, &str)], return_type: Option<&str>) -> FunctionAnnotation {
    FunctionAnnotation {
        name: name.to_string(),
        args: args.iter().map(|(n, t)| (n.to_string(), simple(t))).collect(),
        return_type: return_type.map(simple),
    }
}

#[test]
fn signature_keeps_argument_order() {
    let made = FuncInfo::new(
        "f".to_string(),
        vec![("b".to_string(), int_type()), ("a".to_string(), int_type())],
        int_type(),
    )
    .unwrap();
    assert_eq!(made.name(), "f");
    assert_eq!(made.arguments(), &vec![("b".to_string(), int_type()), ("a".to_string(), int_type())]);
    assert_eq!(made.return_type(), &int_type());
}

#[test]
fn signature_without_arguments_is_made() {
    let made = FuncInfo::new("f".to_string(), vec![], int_type()).unwrap();
    assert!(made.arguments().is_empty());
}

#[test]
fn signature_refuses_the_first_repeated_argument() {
    let made = FuncInfo::new(
        "f".to_string(),
        vec![
            ("a".to_string(), int_type()),
            ("b".to_string(), int_type()),
            ("b".to_string(), int_type()),
            ("a".to_string(), int_type()),
        ],
        int_type(),
    );
    assert_eq!(
        made,
        Err(PluginError::DuplicateArgument { function: "f".to_string(), argument: "b".to_string() })
    );
}

#[test]
fn record_parses_to_signature() {
    let parsed = record("add", &[("a", "Int"), ("b", "Int")], Some("Int")).parse().unwrap();
    assert_eq!(parsed.name(), "add");
    assert_eq!(parsed.arguments(), &vec![("a".to_string(), int_type()), ("b".to_string(), int_type())]);
    assert_eq!(parsed.return_type(), &int_type());
}

#[test]
fn record_without_return_type_gets_an_unlabelled_unknown() {
    let parsed = record("f", &[], None).parse().unwrap();
    assert_eq!(parsed.return_type(), &FunctionArgumentType::Unknown(String::new()));
}

#[test]
fn record_with_an_unknown_argument_still_parses() {
    let parsed = record("f", &[("a", "Decimal"), ("b", "Int")], Some("Bool")).parse().unwrap();
    assert_eq!(
        parsed.arguments(),
        &vec![
            ("a".to_string(), FunctionArgumentType::Unknown("Decimal".to_string())),
            ("b".to_string(), int_type())
        ]
    );
}

#[test]
fn record_with_a_repeated_argument_is_refused() {
    let parsed = record("f", &[("a", "Int"), ("a", "Str")], Some("Int")).parse();
    assert_eq!(
        parsed,
        Err(PluginError::DuplicateArgument { function: "f".to_string(), argument: "a".to_string() })
    );
}

#[test]
fn a_refused_record_does_not_take_its_sibling_along() {
    let records = vec![
        record("broken", &[("x", "Int"), ("x", "Int")], Some("Int")),
        record("fine", &[("x", "Int"), ("y", "Int")], Some("Int")),
    ];
    let (signatures, rejected) = collect_signatures(&records);
    assert_eq!(signatures.len(), 1);
    assert_eq!(signatures[0].name(), "fine");
    assert_eq!(
        rejected,
        vec![PluginError::DuplicateArgument {
            function: "broken".to_string(),
            argument: "x".to_string()
        }]
    );
}

#[test]
fn a_later_record_replaces_an_earlier_one_of_the_same_name() {
    let records = vec![
        record("f", &[("x", "Int")], Some("Int")),
        record("g", &[], Some("Bool")),
        record("f", &[("y", "Str")], Some("Str")),
    ];
    let (signatures, rejected) = collect_signatures(&records);
    assert!(rejected.is_empty());
    assert_eq!(signatures.len(), 2);
    assert_eq!(signatures[0].name(), "f");
    assert_eq!(
        signatures[0].arguments(),
        &vec![("y".to_string(), FunctionArgumentType::Primitive(PrimitiveType::Str))]
    );
    assert_eq!(signatures[1].name(), "g");
}

#[test]
fn no_records_give_no_signatures() {
    let (signatures, rejected) = collect_signatures(&vec![]);
    assert!(signatures.is_empty());
    assert!(rejected.is_empty());
}

#[test]
fn signature_round_trips_through_its_record() {
    let made = FuncInfo::new(
        "scale".to_string(),
        vec![
            (
                "points".to_string(),
                FunctionArgumentType::List(vec![FunctionArgumentType::Dict(
                    vec![FunctionArgumentType::Primitive(PrimitiveType::Str)],
                    vec![FunctionArgumentType::Primitive(PrimitiveType::Float)],
                )]),
            ),
            ("factor".to_string(), FunctionArgumentType::Union(vec![
                int_type(),
                FunctionArgumentType::Primitive(PrimitiveType::Float),
            ])),
        ],
        FunctionArgumentType::Unknown("Matrix".to_string()),
    )
    .unwrap();
    let written = made.to_annotation();
    assert_eq!(written.name, "scale");
    assert_eq!(written.args.len(), 2);
    assert_eq!(written.args[1].0, "factor");
    assert_eq!(
        written.args[1].1,
        Annotation::Union { label: "Union".to_string(), args: vec![simple("Int"), simple("Float")] }
    );
    assert_eq!(written.return_type, Some(simple("Matrix")));
    assert_eq!(written.parse(), Ok(made.clone()));
    assert_eq!(written.clone(), written);
}

#[test]
fn signature_without_declared_return_round_trips_as_an_unlabelled_unknown() {
    let parsed = record("f", &[("a", "Int")], None).parse().unwrap();
    let written = parsed.to_annotation();
    assert_eq!(written.return_type, Some(simple("")));
    assert_eq!(written.parse(), Ok(parsed));
}
