use plugin_sdk::annotations::Annotation;
use plugin_sdk::types::{FunctionArgumentType, PrimitiveType};

fn simple(label: &str) -> Annotation {
    Annotation::SimpleType { label: label.to_string() }
}

fn int_type() -> FunctionArgumentType {
    FunctionArgumentType::Primitive(PrimitiveType::Int)
}

fn str_type() -> FunctionArgumentType {
    FunctionArgumentType::Primitive(PrimitiveType::Str)
}

#[test]
fn primitive_labels_parse_to_primitives() {
    assert_eq!(simple("Int").parse(), FunctionArgumentType::Primitive(PrimitiveType::Int));
    assert_eq!(simple("Float").parse(), FunctionArgumentType::Primitive(PrimitiveType::Float));
    assert_eq!(simple("Str").parse(), FunctionArgumentType::Primitive(PrimitiveType::Str));
    assert_eq!(simple("Bool").parse(), FunctionArgumentType::Primitive(PrimitiveType::Bool));
}

#[test]
fn primitive_labels_are_case_sensitive() {
    assert_eq!(simple("int").parse(), FunctionArgumentType::Unknown("int".to_string()));
    assert_eq!(simple("INT").parse(), FunctionArgumentType::Unknown("INT".to_string()));
    assert_eq!(simple("Int ").parse(), FunctionArgumentType::Unknown("Int ".to_string()));
    assert_eq!(simple("").parse(), FunctionArgumentType::Unknown(String::new()));
}

#[test]
fn labels_map_both_ways() {
    let kinds = [PrimitiveType::Int, PrimitiveType::Float, PrimitiveType::Str, PrimitiveType::Bool];
    for kind in kinds {
        assert_eq!(PrimitiveType::from_label(&kind.label_text()), Some(kind));
    }
    assert_eq!(PrimitiveType::Int.label_text(), "Int");
    assert_eq!(PrimitiveType::Float.label_text(), "Float");
    assert_eq!(PrimitiveType::Str.label_text(), "Str");
    assert_eq!(PrimitiveType::Bool.label_text(), "Bool");
    assert_eq!(PrimitiveType::from_label(&"Bytes".to_string()), None);
}

#[test]
fn union_keeps_declared_order() {
    let raw = Annotation::Union {
        label: "Union".to_string(),
        args: vec![simple("Int"), simple("Str")],
    };
    assert_eq!(raw.parse(), FunctionArgumentType::Union(vec![int_type(), str_type()]));
    let swapped = Annotation::Union {
        label: "Union".to_string(),
        args: vec![simple("Str"), simple("Int")],
    };
    assert_eq!(swapped.parse(), FunctionArgumentType::Union(vec![str_type(), int_type()]));
}

#[test]
fn empty_union_parses_to_empty_union() {
    let raw = Annotation::Union { label: "Union".to_string(), args: vec![] };
    assert_eq!(raw.parse(), FunctionArgumentType::Union(vec![]));
}

#[test]
fn list_with_one_slot_parses_to_list() {
    let raw = Annotation::List { label: "List".to_string(), args: vec![simple("Bool")] };
    assert_eq!(
        raw.parse(),
        FunctionArgumentType::List(vec![FunctionArgumentType::Primitive(PrimitiveType::Bool)])
    );
}

#[test]
fn list_with_other_slot_counts_is_unknown() {
    let none = Annotation::List { label: "List".to_string(), args: vec![] };
    assert_eq!(none.parse(), FunctionArgumentType::Unknown("List".to_string()));
    let two = Annotation::List { label: "List".to_string(), args: vec![simple("Int"), simple("Str")] };
    assert_eq!(two.parse(), FunctionArgumentType::Unknown("List".to_string()));
}

#[test]
fn dict_with_key_and_value_parses_to_dict() {
    let raw = Annotation::Dict {
        label: "Dict".to_string(),
        args: vec![simple("Str")],
        values: vec![simple("Float")],
    };
    assert_eq!(
        raw.parse(),
        FunctionArgumentType::Dict(
            vec![str_type()],
            vec![FunctionArgumentType::Primitive(PrimitiveType::Float)]
        )
    );
}

#[test]
fn dict_with_other_slot_counts_is_unknown() {
    let raw = Annotation::Dict {
        label: "Dict".to_string(),
        args: vec![simple("Str"), simple("Int")],
        values: vec![simple("Float")],
    };
    assert_eq!(raw.parse(), FunctionArgumentType::Unknown("Dict".to_string()));
    let raw = Annotation::Dict { label: "Dict".to_string(), args: vec![simple("Str")], values: vec![] };
    assert_eq!(raw.parse(), FunctionArgumentType::Unknown("Dict".to_string()));
}

#[test]
fn container_with_foreign_label_is_unknown() {
    let raw = Annotation::Union { label: "Optional".to_string(), args: vec![simple("Int")] };
    assert_eq!(raw.parse(), FunctionArgumentType::Unknown("Optional".to_string()));
    let raw = Annotation::List { label: "Set".to_string(), args: vec![simple("Int")] };
    assert_eq!(raw.parse(), FunctionArgumentType::Unknown("Set".to_string()));
    let raw = Annotation::Dict {
        label: "Mapping".to_string(),
        args: vec![simple("Int")],
        values: vec![simple("Int")],
    };
    assert_eq!(raw.parse(), FunctionArgumentType::Unknown("Mapping".to_string()));
}

#[test]
fn unknown_inside_a_container_does_not_spoil_its_siblings() {
    let raw = Annotation::Union {
        label: "Union".to_string(),
        args: vec![simple("Int"), simple("Decimal"), simple("Str")],
    };
    assert_eq!(
        raw.parse(),
        FunctionArgumentType::Union(vec![
            int_type(),
            FunctionArgumentType::Unknown("Decimal".to_string()),
            str_type()
        ])
    );
}

#[test]
fn to_annotation_writes_the_fixed_labels() {
    assert_eq!(int_type().to_annotation(), simple("Int"));
    assert_eq!(FunctionArgumentType::Unknown("Decimal".to_string()).to_annotation(), simple("Decimal"));
    assert_eq!(
        FunctionArgumentType::List(vec![int_type()]).to_annotation(),
        Annotation::List { label: "List".to_string(), args: vec![simple("Int")] }
    );
    assert_eq!(
        FunctionArgumentType::Union(vec![int_type(), str_type()]).to_annotation(),
        Annotation::Union { label: "Union".to_string(), args: vec![simple("Int"), simple("Str")] }
    );
    assert_eq!(
        FunctionArgumentType::Dict(vec![str_type()], vec![int_type()]).to_annotation(),
        Annotation::Dict {
            label: "Dict".to_string(),
            args: vec![simple("Str")],
            values: vec![simple("Int")]
        }
    );
}

fn nested(depth: u32) -> FunctionArgumentType {
    if depth == 0 {
        return FunctionArgumentType::Union(vec![
            int_type(),
            str_type(),
            FunctionArgumentType::Primitive(PrimitiveType::Float),
            FunctionArgumentType::Primitive(PrimitiveType::Bool),
            FunctionArgumentType::Unknown("Decimal".to_string()),
        ]);
    }
    match depth % 3 {
        0 => FunctionArgumentType::List(vec![nested(depth - 1)]),
        1 => FunctionArgumentType::Dict(vec![nested(depth - 1)], vec![nested(depth - 1)]),
        _ => FunctionArgumentType::Union(vec![nested(depth - 1), int_type(), nested(depth - 1)]),
    }
}

#[test]
fn round_trip_through_the_wire_form_up_to_depth_five() {
    for depth in 0..=5 {
        let tree = nested(depth);
        assert_eq!(tree.to_annotation().parse(), tree);
    }
}

#[test]
fn round_trip_is_lost_where_a_list_has_two_slots() {
    let tree = FunctionArgumentType::List(vec![int_type(), str_type()]);
    assert_eq!(tree.to_annotation().parse(), FunctionArgumentType::Unknown("List".to_string()));
}

#[test]
fn round_trip_is_lost_where_an_unknown_label_is_a_primitive_label() {
    let tree = FunctionArgumentType::Unknown("Int".to_string());
    assert_eq!(tree.to_annotation().parse(), int_type());
}

#[test]
fn walk_is_pre_order_with_keys_before_values() {
    let key = str_type();
    let value = FunctionArgumentType::List(vec![int_type()]);
    let tree = FunctionArgumentType::Union(vec![
        FunctionArgumentType::Dict(vec![key], vec![value]),
        FunctionArgumentType::Unknown("Decimal".to_string()),
    ]);
    let nodes = tree.walk();
    assert_eq!(nodes.len(), 6);
    assert_eq!(nodes[0], &tree);
    assert_eq!(
        nodes[1],
        &FunctionArgumentType::Dict(vec![str_type()], vec![FunctionArgumentType::List(vec![int_type()])])
    );
    assert_eq!(nodes[2], &str_type());
    assert_eq!(nodes[3], &FunctionArgumentType::List(vec![int_type()]));
    assert_eq!(nodes[4], &int_type());
    assert_eq!(nodes[5], &FunctionArgumentType::Unknown("Decimal".to_string()));
}

#[test]
fn walk_of_a_leaf_is_the_leaf() {
    let leaf = int_type();
    let nodes = leaf.walk();
    assert_eq!(nodes, vec![&leaf]);
}

#[test]
fn fully_known_tells_whether_an_unknown_is_left() {
    assert!(int_type().is_fully_known());
    assert!(FunctionArgumentType::Union(vec![]).is_fully_known());
    assert!(FunctionArgumentType::Dict(vec![str_type()], vec![FunctionArgumentType::List(vec![int_type()])])
        .is_fully_known());
    assert!(!FunctionArgumentType::Unknown("x".to_string()).is_fully_known());
    assert!(!FunctionArgumentType::Dict(
        vec![str_type()],
        vec![FunctionArgumentType::List(vec![FunctionArgumentType::Unknown("x".to_string())])]
    )
    .is_fully_known());
}

#[test]
fn same_as_is_structural_equality() {
    for depth in 0..=4 {
        assert!(nested(depth).same_as(&nested(depth)));
        assert!(!nested(depth).same_as(&nested(depth + 1)));
    }
    let left = FunctionArgumentType::Union(vec![int_type(), str_type()]);
    let right = FunctionArgumentType::Union(vec![str_type(), int_type()]);
    assert!(!left.same_as(&right));
    assert!(!FunctionArgumentType::List(vec![int_type()])
        .same_as(&FunctionArgumentType::Union(vec![int_type()])));
    assert!(!FunctionArgumentType::Unknown("a".to_string())
        .same_as(&FunctionArgumentType::Unknown("b".to_string())));
    assert!(!FunctionArgumentType::Dict(vec![int_type()], vec![str_type()])
        .same_as(&FunctionArgumentType::Dict(vec![int_type()], vec![int_type()])));
}

#[test]
fn clone_is_the_same_tree() {
    for depth in 0..=4 {
        let tree = nested(depth);
        assert_eq!(tree.clone(), tree);
        assert_eq!(tree.to_annotation().clone(), tree.to_annotation());
    }
}
