use crate::annotations::{
    annotation_trees, raw_argument_views, record_views, Annotation, AnnotationTree,
    FunctionAnnotation, RecordView, LIST_LABEL,
};
use crate::errors::{ErrorView, PluginError};
use crate::text::spells;
use vstd::prelude::*;
use vstd::string::StringExecFns;

verus! {

/// Key under which an annotation carries its label.
pub const LABEL_KEY: &'static str = "type_name";

/// Key of an annotation's first slot, and of a record's argument list.
pub const ARGS_KEY: &'static str = "args";

/// Key of a dictionary annotation's value slot.
pub const VALUES_KEY: &'static str = "values";

/// Key under which a record carries the function's name.
pub const NAME_KEY: &'static str = "name";

/// Key under which a record carries the raw return type.
pub const RETURN_KEY: &'static str = "return_type";

/// The mathematical value of a JSON document. Numbers are not told apart:
/// the wire format holds none.
pub enum JsonTree {
    Null,
    Bool(bool),
    Number,
    Text(Seq<char>),
    Array(Seq<JsonTree>),
    Object(Map<Seq<char>, JsonTree>),
}

/// `serde_json::Value`, a parsed JSON document. Its contents are read only
/// through the functions specified below.
#[verifier::external_type_specification]
#[verifier::external_body]
pub struct ExJsonValue(serde_json::Value);

/// `serde_json::Error`, the reason a text is not a JSON document.
#[verifier::external_type_specification]
#[verifier::external_body]
pub struct ExJsonError(serde_json::Error);

/// The document that a `serde_json::Value` holds.
pub uninterp spec fn json_tree(value: serde_json::Value) -> JsonTree;

/// The document that `serde_json::from_str` reads from a text, or `None`
/// where it reports an error.
pub uninterp spec fn json_document(text: Seq<char>) -> Option<JsonTree>;

/// The documents that a list of values holds, in order.
pub open spec fn json_trees(values: Seq<serde_json::Value>) -> Seq<JsonTree> {
    values.map_values(|v: serde_json::Value| json_tree(v))
}

/// `serde_json::from_str` at type `serde_json::Value`: the value returned
/// holds the document named by `json_document`, and an error comes back
/// exactly where that name is `None`.
#[verifier::external_body]
fn parse_json(text: &str) -> (parsed: Result<serde_json::Value, serde_json::Error>)
    ensures
        match parsed {
            Ok(value) => json_document(text@) == Some(json_tree(value)),
            Err(_) => json_document(text@) is None,
        },
{
    serde_json::from_str::<serde_json::Value>(text)
}

/// `serde_json::Value::as_str`: the text of a string value, and `None` for
/// every other kind of value.
pub assume_specification[ serde_json::Value::as_str ](value: &serde_json::Value) -> (text: Option<
    &str,
>)
    ensures
        match text {
            Some(s) => json_tree(*value) == JsonTree::Text(s@),
            None => !(json_tree(*value) is Text),
        },
;

/// `serde_json::Value::as_array`: the items of an array value in order, and
/// `None` for every other kind of value.
pub assume_specification[ serde_json::Value::as_array ](value: &serde_json::Value) -> (items:
    Option<&Vec<serde_json::Value>>)
    ensures
        match items {
            Some(v) => json_tree(*value) is Array && json_tree(*value)->Array_0 == json_trees(v@),
            None => !(json_tree(*value) is Array),
        },
;

/// `serde_json::Value::is_null`: whether the value is JSON `null`.
pub assume_specification[ serde_json::Value::is_null ](value: &serde_json::Value) -> (null: bool)
    ensures
        null == (json_tree(*value) is Null),
;

/// The member of an object under `key`; `None` where the document is no
/// object or has no such member.
pub open spec fn json_field(tree: JsonTree, key: Seq<char>) -> Option<JsonTree> {
    match tree {
        JsonTree::Object(members) => if members.contains_key(key) {
            Some(members[key])
        } else {
            None
        },
        _ => None,
    }
}

/// `serde_json::Value::get` with a string index: the member of an object
/// under that key, and `None` where the value is no object or the object
/// has no such key. An object has finitely many keys.
#[verifier::external_body]
fn json_member<'a>(value: &'a serde_json::Value, key: &str) -> (member: Option<
    &'a serde_json::Value,
>)
    ensures
        match member {
            Some(inner) => json_field(json_tree(*value), key@) == Some(json_tree(*inner))
                && json_tree(*value)->Object_0.dom().finite(),
            None => json_field(json_tree(*value), key@) is None,
        },
{
    value.get(key)
}

/// The raw type expression that a document transmits.
///
/// It is an object with a text label. Without a first slot it is a bare
/// label. With a first slot and a value slot, both arrays of raw type
/// expressions, it has the shape of a dictionary. With a first slot alone
/// it has the shape of a list where it is labelled as one, and that of a
/// union otherwise. Members under other keys are ignored.
pub open spec fn decode_annotation(tree: JsonTree) -> Option<AnnotationTree>
    decreases tree, 0int,
{
    match tree {
        JsonTree::Object(members) => {
            if members.contains_key(LABEL_KEY@) && members[LABEL_KEY@] is Text {
                let label = members[LABEL_KEY@]->Text_0;
                if !members.contains_key(ARGS_KEY@) {
                    Some(AnnotationTree::SimpleType { label })
                } else if !(members[ARGS_KEY@] is Array) {
                    None
                } else {
                    let args = decode_annotations(members[ARGS_KEY@]->Array_0);
                    if args is None {
                        None
                    } else if !members.contains_key(VALUES_KEY@) {
                        if label == LIST_LABEL@ {
                            Some(AnnotationTree::List { label, args: args->Some_0 })
                        } else {
                            Some(AnnotationTree::Union { label, args: args->Some_0 })
                        }
                    } else if !(members[VALUES_KEY@] is Array) {
                        None
                    } else {
                        let values = decode_annotations(members[VALUES_KEY@]->Array_0);
                        if values is None {
                            None
                        } else {
                            Some(
                                AnnotationTree::Dict {
                                    label,
                                    args: args->Some_0,
                                    values: values->Some_0,
                                },
                            )
                        }
                    }
                }
            } else {
                None
            }
        },
        _ => None,
    }
}

/// The raw type expressions that a list of documents transmits, in order;
/// `None` where one of the documents is no raw type expression.
pub open spec fn decode_annotations(trees: Seq<JsonTree>) -> Option<Seq<AnnotationTree>>
    decreases trees, 1int,
{
    if trees.len() == 0 {
        Some(Seq::empty())
    } else {
        match (decode_annotations(trees.drop_last()), decode_annotation(trees.last())) {
            (Some(front), Some(last)) => Some(front.push(last)),
            _ => None,
        }
    }
}

/// Where a prefix of the documents does not decode, the whole list does
/// not.
pub proof fn lemma_decode_annotations_prefix(trees: Seq<JsonTree>, short: int)
    requires
        0 <= short <= trees.len(),
        decode_annotations(trees.take(short)) is None,
    ensures
        decode_annotations(trees) is None,
    decreases trees.len() - short,
{
    if short < trees.len() {
        assert(trees.take(short + 1).drop_last() =~= trees.take(short));
        lemma_decode_annotations_prefix(trees, short + 1);
    } else {
        assert(trees.take(short) =~= trees);
    }
}

/// The text of a string value.
fn read_text(value: &serde_json::Value) -> (text: Option<String>)
    ensures
        match text {
            Some(s) => json_tree(*value) == JsonTree::Text(s@),
            None => !(json_tree(*value) is Text),
        },
{
    match value.as_str() {
        Some(s) => Some(String::from_str(s)),
        None => None,
    }
}

/// Reads a raw type expression out of a parsed document.
pub fn read_annotation(value: &serde_json::Value) -> (decoded: Option<Annotation>)
    ensures
        match decoded {
            Some(annotation) => decode_annotation(json_tree(*value)) == Some(annotation@),
            None => decode_annotation(json_tree(*value)) is None,
        },
    decreases json_tree(*value), 0int,
{
    let ghost tree = json_tree(*value);
    let label = match json_member(value, LABEL_KEY) {
        None => {
            return None;
        },
        Some(raw) => match read_text(raw) {
            None => {
                return None;
            },
            Some(text) => text,
        },
    };
    let raw_args = match json_member(value, ARGS_KEY) {
        None => {
            return Some(Annotation::SimpleType { label });
        },
        Some(raw) => raw,
    };
    let first = match raw_args.as_array() {
        None => {
            return None;
        },
        Some(items) => items,
    };
    proof {
        let members = tree->Object_0;
        assert(decreases_to!(tree => members));
        assert(decreases_to!(members => members[ARGS_KEY@]));
        assert(decreases_to!(members[ARGS_KEY@] => members[ARGS_KEY@]->Array_0));
    }
    let args = match read_annotations(first) {
        None => {
            return None;
        },
        Some(args) => args,
    };
    match json_member(value, VALUES_KEY) {
        None => {
            if spells(&label, LIST_LABEL) {
                let decoded = Annotation::List { label, args };
                proof {
                    decoded.lemma_view_slots();
                }
                Some(decoded)
            } else {
                let decoded = Annotation::Union { label, args };
                proof {
                    decoded.lemma_view_slots();
                }
                Some(decoded)
            }
        },
        Some(raw_values) => match raw_values.as_array() {
            None => None,
            Some(second) => {
                proof {
                    let members = tree->Object_0;
                    assert(decreases_to!(members => members[VALUES_KEY@]));
                    assert(decreases_to!(members[VALUES_KEY@] => members[VALUES_KEY@]->Array_0));
                }
                match read_annotations(second) {
                    None => None,
                    Some(values) => {
                        let decoded = Annotation::Dict { label, args, values };
                        proof {
                            decoded.lemma_view_slots();
                        }
                        Some(decoded)
                    },
                }
            },
        },
    }
}

/// Reads a list of raw type expressions, all of them or none.
fn read_annotations(items: &Vec<serde_json::Value>) -> (decoded: Option<Vec<Annotation>>)
    ensures
        match decoded {
            Some(annotations) => decode_annotations(json_trees(items@)) == Some(
                annotation_trees(annotations@),
            ),
            None => decode_annotations(json_trees(items@)) is None,
        },
    decreases json_trees(items@), 1int,
{
    let ghost trees = json_trees(items@);
    let mut annotations: Vec<Annotation> = Vec::new();
    let mut i: usize = 0;
    assert(trees.take(0) =~= Seq::empty());
    assert(annotation_trees(annotations@) =~= Seq::empty());
    while i < items.len()
        invariant
            i <= items.len(),
            trees == json_trees(items@),
            decode_annotations(trees.take(i as int)) == Some(annotation_trees(annotations@)),
        decreases items.len() - i,
    {
        let ghost front = annotation_trees(annotations@);
        proof {
            assert(trees.take(i + 1).drop_last() =~= trees.take(i as int));
            assert(trees.take(i + 1).last() == json_tree(items@[i as int]));
        }
        match read_annotation(&items[i]) {
            None => {
                proof {
                    lemma_decode_annotations_prefix(trees, i + 1);
                }
                return None;
            },
            Some(annotation) => {
                annotations.push(annotation);
                assert(annotation_trees(annotations@) =~= front.push(annotation@));
            },
        }
        i = i + 1;
    }
    assert(trees.take(i as int) =~= trees);
    Some(annotations)
}

/// The argument that a document transmits: an array of the argument's
/// name and its raw type expression.
pub open spec fn decode_argument(tree: JsonTree) -> Option<(Seq<char>, AnnotationTree)> {
    match tree {
        JsonTree::Array(pair) => if pair.len() == 2 && pair[0] is Text {
            match decode_annotation(pair[1]) {
                Some(annotation) => Some((pair[0]->Text_0, annotation)),
                None => None,
            }
        } else {
            None
        },
        _ => None,
    }
}

/// The arguments that a list of documents transmits, in order; `None`
/// where one of the documents is no argument.
pub open spec fn decode_arguments(trees: Seq<JsonTree>) -> Option<
    Seq<(Seq<char>, AnnotationTree)>,
>
    decreases trees.len(),
{
    if trees.len() == 0 {
        Some(Seq::empty())
    } else {
        match (decode_arguments(trees.drop_last()), decode_argument(trees.last())) {
            (Some(front), Some(last)) => Some(front.push(last)),
            _ => None,
        }
    }
}

/// The record that a document transmits: an object with the function's
/// name as text, its arguments as an array, and the raw return type where
/// one is declared. A return type that is absent or `null` is undeclared.
pub open spec fn decode_record(tree: JsonTree) -> Option<RecordView> {
    match (json_field(tree, NAME_KEY@), json_field(tree, ARGS_KEY@)) {
        (Some(JsonTree::Text(name)), Some(JsonTree::Array(pairs))) => match decode_arguments(
            pairs,
        ) {
            Some(args) => match json_field(tree, RETURN_KEY@) {
                None => Some(RecordView { name, args, return_type: None }),
                Some(JsonTree::Null) => Some(RecordView { name, args, return_type: None }),
                Some(raw) => match decode_annotation(raw) {
                    Some(annotation) => Some(
                        RecordView { name, args, return_type: Some(annotation) },
                    ),
                    None => None,
                },
            },
            None => None,
        },
        _ => None,
    }
}

/// The records that a list of documents transmits, in order; `None` where
/// one of the documents is no record.
pub open spec fn decode_records(trees: Seq<JsonTree>) -> Option<Seq<RecordView>>
    decreases trees.len(),
{
    if trees.len() == 0 {
        Some(Seq::empty())
    } else {
        match (decode_records(trees.drop_last()), decode_record(trees.last())) {
            (Some(front), Some(last)) => Some(front.push(last)),
            _ => None,
        }
    }
}

/// The records of an advertisement: the document is an array of records.
pub open spec fn decode_document(tree: JsonTree) -> Option<Seq<RecordView>> {
    match tree {
        JsonTree::Array(records) => decode_records(records),
        _ => None,
    }
}

/// The records that a text transmits: the text is a JSON document, and the
/// document an advertisement.
pub open spec fn decode_text(text: Seq<char>) -> Option<Seq<RecordView>> {
    match json_document(text) {
        Some(tree) => decode_document(tree),
        None => None,
    }
}

/// Where a prefix of the documents does not decode, the whole list does
/// not.
pub proof fn lemma_decode_arguments_prefix(trees: Seq<JsonTree>, short: int)
    requires
        0 <= short <= trees.len(),
        decode_arguments(trees.take(short)) is None,
    ensures
        decode_arguments(trees) is None,
    decreases trees.len() - short,
{
    if short < trees.len() {
        assert(trees.take(short + 1).drop_last() =~= trees.take(short));
        lemma_decode_arguments_prefix(trees, short + 1);
    } else {
        assert(trees.take(short) =~= trees);
    }
}

/// Where a prefix of the documents does not decode, the whole list does
/// not.
pub proof fn lemma_decode_records_prefix(trees: Seq<JsonTree>, short: int)
    requires
        0 <= short <= trees.len(),
        decode_records(trees.take(short)) is None,
    ensures
        decode_records(trees) is None,
    decreases trees.len() - short,
{
    if short < trees.len() {
        assert(trees.take(short + 1).drop_last() =~= trees.take(short));
        lemma_decode_records_prefix(trees, short + 1);
    } else {
        assert(trees.take(short) =~= trees);
    }
}

/// Reads one argument out of a parsed document.
fn read_argument(value: &serde_json::Value) -> (decoded: Option<(String, Annotation)>)
    ensures
        match decoded {
            Some(argument) => decode_argument(json_tree(*value)) == Some(
                (argument.0@, argument.1@),
            ),
            None => decode_argument(json_tree(*value)) is None,
        },
{
    let pair = match value.as_array() {
        None => {
            return None;
        },
        Some(items) => items,
    };
    if pair.len() != 2 {
        return None;
    }
    assert(json_trees(pair@)[0] == json_tree(pair@[0]));
    assert(json_trees(pair@)[1] == json_tree(pair@[1]));
    let name = match read_text(&pair[0]) {
        None => {
            return None;
        },
        Some(text) => text,
    };
    match read_annotation(&pair[1]) {
        None => None,
        Some(annotation) => Some((name, annotation)),
    }
}

/// Reads a list of arguments, all of them or none.
fn read_arguments(items: &Vec<serde_json::Value>) -> (decoded: Option<Vec<(String, Annotation)>>)
    ensures
        match decoded {
            Some(arguments) => decode_arguments(json_trees(items@)) == Some(
                raw_argument_views(arguments@),
            ),
            None => decode_arguments(json_trees(items@)) is None,
        },
{
    let ghost trees = json_trees(items@);
    let mut arguments: Vec<(String, Annotation)> = Vec::new();
    let mut i: usize = 0;
    assert(trees.take(0) =~= Seq::empty());
    assert(raw_argument_views(arguments@) =~= Seq::empty());
    while i < items.len()
        invariant
            i <= items.len(),
            trees == json_trees(items@),
            decode_arguments(trees.take(i as int)) == Some(raw_argument_views(arguments@)),
        decreases items.len() - i,
    {
        let ghost front = raw_argument_views(arguments@);
        proof {
            assert(trees.take(i + 1).drop_last() =~= trees.take(i as int));
            assert(trees.take(i + 1).last() == json_tree(items@[i as int]));
        }
        match read_argument(&items[i]) {
            None => {
                proof {
                    lemma_decode_arguments_prefix(trees, i + 1);
                }
                return None;
            },
            Some(argument) => {
                let ghost view = (argument.0@, argument.1@);
                arguments.push(argument);
                assert(raw_argument_views(arguments@) =~= front.push(view));
            },
        }
        i = i + 1;
    }
    assert(trees.take(i as int) =~= trees);
    Some(arguments)
}

/// Reads one record out of a parsed document.
pub fn read_record(value: &serde_json::Value) -> (decoded: Option<FunctionAnnotation>)
    ensures
        match decoded {
            Some(record) => decode_record(json_tree(*value)) == Some(record@),
            None => decode_record(json_tree(*value)) is None,
        },
{
    let name = match json_member(value, NAME_KEY) {
        None => {
            return None;
        },
        Some(raw) => match read_text(raw) {
            None => {
                return None;
            },
            Some(text) => text,
        },
    };
    let pairs = match json_member(value, ARGS_KEY) {
        None => {
            return None;
        },
        Some(raw) => match raw.as_array() {
            None => {
                return None;
            },
            Some(items) => items,
        },
    };
    let args = match read_arguments(pairs) {
        None => {
            return None;
        },
        Some(args) => args,
    };
    match json_member(value, RETURN_KEY) {
        None => Some(FunctionAnnotation { name, args, return_type: None }),
        Some(raw) => {
            if raw.is_null() {
                Some(FunctionAnnotation { name, args, return_type: None })
            } else {
                match read_annotation(raw) {
                    None => None,
                    Some(annotation) => Some(
                        FunctionAnnotation { name, args, return_type: Some(annotation) },
                    ),
                }
            }
        },
    }
}

/// Reads an advertisement out of a parsed document: every record of it, or
/// nothing where the document is not in the wire format.
pub fn read_document(value: &serde_json::Value) -> (decoded: Option<Vec<FunctionAnnotation>>)
    ensures
        match decoded {
            Some(records) => decode_document(json_tree(*value)) == Some(record_views(records@)),
            None => decode_document(json_tree(*value)) is None,
        },
{
    let items = match value.as_array() {
        None => {
            return None;
        },
        Some(items) => items,
    };
    let ghost trees = json_trees(items@);
    let mut records: Vec<FunctionAnnotation> = Vec::new();
    let mut i: usize = 0;
    assert(trees.take(0) =~= Seq::empty());
    assert(record_views(records@) =~= Seq::empty());
    while i < items.len()
        invariant
            i <= items.len(),
            trees == json_trees(items@),
            json_tree(*value) is Array,
            json_tree(*value)->Array_0 == trees,
            decode_records(trees.take(i as int)) == Some(record_views(records@)),
        decreases items.len() - i,
    {
        let ghost front = record_views(records@);
        proof {
            assert(trees.take(i + 1).drop_last() =~= trees.take(i as int));
            assert(trees.take(i + 1).last() == json_tree(items@[i as int]));
        }
        match read_record(&items[i]) {
            None => {
                proof {
                    lemma_decode_records_prefix(trees, i + 1);
                }
                return None;
            },
            Some(record) => {
                let ghost view = record@;
                records.push(record);
                assert(record_views(records@) =~= front.push(view));
            },
        }
        i = i + 1;
    }
    assert(trees.take(i as int) =~= trees);
    Some(records)
}

/// Reads the advertisement that a plugin returned as JSON text.
///
/// The text is first parsed as JSON, then read as a list of records. A text
/// that fails either step is reported as malformed.
pub fn load_annotations(text: &str) -> (loaded: Result<Vec<FunctionAnnotation>, PluginError>)
    ensures
        match decode_text(text@) {
            Some(records) => loaded matches Ok(found) && record_views(found@) == records,
            None => loaded matches Err(error) && error@ == ErrorView::AdvertiseResultMalformed,
        },
{
    match parse_json(text) {
        Err(_) => Err(PluginError::AdvertiseResultMalformed),
        Ok(value) => match read_document(&value) {
            Some(records) => Ok(records),
            None => Err(PluginError::AdvertiseResultMalformed),
        },
    }
}

} // verus!
