use crate::errors::{ErrorView, PluginError};
use crate::names::{
    distinct, first_repeat, lemma_distinct_has_no_repeat, lemma_first_repeat, names_of,
};
use crate::signature::{argument_names, argument_views, FuncInfo, FunctionView};
use crate::text::spells;
use crate::types::{type_trees, FunctionArgumentType, PrimitiveType, TypeTree};
use vstd::prelude::*;
use vstd::string::StringExecFns;

verus! {

/// Label of a container that lists alternatives.
pub const UNION_LABEL: &'static str = "Union";

/// Label of a container with one element slot.
pub const LIST_LABEL: &'static str = "List";

/// Label of a container with a key slot and a value slot.
pub const DICT_LABEL: &'static str = "Dict";

/// A raw type expression as a plugin transmits it. The shape is told by
/// which slots are present; the label says what the shape is meant to be.
#[derive(Debug, PartialEq, Eq)]
pub enum Annotation {
    SimpleType { label: String },
    Union { label: String, args: Vec<Annotation> },
    List { label: String, args: Vec<Annotation> },
    Dict { label: String, args: Vec<Annotation>, values: Vec<Annotation> },
}

/// The mathematical value of an [`Annotation`].
pub enum AnnotationTree {
    SimpleType { label: Seq<char> },
    Union { label: Seq<char>, args: Seq<AnnotationTree> },
    List { label: Seq<char>, args: Seq<AnnotationTree> },
    Dict { label: Seq<char>, args: Seq<AnnotationTree>, values: Seq<AnnotationTree> },
}

/// The tree that an annotation stands for.
pub open spec fn annotation_tree(annotation: Annotation) -> AnnotationTree
    decreases annotation,
{
    match annotation {
        Annotation::SimpleType { label } => AnnotationTree::SimpleType { label: label@ },
        Annotation::Union { label, args } => AnnotationTree::Union {
            label: label@,
            args: Seq::new(
                args@.len(),
                |i: int|
                    if 0 <= i < args@.len() {
                        annotation_tree(args@[i])
                    } else {
                        arbitrary()
                    },
            ),
        },
        Annotation::List { label, args } => AnnotationTree::List {
            label: label@,
            args: Seq::new(
                args@.len(),
                |i: int|
                    if 0 <= i < args@.len() {
                        annotation_tree(args@[i])
                    } else {
                        arbitrary()
                    },
            ),
        },
        Annotation::Dict { label, args, values } => AnnotationTree::Dict {
            label: label@,
            args: Seq::new(
                args@.len(),
                |i: int|
                    if 0 <= i < args@.len() {
                        annotation_tree(args@[i])
                    } else {
                        arbitrary()
                    },
            ),
            values: Seq::new(
                values@.len(),
                |i: int|
                    if 0 <= i < values@.len() {
                        annotation_tree(values@[i])
                    } else {
                        arbitrary()
                    },
            ),
        },
    }
}

impl View for Annotation {
    type V = AnnotationTree;

    open spec fn view(&self) -> AnnotationTree {
        annotation_tree(*self)
    }
}

/// The trees of a list of annotations, in order.
pub open spec fn annotation_trees(annotations: Seq<Annotation>) -> Seq<AnnotationTree> {
    annotations.map_values(|a: Annotation| a@)
}

/// What a raw type expression means.
///
/// A bare label from the primitive vocabulary is that primitive. A
/// container labelled as a list with exactly one element slot is a list; one
/// labelled as a dictionary with exactly one key slot and one value slot is
/// a dictionary; one labelled as a union is the union of its alternatives in
/// the order given. Everything else is kept as `Unknown` under its label.
pub open spec fn parse_type(annotation: AnnotationTree) -> TypeTree
    decreases annotation,
{
    match annotation {
        AnnotationTree::SimpleType { label } => match PrimitiveType::of_label(label) {
            Some(kind) => TypeTree::Primitive(kind),
            None => TypeTree::Unknown(label),
        },
        AnnotationTree::Union { label, args } => if label == UNION_LABEL@ {
            TypeTree::Union(
                Seq::new(
                    args.len(),
                    |i: int|
                        if 0 <= i < args.len() {
                            parse_type(args[i])
                        } else {
                            arbitrary()
                        },
                ),
            )
        } else {
            TypeTree::Unknown(label)
        },
        AnnotationTree::List { label, args } => if label == LIST_LABEL@ && args.len()
            == 1 {
            TypeTree::List(seq![parse_type(args[0])])
        } else {
            TypeTree::Unknown(label)
        },
        AnnotationTree::Dict { label, args, values } => if label == DICT_LABEL@
            && args.len() == 1 && values.len() == 1 {
            TypeTree::Dict(seq![parse_type(args[0])], seq![parse_type(values[0])])
        } else {
            TypeTree::Unknown(label)
        },
    }
}

/// The raw type expression that a plugin writes for a type.
pub open spec fn wire_form(tree: TypeTree) -> AnnotationTree
    decreases tree,
{
    match tree {
        TypeTree::Primitive(kind) => AnnotationTree::SimpleType { label: kind.label() },
        TypeTree::Unknown(label) => AnnotationTree::SimpleType { label: label },
        TypeTree::Union(members) => AnnotationTree::Union {
            label: UNION_LABEL@,
            args: Seq::new(
                members.len(),
                |i: int|
                    if 0 <= i < members.len() {
                        wire_form(members[i])
                    } else {
                        arbitrary()
                    },
            ),
        },
        TypeTree::List(elements) => AnnotationTree::List {
            label: LIST_LABEL@,
            args: Seq::new(
                elements.len(),
                |i: int|
                    if 0 <= i < elements.len() {
                        wire_form(elements[i])
                    } else {
                        arbitrary()
                    },
            ),
        },
        TypeTree::Dict(keys, values) => AnnotationTree::Dict {
            label: DICT_LABEL@,
            args: Seq::new(
                keys.len(),
                |i: int|
                    if 0 <= i < keys.len() {
                        wire_form(keys[i])
                    } else {
                        arbitrary()
                    },
            ),
            values: Seq::new(
                values.len(),
                |i: int|
                    if 0 <= i < values.len() {
                        wire_form(values[i])
                    } else {
                        arbitrary()
                    },
            ),
        },
    }
}

/// Whether a type is one that the wire carries without loss: every list has
/// one element slot, every dictionary one key slot and one value slot, and
/// no unclassified label is a word of the primitive vocabulary.
pub open spec fn wire_exact(tree: TypeTree) -> bool
    decreases tree,
{
    match tree {
        TypeTree::Primitive(_) => true,
        TypeTree::Unknown(label) => PrimitiveType::of_label(label) is None,
        TypeTree::Union(members) => forall|i: int|
            0 <= i < members.len() ==> wire_exact(#[trigger] members[i]),
        TypeTree::List(elements) => elements.len() == 1 && wire_exact(elements[0]),
        TypeTree::Dict(keys, values) => keys.len() == 1 && values.len() == 1 && wire_exact(
            keys[0],
        ) && wire_exact(values[0]),
    }
}

/// A bare label of the primitive vocabulary parses to that primitive, never
/// to `Unknown`.
pub proof fn lemma_primitive_label_parses(kind: PrimitiveType)
    ensures
        parse_type(AnnotationTree::SimpleType { label: kind.label() }) == TypeTree::Primitive(
            kind,
        ),
{
    kind.lemma_label_names_kind();
}

/// Writing a type out as a raw type expression and parsing that expression
/// gives the type back, at any depth of nesting.
pub proof fn lemma_wire_round_trip(tree: TypeTree)
    requires
        wire_exact(tree),
    ensures
        parse_type(wire_form(tree)) == tree,
    decreases tree,
{
    match tree {
        TypeTree::Primitive(kind) => {
            kind.lemma_label_names_kind();
        },
        TypeTree::Unknown(_) => {},
        TypeTree::Union(members) => {
            let back = parse_type(wire_form(tree))->Union_0;
            assert forall|i: int| 0 <= i < members.len() implies back[i] == members[i] by {
                lemma_wire_round_trip(members[i]);
            }
            assert(back =~= members);
        },
        TypeTree::List(elements) => {
            lemma_wire_round_trip(elements[0]);
            assert(parse_type(wire_form(tree))->List_0 =~= elements);
        },
        TypeTree::Dict(keys, values) => {
            lemma_wire_round_trip(keys[0]);
            lemma_wire_round_trip(values[0]);
            assert(parse_type(wire_form(tree))->Dict_0 =~= keys);
            assert(parse_type(wire_form(tree))->Dict_1 =~= values);
        },
    }
}

impl Annotation {
    /// The slots of a container have the trees that the container's own
    /// tree lists.
    pub proof fn lemma_view_slots(&self)
        ensures
            self matches Annotation::Union { args, .. } ==> self@->Union_args == annotation_trees(
                args@,
            ),
            self matches Annotation::List { args, .. } ==> self@->List_args == annotation_trees(
                args@,
            ),
            self matches Annotation::Dict { args, values, .. } ==> self@->Dict_args
                == annotation_trees(args@) && self@->Dict_values == annotation_trees(values@),
    {
        match self {
            Annotation::Union { args, .. } => {
                assert(self@->Union_args =~= annotation_trees(args@));
            },
            Annotation::List { args, .. } => {
                assert(self@->List_args =~= annotation_trees(args@));
            },
            Annotation::Dict { args, values, .. } => {
                assert(self@->Dict_args =~= annotation_trees(args@));
                assert(self@->Dict_values =~= annotation_trees(values@));
            },
            _ => {},
        }
    }

    fn clone_all(slots: &Vec<Annotation>) -> (copies: Vec<Annotation>)
        ensures
            annotation_trees(copies@) == annotation_trees(slots@),
        decreases slots, 1int,
    {
        let mut copies: Vec<Annotation> = Vec::new();
        let mut i: usize = 0;
        while i < slots.len()
            invariant
                i <= slots.len(),
                copies@.len() == i,
                forall|k: int| 0 <= k < i ==> (#[trigger] copies@[k])@ == slots@[k]@,
            decreases slots.len() - i,
        {
            copies.push(slots[i].clone());
            i = i + 1;
        }
        assert(annotation_trees(copies@) =~= annotation_trees(slots@));
        copies
    }

    /// Parses the raw type expression. This never fails: what is not
    /// recognised comes back as `Unknown` under its label.
    #[verifier::loop_isolation(false)]
    pub fn parse(&self) -> (parsed: FunctionArgumentType)
        ensures
            parsed@ == parse_type(self@),
        decreases self,
    {
        proof {
            self.lemma_view_slots();
        }
        match self {
            Annotation::SimpleType { label } => match PrimitiveType::from_label(label) {
                Some(kind) => FunctionArgumentType::Primitive(kind),
                None => FunctionArgumentType::Unknown(label.clone()),
            },
            Annotation::Union { label, args } => {
                if spells(label, UNION_LABEL) {
                    let mut members: Vec<FunctionArgumentType> = Vec::new();
                    let mut i: usize = 0;
                    while i < args.len()
                        invariant
                            i <= args.len(),
                            members@.len() == i,
                            forall|k: int|
                                0 <= k < i ==> (#[trigger] members@[k])@ == parse_type(args@[k]@),
                        decreases args.len() - i,
                    {
                        let member = args[i].parse();
                        members.push(member);
                        i = i + 1;
                    }
                    let parsed = FunctionArgumentType::Union(members);
                    proof {
                        parsed.lemma_view_children();
                        assert(type_trees(members@) =~= parse_type(self@)->Union_0);
                    }
                    parsed
                } else {
                    FunctionArgumentType::Unknown(label.clone())
                }
            },
            Annotation::List { label, args } => {
                if spells(label, LIST_LABEL) && args.len() == 1 {
                    let mut elements: Vec<FunctionArgumentType> = Vec::new();
                    elements.push(args[0].parse());
                    let parsed = FunctionArgumentType::List(elements);
                    proof {
                        parsed.lemma_view_children();
                        assert(type_trees(elements@) =~= seq![parse_type(args@[0]@)]);
                    }
                    parsed
                } else {
                    FunctionArgumentType::Unknown(label.clone())
                }
            },
            Annotation::Dict { label, args, values } => {
                if spells(label, DICT_LABEL) && args.len() == 1 && values.len() == 1 {
                    let mut keys: Vec<FunctionArgumentType> = Vec::new();
                    keys.push(args[0].parse());
                    let mut slots: Vec<FunctionArgumentType> = Vec::new();
                    slots.push(values[0].parse());
                    let parsed = FunctionArgumentType::Dict(keys, slots);
                    proof {
                        parsed.lemma_view_children();
                        assert(type_trees(keys@) =~= seq![parse_type(args@[0]@)]);
                        assert(type_trees(slots@) =~= seq![parse_type(values@[0]@)]);
                    }
                    parsed
                } else {
                    FunctionArgumentType::Unknown(label.clone())
                }
            },
        }
    }
}

impl Clone for Annotation {
    fn clone(&self) -> (copy: Self)
        ensures
            copy@ == self@,
        decreases self, 0int,
    {
        proof {
            self.lemma_view_slots();
        }
        let copy = match self {
            Annotation::SimpleType { label } => Annotation::SimpleType { label: label.clone() },
            Annotation::Union { label, args } => Annotation::Union {
                label: label.clone(),
                args: Self::clone_all(args),
            },
            Annotation::List { label, args } => Annotation::List {
                label: label.clone(),
                args: Self::clone_all(args),
            },
            Annotation::Dict { label, args, values } => Annotation::Dict {
                label: label.clone(),
                args: Self::clone_all(args),
                values: Self::clone_all(values),
            },
        };
        proof {
            copy.lemma_view_slots();
        }
        copy
    }
}

impl FunctionArgumentType {
    /// Writes the type as the raw type expression that stands for it on the
    /// wire.
    pub fn to_annotation(&self) -> (written: Annotation)
        ensures
            written@ == wire_form(self@),
        decreases self, 0int,
    {
        proof {
            self.lemma_view_children();
        }
        match self {
            FunctionArgumentType::Primitive(kind) => Annotation::SimpleType {
                label: kind.label_text(),
            },
            FunctionArgumentType::Unknown(label) => Annotation::SimpleType { label: label.clone() },
            FunctionArgumentType::Union(members) => {
                let written = Annotation::Union {
                    label: String::from_str(UNION_LABEL),
                    args: Self::to_annotations(members),
                };
                proof {
                    written.lemma_view_slots();
                    assert(written@->Union_args =~= wire_form(self@)->Union_args);
                }
                written
            },
            FunctionArgumentType::List(elements) => {
                let written = Annotation::List {
                    label: String::from_str(LIST_LABEL),
                    args: Self::to_annotations(elements),
                };
                proof {
                    written.lemma_view_slots();
                    assert(written@->List_args =~= wire_form(self@)->List_args);
                }
                written
            },
            FunctionArgumentType::Dict(keys, values) => {
                let written = Annotation::Dict {
                    label: String::from_str(DICT_LABEL),
                    args: Self::to_annotations(keys),
                    values: Self::to_annotations(values),
                };
                proof {
                    written.lemma_view_slots();
                    assert(written@->Dict_args =~= wire_form(self@)->Dict_args);
                    assert(written@->Dict_values =~= wire_form(self@)->Dict_values);
                }
                written
            },
        }
    }

    fn to_annotations(children: &Vec<FunctionArgumentType>) -> (written: Vec<Annotation>)
        ensures
            written@.len() == children@.len(),
            forall|k: int|
                0 <= k < children@.len() ==> (#[trigger] written@[k])@ == wire_form(children@[k]@),
        decreases children, 1int,
    {
        let mut written: Vec<Annotation> = Vec::new();
        let mut i: usize = 0;
        while i < children.len()
            invariant
                i <= children.len(),
                written@.len() == i,
                forall|k: int| 0 <= k < i ==> (#[trigger] written@[k])@ == wire_form(children@[k]@),
            decreases children.len() - i,
        {
            let child = children[i].to_annotation();
            written.push(child);
            i = i + 1;
        }
        written
    }
}

/// One advertised function as a plugin transmits it: its name, its
/// arguments in declaration order, each with a raw type expression, and the
/// raw return type where the plugin declares one.
#[derive(Debug, PartialEq, Eq)]
pub struct FunctionAnnotation {
    pub name: String,
    pub args: Vec<(String, Annotation)>,
    pub return_type: Option<Annotation>,
}

/// The mathematical value of a [`FunctionAnnotation`].
pub struct RecordView {
    pub name: Seq<char>,
    pub args: Seq<(Seq<char>, AnnotationTree)>,
    pub return_type: Option<AnnotationTree>,
}

/// The names and trees of a list of raw arguments, in order.
pub open spec fn raw_argument_views(args: Seq<(String, Annotation)>) -> Seq<
    (Seq<char>, AnnotationTree),
> {
    args.map_values(|a: (String, Annotation)| (a.0@, a.1@))
}

impl View for FunctionAnnotation {
    type V = RecordView;

    open spec fn view(&self) -> RecordView {
        RecordView {
            name: self.name@,
            args: raw_argument_views(self.args@),
            return_type: match self.return_type {
                Some(annotation) => Some(annotation@),
                None => None,
            },
        }
    }
}

/// The views of a list of records, in order.
pub open spec fn record_views(records: Seq<FunctionAnnotation>) -> Seq<RecordView> {
    records.map_values(|r: FunctionAnnotation| r@)
}

/// The return type of a function that declares none: unclassified, with
/// an empty label.
pub open spec fn undeclared_return() -> TypeTree {
    TypeTree::Unknown(Seq::empty())
}

/// The names of a list of raw arguments, in order.
pub open spec fn raw_argument_names(args: Seq<(Seq<char>, AnnotationTree)>) -> Seq<Seq<char>> {
    args.map_values(|a: (Seq<char>, AnnotationTree)| a.0)
}

/// The arguments with every raw type expression parsed, in order.
pub open spec fn parse_arguments(args: Seq<(Seq<char>, AnnotationTree)>) -> Seq<
    (Seq<char>, TypeTree),
> {
    args.map_values(|a: (Seq<char>, AnnotationTree)| (a.0, parse_type(a.1)))
}

/// What one transmitted record means: a signature with every raw type
/// expression parsed, or the first argument name that the record repeats.
pub open spec fn parse_record(record: RecordView) -> Result<FunctionView, ErrorView> {
    match first_repeat(raw_argument_names(record.args)) {
        Some(j) => Err(
            ErrorView::DuplicateArgument {
                function: record.name,
                argument: raw_argument_names(record.args)[j],
            },
        ),
        None => Ok(
            FunctionView {
                name: record.name,
                arguments: parse_arguments(record.args),
                return_type: match record.return_type {
                    Some(annotation) => parse_type(annotation),
                    None => undeclared_return(),
                },
            },
        ),
    }
}

/// The record that a plugin writes for a signature: every type as its raw
/// type expression, the return type included.
pub open spec fn wire_record(signature: FunctionView) -> RecordView {
    RecordView {
        name: signature.name,
        args: signature.arguments.map_values(|a: (Seq<char>, TypeTree)| (a.0, wire_form(a.1))),
        return_type: Some(wire_form(signature.return_type)),
    }
}

/// Whether the wire carries a signature without loss: its argument names
/// are distinct, and each of its types is carried without loss.
pub open spec fn record_exact(signature: FunctionView) -> bool {
    &&& distinct(argument_names(signature.arguments))
    &&& forall|i: int|
        0 <= i < signature.arguments.len() ==> wire_exact((#[trigger] signature.arguments[i]).1)
    &&& wire_exact(signature.return_type)
}

/// Writing a signature out as a record and parsing that record gives the
/// signature back.
pub proof fn lemma_record_round_trip(signature: FunctionView)
    requires
        record_exact(signature),
    ensures
        parse_record(wire_record(signature)) == Ok::<FunctionView, ErrorView>(signature),
{
    let record = wire_record(signature);
    let names = raw_argument_names(record.args);
    assert(names =~= argument_names(signature.arguments));
    lemma_distinct_has_no_repeat(names);
    assert forall|i: int| 0 <= i < signature.arguments.len() implies parse_arguments(
        record.args,
    )[i] == signature.arguments[i] by {
        lemma_wire_round_trip(signature.arguments[i].1);
    }
    assert(parse_arguments(record.args) =~= signature.arguments);
    lemma_wire_round_trip(signature.return_type);
}

impl FuncInfo {
    /// Writes the signature as the record that stands for it on the wire.
    pub fn to_annotation(&self) -> (written: FunctionAnnotation)
        ensures
            written@ == wire_record(self@),
    {
        let arguments = self.arguments();
        let mut args: Vec<(String, Annotation)> = Vec::new();
        let mut i: usize = 0;
        while i < arguments.len()
            invariant
                i <= arguments.len(),
                args@.len() == i,
                argument_views(arguments@) == self@.arguments,
                forall|k: int|
                    0 <= k < i ==> (#[trigger] args@[k]).0@ == arguments@[k].0@ && args@[k].1@
                        == wire_form(arguments@[k].1@),
            decreases arguments.len() - i,
        {
            args.push((arguments[i].0.clone(), arguments[i].1.to_annotation()));
            i = i + 1;
        }
        assert(raw_argument_views(args@) =~= wire_record(self@).args);
        FunctionAnnotation {
            name: self.name().clone(),
            args,
            return_type: Some(self.return_type().to_annotation()),
        }
    }
}

impl Clone for FunctionAnnotation {
    fn clone(&self) -> (copy: Self)
        ensures
            copy@ == self@,
    {
        let mut args: Vec<(String, Annotation)> = Vec::new();
        let mut i: usize = 0;
        while i < self.args.len()
            invariant
                i <= self.args.len(),
                args@.len() == i,
                forall|k: int|
                    0 <= k < i ==> (#[trigger] args@[k]).0@ == self.args@[k].0@ && args@[k].1@
                        == self.args@[k].1@,
            decreases self.args.len() - i,
        {
            args.push((self.args[i].0.clone(), self.args[i].1.clone()));
            i = i + 1;
        }
        assert(raw_argument_views(args@) =~= raw_argument_views(self.args@));
        let return_type = match &self.return_type {
            Some(annotation) => Some(annotation.clone()),
            None => None,
        };
        FunctionAnnotation { name: self.name.clone(), args, return_type }
    }
}

impl FunctionAnnotation {
    /// Parses the record into a signature. The record is refused as a whole
    /// where it names an argument twice.
    pub fn parse(&self) -> (parsed: Result<FuncInfo, PluginError>)
        ensures
            match parse_record(self@) {
                Ok(signature) => parsed matches Ok(made) && made@ == signature,
                Err(error) => parsed matches Err(found) && found@ == error,
            },
    {
        let mut arguments: Vec<(String, FunctionArgumentType)> = Vec::new();
        let mut i: usize = 0;
        while i < self.args.len()
            invariant
                i <= self.args.len(),
                arguments@.len() == i,
                forall|k: int|
                    0 <= k < i ==> (#[trigger] arguments@[k]).0@ == self.args@[k].0@
                        && arguments@[k].1@ == parse_type(self.args@[k].1@),
            decreases self.args.len() - i,
        {
            let name = self.args[i].0.clone();
            let parsed = self.args[i].1.parse();
            arguments.push((name, parsed));
            i = i + 1;
        }
        let return_type = match &self.return_type {
            Some(annotation) => annotation.parse(),
            None => FunctionArgumentType::Unknown(String::new()),
        };
        proof {
            let names = raw_argument_names(self@.args);
            assert(names_of(arguments@) =~= names);
            lemma_first_repeat(names);
            assert(argument_views(arguments@) =~= parse_arguments(self@.args));
        }
        FuncInfo::new(self.name.clone(), arguments, return_type)
    }
}

} // verus!
