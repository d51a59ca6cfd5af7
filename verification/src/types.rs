use crate::text::spells;
use vstd::prelude::*;
use vstd::string::StringExecFns;

verus! {

/// Wire label of the integer primitive.
pub const INT_LABEL: &'static str = "Int";

/// Wire label of the floating-point primitive.
pub const FLOAT_LABEL: &'static str = "Float";

/// Wire label of the string primitive.
pub const STR_LABEL: &'static str = "Str";

/// Wire label of the boolean primitive.
pub const BOOL_LABEL: &'static str = "Bool";

/// The four terminal kinds a type descriptor can name.
#[derive(Clone, Copy, Debug, PartialEq, Eq, Structural)]
pub enum PrimitiveType {
    Int,
    Float,
    Str,
    Bool,
}

impl PrimitiveType {
    /// The label under which the kind travels on the wire.
    pub open spec fn label(self) -> Seq<char> {
        match self {
            PrimitiveType::Int => INT_LABEL@,
            PrimitiveType::Float => FLOAT_LABEL@,
            PrimitiveType::Str => STR_LABEL@,
            PrimitiveType::Bool => BOOL_LABEL@,
        }
    }

    /// The kind a label names, if it names one. The match is exact and
    /// case-sensitive.
    pub open spec fn of_label(label: Seq<char>) -> Option<PrimitiveType> {
        if label == INT_LABEL@ {
            Some(PrimitiveType::Int)
        } else if label == FLOAT_LABEL@ {
            Some(PrimitiveType::Float)
        } else if label == STR_LABEL@ {
            Some(PrimitiveType::Str)
        } else if label == BOOL_LABEL@ {
            Some(PrimitiveType::Bool)
        } else {
            None
        }
    }

    /// Every kind is found again from its own label.
    pub proof fn lemma_label_names_kind(self)
        ensures
            PrimitiveType::of_label(self.label()) == Some(self),
    {
        reveal_strlit("Int");
        reveal_strlit("Float");
        reveal_strlit("Str");
        reveal_strlit("Bool");
        assert(INT_LABEL@[0] == 'I');
        assert(FLOAT_LABEL@[0] == 'F');
        assert(STR_LABEL@[0] == 'S');
        assert(BOOL_LABEL@[0] == 'B');
    }

    /// The wire label of this kind.
    pub fn label_text(&self) -> (text: String)
        ensures
            text@ == self.label(),
    {
        match self {
            PrimitiveType::Int => String::from_str(INT_LABEL),
            PrimitiveType::Float => String::from_str(FLOAT_LABEL),
            PrimitiveType::Str => String::from_str(STR_LABEL),
            PrimitiveType::Bool => String::from_str(BOOL_LABEL),
        }
    }

    /// Looks a label up in the fixed vocabulary of primitive kinds.
    pub fn from_label(label: &String) -> (kind: Option<PrimitiveType>)
        ensures
            kind == PrimitiveType::of_label(label@),
    {
        if spells(label, INT_LABEL) {
            Some(PrimitiveType::Int)
        } else if spells(label, FLOAT_LABEL) {
            Some(PrimitiveType::Float)
        } else if spells(label, STR_LABEL) {
            Some(PrimitiveType::Str)
        } else if spells(label, BOOL_LABEL) {
            Some(PrimitiveType::Bool)
        } else {
            None
        }
    }
}

/// A function argument or return type: a finite tree of primitive, union,
/// list, dictionary and unclassified nodes.
///
/// A list or a dictionary slot with several entries means "any of these".
#[derive(Debug, PartialEq, Eq)]
pub enum FunctionArgumentType {
    Union(Vec<FunctionArgumentType>),
    List(Vec<FunctionArgumentType>),
    Dict(Vec<FunctionArgumentType>, Vec<FunctionArgumentType>),
    Primitive(PrimitiveType),
    Unknown(String),
}

/// The mathematical value of a [`FunctionArgumentType`].
pub enum TypeTree {
    Union(Seq<TypeTree>),
    List(Seq<TypeTree>),
    Dict(Seq<TypeTree>, Seq<TypeTree>),
    Primitive(PrimitiveType),
    Unknown(Seq<char>),
}

/// The tree that a descriptor stands for.
pub open spec fn type_tree(descriptor: FunctionArgumentType) -> TypeTree
    decreases descriptor,
{
    match descriptor {
        FunctionArgumentType::Union(members) => TypeTree::Union(
            Seq::new(
                members@.len(),
                |i: int|
                    if 0 <= i < members@.len() {
                        type_tree(members@[i])
                    } else {
                        arbitrary()
                    },
            ),
        ),
        FunctionArgumentType::List(elements) => TypeTree::List(
            Seq::new(
                elements@.len(),
                |i: int|
                    if 0 <= i < elements@.len() {
                        type_tree(elements@[i])
                    } else {
                        arbitrary()
                    },
            ),
        ),
        FunctionArgumentType::Dict(keys, values) => TypeTree::Dict(
            Seq::new(
                keys@.len(),
                |i: int|
                    if 0 <= i < keys@.len() {
                        type_tree(keys@[i])
                    } else {
                        arbitrary()
                    },
            ),
            Seq::new(
                values@.len(),
                |i: int|
                    if 0 <= i < values@.len() {
                        type_tree(values@[i])
                    } else {
                        arbitrary()
                    },
            ),
        ),
        FunctionArgumentType::Primitive(kind) => TypeTree::Primitive(kind),
        FunctionArgumentType::Unknown(label) => TypeTree::Unknown(label@),
    }
}

impl View for FunctionArgumentType {
    type V = TypeTree;

    open spec fn view(&self) -> TypeTree {
        type_tree(*self)
    }
}

/// The trees of a list of descriptors, in order.
pub open spec fn type_trees(types: Seq<FunctionArgumentType>) -> Seq<TypeTree> {
    types.map_values(|t: FunctionArgumentType| t@)
}

/// The trees behind a list of borrowed descriptors, in order.
pub open spec fn borrowed_type_trees(types: Seq<&FunctionArgumentType>) -> Seq<TypeTree> {
    types.map_values(|t: &FunctionArgumentType| t@)
}

impl TypeTree {
    /// Every node of the tree in pre-order: a node first, then the nodes
    /// under each child from left to right. The keys of a dictionary come
    /// before its values.
    pub open spec fn preorder(self) -> Seq<TypeTree>
        decreases self, 0int,
    {
        seq![self] + match self {
            TypeTree::Union(members) => TypeTree::preorder_all(members),
            TypeTree::List(elements) => TypeTree::preorder_all(elements),
            TypeTree::Dict(keys, values) => TypeTree::preorder_all(keys) + TypeTree::preorder_all(
                values,
            ),
            TypeTree::Primitive(_) => Seq::empty(),
            TypeTree::Unknown(_) => Seq::empty(),
        }
    }

    /// The pre-order walks of several trees, one after the other.
    pub open spec fn preorder_all(trees: Seq<TypeTree>) -> Seq<TypeTree>
        decreases trees, 1int,
    {
        if trees.len() == 0 {
            Seq::empty()
        } else {
            TypeTree::preorder_all(trees.drop_last()) + trees.last().preorder()
        }
    }

    /// Whether no node of the tree is an unclassified one.
    pub open spec fn fully_known(self) -> bool {
        forall|i: int| 0 <= i < self.preorder().len() ==> !(#[trigger] self.preorder()[i] is Unknown)
    }
}

impl FunctionArgumentType {
    /// The children of a node have the trees that the node's own tree lists.
    pub proof fn lemma_view_children(&self)
        ensures
            self matches FunctionArgumentType::Union(members) ==> self@ == TypeTree::Union(
                type_trees(members@),
            ),
            self matches FunctionArgumentType::List(elements) ==> self@ == TypeTree::List(
                type_trees(elements@),
            ),
            self matches FunctionArgumentType::Dict(keys, values) ==> self@ == TypeTree::Dict(
                type_trees(keys@),
                type_trees(values@),
            ),
    {
        match self {
            FunctionArgumentType::Union(members) => {
                assert(self@->Union_0 =~= type_trees(members@));
            },
            FunctionArgumentType::List(elements) => {
                assert(self@->List_0 =~= type_trees(elements@));
            },
            FunctionArgumentType::Dict(keys, values) => {
                assert(self@->Dict_0 =~= type_trees(keys@));
                assert(self@->Dict_1 =~= type_trees(values@));
            },
            _ => {},
        }
    }

    /// Visits the tree by recursive descent and returns every node in
    /// pre-order, the root first.
    pub fn walk(&self) -> (nodes: Vec<&FunctionArgumentType>)
        ensures
            borrowed_type_trees(nodes@) == self@.preorder(),
    {
        let mut nodes: Vec<&FunctionArgumentType> = Vec::new();
        assert(borrowed_type_trees(nodes@) =~= Seq::empty());
        self.walk_into(&mut nodes);
        assert(Seq::<TypeTree>::empty() + self@.preorder() =~= self@.preorder());
        nodes
    }

    fn walk_into<'a>(&'a self, nodes: &mut Vec<&'a FunctionArgumentType>)
        ensures
            borrowed_type_trees(final(nodes)@) == borrowed_type_trees(old(nodes)@)
                + self@.preorder(),
        decreases self, 0int,
    {
        let ghost before = borrowed_type_trees(nodes@);
        nodes.push(self);
        assert(borrowed_type_trees(nodes@) =~= before + seq![self@]);
        proof {
            self.lemma_view_children();
        }
        match self {
            FunctionArgumentType::Union(members) => {
                Self::walk_all(members, nodes);
            },
            FunctionArgumentType::List(elements) => {
                Self::walk_all(elements, nodes);
            },
            FunctionArgumentType::Dict(keys, values) => {
                Self::walk_all(keys, nodes);
                Self::walk_all(values, nodes);
            },
            FunctionArgumentType::Primitive(_) => {},
            FunctionArgumentType::Unknown(_) => {},
        }
        assert(borrowed_type_trees(nodes@) =~= before + self@.preorder());
    }

    fn walk_all<'a>(children: &'a Vec<FunctionArgumentType>, nodes: &mut Vec<&'a FunctionArgumentType>)
        ensures
            borrowed_type_trees(final(nodes)@) == borrowed_type_trees(old(nodes)@)
                + TypeTree::preorder_all(type_trees(children@)),
        decreases children, 1int,
    {
        let ghost before = borrowed_type_trees(nodes@);
        let ghost trees = type_trees(children@);
        let mut i: usize = 0;
        assert(trees.take(0) =~= Seq::empty());
        assert(before + TypeTree::preorder_all(trees.take(0)) =~= before);
        while i < children.len()
            invariant
                i <= children.len(),
                trees == type_trees(children@),
                borrowed_type_trees(nodes@) == before + TypeTree::preorder_all(trees.take(i as int)),
            decreases children.len() - i,
        {
            let ghost so_far = borrowed_type_trees(nodes@);
            children[i].walk_into(nodes);
            proof {
                let next = trees.take(i + 1);
                assert(next.drop_last() =~= trees.take(i as int));
                assert(next.last() == children@[i as int]@);
                assert(borrowed_type_trees(nodes@) =~= before + TypeTree::preorder_all(next));
            }
            i = i + 1;
        }
        assert(trees.take(i as int) =~= trees);
    }

    /// Whether two descriptors are the same tree: the same kinds of nodes
    /// with the same labels, in the same order.
    pub fn same_as(&self, other: &FunctionArgumentType) -> (same: bool)
        ensures
            same == (self@ == other@),
        decreases self, 0int,
    {
        proof {
            self.lemma_view_children();
            other.lemma_view_children();
        }
        match (self, other) {
            (FunctionArgumentType::Primitive(left), FunctionArgumentType::Primitive(right)) => {
                *left == *right
            },
            (FunctionArgumentType::Unknown(left), FunctionArgumentType::Unknown(right)) => {
                *left == *right
            },
            (FunctionArgumentType::Union(left), FunctionArgumentType::Union(right)) => {
                Self::same_all(left, right)
            },
            (FunctionArgumentType::List(left), FunctionArgumentType::List(right)) => {
                Self::same_all(left, right)
            },
            (
                FunctionArgumentType::Dict(left_keys, left_values),
                FunctionArgumentType::Dict(right_keys, right_values),
            ) => {
                Self::same_all(left_keys, right_keys) && Self::same_all(left_values, right_values)
            },
            _ => false,
        }
    }

    fn same_all(left: &Vec<FunctionArgumentType>, right: &Vec<FunctionArgumentType>) -> (same: bool)
        ensures
            same == (type_trees(left@) == type_trees(right@)),
        decreases left, 1int,
    {
        if left.len() != right.len() {
            assert(type_trees(left@).len() != type_trees(right@).len());
            return false;
        }
        let mut i: usize = 0;
        while i < left.len()
            invariant
                i <= left.len(),
                left.len() == right.len(),
                forall|k: int| 0 <= k < i ==> (#[trigger] left@[k])@ == right@[k]@,
            decreases left.len() - i,
        {
            if !left[i].same_as(&right[i]) {
                assert(type_trees(left@)[i as int] != type_trees(right@)[i as int]);
                return false;
            }
            i = i + 1;
        }
        assert(type_trees(left@) =~= type_trees(right@));
        true
    }

    fn clone_all(children: &Vec<FunctionArgumentType>) -> (copies: Vec<FunctionArgumentType>)
        ensures
            type_trees(copies@) == type_trees(children@),
        decreases children, 1int,
    {
        let mut copies: Vec<FunctionArgumentType> = Vec::new();
        let mut i: usize = 0;
        while i < children.len()
            invariant
                i <= children.len(),
                copies@.len() == i,
                forall|k: int| 0 <= k < i ==> (#[trigger] copies@[k])@ == children@[k]@,
            decreases children.len() - i,
        {
            copies.push(children[i].clone());
            i = i + 1;
        }
        assert(type_trees(copies@) =~= type_trees(children@));
        copies
    }

    /// Whether the tree holds no unclassified node.
    pub fn is_fully_known(&self) -> (known: bool)
        ensures
            known == self@.fully_known(),
    {
        let nodes = self.walk();
        let mut i: usize = 0;
        while i < nodes.len()
            invariant
                i <= nodes.len(),
                borrowed_type_trees(nodes@) == self@.preorder(),
                forall|j: int| 0 <= j < i ==> !(#[trigger] self@.preorder()[j] is Unknown),
            decreases nodes.len() - i,
        {
            assert(borrowed_type_trees(nodes@)[i as int] == nodes@[i as int]@);
            match nodes[i] {
                FunctionArgumentType::Unknown(_) => {
                    return false;
                },
                _ => {},
            }
            i = i + 1;
        }
        true
    }
}

impl Clone for FunctionArgumentType {
    fn clone(&self) -> (copy: Self)
        ensures
            copy@ == self@,
        decreases self, 0int,
    {
        proof {
            self.lemma_view_children();
        }
        let copy = match self {
            FunctionArgumentType::Union(members) => FunctionArgumentType::Union(
                Self::clone_all(members),
            ),
            FunctionArgumentType::List(elements) => FunctionArgumentType::List(
                Self::clone_all(elements),
            ),
            FunctionArgumentType::Dict(keys, values) => FunctionArgumentType::Dict(
                Self::clone_all(keys),
                Self::clone_all(values),
            ),
            FunctionArgumentType::Primitive(kind) => FunctionArgumentType::Primitive(*kind),
            FunctionArgumentType::Unknown(label) => FunctionArgumentType::Unknown(label.clone()),
        };
        proof {
            copy.lemma_view_children();
        }
        copy
    }
}

} // verus!
