use crate::errors::{ErrorView, PluginError};
use crate::names::{distinct, find_before, first_repeat, lemma_first_repeat, names_of, Named};
use crate::types::{FunctionArgumentType, TypeTree};
use vstd::prelude::*;

verus! {

/// One advertised function: its name, its arguments in declaration order
/// and its return type. No two arguments share a name.
#[derive(Debug, PartialEq, Eq)]
pub struct FuncInfo {
    name: String,
    arguments: Vec<(String, FunctionArgumentType)>,
    return_type: FunctionArgumentType,
}

/// The mathematical value of a [`FuncInfo`].
pub struct FunctionView {
    pub name: Seq<char>,
    pub arguments: Seq<(Seq<char>, TypeTree)>,
    pub return_type: TypeTree,
}

/// The names and type trees of a list of arguments, in order.
pub open spec fn argument_views(arguments: Seq<(String, FunctionArgumentType)>) -> Seq<
    (Seq<char>, TypeTree),
> {
    arguments.map_values(|a: (String, FunctionArgumentType)| (a.0@, a.1@))
}

/// The names of a list of argument views, in order.
pub open spec fn argument_names(arguments: Seq<(Seq<char>, TypeTree)>) -> Seq<Seq<char>> {
    arguments.map_values(|a: (Seq<char>, TypeTree)| a.0)
}

/// The views of a list of signatures, in order.
pub open spec fn signature_views(signatures: Seq<FuncInfo>) -> Seq<FunctionView> {
    signatures.map_values(|s: FuncInfo| s@)
}

impl View for FuncInfo {
    type V = FunctionView;

    closed spec fn view(&self) -> FunctionView {
        FunctionView {
            name: self.name@,
            arguments: argument_views(self.arguments@),
            return_type: self.return_type@,
        }
    }
}

impl Clone for FuncInfo {
    fn clone(&self) -> (copy: Self)
        ensures
            copy@ == self@,
    {
        proof {
            use_type_invariant(self);
        }
        let mut arguments: Vec<(String, FunctionArgumentType)> = Vec::new();
        let mut i: usize = 0;
        while i < self.arguments.len()
            invariant
                i <= self.arguments.len(),
                arguments@.len() == i,
                forall|k: int|
                    0 <= k < i ==> (#[trigger] arguments@[k]).0@ == self.arguments@[k].0@
                        && arguments@[k].1@ == self.arguments@[k].1@,
            decreases self.arguments.len() - i,
        {
            arguments.push((self.arguments[i].0.clone(), self.arguments[i].1.clone()));
            i = i + 1;
        }
        proof {
            assert(argument_views(arguments@) =~= argument_views(self.arguments@));
            assert(names_of(arguments@) =~= names_of(self.arguments@));
        }
        FuncInfo { name: self.name.clone(), arguments, return_type: self.return_type.clone() }
    }
}

impl Named for FuncInfo {
    open spec fn name_view(&self) -> Seq<char> {
        self@.name
    }

    fn name_ref(&self) -> (name: &String) {
        &self.name
    }
}

impl FuncInfo {
    #[verifier::type_invariant]
    spec fn well_formed(self) -> bool {
        distinct(names_of(self.arguments@))
    }

    /// Makes a signature, or refuses the first argument whose name an
    /// earlier argument already has.
    pub fn new(
        name: String,
        arguments: Vec<(String, FunctionArgumentType)>,
        return_type: FunctionArgumentType,
    ) -> (made: Result<FuncInfo, PluginError>)
        ensures
            match first_repeat(names_of(arguments@)) {
                None => made matches Ok(signature) && signature@ == (FunctionView {
                    name: name@,
                    arguments: argument_views(arguments@),
                    return_type: return_type@,
                }),
                Some(j) => made matches Err(error) && error@ == (ErrorView::DuplicateArgument {
                    function: name@,
                    argument: arguments@[j].0@,
                }),
            },
    {
        let ghost names = names_of(arguments@);
        let mut j: usize = 0;
        assert(names.take(0) =~= Seq::empty());
        while j < arguments.len()
            invariant
                j <= arguments.len(),
                names == names_of(arguments@),
                first_repeat(names.take(j as int)) is None,
            decreases arguments.len() - j,
        {
            proof {
                assert(names.take(j + 1).drop_last() =~= names.take(j as int));
                assert(names.take(j + 1).last() == arguments@[j as int].0@);
            }
            if find_before(&arguments, j, &arguments[j].0).is_some() {
                proof {
                    lemma_first_repeat_prefix(names, j + 1);
                }
                return Err(
                    PluginError::DuplicateArgument {
                        function: name,
                        argument: arguments[j].0.clone(),
                    },
                );
            }
            j = j + 1;
        }
        proof {
            assert(names.take(j as int) =~= names);
            lemma_first_repeat(names);
        }
        Ok(FuncInfo { name, arguments, return_type })
    }

    /// The function's name.
    pub fn name(&self) -> (name: &String)
        ensures
            name@ == self@.name,
    {
        &self.name
    }

    /// The arguments in declaration order. Their names are distinct.
    pub fn arguments(&self) -> (arguments: &Vec<(String, FunctionArgumentType)>)
        ensures
            argument_views(arguments@) == self@.arguments,
            distinct(argument_names(self@.arguments)),
    {
        proof {
            use_type_invariant(self);
            assert(argument_names(self@.arguments) =~= names_of(self.arguments@));
        }
        &self.arguments
    }

    /// The return type.
    pub fn return_type(&self) -> (return_type: &FunctionArgumentType)
        ensures
            return_type@ == self@.return_type,
    {
        &self.return_type
    }
}

/// A repeat found in a prefix is the repeat of the whole list.
pub proof fn lemma_first_repeat_prefix(names: Seq<Seq<char>>, short: int)
    requires
        0 <= short <= names.len(),
        first_repeat(names.take(short)) is Some,
    ensures
        first_repeat(names) == first_repeat(names.take(short)),
    decreases names.len() - short,
{
    if short < names.len() {
        assert(names.take(short + 1).drop_last() =~= names.take(short));
        lemma_first_repeat_prefix(names, short + 1);
    } else {
        assert(names.take(short) =~= names);
    }
}

} // verus!
