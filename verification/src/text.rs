use vstd::prelude::*;
use vstd::string::StringExecFns;

verus! {

/// The characters of each of a list of strings, in order.
pub open spec fn string_views(strings: Seq<String>) -> Seq<Seq<char>> {
    strings.map_values(|s: String| s@)
}

/// Whether two strings hold the same characters.
pub(crate) fn same_text(left: &String, right: &String) -> (same: bool)
    ensures
        same == (left@ == right@),
{
    *left == *right
}

/// Whether `text` spells exactly `word`.
pub(crate) fn spells(text: &String, word: &str) -> (same: bool)
    ensures
        same == (text@ == word@),
{
    let owned = String::from_str(word);
    *text == owned
}

} // verus!
