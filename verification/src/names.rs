use crate::text::same_text;
use vstd::prelude::*;

verus! {

/// Something that is found by its name.
pub trait Named {
    /// The name, as a sequence of characters.
    spec fn name_view(&self) -> Seq<char>;

    /// The name.
    fn name_ref(&self) -> (name: &String)
        ensures
            name@ == self.name_view(),
    ;
}

impl<T> Named for (String, T) {
    open spec fn name_view(&self) -> Seq<char> {
        self.0@
    }

    fn name_ref(&self) -> (name: &String) {
        &self.0
    }
}

/// The names of a list of named things, in order.
pub open spec fn names_of<T: Named>(items: Seq<T>) -> Seq<Seq<char>> {
    items.map_values(|item: T| item.name_view())
}

/// Whether no name occurs twice.
pub open spec fn distinct(names: Seq<Seq<char>>) -> bool {
    forall|i: int, j: int| 0 <= i < j < names.len() ==> names[i] != names[j]
}

/// The first place at which `name` stands, if it stands anywhere.
pub open spec fn position(names: Seq<Seq<char>>, name: Seq<char>) -> Option<int>
    decreases names.len(),
{
    if names.len() == 0 {
        None
    } else {
        match position(names.drop_last(), name) {
            Some(i) => Some(i),
            None => if names.last() == name {
                Some(names.len() - 1)
            } else {
                None
            },
        }
    }
}

/// The first place whose name already stands at an earlier place, if any.
pub open spec fn first_repeat(names: Seq<Seq<char>>) -> Option<int>
    decreases names.len(),
{
    if names.len() == 0 {
        None
    } else {
        match first_repeat(names.drop_last()) {
            Some(j) => Some(j),
            None => if position(names.drop_last(), names.last()) is Some {
                Some(names.len() - 1)
            } else {
                None
            },
        }
    }
}

/// `position` finds the first occurrence, and finds nothing only where
/// there is none.
pub proof fn lemma_position(names: Seq<Seq<char>>, name: Seq<char>)
    ensures
        match position(names, name) {
            Some(i) => 0 <= i < names.len() && names[i] == name && forall|k: int|
                0 <= k < i ==> names[k] != name,
            None => forall|k: int| 0 <= k < names.len() ==> names[k] != name,
        },
    decreases names.len(),
{
    if names.len() > 0 {
        lemma_position(names.drop_last(), name);
        assert forall|k: int| 0 <= k < names.len() - 1 implies names[k] == names.drop_last()[k] by {}
    }
}

/// `first_repeat` finds the first repeated name, and finds nothing exactly
/// where the names are distinct.
pub proof fn lemma_first_repeat(names: Seq<Seq<char>>)
    ensures
        match first_repeat(names) {
            Some(j) => 0 < j < names.len() && distinct(names.take(j)) && position(
                names.take(j),
                names[j],
            ) is Some,
            None => distinct(names),
        },
    decreases names.len(),
{
    if names.len() > 0 {
        let front = names.drop_last();
        lemma_first_repeat(front);
        lemma_position(front, names.last());
        assert forall|k: int| 0 <= k < names.len() - 1 implies names[k] == front[k] by {}
        match first_repeat(front) {
            Some(j) => {
                assert(front.take(j) =~= names.take(j));
            },
            None => {
                if position(front, names.last()) is Some {
                    assert(names.take(names.len() - 1) =~= front);
                } else {
                    assert forall|i: int, j: int| 0 <= i < j < names.len() implies names[i]
                        != names[j] by {
                        if j < names.len() - 1 {
                            assert(front[i] != front[j]);
                        }
                    }
                }
            },
        }
    }
}

/// Among distinct names there is no repeat.
pub proof fn lemma_distinct_has_no_repeat(names: Seq<Seq<char>>)
    requires
        distinct(names),
    ensures
        first_repeat(names) is None,
{
    lemma_first_repeat(names);
    if first_repeat(names) is Some {
        let j = first_repeat(names)->Some_0;
        lemma_position(names.take(j), names[j]);
        let k = position(names.take(j), names[j])->Some_0;
        assert(names.take(j)[k] == names[k]);
    }
}

/// Searches the first `end` items for one called `name`.
pub(crate) fn find_before<T: Named>(items: &Vec<T>, end: usize, name: &String) -> (at: Option<usize>)
    requires
        end <= items.len(),
    ensures
        match at {
            Some(i) => position(names_of(items@).take(end as int), name@) == Some(i as int),
            None => position(names_of(items@).take(end as int), name@) is None,
        },
{
    let ghost names = names_of(items@);
    let mut i: usize = 0;
    assert(names.take(0) =~= Seq::empty());
    while i < end
        invariant
            i <= end <= items.len(),
            names == names_of(items@),
            position(names.take(i as int), name@) is None,
        decreases end - i,
    {
        proof {
            assert(names.take(i + 1).drop_last() =~= names.take(i as int));
            assert(names.take(i + 1).last() == items@[i as int].name_view());
        }
        if same_text(items[i].name_ref(), name) {
            proof {
                lemma_position_prefix(names, i + 1, end as int, name@);
            }
            return Some(i);
        }
        i = i + 1;
    }
    None
}

/// Searches the items for one called `name`.
pub(crate) fn find<T: Named>(items: &Vec<T>, name: &String) -> (at: Option<usize>)
    ensures
        match at {
            Some(i) => position(names_of(items@), name@) == Some(i as int),
            None => position(names_of(items@), name@) is None,
        },
{
    assert(names_of(items@).take(items@.len() as int) =~= names_of(items@));
    find_before(items, items.len(), name)
}

/// A name found in a prefix is found at the same place in a longer one.
pub proof fn lemma_position_prefix(names: Seq<Seq<char>>, short: int, long: int, name: Seq<char>)
    requires
        0 <= short <= long <= names.len(),
        position(names.take(short), name) is Some,
    ensures
        position(names.take(long), name) == position(names.take(short), name),
    decreases long - short,
{
    if short < long {
        lemma_position_prefix(names, short, long - 1, name);
        assert(names.take(long).drop_last() =~= names.take(long - 1));
    }
}

/// `items` with `item` put under `name`: in the place of the item that has
/// the name already, or at the end where none has it.
pub open spec fn upsert<V>(items: Seq<V>, names: Seq<Seq<char>>, name: Seq<char>, item: V) -> Seq<
    V,
> {
    match position(names, name) {
        Some(i) => items.update(i, item),
        None => items.push(item),
    }
}

/// Putting a name among distinct names leaves them distinct, and the name
/// among them.
pub proof fn lemma_upsert_names(names: Seq<Seq<char>>, name: Seq<char>)
    requires
        distinct(names),
    ensures
        distinct(upsert(names, names, name, name)),
        position(upsert(names, names, name, name), name) is Some,
        forall|other: Seq<char>|
            other != name ==> position(upsert(names, names, name, name), other) == position(
                names,
                other,
            ),
{
    let after = upsert(names, names, name, name);
    lemma_position(names, name);
    lemma_position(after, name);
    match position(names, name) {
        Some(i) => {
            assert(after =~= names);
        },
        None => {
            assert(after[names.len() as int] == name);
            assert forall|other: Seq<char>| other != name implies position(after, other)
                == position(names, other) by {
                assert(after.drop_last() =~= names);
            }
        },
    }
}

/// Putting an item under one name leaves the item under another name as
/// it was.
pub proof fn lemma_upsert_keeps<V>(
    items: Seq<V>,
    names: Seq<Seq<char>>,
    name: Seq<char>,
    item: V,
    other: Seq<char>,
)
    requires
        items.len() == names.len(),
        other != name,
        position(names, other) is Some,
    ensures
        upsert(items, names, name, item)[position(names, other)->Some_0] == items[position(
            names,
            other,
        )->Some_0],
{
    lemma_position(names, other);
    lemma_position(names, name);
}

/// A name is found exactly where some place holds it.
pub proof fn lemma_absent_name(names: Seq<Seq<char>>, name: Seq<char>)
    ensures
        position(names, name) is None <==> forall|k: int|
            0 <= k < names.len() ==> names[k] != name,
{
    lemma_position(names, name);
}

/// Stores `item` under its name: it replaces the item that has the name
/// already, and is appended where none has it.
pub(crate) fn store<T: Named>(items: &mut Vec<T>, item: T)
    ensures
        final(items)@ == upsert(old(items)@, names_of(old(items)@), item.name_view(), item),
{
    match find(items, item.name_ref()) {
        Some(i) => {
            proof {
                lemma_position(names_of(items@), item.name_view());
            }
            items[i] = item;
        },
        None => {
            items.push(item);
        },
    }
}

} // verus!
