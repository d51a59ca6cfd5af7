use crate::errors::{ErrorView, PluginError};
use vstd::prelude::*;
use vstd::string::{StrSliceExecFns, StringExecFns};

verus! {

/// The character that parts the components of a path.
pub const SEPARATOR: char = '/';

/// Name of the file through which a plugin is entered.
pub const ENTRY_FILE: &'static str = "main.py";

/// `base` with `part` adjoined. An absolute `part` stands for itself; the
/// separator is put in only where `base` does not already end in one.
pub open spec fn join_path(base: Seq<char>, part: Seq<char>) -> Seq<char> {
    if part.len() > 0 && part[0] == SEPARATOR {
        part
    } else if base.len() == 0 || base.last() == SEPARATOR {
        base + part
    } else {
        base + seq![SEPARATOR] + part
    }
}

/// The directory of the plugin called `name` under `root`.
pub open spec fn plugin_directory(root: Seq<char>, name: Seq<char>) -> Seq<char> {
    join_path(root, name)
}

/// The entry file of the plugin called `name` under `root`.
pub open spec fn entry_path(root: Seq<char>, name: Seq<char>) -> Seq<char> {
    join_path(join_path(root, name), ENTRY_FILE@)
}

/// Where the last separator of a path stands, or -1 where it has none.
pub open spec fn last_separator(path: Seq<char>) -> int
    decreases path.len(),
{
    if path.len() == 0 {
        -1
    } else if path.last() == SEPARATOR {
        path.len() - 1
    } else {
        last_separator(path.drop_last())
    }
}

/// What follows the last separator of a path: the whole path where it has
/// none.
pub open spec fn base_name(path: Seq<char>) -> Seq<char> {
    path.subrange(last_separator(path) + 1, path.len() as int)
}

/// What precedes the last separator of a path, where it has one.
pub open spec fn parent(path: Seq<char>) -> Option<Seq<char>> {
    if last_separator(path) < 0 {
        None
    } else {
        Some(path.take(last_separator(path)))
    }
}

/// The name of the plugin that an entry file belongs to: the base name of
/// the directory that holds the file. There is none where the path names no
/// directory, or a directory without a base name.
pub open spec fn plugin_name_of(entry: Seq<char>) -> Option<Seq<char>> {
    match parent(entry) {
        None => None,
        Some(directory) => if base_name(directory).len() == 0 {
            None
        } else {
            Some(base_name(directory))
        },
    }
}

/// Whether a name is one component of a path: not empty, and without a
/// separator.
pub open spec fn is_component(name: Seq<char>) -> bool {
    name.len() > 0 && forall|i: int| 0 <= i < name.len() ==> name[i] != SEPARATOR
}

/// `last_separator` is the place of a separator after which none follows.
pub proof fn lemma_last_separator(path: Seq<char>)
    ensures
        -1 <= last_separator(path) < path.len(),
        last_separator(path) >= 0 ==> path[last_separator(path)] == SEPARATOR,
        forall|i: int| last_separator(path) < i < path.len() ==> path[i] != SEPARATOR,
    decreases path.len(),
{
    if path.len() > 0 && path.last() != SEPARATOR {
        lemma_last_separator(path.drop_last());
        assert forall|i: int| last_separator(path) < i < path.len() implies path[i]
            != SEPARATOR by {
            if i < path.len() - 1 {
                assert(path[i] == path.drop_last()[i]);
            }
        }
        if last_separator(path) >= 0 {
            assert(path[last_separator(path)] == path.drop_last()[last_separator(path)]);
        }
    }
}

/// A place that holds a separator, with none after it, is the last
/// separator.
pub proof fn lemma_last_separator_at(path: Seq<char>, at: int)
    requires
        -1 <= at < path.len(),
        at >= 0 ==> path[at] == SEPARATOR,
        forall|i: int| at < i < path.len() ==> path[i] != SEPARATOR,
    ensures
        last_separator(path) == at,
{
    lemma_last_separator(path);
}

/// The entry file of a plugin leads back to the plugin's name.
pub proof fn lemma_entry_path_names_plugin(root: Seq<char>, name: Seq<char>)
    requires
        is_component(name),
    ensures
        plugin_name_of(entry_path(root, name)) == Some(name),
{
    reveal_strlit("main.py");
    let file = ENTRY_FILE@;
    assert(file.len() == 7);
    assert(file[0] == 'm' && file[1] == 'a' && file[2] == 'i' && file[3] == 'n' && file[4] == '.'
        && file[5] == 'p' && file[6] == 'y');
    let directory = join_path(root, name);
    assert(directory.len() > 0 && directory.last() == name.last());
    let entry = entry_path(root, name);
    assert(entry =~= directory + seq![SEPARATOR] + file);
    lemma_last_separator_at(entry, directory.len() as int);
    assert(entry.take(directory.len() as int) =~= directory);
    let start = directory.len() - name.len();
    lemma_last_separator_at(directory, start - 1);
    assert(directory.subrange(start, directory.len() as int) =~= name);
}

/// Adjoins `part` to `base`.
pub fn join(base: &str, part: &str) -> (joined: String)
    ensures
        joined@ == join_path(base@, part@),
{
    proof {
        reveal_strlit("/");
    }
    if part.unicode_len() > 0 && part.get_char(0) == SEPARATOR {
        return String::from_str(part);
    }
    let length = base.unicode_len();
    if length == 0 || base.get_char(length - 1) == SEPARATOR {
        String::from_str(base).concat(part)
    } else {
        assert("/"@ =~= seq![SEPARATOR]);
        String::from_str(base).concat("/").concat(part)
    }
}

/// Finds the last separator among the first `end` characters of a path.
fn find_last_separator(path: &str, end: usize) -> (at: Option<usize>)
    requires
        end <= path@.len(),
    ensures
        match at {
            Some(i) => i < end && last_separator(path@.take(end as int)) == i,
            None => last_separator(path@.take(end as int)) == -1,
        },
{
    let mut i: usize = end;
    while i > 0
        invariant
            i <= end <= path@.len(),
            forall|k: int| i <= k < end ==> path@[k] != SEPARATOR,
        decreases i,
    {
        if path.get_char(i - 1) == SEPARATOR {
            proof {
                lemma_last_separator_at(path@.take(end as int), i - 1);
            }
            return Some(i - 1);
        }
        i = i - 1;
    }
    proof {
        lemma_last_separator_at(path@.take(end as int), -1);
    }
    None
}

/// Tells which plugin an entry file belongs to.
pub fn plugin_name_from_entry(entry: &str) -> (name: Option<String>)
    ensures
        match name {
            Some(text) => plugin_name_of(entry@) == Some(text@),
            None => plugin_name_of(entry@) is None,
        },
{
    let length = entry.unicode_len();
    assert(entry@.take(length as int) =~= entry@);
    let cut = match find_last_separator(entry, length) {
        None => {
            return None;
        },
        Some(cut) => cut,
    };
    let start = match find_last_separator(entry, cut) {
        None => 0,
        Some(before) => before + 1,
    };
    proof {
        let directory = entry@.take(cut as int);
        assert(base_name(directory) =~= entry@.subrange(start as int, cut as int));
    }
    if start == cut {
        None
    } else {
        Some(String::from_str(entry.substring_char(start, cut)))
    }
}

/// One entry of a directory, as the file system reported it.
#[derive(Debug, PartialEq, Eq)]
pub struct DirEntry {
    /// The entry's path, for the operator to read.
    pub path: String,
    /// Whether the entry is a directory.
    pub is_dir: bool,
    /// The entry's base name, where it has one that can be written as text.
    pub name: Option<String>,
}

/// The mathematical value of a [`DirEntry`].
pub struct DirEntryView {
    pub path: Seq<char>,
    pub is_dir: bool,
    pub name: Option<Seq<char>>,
}

impl View for DirEntry {
    type V = DirEntryView;

    open spec fn view(&self) -> DirEntryView {
        DirEntryView {
            path: self.path@,
            is_dir: self.is_dir,
            name: match self.name {
                Some(name) => Some(name@),
                None => None,
            },
        }
    }
}

impl Clone for DirEntry {
    fn clone(&self) -> (copy: Self)
        ensures
            copy@ == self@,
    {
        DirEntry {
            path: self.path.clone(),
            is_dir: self.is_dir,
            name: match &self.name {
                Some(name) => Some(name.clone()),
                None => None,
            },
        }
    }
}

/// The views of a list of directory entries, in order.
pub open spec fn entry_views(entries: Seq<DirEntry>) -> Seq<DirEntryView> {
    entries.map_values(|e: DirEntry| e@)
}

/// The names and paths of a list of candidates, in order.
pub open spec fn candidate_views(candidates: Seq<(String, String)>) -> Seq<
    (Seq<char>, Seq<char>),
> {
    candidates.map_values(|c: (String, String)| (c.0@, c.1@))
}

/// The candidate plugins among the entries of a directory: each directory
/// with a name, as that name and the directory's path, in listing order.
pub open spec fn candidates(entries: Seq<DirEntryView>) -> Seq<(Seq<char>, Seq<char>)>
    decreases entries.len(),
{
    if entries.len() == 0 {
        Seq::empty()
    } else {
        let entry = entries.last();
        let before = candidates(entries.drop_last());
        if entry.is_dir && entry.name is Some {
            before.push((entry.name->Some_0, entry.path))
        } else {
            before
        }
    }
}

/// What is recorded for the directories that have no usable name, in
/// listing order.
pub open spec fn unresolved(entries: Seq<DirEntryView>) -> Seq<ErrorView>
    decreases entries.len(),
{
    if entries.len() == 0 {
        Seq::empty()
    } else {
        let entry = entries.last();
        let before = unresolved(entries.drop_last());
        if entry.is_dir && entry.name is None {
            before.push(ErrorView::EntryNameUnresolvable { path: entry.path })
        } else {
            before
        }
    }
}

/// A listing without directories yields no candidate and records nothing.
pub proof fn lemma_no_directories(entries: Seq<DirEntryView>)
    requires
        forall|i: int| 0 <= i < entries.len() ==> !(#[trigger] entries[i]).is_dir,
    ensures
        candidates(entries) == Seq::<(Seq<char>, Seq<char>)>::empty(),
        unresolved(entries) == Seq::<ErrorView>::empty(),
    decreases entries.len(),
{
    if entries.len() > 0 {
        assert(!entries[entries.len() - 1].is_dir);
        assert forall|i: int| 0 <= i < entries.drop_last().len() implies !(
        #[trigger] entries.drop_last()[i]).is_dir by {
            assert(entries.drop_last()[i] == entries[i]);
        }
        lemma_no_directories(entries.drop_last());
    }
}

/// Picks the candidate plugins out of a directory listing.
///
/// `listing` is `None` where the folder could not be read, which is the one
/// failure. A directory without a usable name is skipped and recorded;
/// entries that are no directories are passed over.
pub fn list_plugins(folder: &str, listing: Option<&Vec<DirEntry>>) -> (listed: Result<
    (Vec<(String, String)>, Vec<PluginError>),
    PluginError,
>)
    ensures
        match listing {
            None => listed matches Err(error) && error@ == (ErrorView::DirectoryUnreadable {
                path: folder@,
            }),
            Some(entries) => listed matches Ok(found) && candidate_views(found.0@) == candidates(
                entry_views(entries@),
            ) && crate::errors::error_views(found.1@) == unresolved(entry_views(entries@)),
        },
{
    let entries = match listing {
        None => {
            return Err(PluginError::DirectoryUnreadable { path: String::from_str(folder) });
        },
        Some(entries) => entries,
    };
    let ghost views = entry_views(entries@);
    let mut found: Vec<(String, String)> = Vec::new();
    let mut skipped: Vec<PluginError> = Vec::new();
    let mut i: usize = 0;
    assert(views.take(0) =~= Seq::empty());
    assert(candidate_views(found@) =~= Seq::empty());
    assert(crate::errors::error_views(skipped@) =~= Seq::empty());
    while i < entries.len()
        invariant
            i <= entries.len(),
            views == entry_views(entries@),
            candidate_views(found@) == candidates(views.take(i as int)),
            crate::errors::error_views(skipped@) == unresolved(views.take(i as int)),
        decreases entries.len() - i,
    {
        let ghost found_before = candidate_views(found@);
        let ghost skipped_before = crate::errors::error_views(skipped@);
        proof {
            assert(views.take(i + 1).drop_last() =~= views.take(i as int));
            assert(views.take(i + 1).last() == entries@[i as int]@);
        }
        let entry = &entries[i];
        if entry.is_dir {
            match &entry.name {
                Some(name) => {
                    found.push((name.clone(), entry.path.clone()));
                    assert(candidate_views(found@) =~= found_before.push((name@, entry.path@)));
                },
                None => {
                    skipped.push(PluginError::EntryNameUnresolvable { path: entry.path.clone() });
                    assert(crate::errors::error_views(skipped@) =~= skipped_before.push(
                        ErrorView::EntryNameUnresolvable { path: entry.path@ },
                    ));
                },
            }
        }
        i = i + 1;
    }
    assert(views.take(i as int) =~= views);
    Ok((found, skipped))
}

} // verus!
