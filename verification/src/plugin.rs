use crate::annotations::{parse_record, record_views, FunctionAnnotation, RecordView};
use crate::errors::{error_views, ErrorView, PluginError};
use crate::json::{decode_text, load_annotations};
use crate::names::{
    distinct, find, lemma_position, lemma_upsert_keeps, lemma_upsert_names, names_of, position,
    store, upsert, Named,
};
use crate::paths::{
    entry_path, join, join_path, plugin_directory, plugin_name_from_entry, plugin_name_of,
    ENTRY_FILE,
};
use crate::signature::{signature_views, FuncInfo, FunctionView};
use crate::text::string_views;
use vstd::prelude::*;
use vstd::string::StringExecFns;

verus! {

/// Name of the function through which a plugin advertises what it offers.
pub const PLUGIN_INFO_FUNC_NAME: &'static str = "atorrlinker_advertise";

/// How the attempt to load one plugin and to call its advertisement
/// function ended.
#[derive(Debug, PartialEq, Eq)]
pub enum LoadOutcome {
    /// The entry module is missing or did not load.
    ModuleLoadFailed,
    /// The entry module binds no advertisement function.
    AdvertiseFunctionMissing,
    /// The advertisement function raised an error.
    AdvertiseCallFailed,
    /// The advertisement function returned something that cannot be
    /// written as JSON text.
    AdvertiseResultMalformed,
    /// The advertisement function returned; this is what it returned, as
    /// JSON text.
    Advertised(String),
}

/// The mathematical value of a [`LoadOutcome`].
pub enum OutcomeView {
    ModuleLoadFailed,
    AdvertiseFunctionMissing,
    AdvertiseCallFailed,
    AdvertiseResultMalformed,
    Advertised(Seq<char>),
}

impl View for LoadOutcome {
    type V = OutcomeView;

    open spec fn view(&self) -> OutcomeView {
        match self {
            LoadOutcome::ModuleLoadFailed => OutcomeView::ModuleLoadFailed,
            LoadOutcome::AdvertiseFunctionMissing => OutcomeView::AdvertiseFunctionMissing,
            LoadOutcome::AdvertiseCallFailed => OutcomeView::AdvertiseCallFailed,
            LoadOutcome::AdvertiseResultMalformed => OutcomeView::AdvertiseResultMalformed,
            LoadOutcome::Advertised(text) => OutcomeView::Advertised(text@),
        }
    }
}

impl Clone for LoadOutcome {
    fn clone(&self) -> (copy: Self)
        ensures
            copy@ == self@,
    {
        match self {
            LoadOutcome::ModuleLoadFailed => LoadOutcome::ModuleLoadFailed,
            LoadOutcome::AdvertiseFunctionMissing => LoadOutcome::AdvertiseFunctionMissing,
            LoadOutcome::AdvertiseCallFailed => LoadOutcome::AdvertiseCallFailed,
            LoadOutcome::AdvertiseResultMalformed => LoadOutcome::AdvertiseResultMalformed,
            LoadOutcome::Advertised(text) => LoadOutcome::Advertised(text.clone()),
        }
    }
}

/// The names of a list of signatures, in order.
pub open spec fn signature_names(signatures: Seq<FunctionView>) -> Seq<Seq<char>> {
    signatures.map_values(|s: FunctionView| s.name)
}

/// The signatures with one more stored under its name: it replaces a
/// signature of the same name, and is appended where there is none.
pub open spec fn insert_signature(signatures: Seq<FunctionView>, signature: FunctionView) -> Seq<
    FunctionView,
> {
    upsert(signatures, signature_names(signatures), signature.name, signature)
}

/// What a list of transmitted records amounts to: the signatures of the
/// records that parse, each stored under its function's name, and the
/// error of each record that does not, in the order of the records.
pub open spec fn collect(records: Seq<RecordView>) -> (Seq<FunctionView>, Seq<ErrorView>)
    decreases records.len(),
{
    if records.len() == 0 {
        (Seq::empty(), Seq::empty())
    } else {
        let before = collect(records.drop_last());
        match parse_record(records.last()) {
            Ok(signature) => (insert_signature(before.0, signature), before.1),
            Err(error) => (before.0, before.1.push(error)),
        }
    }
}

/// What an outcome amounts to: the functions that the plugin offers and
/// the records that were refused, or the reason the plugin is rejected as a
/// whole.
pub open spec fn advertised(outcome: OutcomeView) -> Result<
    (Seq<FunctionView>, Seq<ErrorView>),
    ErrorView,
> {
    match outcome {
        OutcomeView::ModuleLoadFailed => Err(ErrorView::ModuleLoadFailed),
        OutcomeView::AdvertiseFunctionMissing => Err(ErrorView::AdvertiseFunctionMissing),
        OutcomeView::AdvertiseCallFailed => Err(ErrorView::AdvertiseCallFailed),
        OutcomeView::AdvertiseResultMalformed => Err(ErrorView::AdvertiseResultMalformed),
        OutcomeView::Advertised(text) => match decode_text(text) {
            Some(records) => Ok(collect(records)),
            None => Err(ErrorView::AdvertiseResultMalformed),
        },
    }
}

/// A plugin that loaded and advertised: its name, the path of its entry
/// file, and its functions. No two functions share a name.
#[derive(Debug, PartialEq, Eq)]
pub struct Plugin {
    name: String,
    entry_path: String,
    functions: Vec<FuncInfo>,
}

/// The mathematical value of a [`Plugin`].
pub struct PluginView {
    pub name: Seq<char>,
    pub entry_path: Seq<char>,
    pub functions: Seq<FunctionView>,
}

impl View for Plugin {
    type V = PluginView;

    closed spec fn view(&self) -> PluginView {
        PluginView {
            name: self.name@,
            entry_path: self.entry_path@,
            functions: signature_views(self.functions@),
        }
    }
}

impl Clone for Plugin {
    fn clone(&self) -> (copy: Self)
        ensures
            copy@ == self@,
    {
        proof {
            use_type_invariant(self);
        }
        let mut functions: Vec<FuncInfo> = Vec::new();
        let mut i: usize = 0;
        while i < self.functions.len()
            invariant
                i <= self.functions.len(),
                functions@.len() == i,
                forall|k: int| 0 <= k < i ==> (#[trigger] functions@[k])@ == self.functions@[k]@,
            decreases self.functions.len() - i,
        {
            functions.push(self.functions[i].clone());
            i = i + 1;
        }
        proof {
            assert(signature_views(functions@) =~= signature_views(self.functions@));
            assert(names_of(functions@) =~= names_of(self.functions@));
        }
        Plugin { name: self.name.clone(), entry_path: self.entry_path.clone(), functions }
    }
}

impl Named for Plugin {
    open spec fn name_view(&self) -> Seq<char> {
        self@.name
    }

    fn name_ref(&self) -> (name: &String) {
        &self.name
    }
}

/// The views of a list of plugins, in order.
pub open spec fn plugin_views(plugins: Seq<Plugin>) -> Seq<PluginView> {
    plugins.map_values(|p: Plugin| p@)
}

/// What loading a plugin amounts to: the plugin with the functions that
/// its outcome holds, and the records that were refused, or the reason the
/// plugin is rejected.
pub open spec fn loaded(name: Seq<char>, entry: Seq<char>, outcome: OutcomeView) -> Result<
    (PluginView, Seq<ErrorView>),
    ErrorView,
> {
    match advertised(outcome) {
        Ok(found) => Ok((PluginView { name, entry_path: entry, functions: found.0 }, found.1)),
        Err(error) => Err(error),
    }
}

/// What loading the plugin behind an entry file amounts to. The plugin is
/// called after the directory that holds the file.
pub open spec fn loaded_from_path(entry: Seq<char>, outcome: OutcomeView) -> Result<
    (PluginView, Seq<ErrorView>),
    ErrorView,
> {
    match plugin_name_of(entry) {
        Some(name) => loaded(name, entry, outcome),
        None => Err(ErrorView::EntryNameUnresolvable { path: entry }),
    }
}

/// Storing a signature keeps the names distinct.
pub proof fn lemma_insert_signature(signatures: Seq<FunctionView>, signature: FunctionView)
    requires
        distinct(signature_names(signatures)),
    ensures
        distinct(signature_names(insert_signature(signatures, signature))),
        signature_names(insert_signature(signatures, signature)) == upsert(
            signature_names(signatures),
            signature_names(signatures),
            signature.name,
            signature.name,
        ),
{
    let names = signature_names(signatures);
    lemma_position(names, signature.name);
    lemma_upsert_names(names, signature.name);
    assert(signature_names(insert_signature(signatures, signature)) =~= upsert(
        names,
        names,
        signature.name,
        signature.name,
    ));
}

/// No two of the collected signatures share a name.
pub proof fn lemma_collect_distinct(records: Seq<RecordView>)
    ensures
        distinct(signature_names(collect(records).0)),
    decreases records.len(),
{
    if records.len() > 0 {
        lemma_collect_distinct(records.drop_last());
        match parse_record(records.last()) {
            Ok(signature) => {
                lemma_insert_signature(collect(records.drop_last()).0, signature);
            },
            Err(_) => {},
        }
    }
}

/// A record that names an argument twice is refused: its error is among
/// those recorded.
pub proof fn lemma_collect_rejects(records: Seq<RecordView>, at: int)
    requires
        0 <= at < records.len(),
        parse_record(records[at]) is Err,
    ensures
        collect(records).1.contains(parse_record(records[at])->Err_0),
    decreases records.len(),
{
    let front = records.drop_last();
    let error = parse_record(records[at])->Err_0;
    if at == records.len() - 1 {
        assert(collect(records).1[collect(front).1.len() as int] == error);
    } else {
        assert(front[at] == records[at]);
        lemma_collect_rejects(front, at);
        let i = choose|i: int| 0 <= i < collect(front).1.len() && collect(front).1[i] == error;
        assert(collect(records).1[i] == error);
    }
}

/// A function whose only record is refused is not among the signatures.
pub proof fn lemma_collect_leaves_out(records: Seq<RecordView>, name: Seq<char>)
    requires
        forall|j: int|
            0 <= j < records.len() && (#[trigger] records[j]).name == name ==> parse_record(
                records[j],
            ) is Err,
    ensures
        position(signature_names(collect(records).0), name) is None,
    decreases records.len(),
{
    if records.len() > 0 {
        let front = records.drop_last();
        assert forall|j: int| 0 <= j < front.len() && (#[trigger] front[j]).name
            == name implies parse_record(front[j]) is Err by {
            assert(front[j] == records[j]);
        }
        lemma_collect_leaves_out(front, name);
        lemma_collect_distinct(front);
        let last = records[records.len() - 1];
        match parse_record(last) {
            Ok(signature) => {
                assert(signature.name == last.name);
                lemma_insert_signature(collect(front).0, signature);
                lemma_upsert_names(signature_names(collect(front).0), signature.name);
            },
            Err(_) => {},
        }
    }
}

/// A record that parses is kept whatever becomes of the records beside it:
/// its signature stands under the function's name, unless a later record
/// that parses has the same name.
pub proof fn lemma_collect_keeps(records: Seq<RecordView>, at: int)
    requires
        0 <= at < records.len(),
        parse_record(records[at]) is Ok,
        forall|j: int|
            at < j < records.len() && parse_record(#[trigger] records[j]) is Ok
                ==> records[j].name != records[at].name,
    ensures
        position(signature_names(collect(records).0), records[at].name) matches Some(i)
            && collect(records).0[i] == parse_record(records[at])->Ok_0,
    decreases records.len(),
{
    let front = records.drop_last();
    let kept = parse_record(records[at])->Ok_0;
    let before = collect(front).0;
    let names = signature_names(before);
    lemma_collect_distinct(front);
    assert(kept.name == records[at].name);
    if at == records.len() - 1 {
        lemma_insert_signature(before, kept);
        lemma_upsert_names(names, kept.name);
        lemma_position(names, kept.name);
        lemma_position(signature_names(insert_signature(before, kept)), kept.name);
    } else {
        assert(front[at] == records[at]);
        assert forall|j: int| at < j < front.len() && parse_record(#[trigger] front[j]) is Ok
            implies front[j].name != front[at].name by {
            assert(front[j] == records[j]);
        }
        lemma_collect_keeps(front, at);
        let last = records[records.len() - 1];
        match parse_record(last) {
            Ok(signature) => {
                assert(signature.name == last.name);
                lemma_insert_signature(before, signature);
                lemma_upsert_names(names, signature.name);
                lemma_upsert_keeps(before, names, signature.name, signature, kept.name);
            },
            Err(_) => {},
        }
    }
}

/// Parses every record and stores what parses under its function's name. A
/// record that names an argument twice is refused and recorded; the records
/// beside it are not affected.
pub fn collect_signatures(records: &Vec<FunctionAnnotation>) -> (collected: (
    Vec<FuncInfo>,
    Vec<PluginError>,
))
    ensures
        signature_views(collected.0@) == collect(record_views(records@)).0,
        error_views(collected.1@) == collect(record_views(records@)).1,
        distinct(names_of(collected.0@)),
{
    let ghost views = record_views(records@);
    let mut signatures: Vec<FuncInfo> = Vec::new();
    let mut rejected: Vec<PluginError> = Vec::new();
    let mut i: usize = 0;
    assert(views.take(0) =~= Seq::empty());
    assert(signature_views(signatures@) =~= Seq::empty());
    assert(error_views(rejected@) =~= Seq::empty());
    while i < records.len()
        invariant
            i <= records.len(),
            views == record_views(records@),
            signature_views(signatures@) == collect(views.take(i as int)).0,
            error_views(rejected@) == collect(views.take(i as int)).1,
        decreases records.len() - i,
    {
        let ghost stored = signatures@;
        let ghost refused = error_views(rejected@);
        proof {
            assert(views.take(i + 1).drop_last() =~= views.take(i as int));
            assert(views.take(i + 1).last() == records@[i as int]@);
        }
        match records[i].parse() {
            Ok(signature) => {
                let ghost view = signature@;
                store(&mut signatures, signature);
                proof {
                    assert(names_of(stored) =~= signature_names(signature_views(stored)));
                    lemma_position(names_of(stored), view.name);
                    assert(signature_views(signatures@) =~= insert_signature(
                        signature_views(stored),
                        view,
                    ));
                }
            },
            Err(error) => {
                let ghost view = error@;
                rejected.push(error);
                assert(error_views(rejected@) =~= refused.push(view));
            },
        }
        i = i + 1;
    }
    proof {
        assert(views.take(i as int) =~= views);
        lemma_collect_distinct(views);
        assert(names_of(signatures@) =~= signature_names(signature_views(signatures@)));
    }
    (signatures, rejected)
}

/// Registers a directory with the module search path of the embedded
/// runtime. The directory goes in front, so that it is searched first;
/// every path registered before stays, in the order it had.
pub fn python_add_path(search_path: &mut Vec<String>, path: &str)
    ensures
        string_views(final(search_path)@) == seq![path@] + string_views(old(search_path)@),
{
    let ghost before = string_views(search_path@);
    search_path.insert(0, String::from_str(path));
    assert(string_views(search_path@) =~= seq![path@] + before);
}

impl Plugin {
    #[verifier::type_invariant]
    spec fn well_formed(self) -> bool {
        distinct(names_of(self.functions@))
    }

    /// The path of the entry file of the plugin called `name` under
    /// `base_path`. Nothing is looked up on disk.
    pub fn name_to_path(base_path: &str, name: &str) -> (path: String)
        ensures
            path@ == entry_path(base_path@, name@),
    {
        let directory = join(base_path, name);
        join(directory.as_str(), ENTRY_FILE)
    }

    /// The directory of the plugin called `name` under `plugin_root`.
    pub fn plugin_name_from_path(plugin_root: &str, name: String) -> (path: String)
        ensures
            path@ == plugin_directory(plugin_root@, name@),
    {
        join(plugin_root, name.as_str())
    }

    /// The functions that a plugin advertised, and the records of its
    /// advertisement that were refused; or the reason the plugin offers
    /// nothing at all.
    pub fn get_plugin_functions(outcome: &LoadOutcome) -> (found: Result<
        (Vec<FuncInfo>, Vec<PluginError>),
        PluginError,
    >)
        ensures
            match advertised(outcome@) {
                Ok(expected) => found matches Ok(functions) && signature_views(functions.0@)
                    == expected.0 && error_views(functions.1@) == expected.1 && distinct(
                    names_of(functions.0@),
                ),
                Err(error) => found matches Err(reason) && reason@ == error,
            },
    {
        match outcome {
            LoadOutcome::ModuleLoadFailed => Err(PluginError::ModuleLoadFailed),
            LoadOutcome::AdvertiseFunctionMissing => Err(PluginError::AdvertiseFunctionMissing),
            LoadOutcome::AdvertiseCallFailed => Err(PluginError::AdvertiseCallFailed),
            LoadOutcome::AdvertiseResultMalformed => Err(PluginError::AdvertiseResultMalformed),
            LoadOutcome::Advertised(text) => match load_annotations(text.as_str()) {
                Ok(records) => Ok(collect_signatures(&records)),
                Err(error) => Err(error),
            },
        }
    }

    /// Makes the record of the plugin called `name` from the outcome of
    /// loading it. A plugin is recorded with all that it validly advertised
    /// or not at all.
    pub fn load(name: String, entry_path: String, outcome: &LoadOutcome) -> (made: Result<
        (Plugin, Vec<PluginError>),
        PluginError,
    >)
        ensures
            match loaded(name@, entry_path@, outcome@) {
                Ok(expected) => made matches Ok(plugin) && plugin.0@ == expected.0 && error_views(
                    plugin.1@,
                ) == expected.1,
                Err(error) => made matches Err(reason) && reason@ == error,
            },
    {
        match Self::get_plugin_functions(outcome) {
            Ok((functions, rejected)) => Ok((Plugin { name, entry_path, functions }, rejected)),
            Err(error) => Err(error),
        }
    }

    /// Makes the record of the plugin whose entry file is at `path`.
    pub fn from_path(path: &str, outcome: &LoadOutcome) -> (made: Result<
        (Plugin, Vec<PluginError>),
        PluginError,
    >)
        ensures
            match loaded_from_path(path@, outcome@) {
                Ok(expected) => made matches Ok(plugin) && plugin.0@ == expected.0 && error_views(
                    plugin.1@,
                ) == expected.1,
                Err(error) => made matches Err(reason) && reason@ == error,
            },
    {
        match plugin_name_from_entry(path) {
            Some(name) => Self::load(name, String::from_str(path), outcome),
            None => Err(PluginError::EntryNameUnresolvable { path: String::from_str(path) }),
        }
    }

    /// The plugin's name.
    pub fn name(&self) -> (name: &String)
        ensures
            name@ == self@.name,
    {
        &self.name
    }

    /// The path of the plugin's entry file.
    pub fn entry_path(&self) -> (path: &String)
        ensures
            path@ == self@.entry_path,
    {
        &self.entry_path
    }

    /// The plugin's functions. Their names are distinct.
    pub fn functions(&self) -> (functions: &Vec<FuncInfo>)
        ensures
            signature_views(functions@) == self@.functions,
            distinct(signature_names(self@.functions)),
    {
        proof {
            use_type_invariant(self);
            assert(signature_names(self@.functions) =~= names_of(self.functions@));
        }
        &self.functions
    }

    /// The function called `name`, where the plugin has one.
    pub fn function(&self, name: &str) -> (found: Option<&FuncInfo>)
        ensures
            match position(signature_names(self@.functions), name@) {
                Some(i) => found matches Some(signature) && signature@ == self@.functions[i],
                None => found is None,
            },
    {
        let wanted = String::from_str(name);
        proof {
            assert(signature_names(self@.functions) =~= names_of(self.functions@));
            lemma_position(names_of(self.functions@), name@);
        }
        match find(&self.functions, &wanted) {
            Some(i) => Some(&self.functions[i]),
            None => None,
        }
    }
}

} // verus!
