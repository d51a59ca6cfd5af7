use crate::errors::{
    diagnostic_views, error_views, Diagnostic, DiagnosticView, ErrorView, PluginError,
};
use crate::names::{
    distinct, find, lemma_position, lemma_upsert_keeps, lemma_upsert_names, names_of, position,
    store, upsert, Named,
};
use crate::paths::{
    candidate_views, candidates, entry_path, entry_views, lemma_no_directories, list_plugins,
    unresolved, DirEntry, DirEntryView,
};
use crate::plugin::{
    loaded, plugin_views, signature_names, LoadOutcome, OutcomeView, Plugin, PluginView,
};
use crate::signature::FuncInfo;
use crate::text::string_views;
use vstd::prelude::*;
use vstd::string::StringExecFns;

verus! {

/// The names of a list of plugins, in order.
pub open spec fn plugin_names(plugins: Seq<PluginView>) -> Seq<Seq<char>> {
    plugins.map_values(|p: PluginView| p.name)
}

/// The plugins with one more stored under its name: it replaces a plugin
/// of the same name, and is appended where there is none.
pub open spec fn insert_plugin(plugins: Seq<PluginView>, plugin: PluginView) -> Seq<PluginView> {
    upsert(plugins, plugin_names(plugins), plugin.name, plugin)
}

/// The names under which outcomes were reported, in order.
pub open spec fn outcome_names(outcomes: Seq<(Seq<char>, OutcomeView)>) -> Seq<Seq<char>> {
    outcomes.map_values(|o: (Seq<char>, OutcomeView)| o.0)
}

/// The names and views of a list of reported outcomes, in order.
pub open spec fn outcome_views(outcomes: Seq<(String, LoadOutcome)>) -> Seq<
    (Seq<char>, OutcomeView),
> {
    outcomes.map_values(|o: (String, LoadOutcome)| (o.0@, o.1@))
}

/// The outcome reported for a plugin: the first one under its name. A
/// plugin for which none was reported did not load.
pub open spec fn outcome_for(outcomes: Seq<(Seq<char>, OutcomeView)>, name: Seq<char>)
    -> OutcomeView {
    match position(outcome_names(outcomes), name) {
        Some(i) => outcomes[i].1,
        None => OutcomeView::ModuleLoadFailed,
    }
}

/// The errors of one plugin as diagnostics that name it.
pub open spec fn tagged(name: Seq<char>, errors: Seq<ErrorView>) -> Seq<DiagnosticView> {
    errors.map_values(|e: ErrorView| DiagnosticView { plugin: Some(name), error: e })
}

/// Errors that concern no plugin, as diagnostics.
pub open spec fn untagged(errors: Seq<ErrorView>) -> Seq<DiagnosticView> {
    errors.map_values(|e: ErrorView| DiagnosticView { plugin: None, error: e })
}

/// What a discovery run yields: the plugins that loaded, and everything
/// that was recorded on the way.
pub struct Discovery {
    pub plugins: Seq<PluginView>,
    pub diagnostics: Seq<DiagnosticView>,
}

/// What the candidates amount to, taken in order. A candidate that loads
/// is stored under its name, and the records it had refused are recorded
/// under its name; a candidate that does not load leaves the plugins as
/// they are and records the one reason.
pub open spec fn discover(
    root: Seq<char>,
    found: Seq<(Seq<char>, Seq<char>)>,
    outcomes: Seq<(Seq<char>, OutcomeView)>,
) -> Discovery
    decreases found.len(),
{
    if found.len() == 0 {
        Discovery { plugins: Seq::empty(), diagnostics: Seq::empty() }
    } else {
        let before = discover(root, found.drop_last(), outcomes);
        let name = found.last().0;
        match loaded(name, entry_path(root, name), outcome_for(outcomes, name)) {
            Ok(made) => Discovery {
                plugins: insert_plugin(before.plugins, made.0),
                diagnostics: before.diagnostics + tagged(name, made.1),
            },
            Err(error) => Discovery {
                plugins: before.plugins,
                diagnostics: before.diagnostics.push(
                    DiagnosticView { plugin: Some(name), error },
                ),
            },
        }
    }
}

/// What building a registry amounts to. A root that cannot be listed
/// yields no plugin and the one diagnostic; otherwise the directories
/// without a usable name are recorded first, then the candidates are taken
/// in listing order.
pub open spec fn discovered(
    root: Seq<char>,
    listing: Option<Seq<DirEntryView>>,
    outcomes: Seq<(Seq<char>, OutcomeView)>,
) -> Discovery {
    match listing {
        None => Discovery {
            plugins: Seq::empty(),
            diagnostics: seq![
                DiagnosticView { plugin: None, error: ErrorView::DirectoryUnreadable { path: root } },
            ],
        },
        Some(entries) => {
            let run = discover(root, candidates(entries), outcomes);
            Discovery {
                plugins: run.plugins,
                diagnostics: untagged(unresolved(entries)) + run.diagnostics,
            }
        },
    }
}

/// Storing a plugin keeps the names distinct.
pub proof fn lemma_insert_plugin(plugins: Seq<PluginView>, plugin: PluginView)
    requires
        distinct(plugin_names(plugins)),
    ensures
        distinct(plugin_names(insert_plugin(plugins, plugin))),
        plugin_names(insert_plugin(plugins, plugin)) == upsert(
            plugin_names(plugins),
            plugin_names(plugins),
            plugin.name,
            plugin.name,
        ),
{
    let names = plugin_names(plugins);
    lemma_position(names, plugin.name);
    lemma_upsert_names(names, plugin.name);
    assert(plugin_names(insert_plugin(plugins, plugin)) =~= upsert(
        names,
        names,
        plugin.name,
        plugin.name,
    ));
}

/// No two of the discovered plugins share a name.
pub proof fn lemma_discover_distinct(
    root: Seq<char>,
    found: Seq<(Seq<char>, Seq<char>)>,
    outcomes: Seq<(Seq<char>, OutcomeView)>,
)
    ensures
        distinct(plugin_names(discover(root, found, outcomes).plugins)),
    decreases found.len(),
{
    if found.len() > 0 {
        lemma_discover_distinct(root, found.drop_last(), outcomes);
        let name = found.last().0;
        match loaded(name, entry_path(root, name), outcome_for(outcomes, name)) {
            Ok(made) => {
                lemma_insert_plugin(discover(root, found.drop_last(), outcomes).plugins, made.0);
            },
            Err(_) => {},
        }
    }
}

/// The errors recorded under a plugin's name, in order.
pub open spec fn recorded_for(diagnostics: Seq<DiagnosticView>, name: Seq<char>) -> Seq<ErrorView>
    decreases diagnostics.len(),
{
    if diagnostics.len() == 0 {
        Seq::empty()
    } else {
        let before = recorded_for(diagnostics.drop_last(), name);
        if diagnostics.last().plugin == Some(name) {
            before.push(diagnostics.last().error)
        } else {
            before
        }
    }
}

/// What is recorded under a name in two lists, one after the other, is
/// what is recorded in the first and then in the second.
pub proof fn lemma_recorded_for_add(
    first: Seq<DiagnosticView>,
    second: Seq<DiagnosticView>,
    name: Seq<char>,
)
    ensures
        recorded_for(first + second, name) == recorded_for(first, name) + recorded_for(
            second,
            name,
        ),
    decreases second.len(),
{
    if second.len() == 0 {
        assert(first + second =~= first);
        assert(recorded_for(first, name) + recorded_for(second, name) =~= recorded_for(
            first,
            name,
        ));
    } else {
        lemma_recorded_for_add(first, second.drop_last(), name);
        assert((first + second).drop_last() =~= first + second.drop_last());
        assert((first + second).last() == second.last());
        assert(recorded_for(first + second, name) =~= recorded_for(first, name) + recorded_for(
            second,
            name,
        ));
    }
}

/// The errors of one plugin are recorded under its name and under no
/// other.
pub proof fn lemma_recorded_for_tagged(tag: Seq<char>, errors: Seq<ErrorView>, name: Seq<char>)
    ensures
        recorded_for(tagged(tag, errors), name) == if tag == name {
            errors
        } else {
            Seq::empty()
        },
    decreases errors.len(),
{
    if errors.len() > 0 {
        lemma_recorded_for_tagged(tag, errors.drop_last(), name);
        assert(tagged(tag, errors).drop_last() =~= tagged(tag, errors.drop_last()));
        if tag == name {
            assert(recorded_for(tagged(tag, errors), name) =~= errors);
        }
    } else if tag == name {
        assert(recorded_for(tagged(tag, errors), name) =~= errors);
    }
}

/// Errors that concern no plugin are recorded under no name.
pub proof fn lemma_recorded_for_untagged(errors: Seq<ErrorView>, name: Seq<char>)
    ensures
        recorded_for(untagged(errors), name) == Seq::<ErrorView>::empty(),
    decreases errors.len(),
{
    if errors.len() > 0 {
        lemma_recorded_for_untagged(errors.drop_last(), name);
        assert(untagged(errors).drop_last() =~= untagged(errors.drop_last()));
    }
}

/// A name that no candidate has is the name of no discovered plugin, and
/// nothing is recorded under it.
pub proof fn lemma_discover_absent(
    root: Seq<char>,
    found: Seq<(Seq<char>, Seq<char>)>,
    outcomes: Seq<(Seq<char>, OutcomeView)>,
    name: Seq<char>,
)
    requires
        forall|j: int| 0 <= j < found.len() ==> (#[trigger] found[j]).0 != name,
    ensures
        position(plugin_names(discover(root, found, outcomes).plugins), name) is None,
        recorded_for(discover(root, found, outcomes).diagnostics, name) == Seq::<
            ErrorView,
        >::empty(),
    decreases found.len(),
{
    if found.len() > 0 {
        let front = found.drop_last();
        assert forall|j: int| 0 <= j < front.len() implies (#[trigger] front[j]).0 != name by {
            assert(front[j] == found[j]);
        }
        lemma_discover_absent(root, front, outcomes, name);
        lemma_discover_distinct(root, front, outcomes);
        let before = discover(root, front, outcomes);
        let own = found.last().0;
        assert(found[found.len() - 1].0 != name);
        match loaded(own, entry_path(root, own), outcome_for(outcomes, own)) {
            Ok(made) => {
                lemma_insert_plugin(before.plugins, made.0);
                lemma_upsert_names(plugin_names(before.plugins), own);
                lemma_recorded_for_add(before.diagnostics, tagged(own, made.1), name);
                lemma_recorded_for_tagged(own, made.1, name);
                assert(recorded_for(before.diagnostics, name) + Seq::<ErrorView>::empty()
                    =~= recorded_for(before.diagnostics, name));
            },
            Err(error) => {
                let entry = DiagnosticView { plugin: Some(own), error };
                assert(before.diagnostics.push(entry).drop_last() =~= before.diagnostics);
            },
        }
    }
}

/// For a candidate whose name no other candidate has, discovery does what
/// loading that one plugin amounts to. Where it loads, the registry holds it
/// under its name, as loaded, and what is recorded under its name are the
/// records it had refused. Where it does not load, the registry holds no
/// plugin of that name, and the one reason is what is recorded under it.
pub proof fn lemma_discover_one(
    root: Seq<char>,
    found: Seq<(Seq<char>, Seq<char>)>,
    outcomes: Seq<(Seq<char>, OutcomeView)>,
    at: int,
)
    requires
        0 <= at < found.len(),
        forall|j: int| 0 <= j < found.len() && j != at ==> (#[trigger] found[j]).0 != found[at].0,
    ensures
        match loaded(
            found[at].0,
            entry_path(root, found[at].0),
            outcome_for(outcomes, found[at].0),
        ) {
            Ok(made) => position(
                plugin_names(discover(root, found, outcomes).plugins),
                found[at].0,
            ) matches Some(i) && discover(root, found, outcomes).plugins[i] == made.0
                && recorded_for(discover(root, found, outcomes).diagnostics, found[at].0)
                == made.1,
            Err(error) => position(
                plugin_names(discover(root, found, outcomes).plugins),
                found[at].0,
            ) is None && recorded_for(discover(root, found, outcomes).diagnostics, found[at].0)
                == seq![error],
        },
    decreases found.len(),
{
    let name = found[at].0;
    let front = found.drop_last();
    let before = discover(root, front, outcomes);
    let own = found.last().0;
    lemma_discover_distinct(root, front, outcomes);
    let names = plugin_names(before.plugins);
    if at == found.len() - 1 {
        assert forall|j: int| 0 <= j < front.len() implies (#[trigger] front[j]).0 != name by {
            assert(front[j] == found[j]);
        }
        lemma_discover_absent(root, front, outcomes, name);
        match loaded(name, entry_path(root, name), outcome_for(outcomes, name)) {
            Ok(made) => {
                lemma_insert_plugin(before.plugins, made.0);
                lemma_upsert_names(names, name);
                lemma_position(upsert(names, names, name, name), name);
                lemma_position(names, name);
                lemma_recorded_for_add(before.diagnostics, tagged(name, made.1), name);
                lemma_recorded_for_tagged(name, made.1, name);
                assert(Seq::<ErrorView>::empty() + made.1 =~= made.1);
            },
            Err(error) => {
                let entry = DiagnosticView { plugin: Some(name), error };
                assert(before.diagnostics.push(entry).drop_last() =~= before.diagnostics);
                assert(Seq::<ErrorView>::empty().push(error) =~= seq![error]);
            },
        }
    } else {
        assert(front[at] == found[at]);
        assert forall|j: int| 0 <= j < front.len() && j != at implies (#[trigger] front[j]).0
            != front[at].0 by {
            assert(front[j] == found[j]);
        }
        lemma_discover_one(root, front, outcomes, at);
        assert(found[found.len() - 1].0 != name);
        match loaded(own, entry_path(root, own), outcome_for(outcomes, own)) {
            Ok(made) => {
                lemma_insert_plugin(before.plugins, made.0);
                lemma_upsert_names(names, own);
                if position(names, name) is Some {
                    lemma_upsert_keeps(before.plugins, names, own, made.0, name);
                }
                lemma_recorded_for_add(before.diagnostics, tagged(own, made.1), name);
                lemma_recorded_for_tagged(own, made.1, name);
                assert(recorded_for(before.diagnostics, name) + Seq::<ErrorView>::empty()
                    =~= recorded_for(before.diagnostics, name));
            },
            Err(error) => {
                let entry = DiagnosticView { plugin: Some(own), error };
                assert(before.diagnostics.push(entry).drop_last() =~= before.diagnostics);
            },
        }
    }
}

/// A root without subdirectories builds an empty registry and records
/// nothing.
pub proof fn lemma_no_subdirectories(
    root: Seq<char>,
    entries: Seq<DirEntryView>,
    outcomes: Seq<(Seq<char>, OutcomeView)>,
)
    requires
        forall|i: int| 0 <= i < entries.len() ==> !(#[trigger] entries[i]).is_dir,
    ensures
        discovered(root, Some(entries), outcomes).plugins == Seq::<PluginView>::empty(),
        discovered(root, Some(entries), outcomes).diagnostics == Seq::<DiagnosticView>::empty(),
{
    lemma_no_directories(entries);
    assert(untagged(Seq::<ErrorView>::empty()) + Seq::<DiagnosticView>::empty() =~= Seq::<
        DiagnosticView,
    >::empty());
}

/// A plugin directory without a loadable entry file is left out of the
/// registry, and exactly one diagnostic names it: that its module did not
/// load. This holds of a candidate whose name no other candidate has, as in
/// every listing of a directory.
pub proof fn lemma_missing_entry_file(
    root: Seq<char>,
    entries: Seq<DirEntryView>,
    outcomes: Seq<(Seq<char>, OutcomeView)>,
    at: int,
)
    requires
        0 <= at < candidates(entries).len(),
        forall|j: int|
            0 <= j < candidates(entries).len() && j != at ==> (#[trigger] candidates(
                entries,
            )[j]).0 != candidates(entries)[at].0,
        outcome_for(outcomes, candidates(entries)[at].0) == OutcomeView::ModuleLoadFailed,
    ensures
        position(
            plugin_names(discovered(root, Some(entries), outcomes).plugins),
            candidates(entries)[at].0,
        ) is None,
        recorded_for(
            discovered(root, Some(entries), outcomes).diagnostics,
            candidates(entries)[at].0,
        ) == seq![ErrorView::ModuleLoadFailed],
{
    let found = candidates(entries);
    let name = found[at].0;
    lemma_discover_one(root, found, outcomes, at);
    let run = discover(root, found, outcomes);
    lemma_recorded_for_add(untagged(unresolved(entries)), run.diagnostics, name);
    lemma_recorded_for_untagged(unresolved(entries), name);
    assert(Seq::<ErrorView>::empty() + seq![ErrorView::ModuleLoadFailed] =~= seq![
        ErrorView::ModuleLoadFailed,
    ]);
}

/// The plugins that loaded, each under its name. A registry is made once
/// and only read afterwards.
#[derive(Debug, PartialEq, Eq)]
pub struct PluginRegistry {
    plugins: Vec<Plugin>,
}

impl View for PluginRegistry {
    type V = Seq<PluginView>;

    closed spec fn view(&self) -> Seq<PluginView> {
        plugin_views(self.plugins@)
    }
}

/// Moves the errors of one plugin to the end of the diagnostics.
fn record_all(diagnostics: &mut Vec<Diagnostic>, name: &String, errors: Vec<PluginError>)
    ensures
        diagnostic_views(final(diagnostics)@) == diagnostic_views(old(diagnostics)@) + tagged(
            name@,
            error_views(errors@),
        ),
{
    let ghost before = diagnostic_views(diagnostics@);
    let ghost all = error_views(errors@);
    let mut rest = errors;
    let ghost mut moved: int = 0;
    assert(all.take(0) =~= Seq::empty());
    assert(before + tagged(name@, all.take(0)) =~= before);
    assert(all.skip(0) =~= all);
    while rest.len() > 0
        invariant
            0 <= moved <= all.len(),
            error_views(rest@) == all.skip(moved),
            diagnostic_views(diagnostics@) == before + tagged(name@, all.take(moved)),
        decreases rest.len(),
    {
        let ghost recorded = diagnostic_views(diagnostics@);
        let ghost remaining = rest@;
        proof {
            assert(error_views(remaining).len() == remaining.len());
            assert(all.skip(moved).len() == all.len() - moved);
            assert(all.skip(moved)[0] == all[moved]);
        }
        let error = rest.remove(0);
        proof {
            assert(error@ == error_views(remaining)[0]);
            assert forall|k: int| 0 <= k < rest@.len() implies error_views(rest@)[k] == all.skip(
                moved + 1,
            )[k] by {
                assert(rest@[k] == remaining[k + 1]);
                assert(error_views(remaining)[k + 1] == all.skip(moved)[k + 1]);
            }
            assert(error_views(rest@) =~= all.skip(moved + 1));
        }
        diagnostics.push(Diagnostic { plugin: Some(name.clone()), error });
        proof {
            assert(diagnostic_views(diagnostics@) =~= recorded.push(
                DiagnosticView { plugin: Some(name@), error: all[moved] },
            ));
            assert(all.take(moved + 1) =~= all.take(moved).push(all[moved]));
            assert(tagged(name@, all.take(moved + 1)) =~= tagged(name@, all.take(moved)).push(
                DiagnosticView { plugin: Some(name@), error: all[moved] },
            ));
            assert(diagnostic_views(diagnostics@) =~= before + tagged(
                name@,
                all.take(moved + 1),
            ));
            moved = moved + 1;
        }
    }
    assert(all.take(moved) =~= all);
}

/// Moves errors that concern no plugin into a fresh list of diagnostics.
fn record_unnamed(errors: Vec<PluginError>) -> (diagnostics: Vec<Diagnostic>)
    ensures
        diagnostic_views(diagnostics@) == untagged(error_views(errors@)),
{
    let ghost all = error_views(errors@);
    let mut diagnostics: Vec<Diagnostic> = Vec::new();
    let mut rest = errors;
    let ghost mut moved: int = 0;
    assert(diagnostic_views(diagnostics@) =~= untagged(all.take(0)));
    assert(all.skip(0) =~= all);
    while rest.len() > 0
        invariant
            0 <= moved <= all.len(),
            error_views(rest@) == all.skip(moved),
            diagnostic_views(diagnostics@) == untagged(all.take(moved)),
        decreases rest.len(),
    {
        let ghost recorded = diagnostic_views(diagnostics@);
        let ghost remaining = rest@;
        proof {
            assert(error_views(remaining).len() == remaining.len());
            assert(all.skip(moved).len() == all.len() - moved);
            assert(all.skip(moved)[0] == all[moved]);
        }
        let error = rest.remove(0);
        proof {
            assert(error@ == error_views(remaining)[0]);
            assert forall|k: int| 0 <= k < rest@.len() implies error_views(rest@)[k] == all.skip(
                moved + 1,
            )[k] by {
                assert(rest@[k] == remaining[k + 1]);
                assert(error_views(remaining)[k + 1] == all.skip(moved)[k + 1]);
            }
            assert(error_views(rest@) =~= all.skip(moved + 1));
        }
        diagnostics.push(Diagnostic { plugin: None, error });
        proof {
            assert(diagnostic_views(diagnostics@) =~= recorded.push(
                DiagnosticView { plugin: None, error: all[moved] },
            ));
            assert(all.take(moved + 1) =~= all.take(moved).push(all[moved]));
            assert(diagnostic_views(diagnostics@) =~= untagged(all.take(moved + 1)));
            moved = moved + 1;
        }
    }
    assert(all.take(moved) =~= all);
    diagnostics
}

impl PluginRegistry {
    #[verifier::type_invariant]
    spec fn well_formed(self) -> bool {
        distinct(names_of(self.plugins@))
    }

    /// Builds the registry of the plugins under `root`.
    ///
    /// `listing` is what reading `root` gave, `None` where it could not be
    /// read. `outcomes` holds, under each plugin's name, how loading that
    /// plugin ended; a candidate without an outcome counts as not loaded.
    /// Building never fails: what did not load is left out and recorded.
    pub fn build(
        root: &str,
        listing: Option<&Vec<DirEntry>>,
        outcomes: &Vec<(String, LoadOutcome)>,
    ) -> (built: (PluginRegistry, Vec<Diagnostic>))
        ensures
            built.0@ == discovered(
                root@,
                match listing {
                    Some(entries) => Some(entry_views(entries@)),
                    None => None,
                },
                outcome_views(outcomes@),
            ).plugins,
            diagnostic_views(built.1@) == discovered(
                root@,
                match listing {
                    Some(entries) => Some(entry_views(entries@)),
                    None => None,
                },
                outcome_views(outcomes@),
            ).diagnostics,
    {
        let mut plugins: Vec<Plugin> = Vec::new();
        let (found, skipped) = match list_plugins(root, listing) {
            Err(error) => {
                let mut diagnostics: Vec<Diagnostic> = Vec::new();
                diagnostics.push(Diagnostic { plugin: None, error });
                proof {
                    assert(plugin_views(plugins@) =~= Seq::empty());
                    assert(diagnostic_views(diagnostics@) =~= seq![
                        DiagnosticView {
                            plugin: None,
                            error: ErrorView::DirectoryUnreadable { path: root@ },
                        },
                    ]);
                }
                return (PluginRegistry { plugins }, diagnostics);
            },
            Ok(listed) => listed,
        };
        let ghost entries = entry_views(listing->Some_0@);
        let ghost reported = outcome_views(outcomes@);
        let ghost wanted = candidate_views(found@);
        let mut diagnostics = record_unnamed(skipped);
        let ghost head = diagnostic_views(diagnostics@);
        let missing = LoadOutcome::ModuleLoadFailed;
        let mut i: usize = 0;
        proof {
            assert(wanted.take(0) =~= Seq::empty());
            assert(plugin_views(plugins@) =~= Seq::empty());
            assert(head + Seq::<DiagnosticView>::empty() =~= head);
        }
        while i < found.len()
            invariant
                i <= found.len(),
                wanted == candidate_views(found@),
                reported == outcome_views(outcomes@),
                missing@ == OutcomeView::ModuleLoadFailed,
                plugin_views(plugins@) == discover(root@, wanted.take(i as int), reported).plugins,
                diagnostic_views(diagnostics@) == head + discover(
                    root@,
                    wanted.take(i as int),
                    reported,
                ).diagnostics,
            decreases found.len() - i,
        {
            let ghost stored = plugins@;
            let ghost recorded = diagnostic_views(diagnostics@);
            let ghost before = discover(root@, wanted.take(i as int), reported);
            let name = found[i].0.clone();
            proof {
                assert(wanted.take(i + 1).drop_last() =~= wanted.take(i as int));
                assert(wanted.take(i + 1).last() == (found@[i as int].0@, found@[i as int].1@));
                assert(names_of(outcomes@) =~= outcome_names(reported));
                lemma_position(names_of(outcomes@), name@);
            }
            let outcome = match find(outcomes, &name) {
                Some(k) => &outcomes[k].1,
                None => &missing,
            };
            assert(outcome@ == outcome_for(reported, name@));
            let entry = Plugin::name_to_path(root, name.as_str());
            match Plugin::load(name.clone(), entry, outcome) {
                Ok((plugin, rejected)) => {
                    let ghost view = plugin@;
                    store(&mut plugins, plugin);
                    record_all(&mut diagnostics, &name, rejected);
                    proof {
                        assert(names_of(stored) =~= plugin_names(plugin_views(stored)));
                        lemma_position(names_of(stored), view.name);
                        assert(plugin_views(plugins@) =~= insert_plugin(plugin_views(stored), view));
                        assert(diagnostic_views(diagnostics@) =~= head + (before.diagnostics
                            + tagged(name@, error_views(rejected@))));
                    }
                },
                Err(error) => {
                    let ghost view = error@;
                    diagnostics.push(Diagnostic { plugin: Some(name), error });
                    proof {
                        assert(diagnostic_views(diagnostics@) =~= recorded.push(
                            DiagnosticView { plugin: Some(name@), error: view },
                        ));
                        assert(diagnostic_views(diagnostics@) =~= head + before.diagnostics.push(
                            DiagnosticView { plugin: Some(name@), error: view },
                        ));
                    }
                },
            }
            i = i + 1;
        }
        proof {
            assert(wanted.take(i as int) =~= wanted);
            lemma_discover_distinct(root@, wanted, reported);
            assert(names_of(plugins@) =~= plugin_names(plugin_views(plugins@)));
        }
        (PluginRegistry { plugins }, diagnostics)
    }

    /// The plugin called `name`, where the registry holds one. A name that
    /// no plugin has is answered with `None`.
    pub fn lookup_plugin(&self, name: &str) -> (found: Option<&Plugin>)
        ensures
            match position(plugin_names(self@), name@) {
                Some(i) => found matches Some(plugin) && plugin@ == self@[i] && plugin@.name
                    == name@,
                None => found is None,
            },
            found is None <==> forall|i: int| 0 <= i < self@.len() ==> self@[i].name != name@,
    {
        let wanted = String::from_str(name);
        proof {
            let names = plugin_names(self@);
            assert(names =~= names_of(self.plugins@));
            lemma_position(names, name@);
            match position(names, name@) {
                Some(at) => {
                    assert(self@[at].name == names[at]);
                },
                None => {
                    assert forall|i: int| 0 <= i < self@.len() implies self@[i].name != name@ by {
                        assert(self@[i].name == names[i]);
                    }
                },
            }
        }
        match find(&self.plugins, &wanted) {
            Some(i) => Some(&self.plugins[i]),
            None => None,
        }
    }

    /// The function called `function_name` of the plugin called
    /// `plugin_name`. Where there is no such plugin, or the plugin has no
    /// such function, the answer is `None`.
    pub fn lookup_function(&self, plugin_name: &str, function_name: &str) -> (found: Option<
        &FuncInfo,
    >)
        ensures
            match position(plugin_names(self@), plugin_name@) {
                Some(i) => match position(signature_names(self@[i].functions), function_name@) {
                    Some(j) => found matches Some(signature) && signature@
                        == self@[i].functions[j] && signature@.name == function_name@,
                    None => found is None,
                },
                None => found is None,
            },
    {
        match self.lookup_plugin(plugin_name) {
            Some(plugin) => {
                proof {
                    lemma_position(signature_names(plugin@.functions), function_name@);
                }
                plugin.function(function_name)
            },
            None => None,
        }
    }

    /// The names of the plugins that the registry holds, each once.
    pub fn list_plugins(&self) -> (names: Vec<String>)
        ensures
            string_views(names@) == plugin_names(self@),
            distinct(plugin_names(self@)),
    {
        proof {
            use_type_invariant(self);
            assert(plugin_names(self@) =~= names_of(self.plugins@));
        }
        let mut names: Vec<String> = Vec::new();
        let mut i: usize = 0;
        while i < self.plugins.len()
            invariant
                i <= self.plugins.len(),
                names@.len() == i,
                forall|k: int| 0 <= k < i ==> (#[trigger] names@[k])@ == self.plugins@[k]@.name,
            decreases self.plugins.len() - i,
        {
            names.push(self.plugins[i].name().clone());
            i = i + 1;
        }
        assert(string_views(names@) =~= plugin_names(self@));
        names
    }

    /// How many plugins the registry holds.
    pub fn len(&self) -> (count: usize)
        ensures
            count == self@.len(),
    {
        self.plugins.len()
    }
}

} // verus!
