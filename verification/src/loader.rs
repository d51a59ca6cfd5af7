use crate::plugin::{LoadOutcome, OutcomeView, PLUGIN_INFO_FUNC_NAME};
use vstd::prelude::*;
use vstd::string::StringExecFns;

verus! {

/// What the host is asked to do next for the plugin that is being loaded.
#[derive(Debug, PartialEq, Eq)]
pub enum LoadStep {
    /// Put this directory in front of the runtime's module search path.
    RegisterDirectory(String),
    /// Import and execute the module in this file.
    ImportModule(String),
    /// Look this name up in the module's namespace.
    FindFunction(String),
    /// Call the function that was found, without arguments.
    CallFunction,
    /// Nothing more: loading has ended in this way.
    Finished(LoadOutcome),
}

/// The mathematical value of a [`LoadStep`].
pub enum StepView {
    RegisterDirectory(Seq<char>),
    ImportModule(Seq<char>),
    FindFunction(Seq<char>),
    CallFunction,
    Finished(OutcomeView),
}

impl View for LoadStep {
    type V = StepView;

    open spec fn view(&self) -> StepView {
        match self {
            LoadStep::RegisterDirectory(directory) => StepView::RegisterDirectory(directory@),
            LoadStep::ImportModule(entry) => StepView::ImportModule(entry@),
            LoadStep::FindFunction(name) => StepView::FindFunction(name@),
            LoadStep::CallFunction => StepView::CallFunction,
            LoadStep::Finished(outcome) => StepView::Finished(outcome@),
        }
    }
}

/// What came of the step that the host was asked to do.
#[derive(Debug, PartialEq, Eq)]
pub enum StepResult {
    /// The step was done. After the call, this holds what the function
    /// returned as JSON text, or nothing where that cannot be written as
    /// JSON; after the other steps it holds nothing that is read.
    Succeeded(Option<String>),
    /// The step raised an error.
    Failed,
}

/// The mathematical value of a [`StepResult`].
pub enum ResultView {
    Succeeded(Option<Seq<char>>),
    Failed,
}

impl View for StepResult {
    type V = ResultView;

    open spec fn view(&self) -> ResultView {
        match self {
            StepResult::Succeeded(Some(text)) => ResultView::Succeeded(Some(text@)),
            StepResult::Succeeded(None) => ResultView::Succeeded(None),
            StepResult::Failed => ResultView::Failed,
        }
    }
}

/// How far the loading of a plugin has come.
#[derive(Debug, PartialEq, Eq)]
enum Phase {
    Register,
    Import,
    Find,
    Call,
    Finished(LoadOutcome),
}

/// The mathematical value of a [`Phase`].
pub enum PhaseView {
    Register,
    Import,
    Find,
    Call,
    Finished(OutcomeView),
}

impl View for Phase {
    type V = PhaseView;

    closed spec fn view(&self) -> PhaseView {
        match self {
            Phase::Register => PhaseView::Register,
            Phase::Import => PhaseView::Import,
            Phase::Find => PhaseView::Find,
            Phase::Call => PhaseView::Call,
            Phase::Finished(outcome) => PhaseView::Finished(outcome@),
        }
    }
}

/// The loading of one plugin, step by step: register the plugin's
/// directory, import its entry module, find the advertisement function,
/// call it. The first step that fails ends the loading.
#[derive(Debug, PartialEq, Eq)]
pub struct Loader {
    directory: String,
    entry_path: String,
    phase: Phase,
}

/// The mathematical value of a [`Loader`].
pub struct LoaderView {
    pub directory: Seq<char>,
    pub entry_path: Seq<char>,
    pub phase: PhaseView,
}

impl View for Loader {
    type V = LoaderView;

    closed spec fn view(&self) -> LoaderView {
        LoaderView { directory: self.directory@, entry_path: self.entry_path@, phase: self.phase@ }
    }
}

/// The phase that follows when a step ends in the given way.
///
/// A failure ends the loading: of the registration or the import as a
/// module that did not load, of the lookup as a missing function, of the
/// call as a failed call. A call that returns ends it too, with what was
/// returned, or as malformed where that cannot be written as JSON. Once
/// ended, the loading stays as it is.
pub open spec fn phase_after(phase: PhaseView, result: ResultView) -> PhaseView {
    match phase {
        PhaseView::Register => match result {
            ResultView::Succeeded(_) => PhaseView::Import,
            ResultView::Failed => PhaseView::Finished(OutcomeView::ModuleLoadFailed),
        },
        PhaseView::Import => match result {
            ResultView::Succeeded(_) => PhaseView::Find,
            ResultView::Failed => PhaseView::Finished(OutcomeView::ModuleLoadFailed),
        },
        PhaseView::Find => match result {
            ResultView::Succeeded(_) => PhaseView::Call,
            ResultView::Failed => PhaseView::Finished(OutcomeView::AdvertiseFunctionMissing),
        },
        PhaseView::Call => match result {
            ResultView::Succeeded(Some(text)) => PhaseView::Finished(OutcomeView::Advertised(text)),
            ResultView::Succeeded(None) => PhaseView::Finished(
                OutcomeView::AdvertiseResultMalformed,
            ),
            ResultView::Failed => PhaseView::Finished(OutcomeView::AdvertiseCallFailed),
        },
        PhaseView::Finished(outcome) => PhaseView::Finished(outcome),
    }
}

/// What the host is asked to do in a state.
pub open spec fn step_of(loader: LoaderView) -> StepView {
    match loader.phase {
        PhaseView::Register => StepView::RegisterDirectory(loader.directory),
        PhaseView::Import => StepView::ImportModule(loader.entry_path),
        PhaseView::Find => StepView::FindFunction(PLUGIN_INFO_FUNC_NAME@),
        PhaseView::Call => StepView::CallFunction,
        PhaseView::Finished(outcome) => StepView::Finished(outcome),
    }
}

/// The state that follows when the step asked for ends in the given way.
pub open spec fn loader_after(loader: LoaderView, result: ResultView) -> LoaderView {
    LoaderView {
        directory: loader.directory,
        entry_path: loader.entry_path,
        phase: phase_after(loader.phase, result),
    }
}

/// The state reached from `loader` when the steps asked for end in the
/// given ways, one after the other.
pub open spec fn loader_run(loader: LoaderView, results: Seq<ResultView>) -> LoaderView
    decreases results.len(),
{
    if results.len() == 0 {
        loader
    } else {
        loader_after(loader_run(loader, results.drop_last()), results.last())
    }
}

/// The state in which the loading of a plugin starts.
pub open spec fn loader_start(directory: Seq<char>, entry_path: Seq<char>) -> LoaderView {
    LoaderView { directory, entry_path, phase: PhaseView::Register }
}

/// What a whole run amounts to, told by the first step that did not
/// succeed.
pub open spec fn run_outcome(results: Seq<ResultView>) -> Option<OutcomeView> {
    if results.len() >= 1 && results[0] is Failed {
        Some(OutcomeView::ModuleLoadFailed)
    } else if results.len() >= 2 && results[1] is Failed {
        Some(OutcomeView::ModuleLoadFailed)
    } else if results.len() >= 3 && results[2] is Failed {
        Some(OutcomeView::AdvertiseFunctionMissing)
    } else if results.len() >= 4 {
        match results[3] {
            ResultView::Failed => Some(OutcomeView::AdvertiseCallFailed),
            ResultView::Succeeded(None) => Some(OutcomeView::AdvertiseResultMalformed),
            ResultView::Succeeded(Some(text)) => Some(OutcomeView::Advertised(text)),
        }
    } else {
        None
    }
}

/// The phase in which a run stands that has not ended after `done` steps.
pub open spec fn phase_at(done: nat) -> PhaseView {
    if done == 0 {
        PhaseView::Register
    } else if done == 1 {
        PhaseView::Import
    } else if done == 2 {
        PhaseView::Find
    } else {
        PhaseView::Call
    }
}

/// A run ends with the first step that fails, and after the fourth step at
/// the latest; until then the steps are asked for in their fixed order. The
/// directory and the entry path stay what they were.
pub proof fn lemma_loader_run(directory: Seq<char>, entry_path: Seq<char>, results: Seq<ResultView>)
    ensures
        loader_run(loader_start(directory, entry_path), results).directory == directory,
        loader_run(loader_start(directory, entry_path), results).entry_path == entry_path,
        loader_run(loader_start(directory, entry_path), results).phase == match run_outcome(
            results,
        ) {
            Some(outcome) => PhaseView::Finished(outcome),
            None => phase_at(results.len()),
        },
    decreases results.len(),
{
    if results.len() > 0 {
        let front = results.drop_last();
        lemma_loader_run(directory, entry_path, front);
        assert forall|i: int| 0 <= i < front.len() implies front[i] == results[i] by {}
    }
}

impl Loader {
    /// Starts the loading of the plugin in `directory` whose entry file is
    /// at `entry_path`.
    pub fn new(directory: String, entry_path: String) -> (loader: Loader)
        ensures
            loader@ == loader_start(directory@, entry_path@),
    {
        Loader { directory, entry_path, phase: Phase::Register }
    }

    /// What the host is to do next.
    pub fn next_step(&self) -> (step: LoadStep)
        ensures
            step@ == step_of(self@),
    {
        match &self.phase {
            Phase::Register => LoadStep::RegisterDirectory(self.directory.clone()),
            Phase::Import => LoadStep::ImportModule(self.entry_path.clone()),
            Phase::Find => LoadStep::FindFunction(String::from_str(PLUGIN_INFO_FUNC_NAME)),
            Phase::Call => LoadStep::CallFunction,
            Phase::Finished(outcome) => LoadStep::Finished(outcome.clone()),
        }
    }

    /// Takes note of how the step that was asked for has ended.
    pub fn advance(&mut self, result: StepResult)
        ensures
            final(self)@ == loader_after(old(self)@, result@),
    {
        let next = match &self.phase {
            Phase::Register => match result {
                StepResult::Succeeded(_) => Phase::Import,
                StepResult::Failed => Phase::Finished(LoadOutcome::ModuleLoadFailed),
            },
            Phase::Import => match result {
                StepResult::Succeeded(_) => Phase::Find,
                StepResult::Failed => Phase::Finished(LoadOutcome::ModuleLoadFailed),
            },
            Phase::Find => match result {
                StepResult::Succeeded(_) => Phase::Call,
                StepResult::Failed => Phase::Finished(LoadOutcome::AdvertiseFunctionMissing),
            },
            Phase::Call => match result {
                StepResult::Succeeded(Some(text)) => Phase::Finished(LoadOutcome::Advertised(text)),
                StepResult::Succeeded(None) => Phase::Finished(
                    LoadOutcome::AdvertiseResultMalformed,
                ),
                StepResult::Failed => Phase::Finished(LoadOutcome::AdvertiseCallFailed),
            },
            Phase::Finished(_) => {
                return ;
            },
        };
        self.phase = next;
    }

    /// How the loading ended, once it has.
    pub fn outcome(&self) -> (outcome: Option<&LoadOutcome>)
        ensures
            match self@.phase {
                PhaseView::Finished(ended) => outcome matches Some(found) && found@ == ended,
                _ => outcome is None,
            },
    {
        match &self.phase {
            Phase::Finished(outcome) => Some(outcome),
            _ => None,
        }
    }
}

} // verus!
