use vstd::prelude::*;
use vstd::string::StringExecFns;

verus! {

/// Everything that can go wrong between reading the configuration and
/// finishing a registry. Only `ConfigMissing` stops the host; every other
/// condition is scoped to one directory entry, one plugin or one function.
#[derive(Debug, PartialEq, Eq)]
pub enum PluginError {
    /// A required configuration value was not supplied.
    ConfigMissing { variable: String },
    /// The plugin root could not be listed.
    DirectoryUnreadable { path: String },
    /// A directory entry has no name that can be written as text.
    EntryNameUnresolvable { path: String },
    /// The plugin's entry module is missing or did not load.
    ModuleLoadFailed,
    /// The entry module binds no advertisement function.
    AdvertiseFunctionMissing,
    /// The advertisement function raised an error.
    AdvertiseCallFailed,
    /// What the advertisement function returned is not in the wire format.
    AdvertiseResultMalformed,
    /// One advertised function names the same argument twice.
    DuplicateArgument { function: String, argument: String },
}

/// The mathematical value of a [`PluginError`].
pub enum ErrorView {
    ConfigMissing { variable: Seq<char> },
    DirectoryUnreadable { path: Seq<char> },
    EntryNameUnresolvable { path: Seq<char> },
    ModuleLoadFailed,
    AdvertiseFunctionMissing,
    AdvertiseCallFailed,
    AdvertiseResultMalformed,
    DuplicateArgument { function: Seq<char>, argument: Seq<char> },
}

impl ErrorView {
    /// The line an operator reads for this error.
    pub open spec fn message(self) -> Seq<char> {
        match self {
            ErrorView::ConfigMissing { variable } => "Could not find "@ + variable
                + " environment variable."@,
            ErrorView::DirectoryUnreadable { path } => "Failed to read directory: "@ + path,
            ErrorView::EntryNameUnresolvable { path } => "Failed to get file name: "@ + path,
            ErrorView::ModuleLoadFailed => "Failed to load the plugin's entry module"@,
            ErrorView::AdvertiseFunctionMissing => "Plugin does not define atorrlinker_advertise"@,
            ErrorView::AdvertiseCallFailed => "Call to atorrlinker_advertise failed"@,
            ErrorView::AdvertiseResultMalformed => "Advertised functions are not in the wire format"@,
            ErrorView::DuplicateArgument { function, argument } => "Function "@ + function
                + " declares argument "@ + argument + " more than once"@,
        }
    }
}

impl View for PluginError {
    type V = ErrorView;

    open spec fn view(&self) -> ErrorView {
        match self {
            PluginError::ConfigMissing { variable } => ErrorView::ConfigMissing {
                variable: variable@,
            },
            PluginError::DirectoryUnreadable { path } => ErrorView::DirectoryUnreadable {
                path: path@,
            },
            PluginError::EntryNameUnresolvable { path } => ErrorView::EntryNameUnresolvable {
                path: path@,
            },
            PluginError::ModuleLoadFailed => ErrorView::ModuleLoadFailed,
            PluginError::AdvertiseFunctionMissing => ErrorView::AdvertiseFunctionMissing,
            PluginError::AdvertiseCallFailed => ErrorView::AdvertiseCallFailed,
            PluginError::AdvertiseResultMalformed => ErrorView::AdvertiseResultMalformed,
            PluginError::DuplicateArgument { function, argument } => ErrorView::DuplicateArgument {
                function: function@,
                argument: argument@,
            },
        }
    }
}

impl Clone for PluginError {
    fn clone(&self) -> (copy: Self)
        ensures
            copy@ == self@,
    {
        match self {
            PluginError::ConfigMissing { variable } => PluginError::ConfigMissing {
                variable: variable.clone(),
            },
            PluginError::DirectoryUnreadable { path } => PluginError::DirectoryUnreadable {
                path: path.clone(),
            },
            PluginError::EntryNameUnresolvable { path } => PluginError::EntryNameUnresolvable {
                path: path.clone(),
            },
            PluginError::ModuleLoadFailed => PluginError::ModuleLoadFailed,
            PluginError::AdvertiseFunctionMissing => PluginError::AdvertiseFunctionMissing,
            PluginError::AdvertiseCallFailed => PluginError::AdvertiseCallFailed,
            PluginError::AdvertiseResultMalformed => PluginError::AdvertiseResultMalformed,
            PluginError::DuplicateArgument { function, argument } => PluginError::DuplicateArgument {
                function: function.clone(),
                argument: argument.clone(),
            },
        }
    }
}

impl PluginError {
    /// The line an operator reads for this error.
    pub fn message(&self) -> (text: String)
        ensures
            text@ == self@.message(),
    {
        match self {
            PluginError::ConfigMissing { variable } => String::from_str("Could not find ").concat(
                variable.as_str(),
            ).concat(" environment variable."),
            PluginError::DirectoryUnreadable { path } => String::from_str(
                "Failed to read directory: ",
            ).concat(path.as_str()),
            PluginError::EntryNameUnresolvable { path } => String::from_str(
                "Failed to get file name: ",
            ).concat(path.as_str()),
            PluginError::ModuleLoadFailed => String::from_str(
                "Failed to load the plugin's entry module",
            ),
            PluginError::AdvertiseFunctionMissing => String::from_str(
                "Plugin does not define atorrlinker_advertise",
            ),
            PluginError::AdvertiseCallFailed => String::from_str(
                "Call to atorrlinker_advertise failed",
            ),
            PluginError::AdvertiseResultMalformed => String::from_str(
                "Advertised functions are not in the wire format",
            ),
            PluginError::DuplicateArgument { function, argument } => String::from_str(
                "Function ",
            ).concat(function.as_str()).concat(" declares argument ").concat(
                argument.as_str(),
            ).concat(" more than once"),
        }
    }
}

/// The views of a list of errors, in order.
pub open spec fn error_views(errors: Seq<PluginError>) -> Seq<ErrorView> {
    errors.map_values(|e: PluginError| e@)
}

/// An error together with the plugin it is about. Errors that concern the
/// plugin root itself, or an entry without a usable name, name no plugin.
#[derive(Debug, PartialEq, Eq)]
pub struct Diagnostic {
    pub plugin: Option<String>,
    pub error: PluginError,
}

/// The mathematical value of a [`Diagnostic`].
pub struct DiagnosticView {
    pub plugin: Option<Seq<char>>,
    pub error: ErrorView,
}

impl View for Diagnostic {
    type V = DiagnosticView;

    open spec fn view(&self) -> DiagnosticView {
        DiagnosticView {
            plugin: match self.plugin {
                Some(name) => Some(name@),
                None => None,
            },
            error: self.error@,
        }
    }
}

impl Clone for Diagnostic {
    fn clone(&self) -> (copy: Self)
        ensures
            copy@ == self@,
    {
        Diagnostic {
            plugin: match &self.plugin {
                Some(name) => Some(name.clone()),
                None => None,
            },
            error: self.error.clone(),
        }
    }
}

/// The views of a list of diagnostics, in order.
pub open spec fn diagnostic_views(diagnostics: Seq<Diagnostic>) -> Seq<DiagnosticView> {
    diagnostics.map_values(|d: Diagnostic| d@)
}

} // verus!
