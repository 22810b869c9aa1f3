//! The installer, as a state machine: look the theme up, read the
//! configuration, fetch the theme's repository, patch the configuration
//! text, and have it written back. Each step consumes the outcome of
//! the previous external action and decides the next one; the run stops
//! at the first failure, before any further side effect.

use vstd::prelude::*;

use crate::catalog::{entry_matches, lists_names, ThemeCatalog};
use crate::fetcher::FetchError;
use crate::patcher::{change_theme_in_config, spec_change_theme, toml_quoted};

verus! {

/// The user-facing theme actions.
pub enum ThemeActions {
    Install { name: String },
    List,
}

/// Why an installation run stopped.
pub enum InstallError {
    ThemeNotFound,
    ConfigMissing,
    ConfigUnreadable,
    Fetch { reason: FetchError },
    ConfigCreateFailed,
    ConfigWriteFailed,
}

/// Where an installation run stands.
pub enum InstallState {
    AwaitingConfig { name: String, url: String },
    AwaitingFetch { name: String, url: String, content: String },
    AwaitingWrite,
    Done,
    Failed { error: InstallError },
}

/// What reading the configuration file yielded.
pub enum ReadOutcome {
    Missing,
    Unreadable,
    Content { text: String },
}

/// What writing the new configuration yielded.
pub enum WriteOutcome {
    CreateFailed,
    WriteFailed,
    Written,
}

/// The outcome of the external action the installer asked for.
pub enum InstallEvent {
    ConfigRead { outcome: ReadOutcome },
    FetchDone { result: Result<(), FetchError> },
    ConfigWritten { outcome: WriteOutcome },
}

/// The next external action an installation run asks for.
pub enum InstallAction {
    ReadConfig,
    RunClone { url: String, dest: String },
    WriteConfig { text: String },
    Stop,
}

/// How an installation run begins for the requested name: the first
/// case-insensitive catalog match is installed; a miss fails the run at
/// once.
pub open spec fn begin_resolves(
    entries: Seq<crate::catalog::ThemeEntry>,
    key: Seq<char>,
    st: InstallState,
    act: InstallAction,
) -> bool {
    if exists|i: int| 0 <= i < entries.len() && entry_matches(entries[i], key) {
        exists|i: int|
            {
                &&& 0 <= i < entries.len()
                &&& entry_matches(entries[i], key)
                &&& forall|j: int| 0 <= j < i ==> !entry_matches(entries[j], key)
                &&& st matches InstallState::AwaitingConfig { name, url } && name@
                    == entries[i].name@ && url@ == entries[i].repository_url@
                &&& act is ReadConfig
            }
    } else {
        st matches InstallState::Failed { error: InstallError::ThemeNotFound } && act is Stop
    }
}

/// Begins an installation run: resolves `name` against the catalog.
pub fn install_begin(catalog: &ThemeCatalog, name: &str) -> (r: (InstallState, InstallAction))
    ensures
        begin_resolves(catalog.entries@, name@, r.0, r.1),
{
    match catalog.find(name) {
        Some(entry) => {
            let st = InstallState::AwaitingConfig {
                name: entry.name.clone(),
                url: entry.repository_url.clone(),
            };
            (st, InstallAction::ReadConfig)
        },
        None => {
            (
                InstallState::Failed { error: InstallError::ThemeNotFound },
                InstallAction::Stop,
            )
        },
    }
}

/// Whether `ev` is the outcome the state is waiting for.
pub open spec fn event_fits(st: InstallState, ev: InstallEvent) -> bool {
    match st {
        InstallState::AwaitingConfig { .. } => ev is ConfigRead,
        InstallState::AwaitingFetch { .. } => ev is FetchDone,
        InstallState::AwaitingWrite => ev is ConfigWritten,
        _ => false,
    }
}

/// One step of an installation run. Strictly sequential: a missing or
/// unreadable configuration stops the run before any fetch; a fetch
/// failure stops it before any write; a successful fetch hands the
/// patched configuration text to the writer; and only the final write
/// decides success. No step writes before the fetch has succeeded.
pub fn install_step(st: InstallState, ev: InstallEvent) -> (r: (InstallState, InstallAction))
    requires
        event_fits(st, ev),
    ensures
        st matches InstallState::AwaitingConfig { name, url } ==> {
            &&& (ev matches InstallEvent::ConfigRead { outcome: ReadOutcome::Missing } ==> r.0
                matches InstallState::Failed { error: InstallError::ConfigMissing } && r.1
                is Stop)
            &&& (ev matches InstallEvent::ConfigRead { outcome: ReadOutcome::Unreadable } ==> r.0
                matches InstallState::Failed { error: InstallError::ConfigUnreadable } && r.1
                is Stop)
            &&& (ev matches InstallEvent::ConfigRead { outcome: ReadOutcome::Content { text } }
                ==> (r.0 matches InstallState::AwaitingFetch { name: n2, url: u2, content }
                && n2@ == name@ && u2@ == url@ && content@ == text@) && (r.1 matches
            InstallAction::RunClone { url: u3, dest } && u3@ == url@ && dest@ == "themes\\"@
                + name@))
        },
        st matches InstallState::AwaitingFetch { name, url, content } ==> {
            &&& (ev matches InstallEvent::FetchDone { result: Err(reason) } ==> r.0 matches
                InstallState::Failed { error: InstallError::Fetch { reason: r2 } } && r2 == reason
                && r.1 is Stop)
            &&& (ev matches InstallEvent::FetchDone { result: Ok(u) } ==> r.0
                is AwaitingWrite && (r.1 matches InstallAction::WriteConfig { text } && text@
                == spec_change_theme(content@, toml_quoted(name@))))
        },
        st is AwaitingWrite ==> {
            &&& (ev matches InstallEvent::ConfigWritten { outcome: WriteOutcome::CreateFailed }
                ==> r.0 matches InstallState::Failed { error: InstallError::ConfigCreateFailed }
                && r.1 is Stop)
            &&& (ev matches InstallEvent::ConfigWritten { outcome: WriteOutcome::WriteFailed }
                ==> r.0 matches InstallState::Failed { error: InstallError::ConfigWriteFailed }
                && r.1 is Stop)
            &&& (ev matches InstallEvent::ConfigWritten { outcome: WriteOutcome::Written } ==> r.0
                is Done && r.1 is Stop)
        },
{
    match (st, ev) {
        (
            InstallState::AwaitingConfig { name, url },
            InstallEvent::ConfigRead { outcome },
        ) => match outcome {
            ReadOutcome::Missing => (
                InstallState::Failed { error: InstallError::ConfigMissing },
                InstallAction::Stop,
            ),
            ReadOutcome::Unreadable => (
                InstallState::Failed { error: InstallError::ConfigUnreadable },
                InstallAction::Stop,
            ),
            ReadOutcome::Content { text } => {
                let dest = crate::fetcher::theme_dest_path(name.as_str());
                let clone_url = url.clone();
                (
                    InstallState::AwaitingFetch { name, url, content: text },
                    InstallAction::RunClone { url: clone_url, dest },
                )
            },
        },
        (
            InstallState::AwaitingFetch { name, url: _, content },
            InstallEvent::FetchDone { result },
        ) => match result {
            Err(reason) => (
                InstallState::Failed { error: InstallError::Fetch { reason } },
                InstallAction::Stop,
            ),
            Ok(_) => {
                let text = change_theme_in_config(name.as_str(), content);
                (InstallState::AwaitingWrite, InstallAction::WriteConfig { text })
            },
        },
        (InstallState::AwaitingWrite, InstallEvent::ConfigWritten { outcome }) => match outcome {
            WriteOutcome::CreateFailed => (
                InstallState::Failed { error: InstallError::ConfigCreateFailed },
                InstallAction::Stop,
            ),
            WriteOutcome::WriteFailed => (
                InstallState::Failed { error: InstallError::ConfigWriteFailed },
                InstallAction::Stop,
            ),
            WriteOutcome::Written => (InstallState::Done, InstallAction::Stop),
        },
        // unreachable: every waiting state is matched above, and the
        // precondition rules out every other pairing
        _ => (InstallState::Done, InstallAction::Stop),
    }
}

/// Every catalog name, in catalog order, for the listing action.
pub fn list_themes(catalog: &ThemeCatalog) -> (names: Vec<String>)
    ensures
        lists_names(catalog.entries@, names@),
{
    catalog.list()
}

/// What handling one command-line action yields: the start of an
/// installation run, or the listing of every catalog name.
pub enum ActionOutcome {
    Install { state: InstallState, action: InstallAction },
    Listing { names: Vec<String> },
}

/// Handles one user-facing action against the catalog: `Install` begins
/// an installation run for the named theme; `List` yields every catalog
/// name in order.
pub fn handle_command_line_action(catalog: &ThemeCatalog, action: ThemeActions) -> (r:
    ActionOutcome)
    ensures
        action matches ThemeActions::Install { name } ==> (r matches ActionOutcome::Install {
            state,
            action: act,
        } && begin_resolves(catalog.entries@, name@, state, act)),
        action is List ==> (r matches ActionOutcome::Listing { names } && lists_names(
            catalog.entries@,
            names@,
        )),
{
    match action {
        ThemeActions::Install { name } => {
            let (state, act) = install_begin(catalog, name.as_str());
            ActionOutcome::Install { state, action: act }
        },
        ThemeActions::List => ActionOutcome::Listing { names: list_themes(catalog) },
    }
}

} // verus!
