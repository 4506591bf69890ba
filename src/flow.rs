use vstd::prelude::*;

use crate::catalog::{catalog_of, entries_view, listing_view, scan, ImageEntry, ListedEntry};
use crate::config::{
    initial_model, initialize, parse_config, parse_model, record_selection, render_config, render_model,
    selected_model, ConfigError, ConfigRecord, Field,
};
use crate::session::{
    check_wallpaper_dir, menu_labels, menu_model, replay_target, resolve_model, resolve_selection, strings_view, Choice, Outcome,
    SessionError,
};

verus! {

/// Where a run stands, between two pieces of outside work.
#[derive(Debug)]
pub enum Phase {
    /// Nothing is known yet.
    Begin,
    /// Waiting for the wallpaper directory that the user enters.
    AwaitDirectory,
    /// Waiting for the new configuration file to be written.
    AwaitWrite,
    /// Waiting for the configuration file's text; `init` tells whether the
    /// backend's daemon is to be started before the wallpaper is applied.
    AwaitConfig { replay: bool, init: bool },
    /// Waiting for the listing of the wallpaper directory.
    AwaitListing { rec: ConfigRecord, init: bool },
    /// Waiting for the label that the user chooses.
    AwaitChoice { rec: ConfigRecord, catalog: Vec<ImageEntry>, init: bool },
    /// Waiting for the backend to start on `path`; `rec` is the record to
    /// update afterwards, none when the wallpaper is replayed.
    AwaitApply { rec: Option<ConfigRecord>, path: String },
    /// Waiting for the updated configuration to be stored.
    AwaitStore { path: String },
    /// The run is over.
    Done,
}

/// What the outside work reports.
#[derive(Debug)]
pub enum Event {
    /// The run starts: with the replay flag or not, and with or without a
    /// configuration file.
    Started { replay: bool, config_exists: bool },
    /// The user entered `path`; `is_directory` tells whether it names a directory.
    DirectoryEntered { path: String, is_directory: bool },
    /// The configuration file was written, or the path that failed.
    Written { failure: Option<String> },
    /// The configuration file's text, or the path that could not be read.
    ConfigRead { text: Result<String, String> },
    /// Whether the wallpaper directory is a directory, and its listing unless
    /// it could not be listed.
    Listed { is_directory: bool, listing: Option<Vec<ListedEntry>> },
    /// The label the user chose.
    Chosen { label: String },
    /// The backend started, or why it did not.
    BackendStarted { failure: Option<String> },
    /// The updated configuration was stored, or the path that failed.
    Stored { failure: Option<String> },
}

/// The outside work to do next.
#[derive(Debug)]
pub enum Action {
    /// Ask the user for the wallpaper directory.
    PromptDirectory,
    /// Create the configuration directory and write `text` as the configuration file.
    WriteConfig { text: String },
    /// Read the configuration file.
    ReadConfig,
    /// Tell whether `path` is a directory and list it.
    ListDirectory { path: String },
    /// Offer `labels` and report the one chosen.
    Choose { labels: Vec<String> },
    /// Start the backend on `path`, after its daemon when `init` holds; do not
    /// wait for it.
    Apply { path: String, init: bool },
    /// Replace the configuration file by `text`, atomically.
    StoreConfig { text: String },
    /// End the run with `result`; `history_error` tells why the history could
    /// not be stored after the wallpaper was applied.
    Finish { result: Result<Outcome, SessionError>, history_error: Option<SessionError> },
}

/// The run ends with the error `e`.
pub open spec fn fails_with(r: (Phase, Action), e: SessionError) -> bool {
    &&& r.0 is Done
    &&& r.1 matches Action::Finish { result: Err(f), history_error: None } && f == e
}

/// The run ends with `result` and nothing else to report.
pub open spec fn ends_with(r: (Phase, Action), result: Result<Outcome, SessionError>) -> bool {
    &&& r.0 is Done
    &&& r.1 matches Action::Finish { result: res, history_error: None } && res == result
}

/// The backend is to start on `p`, and `rec` is the record to update afterwards.
pub open spec fn applies(r: (Phase, Action), p: Seq<char>, rec: Option<ConfigRecord>, init: bool) -> bool {
    &&& r.0 matches Phase::AwaitApply { rec: r2, path } && r2 == rec && path@ == p
    &&& r.1 matches Action::Apply { path, init: i } && path@ == p && i == init
}

/// What a run does on `event` in `phase`.
pub open spec fn step_spec(phase: Phase, event: Event, r: (Phase, Action)) -> bool {
    match (phase, event) {
        (Phase::Begin, Event::Started { replay, config_exists }) => if replay {
            r.0 == (Phase::AwaitConfig { replay: true, init: true }) && r.1 is ReadConfig
        } else if config_exists {
            r.0 == (Phase::AwaitConfig { replay: false, init: false }) && r.1 is ReadConfig
        } else {
            r.0 is AwaitDirectory && r.1 is PromptDirectory
        },
        (Phase::AwaitDirectory, Event::DirectoryEntered { path, is_directory }) => if is_directory {
            r.0 is AwaitWrite && (r.1 matches Action::WriteConfig { text } && text@ == render_model(
                initial_model(path@),
            ))
        } else {
            r.0 is Done && (r.1 matches Action::Finish {
                result: Err(SessionError::Config(ConfigError::InvalidDirectory(d))),
                history_error: None,
            } && d@ == path@)
        },
        (Phase::AwaitWrite, Event::Written { failure }) => match failure {
            Some(f) => fails_with(r, SessionError::Config(ConfigError::IoError(f))),
            None => r.0 == (Phase::AwaitConfig { replay: false, init: true }) && r.1 is ReadConfig,
        },
        (Phase::AwaitConfig { replay, init }, Event::ConfigRead { text }) => match text {
            Err(f) => fails_with(r, SessionError::Config(ConfigError::IoError(f))),
            Ok(t) => match parse_model(t@) {
                None => fails_with(r, SessionError::Config(ConfigError::MissingField(Field::WallpaperPath))),
                Some(m) => if replay {
                    match m.prev_wallpaper {
                        None => fails_with(r, SessionError::Config(ConfigError::MissingField(Field::PrevWallpaper))),
                        Some(p) => applies(r, p, None, init),
                    }
                } else {
                    &&& r.0 matches Phase::AwaitListing { rec, init: i } && rec@ == m && i == init
                    &&& r.1 matches Action::ListDirectory { path } && path@ == m.wallpaper_path
                },
            },
        },
        (Phase::AwaitListing { rec, init }, Event::Listed { is_directory, listing }) => if !is_directory {
            r.0 is Done && (r.1 matches Action::Finish {
                result: Err(SessionError::ConfigPathInvalid(d)),
                history_error: None,
            } && d@ == rec.wallpaper_path@)
        } else {
            match listing {
                None => r.0 is Done && (r.1 matches Action::Finish {
                    result: Err(SessionError::DirectoryUnreadable(d)),
                    history_error: None,
                } && d@ == rec.wallpaper_path@),
                Some(l) => {
                    &&& r.0 matches Phase::AwaitChoice { rec: r2, catalog, init: i } && r2 == rec && i == init
                        && entries_view(catalog@) == catalog_of(rec.wallpaper_path@, listing_view(l@))
                    &&& r.1 matches Action::Choose { labels } && strings_view(labels@) == menu_model(
                        catalog_of(rec.wallpaper_path@, listing_view(l@)),
                    )
                },
            }
        },
        (Phase::AwaitChoice { rec, catalog, init }, Event::Chosen { label }) => match resolve_model(
            entries_view(catalog@),
            label@,
        ) {
            Choice::Quit => ends_with(r, Ok(Outcome::Quit)),
            Choice::Unavailable => ends_with(r, Ok(Outcome::Unavailable)),
            Choice::NotFound => r.0 is Done && (r.1 matches Action::Finish {
                result: Err(SessionError::SelectionNotFound(l)),
                history_error: None,
            } && l@ == label@),
            Choice::Applied(p) => applies(r, p, Some(rec), init),
        },
        (Phase::AwaitApply { rec, path }, Event::BackendStarted { failure }) => match failure {
            Some(f) => fails_with(r, SessionError::BackendUnavailable(f)),
            None => match rec {
                None => r.0 is Done && (r.1 matches Action::Finish {
                    result: Ok(Outcome::Applied(q)),
                    history_error: None,
                } && q@ == path@),
                Some(r0) => {
                    &&& r.0 matches Phase::AwaitStore { path: q } && q@ == path@
                    &&& r.1 matches Action::StoreConfig { text } && text@ == render_model(selected_model(r0@, path@))
                },
            },
        },
        (Phase::AwaitStore { path }, Event::Stored { failure }) => {
            &&& r.0 is Done
            &&& r.1 matches Action::Finish { result: Ok(Outcome::Applied(q)), history_error: h } && q@ == path@
                && match failure {
                None => h is None,
                Some(f) => h == Some(SessionError::Config(ConfigError::IoError(f))),
            }
        },
        _ => fails_with(r, SessionError::OutOfOrder),
    }
}

/// The finished run with error `e`.
fn fail(e: SessionError) -> (r: (Phase, Action))
    ensures
        fails_with(r, e),
{
    (Phase::Done, Action::Finish { result: Err(e), history_error: None })
}

/// One step of a run: from where it stands and what the last outside work
/// reported, where it goes and the outside work to do next. A replayed run
/// reads the configuration and applies the recorded wallpaper: it never
/// prompts, lists the directory, offers a choice or writes the file.
pub fn step(phase: Phase, event: Event) -> (r: (Phase, Action))
    ensures
        step_spec(phase, event, r),
        phase matches Phase::AwaitConfig { replay: true, .. } ==> !(r.1 is PromptDirectory || r.1 is ListDirectory
            || r.1 is Choose || r.1 is StoreConfig || r.1 is WriteConfig),
{
    match (phase, event) {
        (Phase::Begin, Event::Started { replay, config_exists }) => if replay {
            (Phase::AwaitConfig { replay: true, init: true }, Action::ReadConfig)
        } else if config_exists {
            (Phase::AwaitConfig { replay: false, init: false }, Action::ReadConfig)
        } else {
            (Phase::AwaitDirectory, Action::PromptDirectory)
        },
        (Phase::AwaitDirectory, Event::DirectoryEntered { path, is_directory }) => {
            match initialize(path.as_str(), is_directory) {
                Ok(rec) => (Phase::AwaitWrite, Action::WriteConfig { text: render_config(&rec) }),
                Err(e) => fail(SessionError::Config(e)),
            }
        },
        (Phase::AwaitWrite, Event::Written { failure }) => match failure {
            Some(f) => fail(SessionError::Config(ConfigError::IoError(f))),
            None => (Phase::AwaitConfig { replay: false, init: true }, Action::ReadConfig),
        },
        (Phase::AwaitConfig { replay, init }, Event::ConfigRead { text }) => match text {
            Err(f) => fail(SessionError::Config(ConfigError::IoError(f))),
            Ok(t) => match parse_config(t.as_str()) {
                Err(e) => fail(SessionError::Config(e)),
                Ok(rec) => if replay {
                    match replay_target(&rec) {
                        Err(e) => fail(e),
                        Ok(p) => {
                            let q = p.clone();
                            (Phase::AwaitApply { rec: None, path: p }, Action::Apply { path: q, init })
                        },
                    }
                } else {
                    let dir = rec.wallpaper_path.clone();
                    (Phase::AwaitListing { rec, init }, Action::ListDirectory { path: dir })
                },
            },
        },
        (Phase::AwaitListing { rec, init }, Event::Listed { is_directory, listing }) => {
            match check_wallpaper_dir(&rec, is_directory) {
                Err(e) => fail(e),
                Ok(()) => match listing {
                    None => fail(SessionError::DirectoryUnreadable(rec.wallpaper_path)),
                    Some(l) => {
                        let catalog = scan(rec.wallpaper_path.as_str(), &l);
                        let labels = menu_labels(&catalog);
                        (Phase::AwaitChoice { rec, catalog, init }, Action::Choose { labels })
                    },
                },
            }
        },
        (Phase::AwaitChoice { rec, catalog, init }, Event::Chosen { label }) => {
            match resolve_selection(&catalog, label.as_str()) {
                Err(e) => fail(e),
                Ok(Outcome::Applied(p)) => {
                    let q = p.clone();
                    (Phase::AwaitApply { rec: Some(rec), path: p }, Action::Apply { path: q, init })
                },
                Ok(o) => (Phase::Done, Action::Finish { result: Ok(o), history_error: None }),
            }
        },
        (Phase::AwaitApply { rec, path }, Event::BackendStarted { failure }) => match failure {
            Some(f) => fail(SessionError::BackendUnavailable(f)),
            None => match rec {
                None => (Phase::Done, Action::Finish { result: Ok(Outcome::Applied(path)), history_error: None }),
                Some(r0) => {
                    let text = render_config(&record_selection(&r0, path.as_str()));
                    (Phase::AwaitStore { path }, Action::StoreConfig { text })
                },
            },
        },
        (Phase::AwaitStore { path }, Event::Stored { failure }) => {
            let history_error = match failure {
                None => None,
                Some(f) => Some(SessionError::Config(ConfigError::IoError(f))),
            };
            (Phase::Done, Action::Finish { result: Ok(Outcome::Applied(path)), history_error })
        },
        _ => fail(SessionError::OutOfOrder),
    }
}

} // verus!
