//! Persistent UI state: which profiles are open as tabs, in what order, and
//! which of them is active.

use crate::path::{join, joined, path_bytes};
use crate::text::{concat, opt_text};
use crate::transport::geesed::opt_path;
use std::path::PathBuf;
use vstd::prelude::*;
use vstd::utf8::encode_utf8;

verus! {

/// Current on-disk state-file schema version.
pub const VERSION: u32 = 0;

/// What can go wrong with the state file. Each variant but the first holds the
/// words of the underlying error.
#[derive(Debug)]
pub enum Error {
    NoDataDir,
    Io(String),
    Parse(String),
    Serialise(String),
}

impl Error {
    /// The words of the error.
    pub open spec fn words(self) -> Seq<char> {
        match self {
            Error::NoDataDir => "no data dir available to store gander state"@,
            Error::Io(e) => "io error reading or writing state: "@ + e@,
            Error::Parse(e) => "failed to parse state.toml: "@ + e@,
            Error::Serialise(e) => "failed to serialise state.toml: "@ + e@,
        }
    }

    /// The words of the error.
    pub fn message(&self) -> (res: String)
        ensures
            res@ == self.words(),
    {
        match self {
            Error::NoDataDir => "no data dir available to store gander state".to_owned(),
            Error::Io(e) => concat("io error reading or writing state: ", e.as_str()),
            Error::Parse(e) => concat("failed to parse state.toml: ", e.as_str()),
            Error::Serialise(e) => concat("failed to serialise state.toml: ", e.as_str()),
        }
    }
}

/// One open tab.
#[derive(Debug, PartialEq, Eq)]
pub struct TabState {
    /// `geese` profile name.
    pub name: String,
}

/// The state on disk.
#[derive(Debug, PartialEq, Eq)]
pub struct State {
    pub version: u32,
    /// Active tab's `geese` profile name, if any.
    pub active: Option<String>,
    /// Ordered list of open tabs (head = leftmost).
    pub tabs: Vec<TabState>,
}

/// The model of a [`State`].
pub ghost struct StateView {
    pub version: u32,
    pub active: Option<Seq<char>>,
    pub tabs: Seq<Seq<char>>,
}

/// The names of a list of tabs.
pub open spec fn tab_names(tabs: Seq<TabState>) -> Seq<Seq<char>> {
    tabs.map_values(|tab: TabState| tab.name@)
}

impl View for State {
    type V = StateView;

    open spec fn view(&self) -> StateView {
        StateView {
            version: self.version,
            active: opt_text(self.active),
            tabs: tab_names(self.tabs@),
        }
    }
}

impl State {
    /// The state with no tab open.
    pub fn new() -> (res: State)
        ensures
            res@ == (StateView { version: VERSION, active: None, tabs: Seq::empty() }),
    {
        let res = State { version: VERSION, active: None, tabs: Vec::new() };
        assert(tab_names(res.tabs@) =~= Seq::empty());
        res
    }
}

/// What the keys of the state file hold. A key that the file leaves out is
/// `None`.
#[derive(Debug, PartialEq, Eq)]
pub struct StateRecord {
    pub version: Option<u32>,
    pub active: Option<String>,
    /// The tables under `tab`, one for each tab.
    pub tab: Option<Vec<TabState>>,
}

/// The model of a [`StateRecord`].
pub ghost struct RecordView {
    pub version: Option<u32>,
    pub active: Option<Seq<char>>,
    pub tab: Option<Seq<Seq<char>>>,
}

impl View for StateRecord {
    type V = RecordView;

    open spec fn view(&self) -> RecordView {
        RecordView {
            version: self.version,
            active: opt_text(self.active),
            tab: match self.tab {
                Some(tabs) => Some(tab_names(tabs@)),
                None => None,
            },
        }
    }
}

impl StateView {
    /// What the file holds of the state: no `active` where no tab is, and no
    /// `tab` where none is open.
    pub open spec fn record(self) -> RecordView {
        RecordView {
            version: Some(self.version),
            active: self.active,
            tab: if self.tabs.len() == 0 {
                None
            } else {
                Some(self.tabs)
            },
        }
    }
}

impl RecordView {
    /// The state that the file holds: version 0 with no tab open, as far as
    /// keys are left out.
    pub open spec fn state(self) -> StateView {
        StateView {
            version: match self.version {
                Some(version) => version,
                None => 0,
            },
            active: self.active,
            tabs: match self.tab {
                Some(tabs) => tabs,
                None => Seq::empty(),
            },
        }
    }
}

/// What the file holds of a state is that state again: its version, its active
/// tab, and its tabs in their order.
pub proof fn law_saved_state_loads_again(state: StateView)
    ensures
        state.record().state() == state,
{
    if state.tabs.len() == 0 {
        assert(state.tabs =~= Seq::empty());
    }
}

impl StateRecord {
    /// The state that the file holds.
    pub fn into_state(self) -> (res: State)
        ensures
            res@ == self@.state(),
    {
        let version: u32 = match self.version {
            Some(version) => version,
            None => 0,
        };
        match self.tab {
            Some(tabs) => State { version, active: self.active, tabs },
            None => {
                let tabs: Vec<TabState> = Vec::new();
                assert(tab_names(tabs@) =~= Seq::empty());
                State { version, active: self.active, tabs }
            },
        }
    }
}

/// What reading the state file gave.
#[derive(Debug)]
pub enum StateFile {
    /// The file was read, and its text is a state.
    Decoded(StateRecord),
    /// The file was read, and its text is no state.
    Malformed(String),
    /// There is no such file.
    NotFound,
    /// The file could not be read.
    Unreadable(String),
}

/// Store for [`State`] in a file.
#[derive(Debug)]
pub struct Storage {
    path: PathBuf,
}

impl Storage {
    /// The bytes of the path of the file.
    pub closed spec fn location(self) -> Seq<u8> {
        path_bytes(self.path)
    }

    /// Resolve the storage location: the value of `GANDER_STATE` where it is
    /// set, else `gander/state.toml` in the data directory.
    pub fn from_env(gander_state: Option<PathBuf>, data_dir: Option<PathBuf>) -> (res: Result<
        Storage,
        Error,
    >)
        ensures
            match res {
                Ok(storage) => match (opt_path(gander_state), opt_path(data_dir)) {
                    (Some(path), _) => storage.location() == path,
                    (None, Some(dir)) => storage.location() == joined(
                        joined(dir, encode_utf8("gander"@)),
                        encode_utf8("state.toml"@),
                    ),
                    (None, None) => false,
                },
                Err(e) => e == Error::NoDataDir && gander_state is None && data_dir is None,
            },
    {
        proof {
            reveal_strlit("gander");
            reveal_strlit("state.toml");
        }
        match gander_state {
            Some(path) => Ok(Storage::at(path)),
            None => match data_dir {
                Some(dir) => Ok(Storage::at(join(&join(&dir, "gander"), "state.toml"))),
                None => Err(Error::NoDataDir),
            },
        }
    }

    /// The store in a given file.
    pub fn at(path: PathBuf) -> (res: Storage)
        ensures
            res.location() == path_bytes(path),
    {
        Storage { path }
    }

    /// The file.
    pub fn path(&self) -> (res: &PathBuf)
        ensures
            path_bytes(*res) == self.location(),
    {
        &self.path
    }

    /// The state that reading the file gives: a fresh one where there is no
    /// file. A malformed file is reported and never taken for a fresh state.
    pub fn load(&self, file: StateFile) -> (res: Result<State, Error>)
        ensures
            match file {
                StateFile::Decoded(record) => res matches Ok(state) && state@ == record@.state(),
                StateFile::Malformed(e) => res == Err::<State, Error>(Error::Parse(e)),
                StateFile::NotFound => res matches Ok(state) && state@ == (StateView {
                    version: VERSION,
                    active: None,
                    tabs: Seq::empty(),
                }),
                StateFile::Unreadable(e) => res == Err::<State, Error>(Error::Io(e)),
            },
    {
        match file {
            StateFile::Decoded(record) => Ok(record.into_state()),
            StateFile::Malformed(e) => Err(Error::Parse(e)),
            StateFile::NotFound => Ok(State::new()),
            StateFile::Unreadable(e) => Err(Error::Io(e)),
        }
    }

    /// What is to be written to the file for a state. Reading it back gives the
    /// state again.
    pub fn save(&self, state: &State) -> (res: StateRecord)
        ensures
            res@ == state@.record(),
            res@.state() == state@,
    {
        proof {
            law_saved_state_loads_again(state@);
        }
        let active: Option<String> = match &state.active {
            Some(name) => Some(name.clone()),
            None => None,
        };
        if state.tabs.len() == 0 {
            return StateRecord { version: Some(state.version), active, tab: None };
        }
        let mut tabs: Vec<TabState> = Vec::new();
        let mut i: usize = 0;
        while i < state.tabs.len()
            invariant
                i <= state.tabs.len(),
                tabs.len() == i,
                forall|k: int| 0 <= k < i ==> (#[trigger] tabs[k]).name@ == state.tabs[k].name@,
            decreases state.tabs.len() - i,
        {
            tabs.push(TabState { name: state.tabs[i].name.clone() });
            i += 1;
        }
        assert(tab_names(tabs@) =~= tab_names(state.tabs@));
        StateRecord { version: Some(state.version), active, tab: Some(tabs) }
    }
}

/// A key that the file leaves out has its default: version 0, no active tab, no
/// tab at all. A key that it holds has its value.
pub proof fn law_missing_keys_have_defaults(record: RecordView)
    ensures
        record.version is None ==> record.state().version == 0,
        record.version matches Some(version) ==> record.state().version == version,
        record.state().active == record.active,
        record.tab is None ==> record.state().tabs.len() == 0,
        record.tab matches Some(tabs) ==> record.state().tabs == tabs,
{
}

} // verus!
