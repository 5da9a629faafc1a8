//! The state file.

use gander::state::{Error, State, StateFile, StateRecord, Storage, TabState, VERSION};
use tempfile::tempdir;

#[test]
fn loads_default_when_missing() {
    let dir = tempdir().unwrap();
    let path = dir.path().join("missing.toml");
    assert!(!path.exists());
    let storage = Storage::at(path);
    let state = storage.load(StateFile::NotFound).unwrap();
    assert_eq!(state, State::new());
}

#[test]
fn surfaces_parse_errors() {
    let storage = Storage::at(tempdir().unwrap().path().join("state.toml"));
    let words = match toml::from_str::<toml::Table>("not = valid = toml") {
        Ok(table) => panic!("expected an error, got {table:?}"),
        Err(error) => error.to_string(),
    };
    let loaded = storage.load(StateFile::Malformed(words));
    assert!(matches!(loaded, Err(Error::Parse(_))));
}

#[test]
fn from_env_respects_override() {
    let dir = tempdir().unwrap();
    let path = dir.path().join("override.toml");
    let storage = Storage::from_env(Some(path.clone()), None).unwrap();
    assert_eq!(storage.path(), &path);
}

/// The text of the file.
fn written(record: StateRecord) -> String {
    let mut table = toml::Table::new();
    if let Some(version) = record.version {
        table.insert("version".to_string(), toml::Value::Integer(version.into()));
    }
    if let Some(active) = record.active {
        table.insert("active".to_string(), toml::Value::String(active));
    }
    if let Some(tabs) = record.tab {
        let mut list = Vec::new();
        for tab in tabs {
            let mut entry = toml::Table::new();
            entry.insert("name".to_string(), toml::Value::String(tab.name));
            list.push(toml::Value::Table(entry));
        }
        table.insert("tab".to_string(), toml::Value::Array(list));
    }
    toml::to_string_pretty(&table).unwrap()
}

/// What a text holds.
fn read(text: &str) -> StateRecord {
    let table: toml::Table = toml::from_str(text).unwrap();
    let tab = table.get("tab").map(|list| {
        let mut tabs = Vec::new();
        for entry in list.as_array().unwrap() {
            tabs.push(TabState {
                name: entry.get("name").unwrap().as_str().unwrap().to_string(),
            });
        }
        tabs
    });
    StateRecord {
        version: table
            .get("version")
            .map(|version| version.as_integer().unwrap().try_into().unwrap()),
        active: table
            .get("active")
            .map(|name| name.as_str().unwrap().to_string()),
        tab,
    }
}

#[test]
fn roundtrips_state() {
    let dir = tempdir().unwrap();
    let storage = Storage::at(dir.path().join("nested").join("state.toml"));
    let state = State {
        version: VERSION,
        active: Some("work".into()),
        tabs: vec![
            TabState {
                name: "work".into(),
            },
            TabState {
                name: "scratch".into(),
            },
        ],
    };
    let text = written(storage.save(&state));
    let loaded = storage.load(StateFile::Decoded(read(&text))).unwrap();
    assert_eq!(loaded, state);
}

#[test]
fn keys_without_a_value_are_left_out() {
    let storage = Storage::at(std::path::PathBuf::from("state.toml"));
    let record = storage.save(&State::new());
    assert_eq!(
        record,
        StateRecord { version: Some(0), active: None, tab: None }
    );
    assert_eq!(written(record), "version = 0\n");
    let loaded = storage.load(StateFile::Decoded(read("version = 0"))).unwrap();
    assert_eq!(loaded, State::new());
}

#[test]
fn keys_that_are_missing_have_defaults() {
    let storage = Storage::at(std::path::PathBuf::from("state.toml"));
    let loaded = storage.load(StateFile::Decoded(read(""))).unwrap();
    assert_eq!(loaded, State::new());
    let loaded = storage
        .load(StateFile::Decoded(read("version = 7\n[[tab]]\nname = \"a\"\n")))
        .unwrap();
    assert_eq!(loaded.version, 7);
    assert_eq!(loaded.active, None);
    assert_eq!(loaded.tabs, vec![TabState { name: "a".to_string() }]);
}

#[test]
fn the_default_place_is_below_the_data_directory() {
    let data = std::path::PathBuf::from("/data");
    let storage = Storage::from_env(None, Some(data)).unwrap();
    assert_eq!(storage.path().to_str(), Some("/data/gander/state.toml"));
    let none = Storage::from_env(None, None);
    assert!(matches!(none, Err(Error::NoDataDir)));
}

#[test]
fn each_error_says_what_failed() {
    let storage = Storage::at(std::path::PathBuf::from("state.toml"));
    let denied = storage.load(StateFile::Unreadable("denied".to_string()));
    match denied {
        Err(error) => assert_eq!(
            error.message(),
            "io error reading or writing state: denied"
        ),
        Ok(state) => panic!("expected an error, got {state:?}"),
    }
    assert_eq!(
        Error::NoDataDir.message(),
        "no data dir available to store gander state"
    );
    assert_eq!(
        Error::Parse("p".to_string()).message(),
        "failed to parse state.toml: p"
    );
    assert_eq!(
        Error::Serialise("s".to_string()).message(),
        "failed to serialise state.toml: s"
    );
}
