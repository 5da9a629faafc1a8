//! The window: its tabs, its pages and what each message does to them.

use gander::acp::{AcpEvent, ListedSession, StopReason};
use gander::app::pages::{key_step, Body, Drawer};
use gander::app::publish::{acp_event_to_js, json_str};
use gander::app::update::{Effect, Message, TabNavDir};
use gander::app::{AppModel, ContextDrawer, Page};
use gander::state::{State, TabState, VERSION};
use gander::tab::{find_profile, knows, ProfileEntry, Tab, TabBody};
use gander::tool_call::ToolCall;

fn profile(name: &str, locked: bool) -> ProfileEntry {
    ProfileEntry {
        name: name.to_string(),
        path: format!("/profiles/{name}"),
        locked,
        parent: None,
    }
}

fn model() -> AppModel {
    AppModel::new("Gander".to_string())
}

fn open(model: &mut AppModel, names: &[&str]) {
    for name in names {
        model.update(Message::OpenTab(name.to_string()));
    }
}

fn profiles(model: &AppModel) -> Vec<String> {
    let mut names = Vec::new();
    for entity in model.entities() {
        names.push(model.tab(entity).unwrap().profile.clone());
    }
    names
}

#[test]
fn opening_a_profile_twice_keeps_one_tab() {
    let mut model = model();
    open(&mut model, &["a", "b", "a"]);
    assert_eq!(profiles(&model), ["a", "b"]);
    assert_eq!(model.active_profile_name(), Some("a"));
    assert_eq!(model.window_title(), "Gander — a");
}

#[test]
fn a_new_window_is_empty() {
    let model = model();
    assert_eq!(model.default_page(), Page::Empty);
    assert_eq!(model.body(), Body::Empty);
    assert_eq!(model.context_drawer(), Drawer::Closed);
    assert_eq!(model.window_title(), "Gander");
    assert_eq!(model.active(), None);
    assert!(model.adjacent_tab(1).is_none());
}

#[test]
fn opening_a_tab_writes_the_state_and_sets_the_title() {
    let mut model = model();
    let effects = model.update(Message::OpenTab("work".to_string()));
    match &effects[..] {
        [Effect::Persist(state), Effect::SetTitle(title)] => {
            assert_eq!(state.active.as_deref(), Some("work"));
            assert_eq!(state.tabs.len(), 1);
            assert_eq!(state.version, VERSION);
            assert_eq!(title, "Gander — work");
        }
        other => panic!("unexpected effects: {other:?}"),
    }
}

#[test]
fn pages_wait_for_the_window_and_the_tab_body() {
    let mut model = model();
    open(&mut model, &["a"]);
    let entity = model.active().unwrap();
    assert!(matches!(&model.update(Message::TabBodyRect)[..], [Effect::SetBounds(e)] if *e == entity));
    let effects = model.update(Message::GotMainWindowId);
    assert!(matches!(&effects[..], [Effect::OpenWebview { entity: e, profile }]
        if *e == entity && profile == "a"));
    let effects = model.update(Message::OpenTab("b".to_string()));
    assert!(matches!(effects.last(), Some(Effect::OpenWebview { profile, .. }) if profile == "b"));
    let effects = model.update(Message::WebviewReady(entity));
    assert!(matches!(&effects[..], [Effect::ClaimWebview(e)] if *e == entity));
}

#[test]
fn closing_a_tab_drops_its_page_and_connection() {
    let mut model = model();
    open(&mut model, &["a", "b"]);
    let b = model.active().unwrap();
    let effects = model.update(Message::CloseTab(b));
    assert!(matches!(&effects[0], Effect::DestroyWebview(e) if *e == b));
    assert!(matches!(&effects[1], Effect::DropConnection(e) if *e == b));
    assert_eq!(profiles(&model), ["a"]);
    assert_eq!(model.active_profile_name(), Some("a"));
    let a = model.active().unwrap();
    model.update(Message::CloseTab(a));
    assert_eq!(model.body(), Body::Empty);
}

#[test]
fn the_tabs_are_a_ring() {
    let mut model = model();
    open(&mut model, &["a", "b", "c"]);
    model.update(Message::NextTab);
    assert_eq!(model.active_profile_name(), Some("a"));
    model.update(Message::PrevTab);
    assert_eq!(model.active_profile_name(), Some("c"));
    model.update(Message::PumpGtk(Some(TabNavDir::Prev)));
    assert_eq!(model.active_profile_name(), Some("b"));
    assert!(model.update(Message::PumpGtk(None)).is_empty());
}

#[test]
fn the_page_keys_need_control() {
    assert_eq!(key_step(true, true, false), Some(TabNavDir::Prev));
    assert_eq!(key_step(true, false, true), Some(TabNavDir::Next));
    assert_eq!(key_step(false, true, false), None);
    assert_eq!(key_step(true, false, false), None);
}

#[test]
fn a_drawer_toggles() {
    let mut model = model();
    model.toggle_drawer(ContextDrawer::About);
    assert_eq!(model.context_drawer(), Drawer::About);
    model.update(Message::ToggleAbout);
    assert_eq!(model.context_drawer(), Drawer::Closed);
    model.update(Message::ToggleProfileConfig);
    assert_eq!(model.context_drawer(), Drawer::Closed);
    open(&mut model, &["a"]);
    model.update(Message::ToggleProfileConfig);
    assert_eq!(model.context_drawer(), Drawer::ProfileConfig);
    model.update(Message::CloseContextDrawer);
    assert_eq!(model.context_drawer(), Drawer::Closed);
}

#[test]
fn stale_tabs_are_pruned() {
    let mut model = model();
    open(&mut model, &["a", "b", "c"]);
    let b = model.entities()[1];
    let effects = model.update(Message::ProfilesRefreshed(Ok(vec![
        profile("a", false),
        profile("c", true),
    ])));
    assert!(matches!(&effects[..], [Effect::DestroyWebview(x), Effect::DropConnection(y)]
        if *x == b && *y == b));
    assert_eq!(profiles(&model), ["a", "c"]);
    let effects = model.update(Message::ProfilesRefreshed(Err("down".to_string())));
    assert!(effects.is_empty());
    assert_eq!(profiles(&model), ["a", "c"]);
}

#[test]
fn the_picker_shows_what_is_open_and_locked() {
    let mut model = model();
    open(&mut model, &["a"]);
    model.update(Message::ProfilesRefreshed(Ok(vec![
        profile("a", true),
        profile("b", false),
    ])));
    let effects = model.update(Message::ShowNewTabPicker);
    assert!(matches!(&effects[..], [Effect::HideAll]));
    assert_eq!(model.body(), Body::Picker);
    let rows = model.picker_rows();
    assert_eq!(rows.len(), 2);
    assert!(rows[0].is_open && rows[0].locked && rows[0].name == "a");
    assert!(!rows[1].is_open && !rows[1].locked && rows[1].name == "b");
    model.update(Message::HideNewTabPicker);
    assert_eq!(model.body(), Body::Tab(model.active().unwrap()));
}

#[test]
fn a_profile_is_created_by_geesed() {
    let mut model = model();
    model.update(Message::NewProfileNameChanged("  new ".to_string()));
    assert!(model.update(Message::CreateProfile).is_empty());
    assert_eq!(model.picker_error(), Some("geesed not available"));
    assert_eq!(model.new_profile_name(), "new");

    let effects = model.update(Message::GeesedReady(Ok(())));
    assert!(matches!(&effects[..], [Effect::ListProfiles]));
    let effects = model.update(Message::CreateProfile);
    assert!(matches!(&effects[..], [Effect::CreateProfile(name)] if name == "new"));
    assert_eq!(model.new_profile_name(), "");
    assert!(model.update(Message::CreateProfile).is_empty());

    model.update(Message::ProfileCreated(Ok(profile("new", false))));
    assert_eq!(profiles(&model), ["new"]);
    assert_eq!(model.picker_error(), None);
    assert_eq!(model.known_profiles().len(), 1);
    model.update(Message::ProfileCreated(Err("exists".to_string())));
    assert_eq!(model.picker_error(), Some("exists"));
}

#[test]
fn geesed_that_is_missing_is_reported() {
    let mut model = model();
    model.update(Message::GeesedReady(Err("no socket".to_string())));
    assert_eq!(model.picker_error(), Some("geesed not available: no socket"));
    assert!(model.update(Message::RefreshProfiles).is_empty());
}

#[test]
fn restored_tabs_are_written_back_as_they_were() {
    let state = State {
        version: VERSION,
        active: Some("b".to_string()),
        tabs: vec![
            TabState { name: "a".to_string() },
            TabState { name: "b".to_string() },
        ],
    };
    let (model, effects) = AppModel::init("Gander".to_string(), &state);
    assert!(matches!(&effects[..], [Effect::SetTitle(title)] if title == "Gander — b"));
    assert_eq!(model.snapshot_state(), state);
    assert_eq!(model.body(), Body::Tab(model.active().unwrap()));
    assert!(model.has_room());
}

#[test]
fn a_tab_shows_its_profile_or_its_error() {
    let known = vec![profile("a", false)];
    let mut tab = Tab::new("a".to_string());
    match tab.view(&known) {
        TabBody::Open { title, error } => {
            assert!(title.contains('a'));
            assert_eq!(error, None);
        }
        other => panic!("expected an open tab, got {other:?}"),
    }
    tab.acp_error = Some("down".to_string());
    assert!(matches!(tab.view(&known), TabBody::Open { error: Some(e), .. } if e == "down"));
    assert!(matches!(
        Tab::new("b".to_string()).view(&known),
        TabBody::Missing { .. }
    ));
    assert!(knows(&known, "a") && !knows(&known, "b"));
    assert_eq!(find_profile(&known, "a").unwrap().path, "/profiles/a");
}

#[test]
fn a_failed_connection_stays_with_its_tab() {
    let mut model = model();
    open(&mut model, &["a", "b"]);
    let a = model.entities()[0];
    model.update(Message::TabAcpReady(a, Err("refused".to_string())));
    assert_eq!(model.tab(a).unwrap().acp_error.as_deref(), Some("refused"));
    let effects = model.update(Message::TabAcpReady(a, Ok(())));
    assert!(matches!(&effects[..], [Effect::KeepConnection(e)] if *e == a));
}

#[test]
fn strings_are_published_as_literals() {
    assert_eq!(json_str("a\"b\n"), "\"a\\\"b\\n\"");
    assert_eq!(
        acp_event_to_js(&AcpEvent::AgentText("it's".to_string())),
        "window.gander._publish({type:'agent_text',content:\"it's\"})"
    );
    assert_eq!(
        acp_event_to_js(&AcpEvent::UserText("u".to_string())),
        "window.gander._publish({type:'user_text',content:\"u\"})"
    );
    assert_eq!(
        acp_event_to_js(&AcpEvent::Error("e".to_string())),
        "window.gander._publish({type:'error',message:\"e\"})"
    );
}

#[test]
fn each_event_is_published() {
    assert_eq!(
        acp_event_to_js(&AcpEvent::SessionLoadStart),
        "window.gander._publish({type:'session_load_start'})"
    );
    assert_eq!(
        acp_event_to_js(&AcpEvent::SessionLoadEnd),
        "window.gander._publish({type:'session_load_end'})"
    );
    assert_eq!(
        acp_event_to_js(&AcpEvent::Complete(StopReason::EndTurn)),
        "window.gander._publish({type:'done'})"
    );
    assert_eq!(
        acp_event_to_js(&AcpEvent::SessionActive("s".to_string())),
        "window.gander._publish({type:'session_active',id:\"s\",history:[]})"
    );
    assert_eq!(
        acp_event_to_js(&AcpEvent::SessionInfo {
            cwd: "/".to_string(),
            model: "m".to_string(),
            tool_count: Some(12),
        }),
        "window.gander._publish({type:'session_info',cwd:\"/\",model:\"m\",tool_count:12})"
    );
    assert_eq!(
        acp_event_to_js(&AcpEvent::SessionInfo {
            cwd: "/".to_string(),
            model: "m".to_string(),
            tool_count: None,
        }),
        "window.gander._publish({type:'session_info',cwd:\"/\",model:\"m\",tool_count:null})"
    );
    assert_eq!(
        acp_event_to_js(&AcpEvent::ToolResource {
            tool_call_id: "tc".to_string(),
            html: "<p>".to_string(),
        }),
        "window.gander._publish({type:'tool_resource',tool_call_id:\"tc\",html:\"<p>\"})"
    );
    assert_eq!(
        acp_event_to_js(&AcpEvent::SessionList(vec![ListedSession {
            id: "1".to_string(),
            label: "one".to_string(),
            last_active: None,
        }])),
        "window.gander._publish({type:'session_list',sessions:[{\"id\":\"1\",\"label\":\"one\",\"last_active\":null}]})"
    );
    assert_eq!(
        acp_event_to_js(&AcpEvent::ToolCall(Box::new(ToolCall::new(
            "tc".to_string(),
            "t".to_string()
        )))),
        "window.gander._publish({type:'tool_call',call:\"{\\\"toolCallId\\\":\\\"tc\\\",\\\"title\\\":\\\"t\\\"}\"})"
    );
}

fn saved(effects: &[Effect]) -> Option<(Option<String>, Vec<String>)> {
    for effect in effects {
        if let Effect::Persist(state) = effect {
            let mut names = Vec::new();
            for tab in &state.tabs {
                names.push(tab.name.clone());
            }
            return Some((state.active.clone(), names));
        }
    }
    None
}

fn titled(effects: &[Effect]) -> Option<String> {
    for effect in effects {
        if let Effect::SetTitle(title) = effect {
            return Some(title.clone());
        }
    }
    None
}

#[test]
fn each_change_of_the_tabs_is_written_and_named() {
    let mut model = model();
    open(&mut model, &["a", "b"]);
    let b = model.active().unwrap();

    let effects = model.update(Message::NextTab);
    assert_eq!(
        saved(&effects),
        Some((Some("a".to_string()), vec!["a".to_string(), "b".to_string()]))
    );
    assert_eq!(titled(&effects), Some("Gander — a".to_string()));

    let effects = model.update(Message::ActivateTab(b));
    assert_eq!(saved(&effects).unwrap().0, Some("b".to_string()));
    assert_eq!(titled(&effects), Some("Gander — b".to_string()));

    let effects = model.update(Message::ProfileCreated(Ok(profile("c", false))));
    assert_eq!(saved(&effects).unwrap().1, ["a", "b", "c"]);
    assert_eq!(titled(&effects), Some("Gander — c".to_string()));

    let effects = model.update(Message::CloseTab(b));
    assert_eq!(saved(&effects).unwrap().1, ["a", "c"]);

    let effects = model.update(Message::ToggleAbout);
    assert_eq!(saved(&effects), None);
    assert_eq!(titled(&effects), None);
}

#[test]
fn a_list_of_profiles_takes_tabs_away_without_writing() {
    let mut model = model();
    open(&mut model, &["a", "b"]);
    let effects = model.update(Message::ProfilesRefreshed(Ok(vec![profile("a", false)])));
    assert_eq!(profiles(&model), ["a"]);
    assert_eq!(saved(&effects), None);
}

#[test]
fn a_profile_has_one_tab_however_it_is_opened() {
    let mut model = model();
    open(&mut model, &["a", "b"]);
    model.update(Message::ProfileCreated(Ok(profile("a", false))));
    model.update(Message::NextTab);
    model.update(Message::OpenTab("a".to_string()));
    assert_eq!(profiles(&model), ["a", "b"]);
    assert_eq!(model.active_profile_name(), Some("a"));
}

#[test]
fn a_round_visits_every_tab_once() {
    let mut model = model();
    open(&mut model, &["a", "b", "c"]);
    let mut seen = Vec::new();
    for _ in 0..3 {
        seen.push(model.active_profile_name().unwrap().to_string());
        model.update(Message::NextTab);
    }
    assert_eq!(seen, ["c", "a", "b"]);
    assert_eq!(model.active_profile_name(), Some("c"));
    for _ in 0..3 {
        model.update(Message::PrevTab);
    }
    assert_eq!(model.active_profile_name(), Some("c"));
    assert_eq!(profiles(&model), ["a", "b", "c"]);
}

#[test]
fn to_a_neighbour_and_back() {
    let mut model = model();
    open(&mut model, &["a", "b", "c"]);
    model.update(Message::NextTab);
    model.update(Message::PrevTab);
    assert_eq!(model.active_profile_name(), Some("c"));
    model.update(Message::PrevTab);
    model.update(Message::NextTab);
    assert_eq!(model.active_profile_name(), Some("c"));
}

#[test]
fn a_lone_tab_has_no_neighbour() {
    let mut model = model();
    assert!(model.update(Message::NextTab).is_empty());
    open(&mut model, &["a"]);
    assert!(model.update(Message::NextTab).is_empty());
    assert!(model.update(Message::PrevTab).is_empty());
    assert_eq!(model.active_profile_name(), Some("a"));
}
