//! Messages to the window, and what they bring about.

use crate::app::{
    lemma_place, pending_views, place, slot_views, AppModel, AppView, ContextDrawer, Entity, Page,
    PendingWebview, Slot, SlotView,
};
use crate::config::Config;
use crate::state::{State, StateView};
use crate::tab::{is_known, knows, profile_views, ProfileEntry, ProfileEntryView};
use crate::text::{concat, str_eq, trim, trimmed};
use vstd::prelude::*;

verus! {

/// A step along the tab strip, asked for from inside a page.
#[derive(Clone, Copy, Debug, PartialEq, Eq, Structural)]
pub enum TabNavDir {
    Prev,
    Next,
}

/// What happened to the window.
#[derive(Debug)]
pub enum Message {
    ShowNewTabPicker,
    HideNewTabPicker,
    OpenTab(String),
    ActivateTab(Entity),
    CloseTab(Entity),
    NewProfileNameChanged(String),
    CreateProfile,
    RefreshProfiles,
    /// Profiles list returned by geesed.
    ProfilesRefreshed(Result<Vec<ProfileEntry>, String>),
    /// Profile creation result from geesed.
    ProfileCreated(Result<ProfileEntry, String>),
    /// The connection of a tab was established, or failed.
    TabAcpReady(Entity, Result<(), String>),
    /// The preferences changed.
    UpdateConfig(Config),
    /// About-page link click.
    LaunchUrl(String),
    ToggleAbout,
    ToggleProfileConfig,
    CloseContextDrawer,
    /// The main window is known.
    GotMainWindowId,
    /// The page of a tab was created.
    WebviewReady(Entity),
    /// A tick, with the step that a page asked for since the last one.
    PumpGtk(Option<TabNavDir>),
    WindowResized,
    /// Cycle to the previous tab.
    PrevTab,
    /// Cycle to the next tab.
    NextTab,
    /// The rectangle of the tab body is known, or changed.
    TabBodyRect,
    /// geesed client ready (or failed to start).
    GeesedReady(Result<(), String>),
}

/// The model of a [`Message`].
pub ghost enum MessageView {
    ShowNewTabPicker,
    HideNewTabPicker,
    OpenTab(Seq<char>),
    ActivateTab(Entity),
    CloseTab(Entity),
    NewProfileNameChanged(Seq<char>),
    CreateProfile,
    RefreshProfiles,
    ProfilesRefreshed(Option<Seq<ProfileEntryView>>),
    ProfileCreated(Result<ProfileEntryView, Seq<char>>),
    TabAcpReady(Entity, Option<Seq<char>>),
    UpdateConfig(Config),
    LaunchUrl(Seq<char>),
    ToggleAbout,
    ToggleProfileConfig,
    CloseContextDrawer,
    GotMainWindowId,
    WebviewReady(Entity),
    PumpGtk(Option<TabNavDir>),
    WindowResized,
    PrevTab,
    NextTab,
    TabBodyRect,
    GeesedReady(Option<Seq<char>>),
}

impl View for Message {
    type V = MessageView;

    open spec fn view(&self) -> MessageView {
        match self {
            Message::ShowNewTabPicker => MessageView::ShowNewTabPicker,
            Message::HideNewTabPicker => MessageView::HideNewTabPicker,
            Message::OpenTab(name) => MessageView::OpenTab(name@),
            Message::ActivateTab(entity) => MessageView::ActivateTab(*entity),
            Message::CloseTab(entity) => MessageView::CloseTab(*entity),
            Message::NewProfileNameChanged(name) => MessageView::NewProfileNameChanged(name@),
            Message::CreateProfile => MessageView::CreateProfile,
            Message::RefreshProfiles => MessageView::RefreshProfiles,
            Message::ProfilesRefreshed(result) => MessageView::ProfilesRefreshed(
                match result {
                    Ok(profiles) => Some(profile_views(profiles@)),
                    Err(_) => None,
                },
            ),
            Message::ProfileCreated(result) => MessageView::ProfileCreated(
                match result {
                    Ok(entry) => Ok(entry@),
                    Err(e) => Err(e@),
                },
            ),
            Message::TabAcpReady(entity, result) => MessageView::TabAcpReady(
                *entity,
                match result {
                    Ok(_) => None,
                    Err(e) => Some(e@),
                },
            ),
            Message::UpdateConfig(config) => MessageView::UpdateConfig(*config),
            Message::LaunchUrl(url) => MessageView::LaunchUrl(url@),
            Message::ToggleAbout => MessageView::ToggleAbout,
            Message::ToggleProfileConfig => MessageView::ToggleProfileConfig,
            Message::CloseContextDrawer => MessageView::CloseContextDrawer,
            Message::GotMainWindowId => MessageView::GotMainWindowId,
            Message::WebviewReady(entity) => MessageView::WebviewReady(*entity),
            Message::PumpGtk(dir) => MessageView::PumpGtk(*dir),
            Message::WindowResized => MessageView::WindowResized,
            Message::PrevTab => MessageView::PrevTab,
            Message::NextTab => MessageView::NextTab,
            Message::TabBodyRect => MessageView::TabBodyRect,
            Message::GeesedReady(result) => MessageView::GeesedReady(
                match result {
                    Ok(_) => None,
                    Err(e) => Some(e@),
                },
            ),
        }
    }
}

/// What the shell around the library has to do.
#[derive(Debug)]
pub enum Effect {
    /// Ask geesed for the profiles.
    ListProfiles,
    /// Ask geesed to create a profile.
    CreateProfile(String),
    /// Write the state to disk.
    Persist(State),
    /// Set the title of the window.
    SetTitle(String),
    /// Create the page of a tab and connect it to its profile.
    OpenWebview { entity: Entity, profile: String },
    /// Take over a page that was created, hidden at first.
    ClaimWebview(Entity),
    /// Show the page of a tab, and hide every other.
    ShowOnly(Entity),
    /// Hide every page.
    HideAll,
    /// Put the page of a tab where the tab body is.
    SetBounds(Entity),
    /// Put every page where the tab body is.
    SetBoundsAll,
    /// Drop the page of a tab.
    DestroyWebview(Entity),
    /// Keep the connection that was established for a tab.
    KeepConnection(Entity),
    /// Drop the connection of a tab.
    DropConnection(Entity),
    /// Open a link.
    LaunchUrl(String),
}

/// The model of an [`Effect`].
pub ghost enum EffectView {
    ListProfiles,
    CreateProfile(Seq<char>),
    Persist(StateView),
    SetTitle(Seq<char>),
    OpenWebview { entity: Entity, profile: Seq<char> },
    ClaimWebview(Entity),
    ShowOnly(Entity),
    HideAll,
    SetBounds(Entity),
    SetBoundsAll,
    DestroyWebview(Entity),
    KeepConnection(Entity),
    DropConnection(Entity),
    LaunchUrl(Seq<char>),
}

impl View for Effect {
    type V = EffectView;

    open spec fn view(&self) -> EffectView {
        match self {
            Effect::ListProfiles => EffectView::ListProfiles,
            Effect::CreateProfile(name) => EffectView::CreateProfile(name@),
            Effect::Persist(state) => EffectView::Persist(state@),
            Effect::SetTitle(title) => EffectView::SetTitle(title@),
            Effect::OpenWebview { entity, profile } => EffectView::OpenWebview {
                entity: *entity,
                profile: profile@,
            },
            Effect::ClaimWebview(entity) => EffectView::ClaimWebview(*entity),
            Effect::ShowOnly(entity) => EffectView::ShowOnly(*entity),
            Effect::HideAll => EffectView::HideAll,
            Effect::SetBounds(entity) => EffectView::SetBounds(*entity),
            Effect::SetBoundsAll => EffectView::SetBoundsAll,
            Effect::DestroyWebview(entity) => EffectView::DestroyWebview(*entity),
            Effect::KeepConnection(entity) => EffectView::KeepConnection(*entity),
            Effect::DropConnection(entity) => EffectView::DropConnection(*entity),
            Effect::LaunchUrl(url) => EffectView::LaunchUrl(url@),
        }
    }
}

/// The models of a list of effects.
pub open spec fn effect_views(effects: Seq<Effect>) -> Seq<EffectView> {
    effects.map_values(|e: Effect| e@)
}

/// A model, and the effects of what brought it about.
pub type Updated = (AppView, Seq<EffectView>);

/// The effects that bring a page to the front.
pub open spec fn front(entity: Entity) -> Seq<EffectView> {
    seq![EffectView::ShowOnly(entity), EffectView::SetBounds(entity)]
}

/// The effects that create the pages of a list of tabs.
pub open spec fn open_all(tabs: Seq<(Entity, Seq<char>)>) -> Seq<EffectView> {
    tabs.map_values(
        |t: (Entity, Seq<char>)| EffectView::OpenWebview { entity: t.0, profile: t.1 },
    )
}

/// The effects that take away the pages and connections of a list of tabs.
pub open spec fn drop_all(entities: Seq<Entity>) -> Seq<EffectView>
    decreases entities.len(),
{
    if entities.len() == 0 {
        Seq::empty()
    } else {
        drop_all(entities.drop_last()) + seq![
            EffectView::DestroyWebview(entities.last()),
            EffectView::DropConnection(entities.last()),
        ]
    }
}

/// The tabs of a strip with their profiles.
pub open spec fn strip_pages(slots: Seq<SlotView>) -> Seq<(Entity, Seq<char>)> {
    slots.map_values(|s: SlotView| (s.entity, s.profile))
}

impl AppView {
    /// Asks for the profiles, where geesed is connected.
    pub open spec fn refresh(self) -> Seq<EffectView> {
        if self.geesed {
            seq![EffectView::ListProfiles]
        } else {
            Seq::empty()
        }
    }

    /// Brings the active tab's page to the front, where tabs are shown.
    pub open spec fn front_active(self) -> Seq<EffectView> {
        match self.active {
            Some(entity) => if self.page == Page::Tab {
                front(entity)
            } else {
                Seq::empty()
            },
            None => Seq::empty(),
        }
    }

    /// The effects that write the state down and set the title.
    pub open spec fn announce(self) -> Seq<EffectView> {
        seq![EffectView::Persist(self.snapshot()), EffectView::SetTitle(self.title())]
    }

    /// Creates the page of the active tab now, or later where the window or
    /// the tab body is not known yet.
    pub open spec fn with_page(self, effects: Seq<EffectView>, profile: Seq<char>) -> Updated {
        match self.active {
            Some(entity) => if self.has_window && self.has_bounds {
                (self, effects.push(EffectView::OpenWebview { entity, profile }))
            } else {
                (
                    AppView {
                        pending_webviews: self.pending_webviews.push((entity, profile)),
                        ..self
                    },
                    effects,
                )
            },
            None => (self, effects),
        }
    }

    /// Makes a tab the active one, and shows it.
    pub open spec fn activate_tab(self, entity: Entity) -> Updated {
        let next = AppView { page: Page::Tab, ..self.activated(entity) };
        (
            next,
            seq![EffectView::Persist(next.snapshot())] + front(entity) + seq![
                EffectView::SetTitle(next.title()),
            ],
        )
    }

    /// Goes a number of tabs to the right.
    pub open spec fn step_tab(self, offset: int) -> Updated {
        match self.adjacent(offset) {
            Some(entity) => self.activate_tab(entity),
            None => (self, Seq::empty()),
        }
    }

    /// A profile of this name has a tab.
    pub open spec fn has_tab(self, profile: Seq<char>) -> bool {
        exists|i: int| 0 <= i < self.slots.len() && (#[trigger] self.slots[i]).profile == profile
    }

    /// Opens a tab for a profile that was asked for.
    pub open spec fn open_message(self, profile: Seq<char>) -> Updated {
        let next = self.opened(profile);
        if self.has_tab(profile) {
            (
                next,
                seq![EffectView::Persist(next.snapshot())] + next.front_active() + seq![
                    EffectView::SetTitle(next.title()),
                ],
            )
        } else {
            next.with_page(next.announce(), profile)
        }
    }

    /// Opens a tab for a profile that was created.
    pub open spec fn created_message(self, entry: ProfileEntryView) -> Updated {
        let known = if is_known(self.known_profiles, entry.name) {
            self.known_profiles
        } else {
            self.known_profiles.push(entry)
        };
        let next = AppView {
            known_profiles: known,
            picker_error: None,
            ..self.opened(entry.name)
        };
        next.with_page(next.announce(), entry.name)
    }

    /// Closes a tab, its page and its connection.
    pub open spec fn close_message(self, entity: Entity) -> Updated {
        let next = self.closed(entity);
        (
            next,
            seq![
                EffectView::DestroyWebview(entity),
                EffectView::DropConnection(entity),
                EffectView::Persist(next.snapshot()),
            ] + next.front_active() + seq![EffectView::SetTitle(next.title())],
        )
    }

    /// Asks geesed for the profile whose name was typed. A blank name is
    /// dropped.
    pub open spec fn create_message(self) -> Updated {
        let name = trimmed(self.new_profile_name);
        let next = AppView { new_profile_name: Seq::empty(), ..self };
        if name.len() == 0 {
            (next, Seq::empty())
        } else if self.geesed {
            (next, seq![EffectView::CreateProfile(name)])
        } else {
            (
                AppView {
                    new_profile_name: name,
                    picker_error: Some("geesed not available"@),
                    ..self
                },
                Seq::empty(),
            )
        }
    }

    /// Keeps the error of a tab's connection.
    pub open spec fn failed_tab(self, entity: Entity, error: Seq<char>) -> AppView {
        let at = place(self.slots, entity);
        if at < self.slots.len() {
            AppView {
                slots: self.slots.update(
                    at,
                    SlotView { acp_error: Some(error), ..self.slots[at] },
                ),
                ..self
            }
        } else {
            self
        }
    }

    /// The main window is known: the pages of restored tabs are created now,
    /// or later where the tab body is not known yet.
    pub open spec fn window_message(self) -> Updated {
        let next = AppView { has_window: true, ..self };
        if self.has_bounds {
            (next, open_all(strip_pages(self.slots)))
        } else {
            (
                AppView {
                    pending_webviews: self.pending_webviews + strip_pages(self.slots),
                    ..next
                },
                Seq::empty(),
            )
        }
    }

    /// The tab body is known: the active page goes there, and the pages that
    /// waited are created where the window is known too.
    pub open spec fn bounds_message(self) -> Updated {
        let next = AppView { has_bounds: true, ..self };
        let place_active = match self.active {
            Some(entity) => if self.page == Page::Tab {
                seq![EffectView::SetBounds(entity)]
            } else {
                Seq::empty()
            },
            None => Seq::empty(),
        };
        if self.has_window {
            (
                AppView { pending_webviews: Seq::empty(), ..next },
                place_active + open_all(self.pending_webviews),
            )
        } else {
            (next, place_active)
        }
    }

    /// The model after a message, and the effects.
    pub open spec fn updated(self, message: MessageView) -> Updated {
        match message {
            MessageView::GeesedReady(None) => {
                let next = AppView { geesed: true, ..self };
                (next, next.refresh())
            },
            MessageView::GeesedReady(Some(e)) => (
                AppView { picker_error: Some("geesed not available: "@ + e), ..self },
                Seq::empty(),
            ),
            MessageView::ProfilesRefreshed(Some(profiles)) => {
                let seen = AppView { known_profiles: profiles, ..self };
                (seen.pruned(), drop_all(seen.stale()))
            },
            MessageView::ProfilesRefreshed(None) => (self, Seq::empty()),
            MessageView::ProfileCreated(Ok(entry)) => self.created_message(entry),
            MessageView::ProfileCreated(Err(e)) => (
                AppView { picker_error: Some(e), ..self },
                Seq::empty(),
            ),
            MessageView::ShowNewTabPicker => (
                AppView { picker_error: None, page: Page::Picker, ..self },
                seq![EffectView::HideAll] + self.refresh(),
            ),
            MessageView::HideNewTabPicker => {
                let next = AppView { page: self.default_page(), ..self };
                (next, next.front_active())
            },
            MessageView::OpenTab(name) => self.open_message(name),
            MessageView::ActivateTab(entity) => self.activate_tab(entity),
            MessageView::CloseTab(entity) => self.close_message(entity),
            MessageView::NewProfileNameChanged(name) => (
                AppView { new_profile_name: name, ..self },
                Seq::empty(),
            ),
            MessageView::CreateProfile => self.create_message(),
            MessageView::RefreshProfiles => (self, self.refresh()),
            MessageView::UpdateConfig(config) => (AppView { config, ..self }, Seq::empty()),
            MessageView::LaunchUrl(url) => (self, seq![EffectView::LaunchUrl(url)]),
            MessageView::ToggleAbout => (self.toggled(ContextDrawer::About), Seq::empty()),
            MessageView::ToggleProfileConfig => (
                if self.active_profile() is Some {
                    self.toggled(ContextDrawer::ProfileConfig)
                } else {
                    self
                },
                Seq::empty(),
            ),
            MessageView::CloseContextDrawer => (
                AppView { drawer: None, show_context: false, ..self },
                Seq::empty(),
            ),
            MessageView::TabAcpReady(entity, None) => (
                self,
                seq![EffectView::KeepConnection(entity)],
            ),
            MessageView::TabAcpReady(entity, Some(e)) => (
                self.failed_tab(entity, e),
                Seq::empty(),
            ),
            MessageView::GotMainWindowId => self.window_message(),
            MessageView::WebviewReady(entity) => (
                self,
                seq![EffectView::ClaimWebview(entity)] + (if self.active == Some(entity) {
                    self.front_active()
                } else {
                    Seq::empty()
                }),
            ),
            MessageView::PumpGtk(Some(TabNavDir::Prev)) => self.step_tab(-1),
            MessageView::PumpGtk(Some(TabNavDir::Next)) => self.step_tab(1),
            MessageView::PumpGtk(None) => (self, Seq::empty()),
            MessageView::PrevTab => self.step_tab(-1),
            MessageView::NextTab => self.step_tab(1),
            MessageView::WindowResized => (self, seq![EffectView::SetBoundsAll]),
            MessageView::TabBodyRect => self.bounds_message(),
        }
    }
}

/// No effect.
fn nothing() -> (res: Vec<Effect>)
    ensures
        effect_views(res@) == Seq::<EffectView>::empty(),
{
    let res: Vec<Effect> = Vec::new();
    assert(effect_views(res@) =~= Seq::empty());
    res
}

/// One effect.
fn just(effect: Effect) -> (res: Vec<Effect>)
    ensures
        effect_views(res@) == seq![effect@],
{
    let ghost model = effect@;
    let mut res: Vec<Effect> = Vec::new();
    res.push(effect);
    assert(effect_views(res@) =~= seq![model]);
    res
}

/// Adds an effect.
fn also(effects: &mut Vec<Effect>, effect: Effect)
    ensures
        effect_views(final(effects)@) == effect_views(old(effects)@).push(effect@),
{
    let ghost model = effect@;
    let ghost before = effect_views(effects@);
    effects.push(effect);
    assert(effect_views(effects@) =~= before.push(model));
}

/// Adds effects.
fn then_all(effects: &mut Vec<Effect>, more: Vec<Effect>)
    ensures
        effect_views(final(effects)@) == effect_views(old(effects)@) + effect_views(more@),
{
    let ghost before = effect_views(effects@);
    let ghost added = effect_views(more@);
    let mut more: Vec<Effect> = more;
    effects.append(&mut more);
    assert(effect_views(effects@) =~= before + added);
}

/// The effects that bring a page to the front.
fn front_effects(entity: Entity) -> (res: Vec<Effect>)
    ensures
        effect_views(res@) == front(entity),
{
    let mut res = just(Effect::ShowOnly(entity));
    also(&mut res, Effect::SetBounds(entity));
    assert(effect_views(res@) =~= front(entity));
    res
}

/// The effects that create the pages of a list of tabs.
fn open_effects(tabs: Vec<PendingWebview>) -> (res: Vec<Effect>)
    ensures
        effect_views(res@) == open_all(pending_views(tabs@)),
{
    let mut res: Vec<Effect> = Vec::new();
    let mut i: usize = 0;
    while i < tabs.len()
        invariant
            i <= tabs.len(),
            res.len() == i,
            forall|k: int|
                0 <= k < i ==> (#[trigger] res[k])@ == (EffectView::OpenWebview {
                    entity: tabs[k].entity,
                    profile: tabs[k].profile@,
                }),
        decreases tabs.len() - i,
    {
        res.push(
            Effect::OpenWebview { entity: tabs[i].entity, profile: tabs[i].profile.clone() },
        );
        i += 1;
    }
    assert(effect_views(res@) =~= open_all(pending_views(tabs@)));
    res
}

/// The effects that take away the pages and connections of a list of tabs.
fn drop_effects(entities: &Vec<Entity>) -> (res: Vec<Effect>)
    ensures
        effect_views(res@) == drop_all(entities@),
{
    let mut res: Vec<Effect> = nothing();
    let mut i: usize = 0;
    assert(entities@.take(0) =~= Seq::empty());
    while i < entities.len()
        invariant
            i <= entities.len(),
            effect_views(res@) == drop_all(entities@.take(i as int)),
        decreases entities.len() - i,
    {
        let ghost before = effect_views(res@);
        proof {
            assert(entities@.take(i + 1).drop_last() =~= entities@.take(i as int));
        }
        also(&mut res, Effect::DestroyWebview(entities[i]));
        also(&mut res, Effect::DropConnection(entities[i]));
        i += 1;
        assert(effect_views(res@) =~= drop_all(entities@.take(i as int)));
    }
    assert(entities@.take(i as int) =~= entities@);
    res
}

impl AppModel {
    /// Asks for the profiles, where geesed is connected.
    fn refresh(&self) -> (res: Vec<Effect>)
        ensures
            effect_views(res@) == self@.refresh(),
    {
        if self.geesed {
            just(Effect::ListProfiles)
        } else {
            nothing()
        }
    }

    /// Brings the active tab's page to the front, where tabs are shown.
    fn front_active(&self) -> (res: Vec<Effect>)
        ensures
            effect_views(res@) == self@.front_active(),
    {
        match self.active {
            Some(entity) => if self.page == Page::Tab {
                front_effects(entity)
            } else {
                nothing()
            },
            None => nothing(),
        }
    }

    /// Creates the page of the active tab now or later.
    fn with_page(&mut self, profile: String) -> (res: Vec<Effect>)
        ensures
            (final(self)@, effect_views(res@)) == old(self)@.with_page(
                old(self)@.announce(),
                profile@,
            ),
    {
        let mut effects = just(Effect::Persist(self.snapshot_state()));
        also(&mut effects, Effect::SetTitle(self.window_title()));
        assert(effect_views(effects@) =~= self@.announce());
        match self.active {
            Some(entity) => {
                if self.has_window && self.has_bounds {
                    also(&mut effects, Effect::OpenWebview { entity, profile });
                } else {
                    let ghost before = self@.pending_webviews;
                    let ghost entry = (entity, profile@);
                    self.pending_webviews.push(PendingWebview { entity, profile });
                    assert(pending_views(self.pending_webviews@) =~= before.push(entry));
                }
            },
            None => {},
        }
        effects
    }

    /// Makes a tab the active one, and shows it.
    fn activate_tab(&mut self, entity: Entity) -> (res: Vec<Effect>)
        requires
            old(self)@.wf(),
        ensures
            (final(self)@, effect_views(res@)) == old(self)@.activate_tab(entity),
            final(self)@.wf(),
    {
        self.activate(entity);
        self.page = Page::Tab;
        let mut effects = just(Effect::Persist(self.snapshot_state()));
        then_all(&mut effects, front_effects(entity));
        also(&mut effects, Effect::SetTitle(self.window_title()));
        assert(effect_views(effects@) =~= old(self)@.activate_tab(entity).1);
        effects
    }

    /// Goes a number of tabs to the right.
    fn step_tab(&mut self, offset: i32) -> (res: Vec<Effect>)
        requires
            old(self)@.wf(),
        ensures
            (final(self)@, effect_views(res@)) == old(self)@.step_tab(offset as int),
            final(self)@.wf(),
    {
        match self.adjacent_tab(offset) {
            Some(entity) => self.activate_tab(entity),
            None => nothing(),
        }
    }

    /// Whether a profile of this name has a tab.
    pub fn has_tab(&self, name: &str) -> (res: bool)
        ensures
            res == self@.has_tab(name@),
    {
        let mut i: usize = 0;
        while i < self.slots.len()
            invariant
                i <= self.slots.len(),
                forall|k: int| 0 <= k < i ==> (#[trigger] self@.slots[k]).profile != name@,
            decreases self.slots.len() - i,
        {
            assert(self@.slots[i as int] == self.slots[i as int]@);
            if str_eq(self.slots[i].tab.profile.as_str(), name) {
                return true;
            }
            i += 1;
        }
        false
    }

    fn open_message(&mut self, name: String) -> (res: Vec<Effect>)
        requires
            old(self)@.wf(),
            old(self)@.next_entity < Entity::MAX,
        ensures
            (final(self)@, effect_views(res@)) == old(self)@.open_message(name@),
            final(self)@.wf(),
    {
        let already_open: bool = self.has_tab(name.as_str());
        self.open_tab(name.as_str());
        if already_open {
            let mut effects = just(Effect::Persist(self.snapshot_state()));
            then_all(&mut effects, self.front_active());
            also(&mut effects, Effect::SetTitle(self.window_title()));
            assert(effect_views(effects@) =~= old(self)@.open_message(name@).1);
            effects
        } else {
            self.with_page(name)
        }
    }

    fn created_message(&mut self, entry: ProfileEntry) -> (res: Vec<Effect>)
        requires
            old(self)@.wf(),
            old(self)@.next_entity < Entity::MAX,
        ensures
            (final(self)@, effect_views(res@)) == old(self)@.created_message(entry@),
            final(self)@.wf(),
    {
        let name: String = entry.name.clone();
        let ghost model = entry@;
        let ghost known = self@.known_profiles;
        if !knows(&self.known_profiles, name.as_str()) {
            self.known_profiles.push(entry);
            assert(profile_views(self.known_profiles@) =~= known.push(model));
        }
        self.open_tab(name.as_str());
        self.picker_error = None;
        self.with_page(name)
    }

    fn close_message(&mut self, entity: Entity) -> (res: Vec<Effect>)
        requires
            old(self)@.wf(),
        ensures
            (final(self)@, effect_views(res@)) == old(self)@.close_message(entity),
            final(self)@.wf(),
    {
        let mut effects = just(Effect::DestroyWebview(entity));
        also(&mut effects, Effect::DropConnection(entity));
        self.close_tab(entity);
        also(&mut effects, Effect::Persist(self.snapshot_state()));
        then_all(&mut effects, self.front_active());
        also(&mut effects, Effect::SetTitle(self.window_title()));
        assert(effect_views(effects@) =~= old(self)@.close_message(entity).1);
        effects
    }

    fn create_message(&mut self) -> (res: Vec<Effect>)
        ensures
            (final(self)@, effect_views(res@)) == old(self)@.create_message(),
    {
        let name: String = trim(self.new_profile_name.as_str()).to_owned();
        proof {
            reveal_strlit("");
            assert(name@.len() == 0 ==> name@ =~= ""@);
        }
        if str_eq(name.as_str(), "") {
            self.new_profile_name = String::new();
            assert(self.new_profile_name@ =~= Seq::empty());
            nothing()
        } else if self.geesed {
            self.new_profile_name = String::new();
            assert(self.new_profile_name@ =~= Seq::empty());
            just(Effect::CreateProfile(name))
        } else {
            self.new_profile_name = name;
            self.picker_error = Some("geesed not available".to_owned());
            nothing()
        }
    }

    fn failed_tab(&mut self, entity: Entity, error: String)
        requires
            old(self)@.wf(),
        ensures
            final(self)@ == old(self)@.failed_tab(entity, error@),
            final(self)@.wf(),
    {
        let ghost before = self@;
        let at: usize = self.position(entity);
        proof {
            lemma_place(before.slots, entity);
        }
        if at < self.slots.len() {
            proof {
                assert(before.slots[at as int] == self.slots[at as int]@);
            }
            let ghost words = error@;
            let tab = crate::tab::Tab {
                profile: self.slots[at].tab.profile.clone(),
                acp_error: Some(error),
            };
            self.slots.set(at, Slot { entity, tab });
            proof {
                assert(slot_views(self.slots@) =~= before.failed_tab(entity, words).slots);
                let next = self@;
                assert forall|i: int| 0 <= i < next.slots.len() implies (
                #[trigger] next.slots[i]).entity == before.slots[i].entity by {}
                if let Some(active) = before.active {
                    let k = choose|k: int|
                        0 <= k < before.slots.len() && (#[trigger] before.slots[k]).entity
                            == active;
                    assert(next.slots[k].entity == active);
                }
            }
        }
    }

    /// The tabs of the strip with their profiles.
    fn strip_pages(&self) -> (res: Vec<PendingWebview>)
        ensures
            pending_views(res@) == strip_pages(self@.slots),
    {
        let mut res: Vec<PendingWebview> = Vec::new();
        let mut i: usize = 0;
        while i < self.slots.len()
            invariant
                i <= self.slots.len(),
                res.len() == i,
                forall|k: int|
                    0 <= k < i ==> (#[trigger] res[k]).entity == self@.slots[k].entity
                        && res[k].profile@ == self@.slots[k].profile,
            decreases self.slots.len() - i,
        {
            assert(self@.slots[i as int] == self.slots[i as int]@);
            res.push(
                PendingWebview {
                    entity: self.slots[i].entity,
                    profile: self.slots[i].tab.profile.clone(),
                },
            );
            i += 1;
        }
        assert(pending_views(res@) =~= strip_pages(self@.slots));
        res
    }

    fn window_message(&mut self) -> (res: Vec<Effect>)
        ensures
            (final(self)@, effect_views(res@)) == old(self)@.window_message(),
    {
        self.has_window = true;
        let mut pages = self.strip_pages();
        if self.has_bounds {
            open_effects(pages)
        } else {
            let ghost waiting = self@.pending_webviews;
            let ghost more = pending_views(pages@);
            self.pending_webviews.append(&mut pages);
            assert(pending_views(self.pending_webviews@) =~= waiting + more);
            nothing()
        }
    }

    fn bounds_message(&mut self) -> (res: Vec<Effect>)
        ensures
            (final(self)@, effect_views(res@)) == old(self)@.bounds_message(),
    {
        self.has_bounds = true;
        let mut effects = match self.active {
            Some(entity) => if self.page == Page::Tab {
                just(Effect::SetBounds(entity))
            } else {
                nothing()
            },
            None => nothing(),
        };
        if self.has_window {
            let mut pending: Vec<PendingWebview> = Vec::new();
            core::mem::swap(&mut pending, &mut self.pending_webviews);
            assert(pending_views(self.pending_webviews@) =~= Seq::empty());
            then_all(&mut effects, open_effects(pending));
        }
        effects
    }

    /// Takes a message, and returns the effects that it has.
    #[verifier::rlimit(100)]
    #[verifier::spinoff_prover]
    pub fn update(&mut self, message: Message) -> (effects: Vec<Effect>)
        requires
            old(self)@.wf(),
            old(self)@.next_entity < Entity::MAX,
        ensures
            (final(self)@, effect_views(effects@)) == old(self)@.updated(message@),
            final(self)@.wf(),
    {
        match message {
            Message::GeesedReady(result) => match result {
                Ok(_) => {
                    self.geesed = true;
                    self.refresh()
                },
                Err(e) => {
                    self.picker_error = Some(concat("geesed not available: ", e.as_str()));
                    nothing()
                },
            },
            Message::ProfilesRefreshed(result) => match result {
                Ok(profiles) => {
                    self.known_profiles = profiles;
                    let stale = self.prune_stale_tabs();
                    drop_effects(&stale)
                },
                Err(_) => nothing(),
            },
            Message::ProfileCreated(result) => match result {
                Ok(entry) => self.created_message(entry),
                Err(e) => {
                    self.picker_error = Some(e);
                    nothing()
                },
            },
            Message::ShowNewTabPicker => {
                self.picker_error = None;
                self.page = Page::Picker;
                let mut effects = just(Effect::HideAll);
                then_all(&mut effects, self.refresh());
                effects
            },
            Message::HideNewTabPicker => {
                self.page = self.default_page();
                self.front_active()
            },
            Message::OpenTab(name) => self.open_message(name),
            Message::ActivateTab(entity) => self.activate_tab(entity),
            Message::CloseTab(entity) => self.close_message(entity),
            Message::NewProfileNameChanged(name) => {
                self.new_profile_name = name;
                nothing()
            },
            Message::CreateProfile => self.create_message(),
            Message::RefreshProfiles => self.refresh(),
            Message::UpdateConfig(config) => {
                self.config = config;
                nothing()
            },
            Message::LaunchUrl(url) => just(Effect::LaunchUrl(url)),
            Message::ToggleAbout => {
                self.toggle_drawer(ContextDrawer::About);
                nothing()
            },
            Message::ToggleProfileConfig => {
                if self.active_profile_name().is_some() {
                    self.toggle_drawer(ContextDrawer::ProfileConfig);
                }
                nothing()
            },
            Message::CloseContextDrawer => {
                self.drawer = None;
                self.show_context = false;
                nothing()
            },
            Message::TabAcpReady(entity, result) => match result {
                Ok(_) => just(Effect::KeepConnection(entity)),
                Err(e) => {
                    self.failed_tab(entity, e);
                    nothing()
                },
            },
            Message::GotMainWindowId => self.window_message(),
            Message::WebviewReady(entity) => {
                let mut effects = just(Effect::ClaimWebview(entity));
                let is_active: bool = match self.active {
                    Some(active) => active == entity,
                    None => false,
                };
                if is_active {
                    then_all(&mut effects, self.front_active());
                } else {
                    then_all(&mut effects, nothing());
                }
                effects
            },
            Message::PumpGtk(dir) => match dir {
                Some(TabNavDir::Prev) => self.step_tab(-1),
                Some(TabNavDir::Next) => self.step_tab(1),
                None => nothing(),
            },
            Message::PrevTab => self.step_tab(-1),
            Message::NextTab => self.step_tab(1),
            Message::WindowResized => just(Effect::SetBoundsAll),
            Message::TabBodyRect => self.bounds_message(),
        }
    }
}

impl AppModel {
    /// The window as it starts: the tabs of the saved state are opened, also
    /// those whose profiles may be gone by now.
    pub fn init(app_title: String, initial_state: &State) -> (res: (AppModel, Vec<Effect>))
        ensures
            res.0@ == AppView::initial(app_title@).restored(initial_state@),
            res.0@.wf(),
            effect_views(res.1@) == seq![EffectView::SetTitle(res.0@.title())],
    {
        let mut model = AppModel::new(app_title);
        model.restore_tabs_unconditional(initial_state);
        let title: String = model.window_title();
        (model, just(Effect::SetTitle(title)))
    }

    /// Whether there is a number left for another tab.
    pub fn has_room(&self) -> (res: bool)
        ensures
            res == (self@.next_entity < Entity::MAX),
    {
        self.next_entity < Entity::MAX
    }
}

} // verus!
