//! The window: its open tabs, its pages and its drawers.
//!
//! [`AppModel::update`](crate::app::AppModel::update) takes a message, changes
//! the model, and returns the effects that the shell around the library has to
//! carry out, in their order.

pub mod laws;
pub mod messages;
pub mod pages;
pub mod publish;
pub mod update;

use crate::config::Config;
use crate::state::{State, StateView, TabState, VERSION};
use crate::tab::{profile_views, ProfileEntry, ProfileEntryView, Tab};
use crate::text::{opt_text, str_eq};
use vstd::prelude::*;

verus! {

/// What the main content area shows.
#[derive(Clone, Copy, Debug, PartialEq, Eq, Structural)]
pub enum Page {
    /// No tab is open.
    Empty,
    /// The active tab's body.
    Tab,
    /// The picker for opening or creating a profile tab.
    Picker,
}

/// What overlays the right edge.
#[derive(Clone, Copy, Debug, PartialEq, Eq, Structural)]
pub enum ContextDrawer {
    About,
    ProfileConfig,
}

/// The name of a tab in the strip. No two tabs ever have the same one.
pub type Entity = u64;

/// A tab in the strip.
#[derive(Debug)]
pub struct Slot {
    entity: Entity,
    tab: Tab,
}

/// The model of a tab in the strip.
pub ghost struct SlotView {
    pub entity: Entity,
    pub profile: Seq<char>,
    pub acp_error: Option<Seq<char>>,
}

impl View for Slot {
    type V = SlotView;

    closed spec fn view(&self) -> SlotView {
        SlotView {
            entity: self.entity,
            profile: self.tab.profile@,
            acp_error: opt_text(self.tab.acp_error),
        }
    }
}

/// The models of the strip.
pub closed spec fn slot_views(slots: Seq<Slot>) -> Seq<SlotView> {
    slots.map_values(|slot: Slot| slot@)
}

/// A tab whose page is to be created, with its profile.
#[derive(Debug)]
pub struct PendingWebview {
    pub entity: Entity,
    pub profile: String,
}

/// The models of a list of pages to be created.
pub open spec fn pending_views(pending: Seq<PendingWebview>) -> Seq<(Entity, Seq<char>)> {
    pending.map_values(|p: PendingWebview| (p.entity, p.profile@))
}

/// Top-level UI state.
#[derive(Debug)]
pub struct AppModel {
    app_title: String,
    geesed: bool,
    config: Config,
    slots: Vec<Slot>,
    active: Option<Entity>,
    next_entity: Entity,
    page: Page,
    drawer: Option<ContextDrawer>,
    show_context: bool,
    known_profiles: Vec<ProfileEntry>,
    new_profile_name: String,
    picker_error: Option<String>,
    has_window: bool,
    has_bounds: bool,
    pending_webviews: Vec<PendingWebview>,
}

/// The model of an [`AppModel`].
pub ghost struct AppView {
    /// The title of the application.
    pub app_title: Seq<char>,
    /// Whether geesed is connected.
    pub geesed: bool,
    pub config: Config,
    /// The tab strip, from left to right.
    pub slots: Seq<SlotView>,
    /// The active tab.
    pub active: Option<Entity>,
    /// The name that the next tab gets.
    pub next_entity: Entity,
    pub page: Page,
    pub drawer: Option<ContextDrawer>,
    /// Whether the drawer is shown.
    pub show_context: bool,
    pub known_profiles: Seq<ProfileEntryView>,
    /// What stands in the field for a new profile's name.
    pub new_profile_name: Seq<char>,
    pub picker_error: Option<Seq<char>>,
    /// Whether the main window is known.
    pub has_window: bool,
    /// Whether the rectangle of the tab body is known.
    pub has_bounds: bool,
    /// The pages that are to be created once both are known.
    pub pending_webviews: Seq<(Entity, Seq<char>)>,
}

impl View for AppModel {
    type V = AppView;

    closed spec fn view(&self) -> AppView {
        AppView {
            app_title: self.app_title@,
            geesed: self.geesed,
            config: self.config,
            slots: slot_views(self.slots@),
            active: self.active,
            next_entity: self.next_entity,
            page: self.page,
            drawer: self.drawer,
            show_context: self.show_context,
            known_profiles: profile_views(self.known_profiles@),
            new_profile_name: self.new_profile_name@,
            picker_error: opt_text(self.picker_error),
            has_window: self.has_window,
            has_bounds: self.has_bounds,
            pending_webviews: pending_views(self.pending_webviews@),
        }
    }
}

/// The position of a tab in the strip, or the length of the strip.
pub open spec fn place(slots: Seq<SlotView>, entity: Entity) -> int
    decreases slots.len(),
{
    if slots.len() == 0 || slots[0].entity == entity {
        0
    } else {
        1 + place(slots.drop_first(), entity)
    }
}

/// The position of the first tab of a profile, or the length of the strip.
pub open spec fn place_of_profile(slots: Seq<SlotView>, profile: Seq<char>) -> int
    decreases slots.len(),
{
    if slots.len() == 0 || slots[0].profile == profile {
        0
    } else {
        1 + place_of_profile(slots.drop_first(), profile)
    }
}

/// The profiles of the tabs in a strip.
pub open spec fn slot_profiles(slots: Seq<SlotView>) -> Seq<Seq<char>> {
    slots.map_values(|slot: SlotView| slot.profile)
}

/// `entity` is in the strip.
pub open spec fn in_strip(slots: Seq<SlotView>, entity: Entity) -> bool {
    exists|i: int| 0 <= i < slots.len() && (#[trigger] slots[i]).entity == entity
}

/// No two tabs of a strip have the same name.
pub open spec fn distinct_entities(slots: Seq<SlotView>) -> bool {
    forall|i: int, j: int|
        0 <= i < j < slots.len() ==> (#[trigger] slots[i]).entity != (#[trigger] slots[j]).entity
}

impl AppView {
    /// What holds of the model at all times: tabs have names of their own,
    /// all of them given out before, and exactly one tab is active where there
    /// is any.
    pub open spec fn wf(self) -> bool {
        &&& distinct_entities(self.slots)
        &&& forall|i: int|
            0 <= i < self.slots.len() ==> (#[trigger] self.slots[i]).entity < self.next_entity
        &&& match self.active {
            Some(entity) => in_strip(self.slots, entity),
            None => self.slots.len() == 0,
        }
    }

    /// The model before any tab is restored.
    pub open spec fn initial(app_title: Seq<char>) -> AppView {
        AppView {
            app_title,
            geesed: false,
            config: Config {  },
            slots: Seq::empty(),
            active: None,
            next_entity: 0,
            page: Page::Empty,
            drawer: None,
            show_context: false,
            known_profiles: Seq::empty(),
            new_profile_name: Seq::empty(),
            picker_error: None,
            has_window: false,
            has_bounds: false,
            pending_webviews: Seq::empty(),
        }
    }

    /// The page without the picker.
    pub open spec fn default_page(self) -> Page {
        if self.slots.len() > 0 {
            Page::Tab
        } else {
            Page::Empty
        }
    }

    /// The profile of the active tab.
    pub open spec fn active_profile(self) -> Option<Seq<char>> {
        match self.active {
            Some(entity) => {
                let at = place(self.slots, entity);
                if at < self.slots.len() {
                    Some(self.slots[at].profile)
                } else {
                    None
                }
            },
            None => None,
        }
    }

    /// What is written to disk.
    pub open spec fn snapshot(self) -> StateView {
        StateView {
            version: VERSION,
            active: self.active_profile(),
            tabs: slot_profiles(self.slots),
        }
    }

    /// The title of the window.
    pub open spec fn title(self) -> Seq<char> {
        match self.active_profile() {
            Some(profile) => self.app_title + " — "@ + profile,
            None => self.app_title,
        }
    }

    /// Makes a tab of the strip the active one.
    pub open spec fn activated(self, entity: Entity) -> AppView {
        if in_strip(self.slots, entity) {
            AppView { active: Some(entity), ..self }
        } else {
            self
        }
    }

    /// Adds a tab at the right end of the strip.
    pub open spec fn inserted(self, profile: Seq<char>) -> AppView {
        AppView {
            slots: self.slots.push(
                SlotView { entity: self.next_entity, profile, acp_error: None },
            ),
            next_entity: (self.next_entity + 1) as Entity,
            ..self
        }
    }

    /// Goes to the tab of a profile. It is added where there is none.
    pub open spec fn opened(self, profile: Seq<char>) -> AppView {
        let at = place_of_profile(self.slots, profile);
        if at < self.slots.len() {
            AppView { active: Some(self.slots[at].entity), page: Page::Tab, ..self }
        } else {
            AppView {
                active: Some(self.next_entity),
                page: Page::Tab,
                ..self.inserted(profile)
            }
        }
    }

    /// The tab that becomes active when one is closed: where that one was
    /// active, its right neighbour, else its left one.
    pub open spec fn successor(self, entity: Entity) -> Option<Entity> {
        let at = place(self.slots, entity);
        if self.active != Some(entity) {
            self.active
        } else if at + 1 < self.slots.len() {
            Some(self.slots[at + 1].entity)
        } else if 0 < at < self.slots.len() {
            Some(self.slots[at - 1].entity)
        } else {
            None
        }
    }

    /// The strip without a tab.
    pub open spec fn slots_without(self, entity: Entity) -> Seq<SlotView> {
        let at = place(self.slots, entity);
        if at < self.slots.len() {
            self.slots.remove(at)
        } else {
            self.slots
        }
    }

    /// Puts the profile drawer away where no tab is active.
    pub open spec fn tidied(self) -> AppView {
        if self.drawer == Some(ContextDrawer::ProfileConfig) && self.active_profile() is None {
            AppView { drawer: None, show_context: false, ..self }
        } else {
            self
        }
    }

    /// Closes a tab.
    pub open spec fn closed(self, entity: Entity) -> AppView {
        let rest = AppView {
            slots: self.slots_without(entity),
            active: self.successor(entity),
            ..self
        };
        AppView { page: rest.default_page(), ..rest }.tidied()
    }

    /// Opens a drawer, or puts it away where it is open.
    pub open spec fn toggled(self, kind: ContextDrawer) -> AppView {
        if self.drawer == Some(kind) {
            AppView { drawer: None, show_context: false, ..self }
        } else {
            AppView { drawer: Some(kind), show_context: true, ..self }
        }
    }

    /// The tab `offset` positions to the right of the active one, around the
    /// ends of the strip. There is none where there are fewer than two tabs.
    pub open spec fn adjacent(self, offset: int) -> Option<Entity> {
        match self.active {
            Some(entity) => {
                let at = place(self.slots, entity);
                if self.slots.len() >= 2 && at < self.slots.len() {
                    Some(self.slots[(at + offset) % (self.slots.len() as int)].entity)
                } else {
                    None
                }
            },
            None => None,
        }
    }
}

/// The position of the last of `names` that is `name`, or -1.
pub open spec fn last_place(names: Seq<Seq<char>>, name: Seq<char>) -> int
    decreases names.len(),
{
    if names.len() == 0 {
        -1
    } else if names.last() == name {
        names.len() - 1
    } else {
        last_place(names.drop_last(), name)
    }
}

impl AppView {
    /// Adds a tab for each of a list of profiles.
    pub open spec fn inserted_all(self, profiles: Seq<Seq<char>>) -> AppView
        decreases profiles.len(),
    {
        if profiles.len() == 0 {
            self
        } else {
            self.inserted_all(profiles.drop_last()).inserted(profiles.last())
        }
    }

    /// The tab that a restored state makes active: the last one with the
    /// profile that was active, else the first of the strip.
    pub open spec fn restored_active(self, state: StateView) -> Option<Entity> {
        let at = match state.active {
            Some(name) => last_place(state.tabs, name),
            None => -1,
        };
        if at >= 0 {
            Some((self.next_entity + at) as Entity)
        } else if self.inserted_all(state.tabs).slots.len() > 0 {
            Some(self.inserted_all(state.tabs).slots[0].entity)
        } else {
            self.active
        }
    }

    /// Opens the tabs of a state.
    pub open spec fn restored(self, state: StateView) -> AppView {
        let all = self.inserted_all(state.tabs);
        AppView {
            active: self.restored_active(state),
            page: if all.slots.len() > 0 {
                Page::Tab
            } else {
                self.page
            },
            ..all
        }
    }

    /// The tabs whose profiles are not known, from left to right.
    pub open spec fn stale(self) -> Seq<Entity> {
        self.slots.filter(
            |slot: SlotView| !crate::tab::is_known(self.known_profiles, slot.profile),
        ).map_values(|slot: SlotView| slot.entity)
    }

    /// Closes each of a list of tabs.
    pub open spec fn closed_all(self, entities: Seq<Entity>) -> AppView
        decreases entities.len(),
    {
        if entities.len() == 0 {
            self
        } else {
            self.closed_all(entities.drop_last()).closed(entities.last())
        }
    }

    /// Closes the tabs whose profiles are not known.
    pub open spec fn pruned(self) -> AppView {
        self.closed_all(self.stale())
    }
}

/// A position found by its name.
pub proof fn lemma_place(slots: Seq<SlotView>, entity: Entity)
    ensures
        0 <= place(slots, entity) <= slots.len(),
        place(slots, entity) < slots.len() ==> slots[place(slots, entity)].entity == entity,
        forall|i: int|
            0 <= i < place(slots, entity) ==> (#[trigger] slots[i]).entity != entity,
        in_strip(slots, entity) <==> place(slots, entity) < slots.len(),
    decreases slots.len(),
{
    let at = place(slots, entity);
    if slots.len() > 0 && slots[0].entity != entity {
        let rest = slots.drop_first();
        lemma_place(rest, entity);
        assert forall|i: int| 0 <= i < at implies (#[trigger] slots[i]).entity != entity by {
            if i > 0 {
                assert(rest[i - 1] == slots[i]);
            }
        }
    }
    if at < slots.len() {
        assert(slots[at].entity == entity);
    }
}

/// The position of a tab is the one that has its name.
pub proof fn lemma_place_is(slots: Seq<SlotView>, entity: Entity, at: int)
    requires
        0 <= at <= slots.len(),
        forall|i: int| 0 <= i < at ==> (#[trigger] slots[i]).entity != entity,
        at < slots.len() ==> slots[at].entity == entity,
    ensures
        place(slots, entity) == at,
{
    lemma_place(slots, entity);
    let found = place(slots, entity);
    if found < at {
        assert(slots[found].entity != entity);
    }
}

/// A position found by its profile.
pub proof fn lemma_place_of_profile(slots: Seq<SlotView>, profile: Seq<char>)
    ensures
        0 <= place_of_profile(slots, profile) <= slots.len(),
        place_of_profile(slots, profile) < slots.len()
            ==> slots[place_of_profile(slots, profile)].profile == profile,
        forall|i: int|
            0 <= i < place_of_profile(slots, profile) ==> (#[trigger] slots[i]).profile
                != profile,
    decreases slots.len(),
{
    if slots.len() > 0 && slots[0].profile != profile {
        let rest = slots.drop_first();
        lemma_place_of_profile(rest, profile);
        assert forall|i: int| 0 <= i < place_of_profile(slots, profile) implies (
        #[trigger] slots[i]).profile != profile by {
            if i > 0 {
                assert(rest[i - 1] == slots[i]);
            }
        }
    }
}

/// The position that `sum` comes to in a ring of `len` positions.
fn wrapped(sum: i128, len: usize) -> (res: usize)
    requires
        len > 0,
        -0x2_0000_0000_0000_0000 <= sum <= 0x2_0000_0000_0000_0000,
    ensures
        res == sum as int % len as int,
        res < len,
{
    if sum >= 0 {
        ((sum as u128) % (len as u128)) as usize
    } else {
        let m: u128 = (-(sum + 1)) as u128;
        let r: u128 = m % (len as u128);
        proof {
            let n = len as int;
            let q = m as int / n;
            vstd::arithmetic::div_mod::lemma_fundamental_div_mod(m as int, n);
            assert(sum as int == (-(q + 1)) * n + (n - 1 - r)) by (nonlinear_arith)
                requires
                    m as int == n * q + r,
                    sum as int == -(m as int) - 1,
            ;
            vstd::arithmetic::div_mod::lemma_fundamental_div_mod_converse_mod(
                sum as int,
                n,
                -(q + 1),
                n - 1 - r,
            );
        }
        (len as u128 - 1 - r) as usize
    }
}

impl AppModel {
    /// A window without tabs.
    pub fn new(app_title: String) -> (res: AppModel)
        ensures
            res@ == AppView::initial(app_title@),
            res@.wf(),
    {
        let res = AppModel {
            app_title,
            geesed: false,
            config: Config {  },
            slots: Vec::new(),
            active: None,
            next_entity: 0,
            page: Page::Empty,
            drawer: None,
            show_context: false,
            known_profiles: Vec::new(),
            new_profile_name: String::new(),
            picker_error: None,
            has_window: false,
            has_bounds: false,
            pending_webviews: Vec::new(),
        };
        proof {
            assert(slot_views(res.slots@) =~= Seq::empty());
            assert(profile_views(res.known_profiles@) =~= Seq::empty());
            assert(pending_views(res.pending_webviews@) =~= Seq::empty());
        }
        res
    }

    /// The position of a tab, or the length of the strip.
    fn position(&self, entity: Entity) -> (at: usize)
        ensures
            at == place(self@.slots, entity),
            at <= self.slots.len(),
            self@.slots.len() == self.slots.len(),
    {
        let mut at: usize = 0;
        while at < self.slots.len() && self.slots[at].entity != entity
            invariant
                at <= self.slots.len(),
                forall|i: int| 0 <= i < at ==> (#[trigger] self@.slots[i]).entity != entity,
            decreases self.slots.len() - at,
        {
            at += 1;
        }
        proof {
            lemma_place_is(self@.slots, entity, at as int);
        }
        at
    }

    /// The page without the picker.
    pub fn default_page(&self) -> (page: Page)
        ensures
            page == self@.default_page(),
    {
        if self.slots.len() > 0 {
            Page::Tab
        } else {
            Page::Empty
        }
    }

    /// The profile of the active tab.
    pub fn active_profile_name(&self) -> (res: Option<&str>)
        ensures
            self@.active_profile() == (match res {
                Some(name) => Some(name@),
                None => None,
            }),
    {
        match self.active {
            Some(entity) => {
                let at: usize = self.position(entity);
                if at < self.slots.len() {
                    assert(self@.slots[at as int] == self.slots[at as int]@);
                    Some(self.slots[at].tab.profile.as_str())
                } else {
                    None
                }
            },
            None => None,
        }
    }

    /// The tab `offset` positions to the right of the active one, around the
    /// ends of the strip.
    pub fn adjacent_tab(&self, offset: i32) -> (res: Option<Entity>)
        ensures
            res == self@.adjacent(offset as int),
    {
        let len: usize = self.slots.len();
        let entity: Entity = match self.active {
            Some(entity) => entity,
            None => {
                return None;
            },
        };
        let at: usize = self.position(entity);
        if len < 2 || at >= len {
            return None;
        }
        let next: usize = wrapped(at as i128 + offset as i128, len);
        proof {
            assert(self@.slots[next as int] == self.slots[next as int]@);
        }
        Some(self.slots[next].entity)
    }

    /// Opens a drawer, or puts it away where it is open.
    pub fn toggle_drawer(&mut self, kind: ContextDrawer)
        ensures
            final(self)@ == old(self)@.toggled(kind),
    {
        let open: bool = match self.drawer {
            Some(drawer) => drawer == kind,
            None => false,
        };
        if open {
            self.drawer = None;
            self.show_context = false;
        } else {
            self.drawer = Some(kind);
            self.show_context = true;
        }
    }

    /// Makes a tab of the strip the active one.
    fn activate(&mut self, entity: Entity)
        ensures
            final(self)@ == old(self)@.activated(entity),
    {
        let at: usize = self.position(entity);
        proof {
            lemma_place(self@.slots, entity);
        }
        if at < self.slots.len() {
            self.active = Some(entity);
        }
    }

    /// Adds a tab at the right end of the strip.
    fn insert_tab(&mut self, name: &str) -> (entity: Entity)
        requires
            old(self)@.next_entity < Entity::MAX,
        ensures
            final(self)@ == old(self)@.inserted(name@),
            entity == old(self)@.next_entity,
    {
        let ghost before = self@.slots;
        let entity: Entity = self.next_entity;
        let slot = Slot { entity, tab: Tab::new(name.to_owned()) };
        let ghost model = slot@;
        self.slots.push(slot);
        self.next_entity = entity + 1;
        proof {
            assert(slot_views(self.slots@) =~= before.push(model));
        }
        entity
    }

    /// Goes to the tab of a profile. It is added where there is none.
    pub fn open_tab(&mut self, name: &str)
        requires
            old(self)@.wf(),
            old(self)@.next_entity < Entity::MAX,
        ensures
            final(self)@ == old(self)@.opened(name@),
            final(self)@.wf(),
    {
        let ghost before = self@;
        let mut at: usize = 0;
        while at < self.slots.len() && !str_eq(self.slots[at].tab.profile.as_str(), name)
            invariant
                at <= self.slots.len(),
                forall|i: int| 0 <= i < at ==> (#[trigger] self@.slots[i]).profile != name@,
            decreases self.slots.len() - at,
        {
            at += 1;
        }
        proof {
            lemma_place_of_profile(self@.slots, name@);
            let found = place_of_profile(self@.slots, name@);
            if found < at {
                assert(self@.slots[found].profile != name@);
            }
            if at < self.slots.len() {
                assert(self@.slots[at as int] == self.slots[at as int]@);
                assert(self@.slots[at as int].profile == name@);
            }
            assert(found == at);
        }
        if at < self.slots.len() {
            self.active = Some(self.slots[at].entity);
        } else {
            let entity: Entity = self.insert_tab(name);
            self.active = Some(entity);
            assert(self@.slots[at as int].entity == entity);
        }
        self.page = Page::Tab;
        proof {
            assert(self@ == before.opened(name@));
            lemma_opened_wf(before, name@);
        }
    }

    /// Closes a tab.
    pub fn close_tab(&mut self, entity: Entity)
        requires
            old(self)@.wf(),
        ensures
            final(self)@ == old(self)@.closed(entity),
            final(self)@.wf(),
    {
        let ghost before = self@;
        let at: usize = self.position(entity);
        let len: usize = self.slots.len();
        let is_active: bool = match self.active {
            Some(active) => active == entity,
            None => false,
        };
        if is_active {
            proof {
                assert forall|i: int| 0 <= i < len implies self@.slots[i].entity
                    == #[trigger] self.slots[i].entity by {
                    assert(self@.slots[i] == self.slots[i]@);
                }
            }
            if at < len && at + 1 < len {
                self.active = Some(self.slots[at + 1].entity);
            } else if at > 0 && at < len {
                self.active = Some(self.slots[at - 1].entity);
            } else {
                self.active = None;
            }
        }
        if at < len {
            let _ = self.slots.remove(at);
            assert(slot_views(self.slots@) =~= before.slots.remove(at as int));
        }
        self.page = self.default_page();
        let config_open: bool = match self.drawer {
            Some(drawer) => drawer == ContextDrawer::ProfileConfig,
            None => false,
        };
        if config_open && self.active_profile_name().is_none() {
            self.drawer = None;
            self.show_context = false;
        }
        proof {
            lemma_closed_wf(before, entity);
        }
    }

    /// Opens the tabs of a state, known profiles or not. Those of unknown
    /// profiles go when the profiles are first listed.
    pub fn restore_tabs_unconditional(&mut self, state: &State)
        requires
            old(self)@.wf(),
            old(self)@.next_entity + state.tabs.len() <= Entity::MAX,
        ensures
            final(self)@ == old(self)@.restored(state@),
            final(self)@.wf(),
    {
        let ghost before = self@;
        let ghost names = state@.tabs;
        let first: Entity = self.next_entity;
        let mut active_entity: Option<Entity> = None;
        let mut i: usize = 0;
        proof {
            assert(names.take(0) =~= Seq::empty());
            lemma_inserted_all(before, names.take(0));
        }
        while i < state.tabs.len()
            invariant
                i <= state.tabs.len(),
                names == state@.tabs,
                names.len() == state.tabs.len(),
                before.wf(),
                first == before.next_entity,
                first + state.tabs.len() <= Entity::MAX,
                self@ == before.inserted_all(names.take(i as int)),
                self@.next_entity == first + i,
                ({
                    let at = match state@.active {
                        Some(name) => last_place(names.take(i as int), name),
                        None => -1,
                    };
                    &&& -1 <= at < i
                    &&& active_entity == (if at >= 0 {
                        Some((first + at) as Entity)
                    } else {
                        None
                    })
                }),
            decreases state.tabs.len() - i,
        {
            proof {
                assert(names[i as int] == state.tabs[i as int].name@);
                assert(names.take(i + 1).drop_last() =~= names.take(i as int));
                assert(names.take(i + 1).last() == names[i as int]);
            }
            let entity: Entity = self.insert_tab(state.tabs[i].name.as_str());
            let is_active: bool = match &state.active {
                Some(name) => str_eq(name.as_str(), state.tabs[i].name.as_str()),
                None => false,
            };
            if is_active {
                active_entity = Some(entity);
            }
            i += 1;
        }
        proof {
            assert(names.take(i as int) =~= names);
            lemma_inserted_all(before, names);
        }
        match active_entity {
            Some(entity) => {
                self.active = Some(entity);
                self.page = Page::Tab;
                proof {
                    let at = entity - first;
                    assert(self@.slots[before.slots.len() + at].entity == entity);
                }
            },
            None => {
                if self.slots.len() > 0 {
                    assert(self@.slots[0] == self.slots[0]@);
                    self.active = Some(self.slots[0].entity);
                    self.page = Page::Tab;
                    assert(self@.slots[0].entity == self.active->0);
                }
            },
        }
    }

    /// Closes the tabs whose profiles are not known, and returns them.
    pub fn prune_stale_tabs(&mut self) -> (stale: Vec<Entity>)
        requires
            old(self)@.wf(),
        ensures
            final(self)@ == old(self)@.pruned(),
            final(self)@.wf(),
            stale@ == old(self)@.stale(),
    {
        let ghost before = self@;
        let ghost gone = |slot: SlotView|
            !crate::tab::is_known(before.known_profiles, slot.profile);
        let ghost name = |slot: SlotView| slot.entity;
        let mut stale: Vec<Entity> = Vec::new();
        let mut i: usize = 0;
        proof {
            reveal(Seq::filter);
            assert(before.slots.take(0).filter(gone).map_values(name) =~= Seq::empty());
        }
        while i < self.slots.len()
            invariant
                i <= self.slots.len(),
                self@ == before,
                gone == (|slot: SlotView|
                    !crate::tab::is_known(before.known_profiles, slot.profile)),
                name == (|slot: SlotView| slot.entity),
                stale@ == before.slots.take(i as int).filter(gone).map_values(name),
            decreases self.slots.len() - i,
        {
            let ghost seen = before.slots.take(i as int);
            let ghost slot = before.slots[i as int];
            proof {
                assert(slot == self.slots[i as int]@);
                assert(before.slots.take(i + 1) =~= seen.push(slot));
                lemma_filter_push(seen, slot, gone);
            }
            if !crate::tab::knows(&self.known_profiles, self.slots[i].tab.profile.as_str()) {
                stale.push(self.slots[i].entity);
                assert(seen.filter(gone).push(slot).map_values(name) =~= stale@);
            }
            i += 1;
        }
        proof {
            assert(before.slots.take(i as int) =~= before.slots);
            assert(stale@ == before.stale());
            assert(stale@.take(0) =~= Seq::empty());
        }
        let mut k: usize = 0;
        while k < stale.len()
            invariant
                k <= stale.len(),
                self@ == before.closed_all(stale@.take(k as int)),
                self@.wf(),
            decreases stale.len() - k,
        {
            proof {
                assert(stale@.take(k + 1).drop_last() =~= stale@.take(k as int));
            }
            self.close_tab(stale[k]);
            k += 1;
        }
        assert(stale@.take(k as int) =~= stale@);
        stale
    }

    /// What is written to disk.
    pub fn snapshot_state(&self) -> (state: State)
        ensures
            state@ == self@.snapshot(),
    {
        let mut tabs: Vec<TabState> = Vec::new();
        let mut i: usize = 0;
        while i < self.slots.len()
            invariant
                i <= self.slots.len(),
                tabs.len() == i,
                forall|k: int|
                    0 <= k < i ==> (#[trigger] tabs[k]).name@ == self@.slots[k].profile,
            decreases self.slots.len() - i,
        {
            assert(self@.slots[i as int] == self.slots[i as int]@);
            tabs.push(TabState { name: self.slots[i].tab.profile.clone() });
            i += 1;
        }
        assert(crate::state::tab_names(tabs@) =~= slot_profiles(self@.slots));
        let active: Option<String> = match self.active_profile_name() {
            Some(name) => Some(name.to_owned()),
            None => None,
        };
        State { version: VERSION, active, tabs }
    }

    /// The title of the window: that of the application, and the profile of
    /// the active tab.
    pub fn window_title(&self) -> (title: String)
        ensures
            title@ == self@.title(),
    {
        match self.active_profile_name() {
            Some(name) => crate::text::concat3(self.app_title.as_str(), " — ", name),
            None => self.app_title.clone(),
        }
    }
}

/// Going to a tab keeps the model well-formed.
pub proof fn lemma_opened_wf(app: AppView, profile: Seq<char>)
    requires
        app.wf(),
        app.next_entity < Entity::MAX,
    ensures
        app.opened(profile).wf(),
{
    lemma_place_of_profile(app.slots, profile);
    let at = place_of_profile(app.slots, profile);
    let next = app.opened(profile);
    if at < app.slots.len() {
        assert(next.slots[at].entity == next.active->0);
    } else {
        assert(next.slots[app.slots.len() as int].entity == app.next_entity);
    }
}

/// Closing a tab keeps the model well-formed.
pub proof fn lemma_closed_wf(app: AppView, entity: Entity)
    requires
        app.wf(),
    ensures
        app.closed(entity).wf(),
{
    lemma_place(app.slots, entity);
    let at = place(app.slots, entity);
    let next = app.closed(entity);
    assert forall|i: int, j: int| 0 <= i < j < next.slots.len() implies (
    #[trigger] next.slots[i]).entity != (#[trigger] next.slots[j]).entity by {
        if at < app.slots.len() {
            let a = if i < at {
                i
            } else {
                i + 1
            };
            let b = if j < at {
                j
            } else {
                j + 1
            };
            assert(app.slots[a] == next.slots[i]);
            assert(app.slots[b] == next.slots[j]);
        }
    }
    assert forall|i: int| 0 <= i < next.slots.len() implies (#[trigger] next.slots[i]).entity
        < next.next_entity by {
        if at < app.slots.len() {
            let a = if i < at {
                i
            } else {
                i + 1
            };
            assert(app.slots[a] == next.slots[i]);
        }
    }
    match app.active {
        Some(active) => {
            let k = choose|k: int| 0 <= k < app.slots.len() && (#[trigger] app.slots[k]).entity
                == active;
            if active == entity {
                if at + 1 < app.slots.len() {
                    assert(next.slots[at] == app.slots[at + 1]);
                } else if at > 0 {
                    assert(next.slots[at - 1] == app.slots[at - 1]);
                }
            } else if at < app.slots.len() {
                if k < at {
                    assert(next.slots[k] == app.slots[k]);
                } else {
                    assert(k != at);
                    assert(next.slots[k - 1] == app.slots[k]);
                }
            }
        },
        None => {},
    }
}

proof fn lemma_filter_push(
    list: Seq<SlotView>,
    slot: SlotView,
    keep: spec_fn(SlotView) -> bool,
)
    ensures
        list.push(slot).filter(keep) == (if keep(slot) {
            list.filter(keep).push(slot)
        } else {
            list.filter(keep)
        }),
{
    reveal(Seq::filter);
    assert(list.push(slot).drop_last() =~= list);
}

/// Adding tabs adds nothing but tabs, each with a name of its own.
pub proof fn lemma_inserted_all(app: AppView, profiles: Seq<Seq<char>>)
    requires
        app.wf(),
        app.next_entity + profiles.len() <= Entity::MAX,
    ensures
        ({
            let all = app.inserted_all(profiles);
            &&& all == (AppView { slots: all.slots, next_entity: all.next_entity, ..app })
            &&& all.next_entity == app.next_entity + profiles.len()
            &&& all.slots.len() == app.slots.len() + profiles.len()
            &&& distinct_entities(all.slots)
            &&& forall|i: int|
                0 <= i < app.slots.len() ==> #[trigger] all.slots[i] == app.slots[i]
            &&& forall|i: int|
                0 <= i < profiles.len() ==> (#[trigger] all.slots[app.slots.len() + i]).entity
                    == app.next_entity + i && all.slots[app.slots.len() + i].profile
                    == profiles[i]
            &&& forall|i: int|
                0 <= i < all.slots.len() ==> (#[trigger] all.slots[i]).entity < all.next_entity
        }),
    decreases profiles.len(),
{
    if profiles.len() > 0 {
        lemma_inserted_all(app, profiles.drop_last());
        let part = app.inserted_all(profiles.drop_last());
        let all = app.inserted_all(profiles);
        assert(all.slots.drop_last() =~= part.slots);
        assert forall|i: int| 0 <= i < profiles.len() implies (#[trigger] all.slots[app.slots.len()
            + i]).entity == app.next_entity + i && all.slots[app.slots.len() + i].profile
            == profiles[i] by {
            if i < profiles.len() - 1 {
                assert(all.slots[app.slots.len() + i] == part.slots[app.slots.len() + i]);
            }
        }
    }
}

} // verus!
