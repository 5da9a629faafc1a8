//! What the pages and drawers show.

use crate::app::{place, AppModel, AppView, ContextDrawer, Entity, Page};
use crate::tab::{find_profile, is_known, profile_views, ProfileEntry, ProfileEntryView, Tab};
use crate::text::opt_text;
use vstd::prelude::*;

verus! {

/// What the window body shows.
#[derive(Clone, Copy, Debug, PartialEq, Eq, Structural)]
pub enum Body {
    /// The invitation to open a tab.
    Empty,
    /// The picker.
    Picker,
    /// The body of a tab.
    Tab(Entity),
}

/// What the drawer shows.
#[derive(Clone, Copy, Debug, PartialEq, Eq, Structural)]
pub enum Drawer {
    Closed,
    About,
    /// The profile of the active tab.
    ProfileConfig,
}

/// One profile in the picker.
#[derive(Debug)]
pub struct PickerRow {
    pub name: String,
    /// The profile has a tab, so that its button does nothing.
    pub is_open: bool,
    /// The profile is marked as locked.
    pub locked: bool,
}

/// The model of a [`PickerRow`].
pub ghost struct PickerRowView {
    pub name: Seq<char>,
    pub is_open: bool,
    pub locked: bool,
}

impl View for PickerRow {
    type V = PickerRowView;

    open spec fn view(&self) -> PickerRowView {
        PickerRowView { name: self.name@, is_open: self.is_open, locked: self.locked }
    }
}

/// The models of the rows of the picker.
pub open spec fn row_views(rows: Seq<PickerRow>) -> Seq<PickerRowView> {
    rows.map_values(|row: PickerRow| row@)
}

impl AppView {
    /// What the window body shows.
    pub open spec fn body(self) -> Body {
        match self.page {
            Page::Empty => Body::Empty,
            Page::Picker => Body::Picker,
            Page::Tab => match self.active {
                Some(entity) => if place(self.slots, entity) < self.slots.len() {
                    Body::Tab(entity)
                } else {
                    Body::Empty
                },
                None => Body::Empty,
            },
        }
    }

    /// What the drawer shows.
    pub open spec fn open_drawer(self) -> Drawer {
        if !self.show_context {
            Drawer::Closed
        } else {
            match self.drawer {
                None => Drawer::Closed,
                Some(ContextDrawer::About) => Drawer::About,
                Some(ContextDrawer::ProfileConfig) => if self.active_profile() is Some {
                    Drawer::ProfileConfig
                } else {
                    Drawer::Closed
                },
            }
        }
    }

    /// The rows of the picker: one for each known profile.
    pub open spec fn picker_rows(self) -> Seq<PickerRowView> {
        self.known_profiles.map_values(
            |p: ProfileEntryView|
                PickerRowView { name: p.name, is_open: self.has_tab(p.name), locked: p.locked },
        )
    }
}

impl AppModel {
    /// What the window body shows.
    pub fn body(&self) -> (res: Body)
        ensures
            res == self@.body(),
    {
        match self.page {
            Page::Empty => Body::Empty,
            Page::Picker => Body::Picker,
            Page::Tab => match self.active {
                Some(entity) => if self.position(entity) < self.slots.len() {
                    Body::Tab(entity)
                } else {
                    Body::Empty
                },
                None => Body::Empty,
            },
        }
    }

    /// What the drawer shows.
    pub fn context_drawer(&self) -> (res: Drawer)
        ensures
            res == self@.open_drawer(),
    {
        if !self.show_context {
            return Drawer::Closed;
        }
        match self.drawer {
            None => Drawer::Closed,
            Some(ContextDrawer::About) => Drawer::About,
            Some(ContextDrawer::ProfileConfig) => if self.active_profile_name().is_some() {
                Drawer::ProfileConfig
            } else {
                Drawer::Closed
            },
        }
    }

    /// The rows of the picker.
    pub fn picker_rows(&self) -> (rows: Vec<PickerRow>)
        ensures
            row_views(rows@) == self@.picker_rows(),
    {
        let mut rows: Vec<PickerRow> = Vec::new();
        let mut i: usize = 0;
        while i < self.known_profiles.len()
            invariant
                i <= self.known_profiles.len(),
                rows.len() == i,
                self@.known_profiles == profile_views(self.known_profiles@),
                forall|k: int|
                    0 <= k < i ==> (#[trigger] rows[k])@ == self@.picker_rows()[k],
            decreases self.known_profiles.len() - i,
        {
            let profile = &self.known_profiles[i];
            assert(self@.known_profiles[i as int] == profile@);
            rows.push(
                PickerRow {
                    name: profile.name.clone(),
                    is_open: self.has_tab(profile.name.as_str()),
                    locked: profile.locked,
                },
            );
            i += 1;
        }
        assert(row_views(rows@) =~= self@.picker_rows());
        rows
    }

    /// What stands in the field for a new profile's name.
    pub fn new_profile_name(&self) -> (res: &str)
        ensures
            res@ == self@.new_profile_name,
    {
        self.new_profile_name.as_str()
    }

    /// The error that the picker shows.
    pub fn picker_error(&self) -> (res: Option<&str>)
        ensures
            self@.picker_error == (match res {
                Some(e) => Some(e@),
                None => None,
            }),
    {
        match &self.picker_error {
            Some(e) => Some(e.as_str()),
            None => None,
        }
    }

    /// What is known of a profile: the first entry of that name.
    pub fn profile_config(&self, name: &str) -> (res: Option<&ProfileEntry>)
        ensures
            res is Some <==> is_known(self@.known_profiles, name@),
            res matches Some(profile) ==> exists|i: int|
                {
                    &&& 0 <= i < self@.known_profiles.len()
                    &&& #[trigger] self@.known_profiles[i] == profile@
                    &&& profile@.name == name@
                    &&& forall|k: int|
                        0 <= k < i ==> (#[trigger] self@.known_profiles[k]).name != name@
                },
    {
        let res = find_profile(&self.known_profiles, name);
        proof {
            if let Some(profile) = res {
                let i = choose|i: int|
                    {
                        &&& 0 <= i < self.known_profiles.len()
                        &&& #[trigger] self.known_profiles[i] == profile
                        &&& profile@.name == name@
                        &&& forall|k: int|
                            0 <= k < i ==> (#[trigger] profile_views(
                                self.known_profiles@,
                            )[k]).name != name@
                    };
                assert(self@.known_profiles[i] == profile@);
            }
        }
        res
    }

    /// The names of the tabs of the strip, from left to right.
    pub fn entities(&self) -> (res: Vec<Entity>)
        ensures
            res@ == self@.slots.map_values(|s: crate::app::SlotView| s.entity),
    {
        let mut res: Vec<Entity> = Vec::new();
        let mut i: usize = 0;
        while i < self.slots.len()
            invariant
                i <= self.slots.len(),
                res.len() == i,
                forall|k: int| 0 <= k < i ==> #[trigger] res[k] == self@.slots[k].entity,
            decreases self.slots.len() - i,
        {
            assert(self@.slots[i as int] == self.slots[i as int]@);
            res.push(self.slots[i].entity);
            i += 1;
        }
        assert(res@ =~= self@.slots.map_values(|s: crate::app::SlotView| s.entity));
        res
    }

    /// The active tab.
    pub fn active(&self) -> (res: Option<Entity>)
        ensures
            res == self@.active,
    {
        self.active
    }

    /// A tab of the strip.
    pub fn tab(&self, entity: Entity) -> (res: Option<&Tab>)
        ensures
            ({
                let at = place(self@.slots, entity);
                match res {
                    Some(tab) => {
                        &&& at < self@.slots.len()
                        &&& tab.profile@ == self@.slots[at].profile
                        &&& opt_text(tab.acp_error) == self@.slots[at].acp_error
                    },
                    None => at == self@.slots.len(),
                }
            }),
    {
        let at: usize = self.position(entity);
        if at < self.slots.len() {
            assert(self@.slots[at as int] == self.slots[at as int]@);
            Some(&self.slots[at].tab)
        } else {
            None
        }
    }

    /// The profiles as they were last listed.
    pub fn known_profiles(&self) -> (res: &Vec<ProfileEntry>)
        ensures
            profile_views(res@) == self@.known_profiles,
    {
        &self.known_profiles
    }
}

/// The step that a key press asks for: with the control key held, Page Up goes
/// to the previous tab and Page Down to the next.
pub fn key_step(ctrl: bool, page_up: bool, page_down: bool) -> (res: Option<
    crate::app::update::TabNavDir,
>)
    ensures
        res == (if ctrl && page_down {
            Some(crate::app::update::TabNavDir::Next)
        } else if ctrl && page_up {
            Some(crate::app::update::TabNavDir::Prev)
        } else {
            None
        }),
{
    if !ctrl {
        return None;
    }
    if page_down {
        Some(crate::app::update::TabNavDir::Next)
    } else if page_up {
        Some(crate::app::update::TabNavDir::Prev)
    } else {
        None
    }
}

} // verus!
