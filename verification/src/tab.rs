//! One open tab.

use crate::text::{concat, opt_text, str_eq};
use vstd::prelude::*;

verus! {

/// A profile as geesed describes it.
#[derive(Debug)]
pub struct ProfileEntry {
    pub name: String,
    pub path: String,
    pub locked: bool,
    pub parent: Option<String>,
}

/// The model of a [`ProfileEntry`].
pub ghost struct ProfileEntryView {
    pub name: Seq<char>,
    pub path: Seq<char>,
    pub locked: bool,
    pub parent: Option<Seq<char>>,
}

impl View for ProfileEntry {
    type V = ProfileEntryView;

    open spec fn view(&self) -> ProfileEntryView {
        ProfileEntryView {
            name: self.name@,
            path: self.path@,
            locked: self.locked,
            parent: opt_text(self.parent),
        }
    }
}

/// The models of a list of profiles.
pub open spec fn profile_views(profiles: Seq<ProfileEntry>) -> Seq<ProfileEntryView> {
    profiles.map_values(|p: ProfileEntry| p@)
}

/// A profile of this name is among those known.
pub open spec fn is_known(profiles: Seq<ProfileEntryView>, name: Seq<char>) -> bool {
    exists|i: int| 0 <= i < profiles.len() && (#[trigger] profiles[i]).name == name
}

/// Whether a profile of this name is among those known.
pub fn knows(profiles: &Vec<ProfileEntry>, name: &str) -> (res: bool)
    ensures
        res == is_known(profile_views(profiles@), name@),
{
    find_profile(profiles, name).is_some()
}

/// The first profile of this name.
pub fn find_profile<'a>(profiles: &'a Vec<ProfileEntry>, name: &str) -> (res: Option<
    &'a ProfileEntry,
>)
    ensures
        match res {
            Some(profile) => exists|i: int|
                {
                    &&& 0 <= i < profiles.len()
                    &&& #[trigger] profiles[i] == profile
                    &&& profile@.name == name@
                    &&& forall|k: int|
                        0 <= k < i ==> (#[trigger] profile_views(profiles@)[k]).name != name@
                },
            None => true,
        },
        res is Some <==> is_known(profile_views(profiles@), name@),
{
    let ghost models = profile_views(profiles@);
    let mut i: usize = 0;
    while i < profiles.len()
        invariant
            i <= profiles.len(),
            models == profile_views(profiles@),
            forall|k: int| 0 <= k < i ==> (#[trigger] models[k]).name != name@,
        decreases profiles.len() - i,
    {
        assert(models[i as int] == profiles[i as int]@);
        if str_eq(profiles[i].name.as_str(), name) {
            return Some(&profiles[i]);
        }
        i += 1;
    }
    None
}

/// One open tab: the profile it is bound to, and the error of its connection.
#[derive(Debug)]
pub struct Tab {
    pub profile: String,
    /// Set when the ACP connection fails so the tab body can show an error.
    pub acp_error: Option<String>,
}

/// What the body of a tab shows.
#[derive(Debug)]
pub enum TabBody {
    /// The profile no longer exists.
    Missing { title: String },
    /// The title, and the error of the connection.
    Open { title: String, error: Option<String> },
}

impl Tab {
    /// A tab for a profile.
    pub fn new(profile: String) -> (res: Tab)
        ensures
            res == (Tab { profile, acp_error: None }),
    {
        Tab { profile, acp_error: None }
    }

    /// What the body shows: a profile that has been deleted is reported.
    pub fn view(&self, known_profiles: &Vec<ProfileEntry>) -> (body: TabBody)
        ensures
            match body {
                TabBody::Missing { title } => {
                    &&& !is_known(profile_views(known_profiles@), self.profile@)
                    &&& title@ == self.profile@
                },
                TabBody::Open { title, error } => {
                    &&& is_known(profile_views(known_profiles@), self.profile@)
                    &&& title@ == "goose: "@ + self.profile@
                    &&& opt_text(error) == opt_text(self.acp_error)
                },
            },
    {
        if !knows(known_profiles, self.profile.as_str()) {
            return TabBody::Missing { title: self.profile.clone() };
        }
        TabBody::Open {
            title: concat("goose: ", self.profile.as_str()),
            error: match &self.acp_error {
                Some(error) => Some(error.clone()),
                None => None,
            },
        }
    }
}

} // verus!
