//! What each message of the user and of the desktop brings about.

use crate::app::laws::{
    lemma_active_profile, lemma_closed_all_wf, lemma_closed_parts, lemma_stale,
};
use crate::app::pages::{Body, Drawer};
use crate::app::update::{
    drop_all, open_all, strip_pages, EffectView, MessageView, TabNavDir, Updated,
};
use crate::app::{
    in_strip, lemma_place, lemma_place_is, lemma_place_of_profile, place, place_of_profile,
    AppView, ContextDrawer, Entity, Page, SlotView,
};
use crate::config::Config;
use crate::state::StateView;
use crate::tab::{is_known, ProfileEntryView};
use crate::text::trimmed;
use vstd::prelude::*;

verus! {

/// The last page that the effects bring to the front is that of a tab, and it is
/// put where the tab body is.
pub open spec fn shown_last(effects: Seq<EffectView>, entity: Entity) -> bool {
    exists|k: int|
        {
            &&& 0 <= k && k + 1 < effects.len()
            &&& (#[trigger] effects[k]) == EffectView::ShowOnly(entity)
            &&& effects[k + 1] == EffectView::SetBounds(entity)
            &&& forall|j: int|
                k < j < effects.len() ==> !((#[trigger] effects[j]) is ShowOnly)
                    && !(effects[j] is HideAll)
        }
}

/// A tab that is picked is the active one, and its page is the one on screen.
/// The tabs stay as they are.
pub proof fn law_picked_tab_is_shown(app: AppView, entity: Entity)
    requires
        in_strip(app.slots, entity),
    ensures
        ({
            let (n, effects) = app.updated(MessageView::ActivateTab(entity));
            &&& n.active == Some(entity) && n.page == Page::Tab && n.slots == app.slots
            &&& shown_last(effects, entity)
            &&& effects.contains(EffectView::Persist(n.snapshot()))
            &&& effects.contains(EffectView::SetTitle(n.title()))
        }),
{
    let (n, effects) = app.updated(MessageView::ActivateTab(entity));
    assert(effects[0] == EffectView::Persist(n.snapshot()));
    assert(effects[1] == EffectView::ShowOnly(entity));
    assert(effects[2] == EffectView::SetBounds(entity));
    assert(effects[3] == EffectView::SetTitle(n.title()));
}

/// Going to the next tab, by a button or by a key, is the same as picking the
/// neighbour to the right, around the end of the strip, and going to the
/// previous one picks the neighbour to the left.
pub proof fn law_steps_pick_neighbours(app: AppView)
    requires
        app.wf(),
        app.slots.len() >= 2,
    ensures
        ({
            let n = app.slots.len() as int;
            let at = place(app.slots, app.active->0);
            let right = app.slots[if at + 1 < n {
                at + 1
            } else {
                0
            }].entity;
            let left = app.slots[if at > 0 {
                at - 1
            } else {
                n - 1
            }].entity;
            &&& app.updated(MessageView::NextTab) == app.updated(MessageView::ActivateTab(right))
            &&& app.updated(MessageView::PumpGtk(Some(TabNavDir::Next))) == app.updated(
                MessageView::ActivateTab(right),
            )
            &&& app.updated(MessageView::PrevTab) == app.updated(MessageView::ActivateTab(left))
            &&& app.updated(MessageView::PumpGtk(Some(TabNavDir::Prev))) == app.updated(
                MessageView::ActivateTab(left),
            )
            &&& in_strip(app.slots, right) && in_strip(app.slots, left)
        }),
{
    lemma_active_profile(app);
    let n = app.slots.len() as int;
    let at = place(app.slots, app.active->0);
    lemma_place(app.slots, app.active->0);
    if at + 1 < n {
        vstd::arithmetic::div_mod::lemma_small_mod((at + 1) as nat, n as nat);
    } else {
        vstd::arithmetic::div_mod::lemma_mod_self_0(n);
    }
    if at > 0 {
        vstd::arithmetic::div_mod::lemma_small_mod((at - 1) as nat, n as nat);
    } else {
        vstd::arithmetic::div_mod::lemma_mod_add_multiples_vanish(-1, n);
        vstd::arithmetic::div_mod::lemma_small_mod((n - 1) as nat, n as nat);
    }
    let right = if at + 1 < n {
        at + 1
    } else {
        0
    };
    let left = if at > 0 {
        at - 1
    } else {
        n - 1
    };
    assert(in_strip(app.slots, app.slots[right].entity));
    assert(in_strip(app.slots, app.slots[left].entity));
}

/// Opening a profile that has a tab goes to its first tab and shows it. No tab
/// is added.
pub proof fn law_open_profile_is_shown(app: AppView, profile: Seq<char>, at: int)
    requires
        0 <= at < app.slots.len(),
        app.slots[at].profile == profile,
        forall|i: int| 0 <= i < at ==> (#[trigger] app.slots[i]).profile != profile,
    ensures
        ({
            let (n, effects) = app.updated(MessageView::OpenTab(profile));
            &&& n.slots == app.slots && n.active == Some(app.slots[at].entity)
            &&& n.page == Page::Tab
            &&& n.pending_webviews == app.pending_webviews
            &&& shown_last(effects, app.slots[at].entity)
        }),
{
    lemma_place_of_profile(app.slots, profile);
    let found = place_of_profile(app.slots, profile);
    assert(found == at) by {
        if found < at {
            assert(app.slots[found].profile != profile);
        } else if at < found {
            assert(app.slots[at].profile != profile);
        }
    }
    assert(app.has_tab(profile));
    let (n, effects) = app.updated(MessageView::OpenTab(profile));
    let entity = app.slots[at].entity;
    assert(effects[0] == EffectView::Persist(n.snapshot()));
    assert(effects[1] == EffectView::ShowOnly(entity));
    assert(effects[2] == EffectView::SetBounds(entity));
    assert(effects[3] == EffectView::SetTitle(n.title()));
}

/// The page of a tab is created now, where the window and the tab body are
/// known, or waits for them.
pub open spec fn page_is_due(app: AppView, after: Updated, entity: Entity, profile: Seq<char>) -> bool {
    let (n, effects) = after;
    if app.has_window && app.has_bounds {
        &&& effects.contains(EffectView::OpenWebview { entity, profile })
        &&& n.pending_webviews == app.pending_webviews
    } else {
        n.pending_webviews == app.pending_webviews.push((entity, profile))
    }
}

/// Opening a profile without a tab adds one at the right end of the strip, makes
/// it the active one, and sees to its page.
pub proof fn law_new_tab_gets_its_page(app: AppView, profile: Seq<char>)
    requires
        app.wf(),
        app.next_entity < Entity::MAX,
        forall|i: int| 0 <= i < app.slots.len() ==> (#[trigger] app.slots[i]).profile != profile,
    ensures
        ({
            let (n, effects) = app.updated(MessageView::OpenTab(profile));
            let entity = n.active->0;
            &&& n.active is Some && !in_strip(app.slots, entity)
            &&& n.slots =~= app.slots.push(SlotView { entity, profile, acp_error: None })
            &&& n.page == Page::Tab && n.next_entity > entity
            &&& page_is_due(app, (n, effects), entity, profile)
        }),
{
    lemma_place_of_profile(app.slots, profile);
    assert(place_of_profile(app.slots, profile) == app.slots.len());
    assert(!app.has_tab(profile));
    let (n, effects) = app.updated(MessageView::OpenTab(profile));
    let entity = app.next_entity;
    lemma_place(app.slots, entity);
    if app.has_window && app.has_bounds {
        assert(effects.last() == EffectView::OpenWebview { entity, profile });
    }
}

/// A profile that was created is known from then on, beside those known before,
/// and its tab is opened. An error is shown in the picker, and nothing else
/// happens.
pub proof fn law_created_profile_is_opened(app: AppView, entry: ProfileEntryView, error: Seq<char>)
    requires
        app.wf(),
        app.next_entity < Entity::MAX,
    ensures
        ({
            let (n, effects) = app.updated(MessageView::ProfileCreated(Ok(entry)));
            let (opened, _) = app.updated(MessageView::OpenTab(entry.name));
            &&& is_known(n.known_profiles, entry.name)
            &&& forall|name: Seq<char>|
                is_known(app.known_profiles, name) ==> #[trigger] is_known(n.known_profiles, name)
            &&& n.picker_error is None
            &&& n.slots == opened.slots && n.active == opened.active && n.page == Page::Tab
            &&& page_is_due(app, (n, effects), n.active->0, entry.name)
        }),
        app.updated(MessageView::ProfileCreated(Err(error))) == (
            AppView { picker_error: Some(error), ..app },
            Seq::<EffectView>::empty(),
        ),
{
    let (n, effects) = app.updated(MessageView::ProfileCreated(Ok(entry)));
    lemma_place_of_profile(app.slots, entry.name);
    let at = place_of_profile(app.slots, entry.name);
    if !is_known(app.known_profiles, entry.name) {
        assert(n.known_profiles[app.known_profiles.len() as int] == entry);
    }
    assert forall|name: Seq<char>| is_known(app.known_profiles, name) implies #[trigger] is_known(
        n.known_profiles,
        name,
    ) by {
        let i = choose|i: int|
            0 <= i < app.known_profiles.len() && (#[trigger] app.known_profiles[i]).name == name;
        assert(n.known_profiles[i].name == name);
    }
    if app.has_window && app.has_bounds {
        assert(effects.last() == EffectView::OpenWebview {
            entity: n.active->0,
            profile: entry.name,
        });
    }
}

/// Closing a tab takes it out of the strip, and its page and its connection
/// with it, but no other tab's. Where it was the active one, its neighbour takes
/// its place, the right one before the left one, and the page of the tab that is
/// active then is on screen.
pub proof fn law_closed_tab_is_gone(app: AppView, at: int)
    requires
        app.wf(),
        0 <= at < app.slots.len(),
    ensures
        ({
            let entity = app.slots[at].entity;
            let (n, effects) = app.updated(MessageView::CloseTab(entity));
            &&& n.slots == app.slots.remove(at)
            &&& effects.contains(EffectView::DestroyWebview(entity))
            &&& effects.contains(EffectView::DropConnection(entity))
            &&& forall|k: int|
                0 <= k < effects.len() ==> ((#[trigger] effects[k]) is DestroyWebview ==> effects[k]
                    == EffectView::DestroyWebview(entity)) && (effects[k] is DropConnection
                    ==> effects[k] == EffectView::DropConnection(entity))
            &&& app.active != Some(entity) ==> n.active == app.active
            &&& app.active == Some(entity) && at + 1 < app.slots.len() ==> n.active == Some(
                app.slots[at + 1].entity,
            )
            &&& app.active == Some(entity) && at + 1 == app.slots.len() && at > 0 ==> n.active
                == Some(app.slots[at - 1].entity)
            &&& n.slots.len() == 0 ==> n.active is None && n.page == Page::Empty
            &&& n.slots.len() > 0 ==> n.page == Page::Tab && n.active is Some && shown_last(
                effects,
                n.active->0,
            )
        }),
{
    let entity = app.slots[at].entity;
    assert forall|i: int| 0 <= i < at implies (#[trigger] app.slots[i]).entity != entity by {
        assert(app.slots[i].entity != app.slots[at].entity);
    }
    lemma_place_is(app.slots, entity, at);
    lemma_closed_parts(app, entity);
    crate::app::lemma_closed_wf(app, entity);
    let (n, effects) = app.updated(MessageView::CloseTab(entity));
    assert(effects[0] == EffectView::DestroyWebview(entity));
    assert(effects[1] == EffectView::DropConnection(entity));
    assert(effects[2] == EffectView::Persist(n.snapshot()));
    if n.slots.len() > 0 {
        assert(effects[3] == EffectView::ShowOnly(n.active->0));
        assert(effects[4] == EffectView::SetBounds(n.active->0));
        assert(effects[5] == EffectView::SetTitle(n.title()));
        assert(effects.len() == 6);
    } else {
        assert(effects[3] == EffectView::SetTitle(n.title()));
        assert(effects.len() == 4);
    }
}

/// The picker hides the pages of the tabs, and asks for the profiles where it
/// can. Leaving it brings the page of the active tab back.
pub proof fn law_picker_comes_and_goes(app: AppView)
    requires
        app.wf(),
    ensures
        ({
            let (n, effects) = app.updated(MessageView::ShowNewTabPicker);
            &&& n.page == Page::Picker && n.picker_error is None
            &&& n.slots == app.slots && n.active == app.active
            &&& effects.contains(EffectView::HideAll)
            &&& effects.contains(EffectView::ListProfiles) == app.geesed
            &&& forall|k: int| 0 <= k < effects.len() ==> !((#[trigger] effects[k]) is ShowOnly)
        }),
        ({
            let (n, effects) = app.updated(MessageView::HideNewTabPicker);
            &&& n.slots == app.slots && n.active == app.active
            &&& app.slots.len() == 0 ==> n.page == Page::Empty && effects.len() == 0
            &&& app.slots.len() > 0 ==> n.page == Page::Tab && shown_last(effects, app.active->0)
        }),
{
    let (n, effects) = app.updated(MessageView::ShowNewTabPicker);
    assert(effects[0] == EffectView::HideAll);
    if app.geesed {
        assert(effects[1] == EffectView::ListProfiles);
    }
    let (m, back) = app.updated(MessageView::HideNewTabPicker);
    if app.slots.len() > 0 {
        assert(back[0] == EffectView::ShowOnly(app.active->0));
        assert(back[1] == EffectView::SetBounds(app.active->0));
    }
}

/// A page that was created is taken over. It is brought to the front exactly
/// where its tab is the active one and tabs are shown.
pub proof fn law_created_page_is_claimed(app: AppView, entity: Entity)
    ensures
        ({
            let (n, effects) = app.updated(MessageView::WebviewReady(entity));
            &&& n == app
            &&& effects[0] == EffectView::ClaimWebview(entity)
            &&& app.active == Some(entity) && app.page == Page::Tab ==> shown_last(effects, entity)
            &&& app.active != Some(entity) || app.page != Page::Tab ==> effects.len() == 1
        }),
{
    let (n, effects) = app.updated(MessageView::WebviewReady(entity));
    if app.active == Some(entity) && app.page == Page::Tab {
        assert(effects[1] == EffectView::ShowOnly(entity));
        assert(effects[2] == EffectView::SetBounds(entity));
    }
}

proof fn lemma_closed_all_pending(app: AppView, entities: Seq<Entity>)
    requires
        app.wf(),
    ensures
        app.closed_all(entities).pending_webviews == app.pending_webviews,
    decreases entities.len(),
{
    if entities.len() > 0 {
        lemma_closed_all_pending(app, entities.drop_last());
        lemma_closed_all_wf(app, entities.drop_last());
        lemma_closed_parts(app.closed_all(entities.drop_last()), entities.last());
    }
}

proof fn lemma_open_all(tabs: Seq<(Entity, Seq<char>)>, tab: (Entity, Seq<char>))
    requires
        tabs.contains(tab),
    ensures
        open_all(tabs).contains(EffectView::OpenWebview { entity: tab.0, profile: tab.1 }),
{
    let i = choose|i: int| 0 <= i < tabs.len() && tabs[i] == tab;
    assert(open_all(tabs)[i] == EffectView::OpenWebview { entity: tab.0, profile: tab.1 });
}

/// A page that waits is not forgotten: after any message it waits still, or is
/// created, for the same tab and the same profile.
pub proof fn law_waiting_pages_are_not_forgotten(
    app: AppView,
    message: MessageView,
    tab: (Entity, Seq<char>),
)
    requires
        app.wf(),
        app.pending_webviews.contains(tab),
    ensures
        ({
            let (n, effects) = app.updated(message);
            ||| n.pending_webviews.contains(tab)
            ||| effects.contains(EffectView::OpenWebview { entity: tab.0, profile: tab.1 })
        }),
{
    let (n, effects) = app.updated(message);
    let waiting = app.pending_webviews;
    let i = choose|i: int| 0 <= i < waiting.len() && waiting[i] == tab;
    match message {
        MessageView::TabBodyRect => {
            if app.has_window {
                lemma_open_all(waiting, tab);
                let opened = open_all(waiting);
                let want = EffectView::OpenWebview { entity: tab.0, profile: tab.1 };
                let k = choose|k: int| 0 <= k < opened.len() && opened[k] == want;
                let before = effects.len() - opened.len();
                assert(effects[before + k] == opened[k]);
            }
        },
        MessageView::GotMainWindowId => {
            assert(n.pending_webviews[i] == tab);
        },
        MessageView::OpenTab(_) => {
            assert(n.pending_webviews[i] == tab);
        },
        MessageView::ProfileCreated(Ok(_)) => {
            assert(n.pending_webviews[i] == tab);
        },
        MessageView::CloseTab(entity) => {
            lemma_closed_parts(app, entity);
        },
        MessageView::ProfilesRefreshed(Some(profiles)) => {
            let seen = AppView { known_profiles: profiles, ..app };
            lemma_closed_all_pending(seen, seen.stale());
        },
        _ => {
            lemma_others_keep_waiting(app, message);
        },
    }
}

proof fn lemma_others_keep_waiting(app: AppView, message: MessageView)
    requires
        !(message is TabBodyRect),
        !(message is GotMainWindowId),
        !(message is OpenTab),
        !(message is CloseTab),
        !(message matches MessageView::ProfileCreated(Ok(_))),
        !(message matches MessageView::ProfilesRefreshed(Some(_))),
    ensures
        app.updated(message).0.pending_webviews == app.pending_webviews,
{
}

/// Once the window and the tab body are known, no page waits, and every tab
/// that was restored has had its page created: in whichever order the two
/// became known.
pub proof fn law_restored_tabs_get_their_pages(app: AppView, at: int)
    requires
        !app.has_window,
        !app.has_bounds,
        app.pending_webviews.len() == 0,
        0 <= at < app.slots.len(),
    ensures
        ({
            let (a1, _) = app.updated(MessageView::GotMainWindowId);
            let (a2, opened) = a1.updated(MessageView::TabBodyRect);
            let (b1, _) = app.updated(MessageView::TabBodyRect);
            let (b2, created) = b1.updated(MessageView::GotMainWindowId);
            let want = EffectView::OpenWebview {
                entity: app.slots[at].entity,
                profile: app.slots[at].profile,
            };
            &&& a2.has_window && a2.has_bounds && b2.has_window && b2.has_bounds
            &&& a2.pending_webviews.len() == 0 && b2.pending_webviews.len() == 0
            &&& a2.slots == app.slots && b2.slots == app.slots
            &&& opened.contains(want) && created.contains(want)
        }),
{
    let tabs = strip_pages(app.slots);
    let tab = (app.slots[at].entity, app.slots[at].profile);
    assert(tabs[at] == tab);
    lemma_open_all(tabs, tab);
    let (a1, _) = app.updated(MessageView::GotMainWindowId);
    assert(a1.pending_webviews =~= tabs);
    let (a2, opened) = a1.updated(MessageView::TabBodyRect);
    let all = open_all(tabs);
    let want = EffectView::OpenWebview { entity: tab.0, profile: tab.1 };
    let k = choose|k: int| 0 <= k < all.len() && all[k] == want;
    let before = opened.len() - all.len();
    assert(opened[before + k] == all[k]);
}

/// Where the tab body moves, the page of the active tab moves with it. Where the
/// window changes its size, all pages do.
pub proof fn law_pages_follow_the_body(app: AppView)
    ensures
        ({
            let (n, effects) = app.updated(MessageView::TabBodyRect);
            &&& n.has_bounds
            &&& n.slots == app.slots && n.active == app.active && n.page == app.page
            &&& app.page == Page::Tab && app.active is Some ==> effects.contains(
                EffectView::SetBounds(app.active->0),
            )
        }),
        app.updated(MessageView::WindowResized) == (app, seq![EffectView::SetBoundsAll]),
        app.updated(MessageView::GotMainWindowId).0.has_window,
        app.updated(MessageView::GotMainWindowId).0.slots == app.slots,
        app.updated(MessageView::GotMainWindowId).0.active == app.active,
{
    let (n, effects) = app.updated(MessageView::TabBodyRect);
    if app.page == Page::Tab && app.active is Some {
        assert(effects[0] == EffectView::SetBounds(app.active->0));
    }
}

/// Once geesed is there, the profiles are asked for. Without it the picker says
/// why.
pub proof fn law_geesed(app: AppView, error: Seq<char>)
    ensures
        app.updated(MessageView::GeesedReady(None)) == (
            AppView { geesed: true, ..app },
            seq![EffectView::ListProfiles],
        ),
        app.updated(MessageView::GeesedReady(Some(error))) == (
            AppView { picker_error: Some("geesed not available: "@ + error), ..app },
            Seq::<EffectView>::empty(),
        ),
        app.updated(MessageView::RefreshProfiles).0 == app,
        app.geesed ==> app.updated(MessageView::RefreshProfiles).1 == seq![
            EffectView::ListProfiles,
        ],
        !app.geesed ==> app.updated(MessageView::RefreshProfiles).1.len() == 0,
{
}

/// A profile is created under the name that was typed, without the white space
/// around it, and the field is empty again. A blank name asks for nothing.
/// Without geesed the name stays in the field and the picker says why.
pub proof fn law_typed_profile_is_created(app: AppView)
    ensures
        ({
            let (n, effects) = app.updated(MessageView::CreateProfile);
            let name = trimmed(app.new_profile_name);
            &&& name.len() > 0 && app.geesed ==> effects == seq![EffectView::CreateProfile(name)]
                && n == (AppView { new_profile_name: Seq::empty(), ..app })
            &&& name.len() == 0 ==> effects.len() == 0 && n == (AppView {
                new_profile_name: Seq::empty(),
                ..app
            })
            &&& name.len() > 0 && !app.geesed ==> effects.len() == 0 && n == (AppView {
                new_profile_name: name,
                picker_error: Some("geesed not available"@),
                ..app
            })
        }),
        forall|text: Seq<char>| #[trigger]
            app.updated(MessageView::NewProfileNameChanged(text)) == (
                AppView { new_profile_name: text, ..app },
                Seq::<EffectView>::empty(),
            ),
{
}

/// A list of profiles that arrives is the list that is known from then on. The
/// tabs that it leaves out lose their pages and connections, and no other tab
/// does. Without a list nothing changes.
pub proof fn law_unknown_tabs_lose_their_pages(
    app: AppView,
    profiles: Seq<ProfileEntryView>,
    at: int,
)
    requires
        app.wf(),
        0 <= at < app.slots.len(),
    ensures
        ({
            let (n, effects) = app.updated(MessageView::ProfilesRefreshed(Some(profiles)));
            let slot = app.slots[at];
            let stale = !is_known(profiles, slot.profile);
            &&& n.known_profiles == profiles
            &&& effects.contains(EffectView::DestroyWebview(slot.entity)) == stale
            &&& effects.contains(EffectView::DropConnection(slot.entity)) == stale
        }),
        app.updated(MessageView::ProfilesRefreshed(None)) == (app, Seq::<EffectView>::empty()),
{
    let seen = AppView { known_profiles: profiles, ..app };
    lemma_closed_all_known(seen, seen.stale());
    lemma_stale(seen, at);
    lemma_drop_all(seen.stale(), app.slots[at].entity);
}

proof fn lemma_closed_all_known(app: AppView, entities: Seq<Entity>)
    requires
        app.wf(),
    ensures
        app.closed_all(entities).known_profiles == app.known_profiles,
    decreases entities.len(),
{
    if entities.len() > 0 {
        lemma_closed_all_known(app, entities.drop_last());
        lemma_closed_all_wf(app, entities.drop_last());
        lemma_closed_parts(app.closed_all(entities.drop_last()), entities.last());
    }
}

proof fn lemma_drop_all(entities: Seq<Entity>, entity: Entity)
    ensures
        drop_all(entities).contains(EffectView::DestroyWebview(entity)) == entities.contains(
            entity,
        ),
        drop_all(entities).contains(EffectView::DropConnection(entity)) == entities.contains(
            entity,
        ),
    decreases entities.len(),
{
    let all = drop_all(entities);
    let destroy = EffectView::DestroyWebview(entity);
    let leave = EffectView::DropConnection(entity);
    if entities.len() > 0 {
        let front = entities.drop_last();
        let part = drop_all(front);
        lemma_drop_all(front, entity);
        assert(all[part.len() as int] == EffectView::DestroyWebview(entities.last()));
        assert(all[part.len() as int + 1] == EffectView::DropConnection(entities.last()));
        if front.contains(entity) {
            let i = choose|i: int| 0 <= i < front.len() && front[i] == entity;
            assert(entities[i] == entity);
            let a = choose|a: int| 0 <= a < part.len() && part[a] == destroy;
            let b = choose|b: int| 0 <= b < part.len() && part[b] == leave;
            assert(all[a] == destroy && all[b] == leave);
        }
        if entities.contains(entity) && entities.last() != entity {
            let i = choose|i: int| 0 <= i < entities.len() && entities[i] == entity;
            assert(front[i] == entity);
        }
        if entities.last() == entity {
            assert(entities[entities.len() - 1] == entity);
        }
        if all.contains(destroy) && entities.last() != entity {
            let a = choose|a: int| 0 <= a < all.len() && all[a] == destroy;
            assert(part[a] == destroy);
        }
        if all.contains(leave) && entities.last() != entity {
            let b = choose|b: int| 0 <= b < all.len() && all[b] == leave;
            assert(part[b] == leave);
        }
    }
}

/// A connection that was set up is kept for its tab. One that failed leaves its
/// error on its tab, and on no other.
pub proof fn law_connection_outcome(app: AppView, entity: Entity, error: Seq<char>, at: int)
    requires
        app.wf(),
        0 <= at < app.slots.len(),
    ensures
        app.updated(MessageView::TabAcpReady(entity, None)) == (
            app,
            seq![EffectView::KeepConnection(entity)],
        ),
        ({
            let (n, effects) = app.updated(MessageView::TabAcpReady(entity, Some(error)));
            &&& effects.len() == 0 && n.slots.len() == app.slots.len()
            &&& n.active == app.active && n.page == app.page
            &&& app.slots[at].entity == entity ==> n.slots[at] == (SlotView {
                acp_error: Some(error),
                ..app.slots[at]
            })
            &&& app.slots[at].entity != entity ==> n.slots[at] == app.slots[at]
        }),
{
    lemma_place(app.slots, entity);
    let found = place(app.slots, entity);
    if app.slots[at].entity == entity && found != at {
        if found < at {
            assert(app.slots[found].entity != app.slots[at].entity);
        } else {
            assert(app.slots[at].entity != app.slots[found].entity);
        }
    }
}

/// A drawer opens and is shown, closes where it is open, and makes way for the
/// other one. That of the profile opens only where a tab is active.
pub proof fn law_drawers(app: AppView)
    ensures
        ({
            let about = app.updated(MessageView::ToggleAbout);
            let profile = app.updated(MessageView::ToggleProfileConfig);
            let closed = app.updated(MessageView::CloseContextDrawer);
            &&& about.1.len() == 0 && profile.1.len() == 0 && closed.1.len() == 0
            &&& app.drawer != Some(ContextDrawer::About) ==> about.0 == (AppView {
                drawer: Some(ContextDrawer::About),
                show_context: true,
                ..app
            })
            &&& app.drawer == Some(ContextDrawer::About) ==> about.0 == (AppView {
                drawer: None,
                show_context: false,
                ..app
            })
            &&& app.active_profile() is None ==> profile.0 == app
            &&& app.active_profile() is Some && app.drawer != Some(ContextDrawer::ProfileConfig)
                ==> profile.0 == (AppView {
                drawer: Some(ContextDrawer::ProfileConfig),
                show_context: true,
                ..app
            })
            &&& app.active_profile() is Some && app.drawer == Some(ContextDrawer::ProfileConfig)
                ==> profile.0 == (AppView { drawer: None, show_context: false, ..app })
            &&& closed.0 == (AppView { drawer: None, show_context: false, ..app })
        }),
{
}

/// A link is opened as it is, and new preferences are taken over.
pub proof fn law_links_and_preferences(app: AppView, url: Seq<char>, config: Config)
    ensures
        app.updated(MessageView::LaunchUrl(url)) == (app, seq![EffectView::LaunchUrl(url)]),
        app.updated(MessageView::UpdateConfig(config)) == (
            AppView { config, ..app },
            Seq::<EffectView>::empty(),
        ),
        app.updated(MessageView::PumpGtk(None)) == (app, Seq::<EffectView>::empty()),
{
}

/// The active profile is that of the active tab. The title of the window names
/// it behind that of the application, and the state that is saved holds the
/// profiles of the tabs from left to right, and the active one.
pub proof fn law_active_profile_is_named(app: AppView, at: int)
    requires
        app.wf(),
        0 <= at < app.slots.len(),
        app.active == Some(app.slots[at].entity),
    ensures
        app.active_profile() == Some(app.slots[at].profile),
        app.title() == app.app_title + " — "@ + app.slots[at].profile,
        app.snapshot().active == Some(app.slots[at].profile),
        app.snapshot().version == 0,
        app.snapshot().tabs.len() == app.slots.len(),
        forall|i: int|
            0 <= i < app.slots.len() ==> (#[trigger] app.snapshot().tabs[i]) == app.slots[i].profile,
        app.page == Page::Tab ==> app.body() == Body::Tab(app.slots[at].entity),
{
    assert forall|i: int| 0 <= i < at implies (#[trigger] app.slots[i]).entity
        != app.slots[at].entity by {
        assert(app.slots[i].entity != app.slots[at].entity);
    }
    lemma_place_is(app.slots, app.slots[at].entity, at);
}

/// Without a tab there is no active profile, and the title is that of the
/// application.
pub proof fn law_window_without_tabs(app: AppView)
    requires
        app.wf(),
        app.slots.len() == 0,
    ensures
        app.active_profile() is None,
        app.title() == app.app_title,
        app.snapshot().active is None,
        app.snapshot().tabs.len() == 0,
        app.page != Page::Picker ==> app.body() == Body::Empty,
{
}

/// The window shows the picker where it was asked for, and a drawer exactly
/// where one is open: that of the profile only where a tab is active.
pub proof fn law_what_is_shown(app: AppView)
    ensures
        app.page == Page::Picker ==> app.body() == Body::Picker,
        app.page == Page::Empty ==> app.body() == Body::Empty,
        !app.show_context || app.drawer is None ==> app.open_drawer() == Drawer::Closed,
        app.show_context && app.drawer == Some(ContextDrawer::About) ==> app.open_drawer()
            == Drawer::About,
        app.show_context && app.drawer == Some(ContextDrawer::ProfileConfig)
            && app.active_profile() is Some ==> app.open_drawer() == Drawer::ProfileConfig,
        app.active_profile() is None ==> app.open_drawer() != Drawer::ProfileConfig,
{
}

/// The picker has a row for each known profile, in their order, with its name
/// and its lock. A profile that has a tab is marked as open.
pub proof fn law_picker_lists_profiles(app: AppView, i: int)
    requires
        0 <= i < app.known_profiles.len(),
    ensures
        app.picker_rows().len() == app.known_profiles.len(),
        app.picker_rows()[i].name == app.known_profiles[i].name,
        app.picker_rows()[i].locked == app.known_profiles[i].locked,
        app.picker_rows()[i].is_open == (exists|k: int|
            0 <= k < app.slots.len() && (#[trigger] app.slots[k]).profile
                == app.known_profiles[i].name),
{
}

/// The tabs of a state are restored from left to right, each without an error,
/// and shown where there is any. The one that was active is active again, or
/// the first where that one is gone.
pub proof fn law_restored_tabs(app_title: Seq<char>, state: StateView, i: int)
    requires
        0 <= i < state.tabs.len(),
        state.tabs.len() < Entity::MAX,
    ensures
        ({
            let app = AppView::initial(app_title).restored(state);
            &&& app.slots.len() == state.tabs.len()
            &&& app.slots[i].profile == state.tabs[i]
            &&& app.slots[i].acp_error is None
            &&& app.page == Page::Tab
            &&& !app.has_window && !app.has_bounds && app.pending_webviews.len() == 0
            &&& app.active is Some
        }),
{
    let start = AppView::initial(app_title);
    crate::app::lemma_inserted_all(start, state.tabs);
    let app = start.restored(state);
    assert(app.slots[0 + i].profile == state.tabs[i]);
    lemma_inserted_without_errors(start, state.tabs);
}

proof fn lemma_inserted_without_errors(app: AppView, profiles: Seq<Seq<char>>)
    requires
        forall|i: int| 0 <= i < app.slots.len() ==> (#[trigger] app.slots[i]).acp_error is None,
    ensures
        ({
            let all = app.inserted_all(profiles);
            &&& forall|i: int|
                0 <= i < all.slots.len() ==> (#[trigger] all.slots[i]).acp_error is None
            &&& all.has_window == app.has_window && all.has_bounds == app.has_bounds
            &&& all.pending_webviews == app.pending_webviews
        }),
    decreases profiles.len(),
{
    if profiles.len() > 0 {
        lemma_inserted_without_errors(app, profiles.drop_last());
    }
}

/// Closing a tab leaves the drawers as they are, but for that of the profile,
/// which goes with the last tab.
pub proof fn law_drawer_goes_with_the_last_tab(app: AppView, entity: Entity)
    requires
        app.wf(),
    ensures
        ({
            let n = app.updated(MessageView::CloseTab(entity)).0;
            &&& n.slots.len() > 0 || app.drawer != Some(ContextDrawer::ProfileConfig) ==> n.drawer
                == app.drawer && n.show_context == app.show_context
            &&& n.slots.len() == 0 && app.drawer == Some(ContextDrawer::ProfileConfig)
                ==> n.drawer is None && !n.show_context
            &&& n == (AppView {
                slots: n.slots,
                active: n.active,
                page: n.page,
                drawer: n.drawer,
                show_context: n.show_context,
                ..app
            })
        }),
{
    lemma_closed_parts(app, entity);
    crate::app::lemma_closed_wf(app, entity);
    let n = app.closed(entity);
    lemma_active_profile(n);
}

/// A page is created only for a tab of the strip, or for one that waited for it,
/// and under its own profile.
pub proof fn law_pages_are_for_tabs(app: AppView, entity: Entity, profile: Seq<char>)
    ensures
        ({
            let effects = app.updated(MessageView::TabBodyRect).1;
            effects.contains(EffectView::OpenWebview { entity, profile })
                ==> app.pending_webviews.contains((entity, profile)) && app.has_window
        }),
        ({
            let effects = app.updated(MessageView::GotMainWindowId).1;
            effects.contains(EffectView::OpenWebview { entity, profile }) ==> app.has_bounds && (
            exists|i: int|
                0 <= i < app.slots.len() && (#[trigger] app.slots[i]).entity == entity
                    && app.slots[i].profile == profile)
        }),
{
    let want = EffectView::OpenWebview { entity, profile };
    let first = app.updated(MessageView::TabBodyRect).1;
    if first.contains(want) {
        let k = choose|k: int| 0 <= k < first.len() && first[k] == want;
        let opened = open_all(app.pending_webviews);
        if app.has_window {
            let before = first.len() - opened.len();
            assert(first[k] == opened[k - before]);
            assert(app.pending_webviews[k - before] == (entity, profile));
        }
    }
    let second = app.updated(MessageView::GotMainWindowId).1;
    if second.contains(want) {
        let k = choose|k: int| 0 <= k < second.len() && second[k] == want;
        assert(strip_pages(app.slots)[k] == (app.slots[k].entity, app.slots[k].profile));
        assert(app.slots[k].entity == entity);
    }
}

} // verus!
