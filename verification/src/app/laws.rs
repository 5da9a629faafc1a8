//! What holds of the tab strip across operations.

use crate::app::{
    distinct_entities, in_strip, last_place, lemma_closed_wf, lemma_place, lemma_place_is,
    lemma_place_of_profile, place, place_of_profile, slot_profiles, AppView, ContextDrawer,
    Entity, Page, SlotView,
};
use crate::app::update::{EffectView, MessageView, TabNavDir, Updated};
use crate::state::{StateView, VERSION};
use crate::tab::ProfileEntryView;
use vstd::prelude::*;

verus! {

/// Where a tab stands after another was taken out of the strip.
proof fn lemma_place_without(slots: Seq<SlotView>, gone: int, entity: Entity)
    requires
        distinct_entities(slots),
        0 <= gone < slots.len(),
        slots[gone].entity != entity,
    ensures
        place(slots.remove(gone), entity) == (if place(slots, entity) > gone {
            place(slots, entity) - 1
        } else {
            place(slots, entity)
        }),
{
    let rest = slots.remove(gone);
    lemma_place(slots, entity);
    let at = place(slots, entity);
    let found = if at > gone {
        at - 1
    } else {
        at
    };
    assert forall|i: int| 0 <= i < found implies (#[trigger] rest[i]).entity != entity by {
        if i < gone {
            assert(rest[i] == slots[i]);
        } else {
            assert(rest[i] == slots[i + 1]);
        }
    }
    if found < rest.len() {
        assert(rest[found] == slots[at]);
    }
    lemma_place_is(rest, entity, found);
}

/// A well-formed model has an active profile exactly where it has a tab.
pub proof fn lemma_active_profile(app: AppView)
    requires
        app.wf(),
    ensures
        app.active_profile() is Some <==> app.slots.len() > 0,
        app.active is Some ==> 0 <= place(app.slots, app.active->0) < app.slots.len(),
{
    if let Some(entity) = app.active {
        lemma_place(app.slots, entity);
    }
}

/// The parts of a model that closing a tab decides, and the rest, which stays.
pub proof fn lemma_closed_parts(app: AppView, entity: Entity)
    requires
        app.wf(),
    ensures
        ({
            let next = app.closed(entity);
            &&& next.slots == app.slots_without(entity)
            &&& next.active == app.successor(entity)
            &&& next.page == next.default_page()
            &&& next.slots.len() > 0 ==> next.drawer == app.drawer && next.show_context
                == app.show_context
            &&& next == (AppView {
                slots: next.slots,
                active: next.active,
                page: next.page,
                drawer: next.drawer,
                show_context: next.show_context,
                ..app
            })
            &&& next.slots.len() == 0 && app.drawer == Some(ContextDrawer::ProfileConfig)
                ==> next.drawer is None && !next.show_context
            &&& app.drawer != Some(ContextDrawer::ProfileConfig) ==> next.drawer == app.drawer
                && next.show_context == app.show_context
        }),
{
    lemma_closed_wf(app, entity);
    lemma_active_profile(app.closed(entity));
}

/// Two tabs of the strip, the left one closed before or after the right one.
proof fn lemma_closing_commutes(app: AppView, a: Entity, b: Entity)
    requires
        app.wf(),
        0 <= place(app.slots, a) < place(app.slots, b) < app.slots.len(),
    ensures
        app.closed(a).closed(b).slots == app.closed(b).closed(a).slots,
        app.closed(a).closed(b).active == app.closed(b).closed(a).active,
        app.closed(a).slots.len() == app.slots.len() - 1,
        app.closed(b).slots.len() == app.slots.len() - 1,
{
    let slots = app.slots;
    let pa = place(slots, a);
    let pb = place(slots, b);
    lemma_place(slots, a);
    lemma_place(slots, b);
    lemma_closed_parts(app, a);
    lemma_closed_parts(app, b);
    lemma_closed_wf(app, a);
    lemma_closed_wf(app, b);
    let sa = slots.remove(pa);
    let sb = slots.remove(pb);
    assert(app.closed(a).slots == sa);
    assert(app.closed(b).slots == sb);
    lemma_place_without(slots, pa, b);
    lemma_place_without(slots, pb, a);
    assert(place(sa, b) == pb - 1);
    assert(place(sb, a) == pa);
    lemma_closed_parts(app.closed(a), b);
    lemma_closed_parts(app.closed(b), a);
    assert(sa.remove(pb - 1) =~= sb.remove(pa));
    assert(slots[pa + 1].entity != a);
    if pa + 1 < pb {
        assert(slots[pa + 1].entity != b);
        assert(slots[pb - 1].entity != a);
        assert(sb[pa + 1] == slots[pa + 1]);
        assert(sa[pb - 2] == slots[pb - 1]);
    } else {
        if pb + 1 < slots.len() {
            assert(sa[pa + 1] == slots[pb + 1]);
            assert(sb[pa + 1] == slots[pb + 1]);
        }
        if pa > 0 {
            assert(sa[pa - 1] == slots[pa - 1]);
            assert(sb[pa - 1] == slots[pa - 1]);
        }
    }
    if pb + 1 < slots.len() {
        assert(sa[pb] == slots[pb + 1]);
        assert(slots[pb + 1].entity != a);
    }
}

/// The order in which two tabs are closed makes no difference.
pub proof fn law_closing_commutes(app: AppView, a: Entity, b: Entity)
    requires
        app.wf(),
    ensures
        app.closed(a).closed(b) == app.closed(b).closed(a),
{
    if a != b {
        lemma_place(app.slots, a);
        lemma_place(app.slots, b);
        let pa = place(app.slots, a);
        let pb = place(app.slots, b);
        let n = app.slots.len();
        lemma_closed_wf(app, a);
        lemma_closed_wf(app, b);
        lemma_closed_parts(app, a);
        lemma_closed_parts(app, b);
        lemma_closed_parts(app.closed(a), b);
        lemma_closed_parts(app.closed(b), a);
        if pa < n && pb < n {
            if pa < pb {
                lemma_closing_commutes(app, a, b);
            } else {
                lemma_closing_commutes(app, b, a);
            }
        } else {
            lemma_closing_absent(app, a, b);
        }
    }
}

/// A tab that is not in the strip, closed before or after another one.
proof fn lemma_closing_absent(app: AppView, a: Entity, b: Entity)
    requires
        app.wf(),
        a != b,
        !in_strip(app.slots, a) || !in_strip(app.slots, b),
    ensures
        app.closed(a).closed(b).slots == app.closed(b).closed(a).slots,
        app.closed(a).closed(b).active == app.closed(b).closed(a).active,
{
    lemma_place(app.slots, a);
    lemma_place(app.slots, b);
    if in_strip(app.slots, a) {
        lemma_place_without(app.slots, place(app.slots, a), b);
    }
    if in_strip(app.slots, b) {
        lemma_place_without(app.slots, place(app.slots, b), a);
    }
    lemma_closed_parts(app, a);
    lemma_closed_parts(app, b);
    lemma_closed_wf(app, a);
    lemma_closed_wf(app, b);
    lemma_closed_parts(app.closed(a), b);
    lemma_closed_parts(app.closed(b), a);
    lemma_place(app.closed(a).slots, b);
    lemma_place(app.closed(b).slots, a);
    if app.closed(a).active is Some {
        lemma_place(app.closed(a).slots, app.closed(a).active->0);
    }
    if app.closed(b).active is Some {
        lemma_place(app.closed(b).slots, app.closed(b).active->0);
    }
}

/// Closing a tab takes that tab out of the strip, and nothing else. A tab that
/// is not in the strip leaves the strip as it is.
pub proof fn law_closing_takes_one(app: AppView, entity: Entity, other: Entity)
    requires
        app.wf(),
    ensures
        !in_strip(app.closed(entity).slots, entity),
        other != entity ==> (in_strip(app.closed(entity).slots, other) <==> in_strip(
            app.slots,
            other,
        )),
{
    let at = place(app.slots, entity);
    lemma_place(app.slots, entity);
    let rest = app.closed(entity).slots;
    if at < app.slots.len() {
        assert forall|i: int| 0 <= i < rest.len() implies (#[trigger] rest[i]).entity
            != entity by {
            if i < at {
                assert(rest[i] == app.slots[i]);
            } else {
                assert(rest[i] == app.slots[i + 1]);
                assert(app.slots[at].entity == entity);
            }
        }
        if other != entity {
            lemma_place_without(app.slots, at, other);
            lemma_place(app.slots, other);
            lemma_place(rest, other);
        }
    }
}

/// Going to a profile twice is going there once.
pub proof fn law_opening_is_idempotent(app: AppView, profile: Seq<char>)
    requires
        app.wf(),
        app.next_entity + 1 < Entity::MAX,
    ensures
        app.opened(profile).opened(profile) == app.opened(profile),
{
    let at = place_of_profile(app.slots, profile);
    lemma_place_of_profile(app.slots, profile);
    let once = app.opened(profile);
    lemma_place_of_profile(once.slots, profile);
    let again = place_of_profile(once.slots, profile);
    if at == app.slots.len() {
        assert(once.slots[at].profile == profile);
        if again < at {
            assert(once.slots[again] == app.slots[again]);
        }
        assert(again == at);
    }
}

/// Going to a profile makes it the active one.
pub proof fn law_opened_profile_is_active(app: AppView, profile: Seq<char>)
    requires
        app.wf(),
        app.next_entity < Entity::MAX,
    ensures
        app.opened(profile).active_profile() == Some(profile),
        app.opened(profile).page == Page::Tab,
{
    crate::app::lemma_opened_wf(app, profile);
    let at = place_of_profile(app.slots, profile);
    lemma_place_of_profile(app.slots, profile);
    let next = app.opened(profile);
    assert(next.slots[at].entity == next.active->0);
    assert forall|i: int| 0 <= i < at implies (#[trigger] next.slots[i]).entity
        != next.active->0 by {
        assert(next.slots[i].entity != next.slots[at].entity);
    }
    lemma_place_is(next.slots, next.active->0, at);
}

/// Toggling a drawer twice leaves no drawer open, unless another one was: that
/// one has made way.
pub proof fn law_toggling_twice_closes(app: AppView, kind: ContextDrawer)
    ensures
        app.drawer != Some(kind) ==> app.toggled(kind).toggled(kind).drawer is None
            && !app.toggled(kind).toggled(kind).show_context,
        app.toggled(kind).drawer is Some <==> app.toggled(kind).show_context,
{
}

/// The number of positions that a message goes to the right.
pub open spec fn direction(message: MessageView) -> int {
    if message is PrevTab {
        -1
    } else {
        1
    }
}

/// The model after the same message a number of times.
pub open spec fn repeated(app: AppView, message: MessageView, times: nat) -> AppView
    decreases times,
{
    if times == 0 {
        app
    } else {
        repeated(app, message, (times - 1) as nat).updated(message).0
    }
}

/// A remainder close to the range of remainders.
proof fn lemma_wrapped(x: int, n: int)
    requires
        n > 0,
        -n <= x < 2 * n,
    ensures
        x % n == (if x < 0 {
            x + n
        } else if x < n {
            x
        } else {
            x - n
        }),
{
    if x < 0 {
        vstd::arithmetic::div_mod::lemma_mod_add_multiples_vanish(x, n);
        vstd::arithmetic::div_mod::lemma_small_mod((x + n) as nat, n as nat);
    } else if x < n {
        vstd::arithmetic::div_mod::lemma_small_mod(x as nat, n as nat);
    } else {
        vstd::arithmetic::div_mod::lemma_mod_add_multiples_vanish(x - n, n);
        vstd::arithmetic::div_mod::lemma_small_mod((x - n) as nat, n as nat);
    }
}

/// One step goes to the neighbour and leaves the strip as it is.
proof fn lemma_one_step(app: AppView, message: MessageView)
    requires
        app.wf(),
        app.slots.len() >= 2,
        message is NextTab || message is PrevTab,
    ensures
        ({
            let next = app.updated(message).0;
            let at = place(app.slots, app.active->0);
            let to = (at + direction(message)) % (app.slots.len() as int);
            &&& next.wf()
            &&& next.slots == app.slots
            &&& next.active == Some(app.slots[to].entity)
            &&& place(app.slots, app.slots[to].entity) == to
            &&& 0 <= to < app.slots.len()
        }),
{
    lemma_active_profile(app);
    let n = app.slots.len() as int;
    let at = place(app.slots, app.active->0);
    let to = (at + direction(message)) % n;
    lemma_wrapped(at + direction(message), n);
    let target = app.slots[to].entity;
    assert(in_strip(app.slots, target));
    assert forall|i: int| 0 <= i < to implies (#[trigger] app.slots[i]).entity != target by {
        assert(app.slots[i].entity != app.slots[to].entity);
    }
    lemma_place_is(app.slots, target, to);
}

/// Going to the neighbour a number of times leaves the strip as it is and ends
/// as many positions further on, around the ends of the strip.
pub proof fn law_tabs_are_a_ring(app: AppView, message: MessageView, times: nat)
    requires
        app.wf(),
        app.slots.len() >= 2,
        message is NextTab || message is PrevTab,
    ensures
        ({
            let next = repeated(app, message, times);
            let at = place(app.slots, app.active->0);
            let to = (at + direction(message) * times) % (app.slots.len() as int);
            &&& next.wf()
            &&& next.slots == app.slots
            &&& next.active == Some(app.slots[to].entity)
            &&& place(app.slots, next.active->0) == to
        }),
    decreases times,
{
    lemma_active_profile(app);
    let n = app.slots.len() as int;
    let at = place(app.slots, app.active->0);
    let step = direction(message);
    if times == 0 {
        lemma_place(app.slots, app.active->0);
        lemma_wrapped(at, n);
    } else {
        law_tabs_are_a_ring(app, message, (times - 1) as nat);
        let before = repeated(app, message, (times - 1) as nat);
        lemma_one_step(before, message);
        let so_far = at + step * (times - 1);
        vstd::arithmetic::div_mod::lemma_add_mod_noop_right(step, so_far, n);
        assert(step + so_far == at + step * times) by (nonlinear_arith)
            requires
                so_far == at + step * (times - 1),
        ;
        assert((step + so_far % n) % n == (so_far % n + step) % n);
    }
}

/// The position after at most one round.
proof fn lemma_around(at: int, step: int, times: int, n: int)
    requires
        step == 1 || step == -1,
        0 <= at < n,
        0 <= times <= n,
    ensures
        step == 1 ==> (at + step * times) % n == (if at + times < n {
            at + times
        } else {
            at + times - n
        }),
        step == -1 ==> (at + step * times) % n == (if at - times < 0 {
            at - times + n
        } else {
            at - times
        }),
{
    if step == 1 {
        lemma_wrapped(at + times, n);
    } else {
        assert(step * times == -times) by (nonlinear_arith)
            requires
                step == -1,
        ;
        lemma_wrapped(at - times, n);
    }
}

/// The tab at a position is active after some number of steps, less than a
/// round.
proof fn lemma_visits(app: AppView, message: MessageView, j: int) -> (times: nat)
    requires
        app.wf(),
        app.slots.len() >= 2,
        message is NextTab || message is PrevTab,
        0 <= j < app.slots.len(),
    ensures
        times < app.slots.len(),
        repeated(app, message, times).active == Some(app.slots[j].entity),
{
    lemma_active_profile(app);
    let n = app.slots.len() as int;
    let at = place(app.slots, app.active->0);
    let ahead = if message is PrevTab {
        at - j
    } else {
        j - at
    };
    let times: nat = if ahead < 0 {
        (ahead + n) as nat
    } else {
        ahead as nat
    };
    law_tabs_are_a_ring(app, message, times);
    lemma_around(at, direction(message), times as int, n);
    times
}

/// Different numbers of steps, less than a round, lead to different tabs.
proof fn lemma_visits_once(app: AppView, message: MessageView, a: nat, b: nat)
    requires
        app.wf(),
        app.slots.len() >= 2,
        message is NextTab || message is PrevTab,
        a < b < app.slots.len(),
    ensures
        repeated(app, message, a).active != repeated(app, message, b).active,
{
    lemma_active_profile(app);
    let n = app.slots.len() as int;
    let at = place(app.slots, app.active->0);
    law_tabs_are_a_ring(app, message, a);
    law_tabs_are_a_ring(app, message, b);
    lemma_around(at, direction(message), a as int, n);
    lemma_around(at, direction(message), b as int, n);
}

/// Going once around the strip, either way, visits every tab once and ends
/// where it began.
pub proof fn law_round_visits_every_tab_once(app: AppView, message: MessageView)
    requires
        app.wf(),
        app.slots.len() >= 2,
        message is NextTab || message is PrevTab,
    ensures
        repeated(app, message, app.slots.len()).active == app.active,
        repeated(app, message, app.slots.len()).slots == app.slots,
        forall|j: int|
            0 <= j < app.slots.len() ==> exists|times: nat|
                times < app.slots.len() && (#[trigger] repeated(app, message, times)).active
                    == Some((#[trigger] app.slots[j]).entity),
        forall|a: nat, b: nat|
            a < b < app.slots.len() ==> (#[trigger] repeated(app, message, a)).active != (
            #[trigger] repeated(app, message, b)).active,
{
    lemma_active_profile(app);
    let n = app.slots.len() as int;
    let at = place(app.slots, app.active->0);
    lemma_place(app.slots, app.active->0);
    law_tabs_are_a_ring(app, message, n as nat);
    lemma_around(at, direction(message), n, n);
    assert forall|j: int| 0 <= j < n implies exists|times: nat|
        times < n && (#[trigger] repeated(app, message, times)).active == Some(
            (#[trigger] app.slots[j]).entity,
        ) by {
        let times = lemma_visits(app, message, j);
        assert(repeated(app, message, times).active == Some(app.slots[j].entity));
    }
    assert forall|a: nat, b: nat| a < b < n implies (#[trigger] repeated(app, message, a)).active
        != (#[trigger] repeated(app, message, b)).active by {
        lemma_visits_once(app, message, a, b);
    }
}

/// Going to one neighbour and back, in either order, ends where it began.
pub proof fn law_there_and_back(app: AppView)
    requires
        app.wf(),
        app.slots.len() >= 2,
    ensures
        ({
            let there = app.updated(MessageView::NextTab).0.updated(MessageView::PrevTab).0;
            let back = app.updated(MessageView::PrevTab).0.updated(MessageView::NextTab).0;
            &&& there.active == app.active && there.slots == app.slots
            &&& back.active == app.active && back.slots == app.slots
        }),
{
    lemma_active_profile(app);
    let n = app.slots.len() as int;
    let at = place(app.slots, app.active->0);
    lemma_place(app.slots, app.active->0);
    lemma_one_step(app, MessageView::NextTab);
    lemma_one_step(app, MessageView::PrevTab);
    lemma_one_step(app.updated(MessageView::NextTab).0, MessageView::PrevTab);
    lemma_one_step(app.updated(MessageView::PrevTab).0, MessageView::NextTab);
    lemma_wrapped(at + 1, n);
    lemma_wrapped(at - 1, n);
    lemma_wrapped((at + 1) % n - 1, n);
    lemma_wrapped((at - 1) % n + 1, n);
}

/// Where there are fewer than two tabs, there is no neighbour to go to.
pub proof fn law_a_lone_tab_stays(app: AppView, message: MessageView)
    requires
        app.slots.len() < 2,
        message is NextTab || message is PrevTab,
    ensures
        app.updated(message) == (app, Seq::<EffectView>::empty()),
{
}

/// Two tabs next to each other in a list of tabs to be closed can change
/// places. So the list can have any order.
pub proof fn law_closing_order_is_free(
    app: AppView,
    front: Seq<Entity>,
    a: Entity,
    b: Entity,
    back: Seq<Entity>,
)
    requires
        app.wf(),
    ensures
        app.closed_all(front + seq![a, b] + back) == app.closed_all(front + seq![b, a] + back),
    decreases back.len(),
{
    let ab = front + seq![a, b] + back;
    let ba = front + seq![b, a] + back;
    if back.len() == 0 {
        lemma_closed_all_wf(app, front);
        law_closing_commutes(app.closed_all(front), a, b);
        assert(ab.drop_last().drop_last() =~= front);
        assert(ba.drop_last().drop_last() =~= front);
        reveal_with_fuel(AppView::closed_all, 3);
    } else {
        law_closing_order_is_free(app, front, a, b, back.drop_last());
        assert(ab.drop_last() =~= front + seq![a, b] + back.drop_last());
        assert(ba.drop_last() =~= front + seq![b, a] + back.drop_last());
    }
}

pub proof fn lemma_closed_all_wf(app: AppView, entities: Seq<Entity>)
    requires
        app.wf(),
    ensures
        app.closed_all(entities).wf(),
    decreases entities.len(),
{
    if entities.len() > 0 {
        lemma_closed_all_wf(app, entities.drop_last());
        lemma_closed_wf(app.closed_all(entities.drop_last()), entities.last());
    }
}

/// The first tab from position `at` to the right that `keep` picks.
pub open spec fn next_kept(
    slots: Seq<SlotView>,
    at: int,
    keep: spec_fn(SlotView) -> bool,
) -> Option<Entity>
    decreases slots.len() - at,
{
    if at >= slots.len() {
        None
    } else if keep(slots[at]) {
        Some(slots[at].entity)
    } else {
        next_kept(slots, at + 1, keep)
    }
}

/// The first tab from position `at` to the left that `keep` picks.
pub open spec fn previous_kept(
    slots: Seq<SlotView>,
    at: int,
    keep: spec_fn(SlotView) -> bool,
) -> Option<Entity>
    decreases at + 1,
{
    if at < 0 {
        None
    } else if keep(slots[at]) {
        Some(slots[at].entity)
    } else {
        previous_kept(slots, at - 1, keep)
    }
}

/// The tab that is active once only those that `keep` picks are left: the
/// active one, or the nearest to its right, or the nearest to its left.
pub open spec fn heir(app: AppView, keep: spec_fn(SlotView) -> bool) -> Option<Entity> {
    match app.active {
        Some(entity) => {
            let at = place(app.slots, entity);
            match next_kept(app.slots, at, keep) {
                Some(entity) => Some(entity),
                None => previous_kept(app.slots, at - 1, keep),
            }
        },
        None => None,
    }
}

proof fn lemma_next_without(
    slots: Seq<SlotView>,
    gone: int,
    at: int,
    keep: spec_fn(SlotView) -> bool,
)
    requires
        0 <= gone < slots.len(),
        !keep(slots[gone]),
        0 <= at <= slots.len(),
    ensures
        at <= gone ==> next_kept(slots.remove(gone), at, keep) == next_kept(slots, at, keep),
        at >= gone && at < slots.len() ==> next_kept(slots.remove(gone), at, keep) == next_kept(
            slots,
            at + 1,
            keep,
        ),
    decreases slots.len() - at,
{
    let rest = slots.remove(gone);
    if at < slots.len() {
        lemma_next_without(slots, gone, at + 1, keep);
        if at < gone {
            assert(rest[at] == slots[at]);
        } else if at < rest.len() {
            assert(rest[at] == slots[at + 1]);
        }
    }
}

proof fn lemma_previous_without(
    slots: Seq<SlotView>,
    gone: int,
    at: int,
    keep: spec_fn(SlotView) -> bool,
)
    requires
        0 <= gone < slots.len(),
        !keep(slots[gone]),
        -1 <= at < slots.len(),
    ensures
        at < gone ==> previous_kept(slots.remove(gone), at, keep) == previous_kept(
            slots,
            at,
            keep,
        ),
        gone - 1 <= at < slots.len() - 1 ==> previous_kept(slots.remove(gone), at, keep)
            == previous_kept(slots, at + 1, keep),
    decreases at + 1,
{
    let rest = slots.remove(gone);
    if at >= 0 {
        lemma_previous_without(slots, gone, at - 1, keep);
        if at < gone {
            assert(rest[at] == slots[at]);
        } else if at < rest.len() {
            assert(rest[at] == slots[at + 1]);
        }
    }
}

/// Closing a tab that is not to be kept does not change which tab is active in
/// the end.
proof fn lemma_heir_kept(app: AppView, entity: Entity, keep: spec_fn(SlotView) -> bool)
    requires
        app.wf(),
        forall|i: int|
            0 <= i < app.slots.len() && (#[trigger] app.slots[i]).entity == entity ==> !keep(
                app.slots[i],
            ),
    ensures
        heir(app.closed(entity), keep) == heir(app, keep),
{
    let slots = app.slots;
    let n = slots.len() as int;
    let gone = place(slots, entity);
    lemma_place(slots, entity);
    lemma_closed_parts(app, entity);
    lemma_closed_wf(app, entity);
    if let Some(active) = app.active {
        let at = place(slots, active);
        lemma_place(slots, active);
        if gone < n {
            let rest = slots.remove(gone);
            assert(!keep(slots[gone]));
            if active != entity {
                lemma_place_without(slots, gone, active);
                if at > gone {
                    lemma_next_without(slots, gone, at - 1, keep);
                    lemma_previous_without(slots, gone, at - 2, keep);
                } else {
                    lemma_next_without(slots, gone, at, keep);
                    lemma_previous_without(slots, gone, at - 1, keep);
                }
            } else if at + 1 < n {
                lemma_place_without(slots, gone, slots[at + 1].entity);
                lemma_place_at(slots, at + 1);
                lemma_next_without(slots, gone, at, keep);
                lemma_previous_without(slots, gone, at - 1, keep);
            } else if at > 0 {
                lemma_place_without(slots, gone, slots[at - 1].entity);
                lemma_place_at(slots, at - 1);
                lemma_next_without(slots, gone, at - 1, keep);
                lemma_previous_without(slots, gone, at - 2, keep);
                assert(next_kept(slots, at + 1, keep) is None);
                assert(next_kept(slots, at, keep) is None);
            } else {
                assert(next_kept(slots, 1, keep) is None);
            }
        }
    }
}

/// A tab is found where it stands.
proof fn lemma_place_at(slots: Seq<SlotView>, at: int)
    requires
        distinct_entities(slots),
        0 <= at < slots.len(),
    ensures
        place(slots, slots[at].entity) == at,
{
    assert forall|i: int| 0 <= i < at implies (#[trigger] slots[i]).entity
        != slots[at].entity by {}
    lemma_place_is(slots, slots[at].entity, at);
}

/// The strip without the tabs of unknown profiles.
pub open spec fn known_slots(app: AppView) -> Seq<SlotView> {
    app.slots.filter(|slot: SlotView| crate::tab::is_known(app.known_profiles, slot.profile))
}

/// Two rules that agree on every tab of a strip keep the same tabs.
proof fn lemma_same_filter(
    slots: Seq<SlotView>,
    p: spec_fn(SlotView) -> bool,
    q: spec_fn(SlotView) -> bool,
)
    requires
        forall|i: int| 0 <= i < slots.len() ==> p(#[trigger] slots[i]) == q(slots[i]),
    ensures
        slots.filter(p) == slots.filter(q),
    decreases slots.len(),
{
    reveal(Seq::filter);
    if slots.len() > 0 {
        assert(p(slots.last()) == q(slots.last()));
        lemma_same_filter(slots.drop_last(), p, q);
    }
}

/// Taking a tab out of the strip is keeping all others.
proof fn lemma_remove_is_filter(slots: Seq<SlotView>, entity: Entity)
    requires
        distinct_entities(slots),
    ensures
        slots.filter(|s: SlotView| s.entity != entity) == (if place(slots, entity)
            < slots.len() {
            slots.remove(place(slots, entity))
        } else {
            slots
        }),
    decreases slots.len(),
{
    let keep = |s: SlotView| s.entity != entity;
    reveal(Seq::filter);
    lemma_place(slots, entity);
    let at = place(slots, entity);
    if slots.len() > 0 {
        let rest = slots.drop_last();
        lemma_remove_is_filter(rest, entity);
        lemma_place(rest, entity);
        if at < slots.len() - 1 {
            assert forall|i: int| 0 <= i < at implies (#[trigger] rest[i]).entity != entity by {
                assert(rest[i] == slots[i]);
            }
            lemma_place_is(rest, entity, at);
            assert(slots.last().entity != slots[at].entity);
            assert(rest.remove(at).push(slots.last()) =~= slots.remove(at));
        } else {
            assert forall|i: int| 0 <= i < rest.len() implies (#[trigger] rest[i]).entity
                != entity by {
                assert(rest[i] == slots[i]);
            }
            lemma_place_is(rest, entity, rest.len() as int);
            if at < slots.len() {
                assert(slots.remove(at) =~= rest);
            } else {
                assert(slots.last() == slots[slots.len() - 1]);
                assert(rest.push(slots.last()) =~= slots);
            }
        }
    }
}

/// Closing a list of tabs leaves those that are not in the list.
proof fn lemma_closed_all_slots(app: AppView, entities: Seq<Entity>)
    requires
        app.wf(),
    ensures
        app.closed_all(entities).slots == app.slots.filter(
            |s: SlotView| !entities.contains(s.entity),
        ),
        app.closed_all(entities).known_profiles == app.known_profiles,
    decreases entities.len(),
{
    let keep = |s: SlotView| !entities.contains(s.entity);
    if entities.len() == 0 {
        lemma_filter_all(app.slots, keep);
    } else {
        let front = entities.drop_last();
        let last = entities.last();
        let part = app.closed_all(front);
        let kept = |s: SlotView| !front.contains(s.entity);
        let other = |s: SlotView| s.entity != last;
        lemma_closed_all_slots(app, front);
        lemma_closed_all_wf(app, front);
        lemma_closed_parts(part, last);
        lemma_remove_is_filter(part.slots, last);
        lemma_filter_twice(app.slots, kept, other);
        assert forall|i: int| 0 <= i < app.slots.len() implies keep(#[trigger] app.slots[i]) == (
        kept(app.slots[i]) && other(app.slots[i])) by {
            let e = app.slots[i].entity;
            if entities.contains(e) && e != last {
                let k = choose|k: int| 0 <= k < entities.len() && entities[k] == e;
                assert(front[k] == e);
            }
            if front.contains(e) {
                let k = choose|k: int| 0 <= k < front.len() && front[k] == e;
                assert(entities[k] == e);
            }
            if e == last {
                assert(entities[entities.len() - 1] == e);
            }
        }
        lemma_same_filter(app.slots, keep, |s: SlotView| kept(s) && other(s));
    }
}

proof fn lemma_filter_all(slots: Seq<SlotView>, keep: spec_fn(SlotView) -> bool)
    requires
        forall|i: int| 0 <= i < slots.len() ==> keep(#[trigger] slots[i]),
    ensures
        slots.filter(keep) == slots,
    decreases slots.len(),
{
    reveal(Seq::filter);
    if slots.len() > 0 {
        assert(keep(slots.last()));
        lemma_filter_all(slots.drop_last(), keep);
        assert(slots.drop_last().push(slots.last()) =~= slots);
    }
}

proof fn lemma_filter_twice(
    slots: Seq<SlotView>,
    p: spec_fn(SlotView) -> bool,
    q: spec_fn(SlotView) -> bool,
)
    ensures
        slots.filter(p).filter(q) == slots.filter(|s: SlotView| p(s) && q(s)),
    decreases slots.len(),
{
    reveal(Seq::filter);
    if slots.len() > 0 {
        lemma_filter_twice(slots.drop_last(), p, q);
        let part = slots.drop_last().filter(p);
        assert(part.push(slots.last()).drop_last() =~= part);
    }
}

/// Pruning leaves the tabs of known profiles, in their order, and makes the
/// active one active still, or the nearest of them to its right, or the
/// nearest to its left.
pub proof fn law_pruning_keeps_known_tabs(app: AppView)
    requires
        app.wf(),
    ensures
        app.pruned().slots == known_slots(app),
        app.pruned().active == heir(
            app,
            |slot: SlotView| crate::tab::is_known(app.known_profiles, slot.profile),
        ),
{
    let known = |slot: SlotView| crate::tab::is_known(app.known_profiles, slot.profile);
    let gone = |slot: SlotView| !crate::tab::is_known(app.known_profiles, slot.profile);
    let stale = app.stale();
    lemma_closed_all_slots(app, stale);
    let keep = |s: SlotView| !stale.contains(s.entity);
    assert forall|i: int| 0 <= i < app.slots.len() implies keep(#[trigger] app.slots[i]) == known(
        app.slots[i],
    ) by {
        lemma_stale(app, i);
    }
    lemma_same_filter(app.slots, keep, known);
    lemma_heir_of_pruned(app, stale, known);
    lemma_closed_all_wf(app, stale);
    let end = app.pruned();
    assert forall|i: int| 0 <= i < end.slots.len() implies known(#[trigger] end.slots[i]) by {
        broadcast use vstd::seq_lib::group_filter_ensures;

        assert(app.slots.filter(known)[i] == end.slots[i]);
    }
    if let Some(active) = end.active {
        lemma_place(end.slots, active);
        assert(known(end.slots[place(end.slots, active)]));
    }
}

/// A tab is stale exactly where its profile is not known.
pub proof fn lemma_stale(app: AppView, i: int)
    requires
        app.wf(),
        0 <= i < app.slots.len(),
    ensures
        app.stale().contains(app.slots[i].entity) <==> !crate::tab::is_known(
            app.known_profiles,
            app.slots[i].profile,
        ),
{
    let gone = |slot: SlotView| !crate::tab::is_known(app.known_profiles, slot.profile);
    let kept = app.slots.filter(gone);
    let slot = app.slots[i];
    broadcast use vstd::seq_lib::group_filter_ensures;

    if gone(slot) {
        assert(kept.contains(slot));
        let k = choose|k: int| 0 <= k < kept.len() && kept[k] == slot;
        assert(app.stale()[k] == slot.entity);
    }
    if app.stale().contains(slot.entity) {
        let k = choose|k: int| 0 <= k < app.stale().len() && app.stale()[k] == slot.entity;
        let other = kept[k];
        assert(gone(other));
        assert(app.slots.contains(other)) by {
            lemma_filter_contains(app.slots, gone, other);
        }
        let j = choose|j: int| 0 <= j < app.slots.len() && app.slots[j] == other;
        assert(app.slots[j].entity == app.slots[i].entity);
    }
}

proof fn lemma_filter_contains(
    slots: Seq<SlotView>,
    keep: spec_fn(SlotView) -> bool,
    slot: SlotView,
)
    requires
        slots.filter(keep).contains(slot),
    ensures
        slots.contains(slot),
    decreases slots.len(),
{
    reveal(Seq::filter);
    if slots.len() > 0 {
        let part = slots.drop_last().filter(keep);
        if part.contains(slot) {
            lemma_filter_contains(slots.drop_last(), keep, slot);
            let i = choose|i: int|
                0 <= i < slots.drop_last().len() && slots.drop_last()[i] == slot;
            assert(slots[i] == slot);
        } else {
            let k = choose|k: int|
                0 <= k < slots.filter(keep).len() && slots.filter(keep)[k] == slot;
            assert(slot == slots.last()) by {
                if k < part.len() {
                    assert(part[k] == slot);
                }
            }
            assert(slots[slots.len() - 1] == slot);
        }
    }
}

proof fn lemma_heir_of_pruned(
    app: AppView,
    entities: Seq<Entity>,
    keep: spec_fn(SlotView) -> bool,
)
    requires
        app.wf(),
        forall|i: int|
            0 <= i < app.slots.len() && entities.contains((#[trigger] app.slots[i]).entity)
                ==> !keep(app.slots[i]),
    ensures
        heir(app.closed_all(entities), keep) == heir(app, keep),
    decreases entities.len(),
{
    if entities.len() > 0 {
        let front = entities.drop_last();
        let part = app.closed_all(front);
        let left = |s: SlotView| !front.contains(s.entity);
        assert forall|i: int| 0 <= i < app.slots.len() && front.contains(
            (#[trigger] app.slots[i]).entity,
        ) implies !keep(app.slots[i]) by {
            let k = choose|k: int| 0 <= k < front.len() && front[k] == app.slots[i].entity;
            assert(entities[k] == app.slots[i].entity);
        }
        lemma_heir_of_pruned(app, front, keep);
        lemma_closed_all_wf(app, front);
        lemma_closed_all_slots(app, front);
        assert forall|i: int|
            0 <= i < part.slots.len() && (#[trigger] part.slots[i]).entity
                == entities.last() implies !keep(part.slots[i]) by {
            assert(app.slots.filter(left)[i] == part.slots[i]);
            assert(app.slots.filter(left).contains(part.slots[i]));
            lemma_filter_contains(app.slots, left, part.slots[i]);
            let j = choose|j: int| 0 <= j < app.slots.len() && app.slots[j] == part.slots[i];
            assert(entities[entities.len() - 1] == app.slots[j].entity);
        }
        lemma_heir_kept(part, entities.last(), keep);
    }
}

/// What is restored from a state is what the next snapshot writes: the same
/// tabs in the same order, and the same active tab where it is one of them,
/// else the first.
pub proof fn law_restored_state_is_written_back(app_title: Seq<char>, state: StateView)
    requires
        state.tabs.len() <= Entity::MAX,
    ensures
        AppView::initial(app_title).restored(state).snapshot() == (StateView {
            version: VERSION,
            active: match state.active {
                Some(name) if state.tabs.contains(name) => Some(name),
                _ => if state.tabs.len() > 0 {
                    Some(state.tabs[0])
                } else {
                    None
                },
            },
            tabs: state.tabs,
        }),
{
    let start = AppView::initial(app_title);
    crate::app::lemma_inserted_all(start, state.tabs);
    let app = start.restored(state);
    assert(slot_profiles(app.slots) =~= state.tabs) by {
        assert forall|i: int| 0 <= i < state.tabs.len() implies slot_profiles(app.slots)[i]
            == state.tabs[i] by {
            assert(app.slots[0 + i].profile == state.tabs[i]);
        }
    }
    let at = match state.active {
        Some(name) => last_place(state.tabs, name),
        None => -1,
    };
    if let Some(name) = state.active {
        lemma_last_place(state.tabs, name);
    }
    let chosen = if at >= 0 {
        at
    } else {
        0
    };
    if state.tabs.len() > 0 {
        assert(app.slots[0 + chosen].entity == app.active->0);
        assert forall|i: int| 0 <= i < chosen implies (#[trigger] app.slots[i]).entity
            != app.active->0 by {
            assert(app.slots[i].entity != app.slots[chosen].entity);
        }
        lemma_place_is(app.slots, app.active->0, chosen);
    }
}

proof fn lemma_last_place(names: Seq<Seq<char>>, name: Seq<char>)
    ensures
        -1 <= last_place(names, name) < names.len(),
        last_place(names, name) >= 0 <==> names.contains(name),
        last_place(names, name) >= 0 ==> names[last_place(names, name)] == name,
    decreases names.len(),
{
    if names.len() > 0 {
        lemma_last_place(names.drop_last(), name);
        if names.last() == name {
            assert(names[names.len() - 1] == name);
        } else {
            if names.contains(name) {
                let i = choose|i: int| 0 <= i < names.len() && names[i] == name;
                assert(names.drop_last()[i] == name);
            }
            if names.drop_last().contains(name) {
                let i = choose|i: int|
                    0 <= i < names.drop_last().len() && names.drop_last()[i] == name;
                assert(names[i] == name);
            }
        }
    }
}

/// Keeping the error of a connection changes neither the tabs nor which of
/// them is active.
proof fn lemma_failed_tab(app: AppView, entity: Entity, error: Seq<char>)
    ensures
        app.failed_tab(entity, error).snapshot() == app.snapshot(),
{
    let next = app.failed_tab(entity, error);
    lemma_place(app.slots, entity);
    assert(slot_profiles(next.slots) =~= slot_profiles(app.slots));
    if let Some(active) = app.active {
        lemma_place(app.slots, active);
        lemma_place_is(next.slots, active, place(app.slots, active));
    }
}

/// A state is written, and the title of the window set to that of the model
/// it was taken from.
spec fn announced(updated: Updated) -> bool {
    let (next, effects) = updated;
    &&& effects.contains(EffectView::Persist(next.snapshot()))
    &&& effects.contains(EffectView::SetTitle(next.title()))
}

proof fn lemma_activation_is_announced(app: AppView, entity: Entity)
    ensures
        app.activate_tab(entity).0.app_title == app.app_title,
        announced(app.activate_tab(entity)),
{
    let (next, effects) = app.activate_tab(entity);
    assert(effects[0] == EffectView::Persist(next.snapshot()));
    assert(effects[3] == EffectView::SetTitle(next.title()));
}

proof fn lemma_opening_is_announced(app: AppView, profile: Seq<char>)
    ensures
        app.open_message(profile).0.app_title == app.app_title,
        announced(app.open_message(profile)),
{
    let (next, effects) = app.open_message(profile);
    let named = if app.has_tab(profile) {
        effects.len() - 1
    } else {
        1
    };
    assert(effects[0] == EffectView::Persist(next.snapshot()));
    assert(effects[named] == EffectView::SetTitle(next.title()));
}

proof fn lemma_creation_is_announced(app: AppView, entry: ProfileEntryView)
    ensures
        app.created_message(entry).0.app_title == app.app_title,
        announced(app.created_message(entry)),
{
    let (next, effects) = app.created_message(entry);
    assert(effects[0] == EffectView::Persist(next.snapshot()));
    assert(effects[1] == EffectView::SetTitle(next.title()));
}

proof fn lemma_closing_is_announced(app: AppView, entity: Entity)
    requires
        app.wf(),
    ensures
        app.close_message(entity).0.app_title == app.app_title,
        announced(app.close_message(entity)),
{
    lemma_closed_parts(app, entity);
    let (next, effects) = app.close_message(entity);
    assert(effects[2] == EffectView::Persist(next.snapshot()));
    assert(effects[effects.len() - 1] == EffectView::SetTitle(next.title()));
}

/// A message that is about no one tab leaves the tabs as they are, and which of
/// them is active.
proof fn lemma_quiet_message(app: AppView, message: MessageView)
    requires
        !(message is ProfilesRefreshed),
        !(message is ActivateTab),
        !(message is OpenTab),
        !(message is CloseTab),
        !(message is PrevTab),
        !(message is NextTab),
        !(message matches MessageView::ProfileCreated(Ok(_))),
        !(message matches MessageView::PumpGtk(Some(_))),
        !(message matches MessageView::TabAcpReady(_, Some(_))),
    ensures
        app.updated(message).0.app_title == app.app_title,
        app.updated(message).0.snapshot() == app.snapshot(),
{
    let next = app.updated(message).0;
    assert(next.slots == app.slots);
    assert(next.active == app.active);
}

/// A message other than a list of profiles that changes the tabs, or which of
/// them is active, has the state written and the title set.
proof fn lemma_changes_are_announced(app: AppView, message: MessageView)
    requires
        app.wf(),
        !(message is ProfilesRefreshed),
    ensures
        app.updated(message).0.app_title == app.app_title,
        app.updated(message).0.snapshot() != app.snapshot() ==> announced(app.updated(message)),
{
    match message {
        MessageView::TabAcpReady(entity, Some(error)) => {
            lemma_failed_tab(app, entity, error);
        },
        MessageView::ActivateTab(entity) => {
            lemma_activation_is_announced(app, entity);
        },
        MessageView::PrevTab | MessageView::PumpGtk(Some(TabNavDir::Prev)) => {
            if let Some(entity) = app.adjacent(-1) {
                lemma_activation_is_announced(app, entity);
            }
        },
        MessageView::NextTab | MessageView::PumpGtk(Some(TabNavDir::Next)) => {
            if let Some(entity) = app.adjacent(1) {
                lemma_activation_is_announced(app, entity);
            }
        },
        MessageView::OpenTab(profile) => {
            lemma_opening_is_announced(app, profile);
        },
        MessageView::ProfileCreated(Ok(entry)) => {
            lemma_creation_is_announced(app, entry);
        },
        MessageView::CloseTab(entity) => {
            lemma_closing_is_announced(app, entity);
        },
        _ => {
            lemma_quiet_message(app, message);
        },
    }
}

proof fn lemma_closed_all_title(app: AppView, entities: Seq<Entity>)
    requires
        app.wf(),
    ensures
        app.closed_all(entities).app_title == app.app_title,
    decreases entities.len(),
{
    if entities.len() > 0 {
        lemma_closed_all_title(app, entities.drop_last());
        lemma_closed_all_wf(app, entities.drop_last());
        lemma_closed_parts(app.closed_all(entities.drop_last()), entities.last());
    }
}

/// Every change of the tabs, or of which of them is active, is written to
/// disk, except where a list of profiles takes tabs away.
pub proof fn law_tab_changes_are_saved(app: AppView, message: MessageView)
    requires
        app.wf(),
        message matches MessageView::ProfilesRefreshed(Some(profiles)) ==> (AppView {
            known_profiles: profiles,
            ..app
        }).stale().len() == 0,
    ensures
        ({
            let (next, effects) = app.updated(message);
            next.snapshot() != app.snapshot() ==> effects.contains(
                EffectView::Persist(next.snapshot()),
            )
        }),
{
    if !(message is ProfilesRefreshed) {
        lemma_changes_are_announced(app, message);
    }
}

/// The title of the window follows the active tab, except where a list of
/// profiles takes that tab away.
pub proof fn law_title_follows_active_tab(app: AppView, message: MessageView)
    requires
        app.wf(),
        message is ProfilesRefreshed ==> app.updated(message).0.active_profile()
            == app.active_profile(),
    ensures
        ({
            let (next, effects) = app.updated(message);
            next.title() != app.title() ==> effects.contains(EffectView::SetTitle(next.title()))
        }),
{
    if let MessageView::ProfilesRefreshed(profiles) = message {
        if let Some(profiles) = profiles {
            let seen = AppView { known_profiles: profiles, ..app };
            lemma_closed_all_title(seen, seen.stale());
        }
    } else {
        lemma_changes_are_announced(app, message);
    }
}

proof fn lemma_opened_profiles(app: AppView, profile: Seq<char>)
    requires
        slot_profiles(app.slots).no_duplicates(),
    ensures
        slot_profiles(app.opened(profile).slots).no_duplicates(),
{
    lemma_place_of_profile(app.slots, profile);
    let before = slot_profiles(app.slots);
    let after = slot_profiles(app.opened(profile).slots);
    if place_of_profile(app.slots, profile) == app.slots.len() {
        assert(after =~= before.push(profile));
        assert forall|i: int| 0 <= i < before.len() implies before[i] != profile by {
            assert(app.slots[i].profile != profile);
        }
    }
}

proof fn lemma_closed_profiles(app: AppView, entity: Entity)
    requires
        slot_profiles(app.slots).no_duplicates(),
    ensures
        slot_profiles(app.slots_without(entity)).no_duplicates(),
{
    lemma_place(app.slots, entity);
    let at = place(app.slots, entity);
    if at < app.slots.len() {
        assert(slot_profiles(app.slots_without(entity)) =~= slot_profiles(app.slots).remove(at));
    }
}

proof fn lemma_closed_all_profiles(app: AppView, entities: Seq<Entity>)
    requires
        app.wf(),
        slot_profiles(app.slots).no_duplicates(),
    ensures
        slot_profiles(app.closed_all(entities).slots).no_duplicates(),
    decreases entities.len(),
{
    if entities.len() > 0 {
        let part = app.closed_all(entities.drop_last());
        lemma_closed_all_profiles(app, entities.drop_last());
        lemma_closed_all_wf(app, entities.drop_last());
        lemma_closed_parts(part, entities.last());
        lemma_closed_profiles(part, entities.last());
    }
}

/// There is at most one tab per profile, whatever message comes.
pub proof fn law_one_tab_per_profile(app: AppView, message: MessageView)
    requires
        app.wf(),
        slot_profiles(app.slots).no_duplicates(),
    ensures
        slot_profiles(app.updated(message).0.slots).no_duplicates(),
{
    match message {
        MessageView::ProfilesRefreshed(Some(profiles)) => {
            let seen = AppView { known_profiles: profiles, ..app };
            lemma_closed_all_profiles(seen, seen.stale());
        },
        MessageView::ProfilesRefreshed(None) => {},
        MessageView::OpenTab(profile) => {
            lemma_opened_profiles(app, profile);
        },
        MessageView::ProfileCreated(Ok(entry)) => {
            lemma_opened_profiles(app, entry.name);
        },
        MessageView::CloseTab(entity) => {
            lemma_closed_parts(app, entity);
            lemma_closed_profiles(app, entity);
        },
        MessageView::TabAcpReady(entity, Some(error)) => {
            lemma_failed_tab(app, entity, error);
            assert(slot_profiles(app.updated(message).0.slots) == app.snapshot().tabs);
        },
        MessageView::ActivateTab(_) | MessageView::PrevTab | MessageView::NextTab
        | MessageView::PumpGtk(Some(_)) => {},
        _ => {
            lemma_quiet_message(app, message);
            assert(app.updated(message).0.snapshot().tabs == app.snapshot().tabs);
        },
    }
}

} // verus!
