//! The list of sessions that the sidebar shows.

use crate::acp::{listed_views, ListedSession, ListedSessionView};
use crate::text::opt_text;
use vstd::prelude::*;
use vstd::seq_lib::group_seq_properties;

verus! {

/// How many sessions are listed.
pub const LISTED_SESSIONS: usize = 5;

/// A session as the agent describes it.
#[derive(Debug)]
pub struct SessionSummary {
    pub session_id: String,
    pub title: Option<String>,
    /// ISO 8601 time of the last activity.
    pub updated_at: Option<String>,
}

/// The model of a [`SessionSummary`].
pub ghost struct SessionSummaryView {
    pub session_id: Seq<char>,
    pub title: Option<Seq<char>>,
    pub updated_at: Option<Seq<char>>,
}

impl View for SessionSummary {
    type V = SessionSummaryView;

    open spec fn view(&self) -> SessionSummaryView {
        SessionSummaryView {
            session_id: self.session_id@,
            title: opt_text(self.title),
            updated_at: opt_text(self.updated_at),
        }
    }
}

/// The models of a list of sessions.
pub open spec fn summary_views(list: Seq<SessionSummary>) -> Seq<SessionSummaryView> {
    list.map_values(|s: SessionSummary| s@)
}

impl SessionSummaryView {
    /// The session as it is listed: a session without a title is called
    /// `Session`.
    pub open spec fn listed(self) -> ListedSessionView {
        ListedSessionView {
            id: self.session_id,
            label: match self.title {
                Some(title) => if title.len() > 0 {
                    title
                } else {
                    "Session"@
                },
                None => "Session"@,
            },
            last_active: self.updated_at,
        }
    }
}

/// `a` comes before `b` in the order of their characters.
pub open spec fn text_before(a: Seq<char>, b: Seq<char>) -> bool
    decreases a.len(),
{
    if b.len() == 0 {
        false
    } else if a.len() == 0 {
        true
    } else if a[0] == b[0] {
        text_before(a.drop_first(), b.drop_first())
    } else {
        (a[0] as int) < (b[0] as int)
    }
}

/// The time `a` is before the time `b`. No time is before every time.
pub open spec fn time_before(a: Option<Seq<char>>, b: Option<Seq<char>>) -> bool {
    match (a, b) {
        (Some(a), Some(b)) => text_before(a, b),
        (None, Some(_)) => true,
        (_, None) => false,
    }
}

/// The list with a session put behind those that were active at the same time
/// or later.
pub open spec fn put_by_recency(
    list: Seq<ListedSessionView>,
    s: ListedSessionView,
) -> Seq<ListedSessionView>
    decreases list.len(),
{
    if list.len() == 0 {
        seq![s]
    } else if time_before(list[0].last_active, s.last_active) {
        seq![s] + list
    } else {
        seq![list[0]] + put_by_recency(list.drop_first(), s)
    }
}

/// The sessions with the most recently active one first. Those that were
/// active at the same time stay in their order.
pub open spec fn by_recency(list: Seq<ListedSessionView>) -> Seq<ListedSessionView>
    decreases list.len(),
{
    if list.len() == 0 {
        list
    } else {
        put_by_recency(by_recency(list.drop_last()), list.last())
    }
}

/// At most `n` items from the front of a list.
pub open spec fn at_most<T>(list: Seq<T>, n: nat) -> Seq<T> {
    if list.len() <= n {
        list
    } else {
        list.take(n as int)
    }
}

/// The sessions that are listed.
pub open spec fn top_listed(sessions: Seq<SessionSummaryView>) -> Seq<ListedSessionView> {
    at_most(
        by_recency(sessions.map_values(|s: SessionSummaryView| s.listed())),
        LISTED_SESSIONS as nat,
    )
}

/// Calls `<` of `str`, which goes by the characters' code points.
#[verifier::external_body]
fn text_less(a: &str, b: &str) -> (less: bool)
    ensures
        less == text_before(a@, b@),
{
    a < b
}

fn time_less(a: &Option<String>, b: &Option<String>) -> (less: bool)
    ensures
        less == time_before(opt_text(*a), opt_text(*b)),
{
    match (a, b) {
        (Some(a), Some(b)) => text_less(a.as_str(), b.as_str()),
        (None, Some(_)) => true,
        (_, None) => false,
    }
}

proof fn lemma_put_at(list: Seq<ListedSessionView>, s: ListedSessionView, at: int)
    requires
        0 <= at <= list.len(),
        forall|i: int|
            0 <= i < at ==> !time_before((#[trigger] list[i]).last_active, s.last_active),
        at < list.len() ==> time_before(list[at].last_active, s.last_active),
    ensures
        put_by_recency(list, s) == list.insert(at, s),
    decreases at,
{
    if at == 0 {
        if list.len() == 0 {
            assert(seq![s] =~= list.insert(0, s));
        } else {
            assert(seq![s] + list =~= list.insert(0, s));
        }
    } else {
        let rest = list.drop_first();
        assert forall|i: int| 0 <= i < at - 1 implies !time_before(
            (#[trigger] rest[i]).last_active,
            s.last_active,
        ) by {
            assert(rest[i] == list[i + 1]);
        }
        assert(!time_before(list[0].last_active, s.last_active));
        lemma_put_at(rest, s, at - 1);
        assert(seq![list[0]] + rest.insert(at - 1, s) =~= list.insert(at, s));
    }
}

/// Puts a session behind those that were active at the same time or later.
fn put(list: &mut Vec<ListedSession>, s: ListedSession)
    requires
        old(list).len() < usize::MAX,
    ensures
        listed_views(final(list)@) == put_by_recency(listed_views(old(list)@), s@),
        final(list).len() == old(list).len() + 1,
{
    let mut at: usize = 0;
    while at < list.len() && !time_less(&list[at].last_active, &s.last_active)
        invariant
            at <= list.len(),
            forall|i: int|
                0 <= i < at ==> !time_before(
                    (#[trigger] list@[i])@.last_active,
                    s@.last_active,
                ),
        decreases list.len() - at,
    {
        at += 1;
    }
    let ghost before = listed_views(list@);
    let ghost model = s@;
    proof {
        lemma_put_at(before, model, at as int);
    }
    list.insert(at, s);
    assert(listed_views(list@) =~= before.insert(at as int, model));
}

/// The sessions that are listed: the most recently active ones, with their
/// labels.
pub fn top_sessions(sessions: &Vec<SessionSummary>) -> (res: Vec<ListedSession>)
    ensures
        listed_views(res@) == top_listed(summary_views(sessions@)),
{
    let ghost all = summary_views(sessions@).map_values(|s: SessionSummaryView| s.listed());
    let mut list: Vec<ListedSession> = Vec::new();
    let mut i: usize = 0;
    assert(listed_views(list@) =~= by_recency(all.take(0)));
    while i < sessions.len()
        invariant
            i <= sessions.len(),
            list.len() == i,
            all == summary_views(sessions@).map_values(|s: SessionSummaryView| s.listed()),
            listed_views(list@) == by_recency(all.take(i as int)),
        decreases sessions.len() - i,
    {
        let s = &sessions[i];
        let label: String = match &s.title {
            Some(title) => if crate::text::str_eq(title.as_str(), "") {
                "Session".to_owned()
            } else {
                title.clone()
            },
            None => "Session".to_owned(),
        };
        let last_active: Option<String> = match &s.updated_at {
            Some(time) => Some(time.clone()),
            None => None,
        };
        let entry = ListedSession { id: s.session_id.clone(), label, last_active };
        proof {
            reveal_strlit("");
            if let Some(title) = &s.title {
                if title@.len() == 0 {
                    assert(title@ =~= ""@);
                }
            }
            assert(entry@ == s@.listed());
            assert(all[i as int] == s@.listed());
            assert(all.take(i + 1).drop_last() =~= all.take(i as int));
            assert(all.take(i + 1).last() == all[i as int]);
        }
        put(&mut list, entry);
        i += 1;
    }
    assert(all.take(i as int) =~= all);
    if list.len() > LISTED_SESSIONS {
        let ghost before = listed_views(list@);
        list.truncate(LISTED_SESSIONS);
        assert(listed_views(list@) =~= before.take(LISTED_SESSIONS as int));
    }
    list
}

/// Comparing texts: what is not before something, and that not before a third,
/// is not before the third.
proof fn lemma_text_order(a: Seq<char>, b: Seq<char>, c: Seq<char>)
    ensures
        !(text_before(a, b) && text_before(b, a)),
        !text_before(a, b) && !text_before(b, c) ==> !text_before(a, c),
    decreases a.len() + b.len() + c.len(),
{
    if a.len() > 0 && b.len() > 0 && c.len() > 0 {
        lemma_text_order(a.drop_first(), b.drop_first(), c.drop_first());
    } else if a.len() > 0 && b.len() > 0 {
        lemma_text_order(a.drop_first(), b.drop_first(), c);
    }
}

proof fn lemma_time_order(a: Option<Seq<char>>, b: Option<Seq<char>>, c: Option<Seq<char>>)
    ensures
        !(time_before(a, b) && time_before(b, a)),
        !time_before(a, b) && !time_before(b, c) ==> !time_before(a, c),
{
    if a is Some && b is Some && c is Some {
        lemma_text_order(a->0, b->0, c->0);
    } else if a is Some && b is Some {
        lemma_text_order(a->0, b->0, b->0);
    }
}

/// No session of the list was active after one that stands before it.
pub open spec fn newest_first(list: Seq<ListedSessionView>) -> bool {
    forall|i: int, j: int|
        0 <= i < j < list.len() ==> !time_before(
            (#[trigger] list[i]).last_active,
            (#[trigger] list[j]).last_active,
        )
}

proof fn lemma_put_sorted(list: Seq<ListedSessionView>, s: ListedSessionView)
    requires
        newest_first(list),
    ensures
        newest_first(put_by_recency(list, s)),
        put_by_recency(list, s).to_multiset() == list.to_multiset().insert(s),
    decreases list.len(),
{
    broadcast use group_seq_properties;

    let at = position_of(list, s);
    lemma_position(list, s);
    lemma_put_at(list, s, at);
    let res = list.insert(at, s);
    list.to_multiset_ensures();
    assert forall|i: int, j: int| 0 <= i < j < res.len() implies !time_before(
        (#[trigger] res[i]).last_active,
        (#[trigger] res[j]).last_active,
    ) by {
        if i == at {
            let later = list[j - 1];
            if at < list.len() {
                lemma_time_order(list[at].last_active, s.last_active, s.last_active);
                if at < j - 1 {
                    assert(!time_before(list[at].last_active, later.last_active));
                }
                lemma_time_order(s.last_active, list[at].last_active, later.last_active);
            }
        }
    }
}

/// Where a session is put.
spec fn position_of(list: Seq<ListedSessionView>, s: ListedSessionView) -> int
    decreases list.len(),
{
    if list.len() == 0 || time_before(list[0].last_active, s.last_active) {
        0
    } else {
        1 + position_of(list.drop_first(), s)
    }
}

proof fn lemma_position(list: Seq<ListedSessionView>, s: ListedSessionView)
    ensures
        ({
            let at = position_of(list, s);
            &&& 0 <= at <= list.len()
            &&& forall|i: int|
                0 <= i < at ==> !time_before((#[trigger] list[i]).last_active, s.last_active)
            &&& at < list.len() ==> time_before(list[at].last_active, s.last_active)
        }),
    decreases list.len(),
{
    if !(list.len() == 0 || time_before(list[0].last_active, s.last_active)) {
        let rest = list.drop_first();
        lemma_position(rest, s);
        assert forall|i: int| 0 <= i < position_of(list, s) implies !time_before(
            (#[trigger] list[i]).last_active,
            s.last_active,
        ) by {
            if i > 0 {
                assert(rest[i - 1] == list[i]);
            }
        }
    }
}

/// Ordering the sessions by recency puts the most recently active one first
/// and neither loses nor invents one.
pub proof fn law_by_recency_sorts(list: Seq<ListedSessionView>)
    ensures
        newest_first(by_recency(list)),
        by_recency(list).to_multiset() == list.to_multiset(),
        by_recency(list).len() == list.len(),
    decreases list.len(),
{
    broadcast use group_seq_properties;

    if list.len() > 0 {
        law_by_recency_sorts(list.drop_last());
        lemma_put_sorted(by_recency(list.drop_last()), list.last());
        let at = position_of(by_recency(list.drop_last()), list.last());
        lemma_position(by_recency(list.drop_last()), list.last());
        lemma_put_at(by_recency(list.drop_last()), list.last(), at);
        assert(list =~= list.drop_last().push(list.last()));
        list.drop_last().to_multiset_ensures();
    }
}

/// The sessions of a list that were last active at a given time.
pub open spec fn active_at(
    list: Seq<ListedSessionView>,
    time: Option<Seq<char>>,
) -> Seq<ListedSessionView> {
    list.filter(|s: ListedSessionView| s.last_active == time)
}

/// Sessions that were active at the same time keep their order.
pub proof fn law_by_recency_is_stable(list: Seq<ListedSessionView>, time: Option<Seq<char>>)
    ensures
        active_at(by_recency(list), time) == active_at(list, time),
    decreases list.len(),
{
    if list.len() > 0 {
        let rest = list.drop_last();
        let s = list.last();
        let done = by_recency(rest);
        let same = |x: ListedSessionView| x.last_active == time;
        law_by_recency_is_stable(rest, time);
        law_by_recency_sorts(rest);
        lemma_position(done, s);
        let at = position_of(done, s);
        lemma_put_at(done, s, at);
        let head = done.take(at);
        let tail = done.skip(at);
        assert(done =~= head + tail);
        assert(done.insert(at, s) =~= head.push(s) + tail);
        assert(list =~= rest.push(s));
        Seq::filter_distributes_over_add(head, tail, same);
        Seq::filter_distributes_over_add(head.push(s), tail, same);
        lemma_filter_push(head, s, time);
        lemma_filter_push(rest, s, time);
        if s.last_active == time {
            assert forall|i: int| 0 <= i < tail.len() implies (#[trigger] tail[i]).last_active
                != time by {
                if at < done.len() {
                    lemma_time_order(done[at].last_active, time, time);
                    if i > 0 {
                        assert(tail[i] == done[at + i]);
                        lemma_time_order(time, time, done[at].last_active);
                        lemma_time_order(done[at].last_active, tail[i].last_active, time);
                    }
                }
            }
            lemma_filter_none(tail, time);
            assert(active_at(list, time) =~= active_at(head, time).push(s));
        }
    }
}

proof fn lemma_filter_push(
    list: Seq<ListedSessionView>,
    s: ListedSessionView,
    time: Option<Seq<char>>,
)
    ensures
        active_at(list.push(s), time) == (if s.last_active == time {
            active_at(list, time).push(s)
        } else {
            active_at(list, time)
        }),
{
    reveal(Seq::filter);
    assert(list.push(s).drop_last() =~= list);
}

proof fn lemma_filter_none(list: Seq<ListedSessionView>, time: Option<Seq<char>>)
    requires
        forall|i: int| 0 <= i < list.len() ==> (#[trigger] list[i]).last_active != time,
    ensures
        active_at(list, time) == Seq::<ListedSessionView>::empty(),
    decreases list.len(),
{
    reveal(Seq::filter);
    if list.len() > 0 {
        assert(list.last().last_active != time);
        lemma_filter_none(list.drop_last(), time);
    }
}

/// The list holds at most as many sessions as are listed, newest first.
pub proof fn law_top_listed(sessions: Seq<SessionSummaryView>)
    ensures
        top_listed(sessions).len() <= LISTED_SESSIONS,
        sessions.len() <= LISTED_SESSIONS ==> top_listed(sessions).len() == sessions.len(),
        newest_first(top_listed(sessions)),
{
    law_by_recency_sorts(sessions.map_values(|s: SessionSummaryView| s.listed()));
}

} // verus!
