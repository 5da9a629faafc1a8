//! The pages of the tabs: what a page loads, and which of them is visible.
//!
//! Each open tab has a page of its own. A page is created hidden, and at most
//! one page is visible at a time.

use crate::app::Entity;
use crate::text::concat3;
use base64::engine::general_purpose::STANDARD;
use base64::Engine;
use vstd::prelude::*;
use vstd::utf8::encode_utf8;

pub mod bridge;

verus! {

/// The character for a six-bit value in the standard base64 alphabet.
pub open spec fn base64_char(n: int) -> char {
    (if n < 26 {
        'A' as int + n
    } else if n < 52 {
        'a' as int + (n - 26)
    } else if n < 62 {
        '0' as int + (n - 52)
    } else if n == 62 {
        '+' as int
    } else {
        '/' as int
    }) as char
}

/// The four characters for three bytes: six bits each, the highest first.
pub open spec fn base64_group(a: int, b: int, c: int) -> Seq<char> {
    seq![
        base64_char(a / 4),
        base64_char(a % 4 * 16 + b / 16),
        base64_char(b % 16 * 4 + c / 64),
        base64_char(c % 64),
    ]
}

/// The padded base64 text of some bytes.
pub open spec fn base64_text(bytes: Seq<u8>) -> Seq<char>
    decreases bytes.len(),
{
    if bytes.len() == 0 {
        Seq::empty()
    } else if bytes.len() == 1 {
        base64_group(bytes[0] as int, 0, 0).take(2) + seq!['=', '=']
    } else if bytes.len() == 2 {
        base64_group(bytes[0] as int, bytes[1] as int, 0).take(3) + seq!['=']
    } else {
        base64_group(bytes[0] as int, bytes[1] as int, bytes[2] as int) + base64_text(
            bytes.skip(3),
        )
    }
}

/// Calls `base64::Engine::encode` of `STANDARD`: the standard alphabet, with
/// padding.
#[verifier::external_body]
fn encode(bytes: &[u8]) -> (res: String)
    ensures
        res@ == base64_text(bytes@),
{
    STANDARD.encode(bytes)
}

/// What stands before the name of the profile in a page.
pub open spec fn page_head() -> Seq<char> {
    "<!DOCTYPE html>\n<html>\n<head><meta charset=\"utf-8\"><style>\nhtml, body { margin: 0; padding: 0; height: 100%;\nbackground: #f0f7ff; font-family: sans-serif; }\nh1 { margin: 0; padding: 8px 16px;\nbackground: #4a90d9; color: white; }\np  { color: #666; margin: 8px 16px; }\n</style></head>\n<body>\n<h1>goose: "@
}

/// What stands behind the name of the profile in a page.
pub open spec fn page_tail() -> Seq<char> {
    "</h1>\n<p>WebKitGTK webview — placeholder</p>\n</body>\n</html>"@
}

/// The page of a profile.
pub open spec fn page(profile: Seq<char>) -> Seq<char> {
    page_head() + profile + page_tail()
}

/// Build the `data:text/html;base64,…` URL that a tab's page is loaded from.
pub fn build_data_url(profile: &str) -> (res: String)
    ensures
        res@ == "data:text/html;base64,"@ + base64_text(encode_utf8(page(profile@))),
{
    let html: String = concat3(
        "<!DOCTYPE html>\n<html>\n<head><meta charset=\"utf-8\"><style>\nhtml, body { margin: 0; padding: 0; height: 100%;\nbackground: #f0f7ff; font-family: sans-serif; }\nh1 { margin: 0; padding: 8px 16px;\nbackground: #4a90d9; color: white; }\np  { color: #666; margin: 8px 16px; }\n</style></head>\n<body>\n<h1>goose: ",
        profile,
        "</h1>\n<p>WebKitGTK webview — placeholder</p>\n</body>\n</html>",
    );
    let encoded: String = encode(html.as_str().as_bytes());
    crate::text::concat("data:text/html;base64,", encoded.as_str())
}

/// A page of the store.
#[derive(Clone, Copy, Debug)]
pub struct Webview {
    pub entity: Entity,
    pub visible: bool,
}

/// The live pages, each with the tab it belongs to. Each tab has at most one.
#[derive(Debug)]
pub struct WebviewStore {
    views: Vec<Webview>,
}

/// No two pages belong to one tab.
spec fn distinct(views: Seq<Webview>) -> bool {
    forall|i: int, j: int|
        0 <= i < j < views.len() ==> (#[trigger] views[i]).entity != (
        #[trigger] views[j]).entity
}

/// The visibility of the pages by their tabs.
spec fn visibility(views: Seq<Webview>) -> Map<Entity, bool>
    decreases views.len(),
{
    if views.len() == 0 {
        Map::empty()
    } else {
        visibility(views.drop_last()).insert(views.last().entity, views.last().visible)
    }
}

proof fn lemma_visibility(views: Seq<Webview>, entity: Entity)
    ensures
        visibility(views).dom().contains(entity) <==> exists|i: int|
            0 <= i < views.len() && (#[trigger] views[i]).entity == entity,
        distinct(views) ==> forall|i: int|
            0 <= i < views.len() && (#[trigger] views[i]).entity == entity
                ==> visibility(views)[entity] == views[i].visible,
    decreases views.len(),
{
    if views.len() > 0 {
        let rest = views.drop_last();
        lemma_visibility(rest, entity);
        assert forall|i: int| 0 <= i < rest.len() implies rest[i] == views[i] by {}
        assert(views.last() == views[views.len() - 1]);
        if visibility(rest).dom().contains(entity) {
            let i = choose|i: int| 0 <= i < rest.len() && (#[trigger] rest[i]).entity == entity;
            assert(views[i].entity == entity);
        }
        if exists|i: int| 0 <= i < views.len() && (#[trigger] views[i]).entity == entity {
            let i = choose|i: int| 0 <= i < views.len() && (#[trigger] views[i]).entity == entity;
            if i < rest.len() {
                assert(rest[i].entity == entity);
            }
        }
    }
}

impl View for WebviewStore {
    type V = Map<Entity, bool>;

    closed spec fn view(&self) -> Map<Entity, bool> {
        visibility(self.views@)
    }
}

/// The pages after those of one tab alone were made visible.
pub open spec fn only(pages: Map<Entity, bool>, entity: Entity) -> Map<Entity, bool> {
    Map::new(|e: Entity| pages.dom().contains(e), |e: Entity| e == entity)
}

/// The pages after all were hidden.
pub open spec fn hidden(pages: Map<Entity, bool>) -> Map<Entity, bool> {
    Map::new(|e: Entity| pages.dom().contains(e), |e: Entity| false)
}

/// At most one page is visible.
pub open spec fn one_in_front(pages: Map<Entity, bool>) -> bool {
    forall|a: Entity, b: Entity|
        pages.dom().contains(a) && pages.dom().contains(b) && #[trigger] pages[a]
            && #[trigger] pages[b] ==> a == b
}

impl WebviewStore {
    #[verifier::type_invariant]
    spec fn wf(self) -> bool {
        distinct(self.views@)
    }

    /// A store without pages.
    pub fn new() -> (res: WebviewStore)
        ensures
            res@ == Map::<Entity, bool>::empty(),
    {
        WebviewStore { views: Vec::new() }
    }

    /// The place of a tab's page in the store.
    fn place(&self, entity: Entity) -> (res: Option<usize>)
        ensures
            match res {
                Some(i) => i < self.views.len() && self.views[i as int].entity == entity,
                None => forall|i: int|
                    0 <= i < self.views.len() ==> (#[trigger] self.views[i]).entity != entity,
            },
    {
        let mut i: usize = 0;
        while i < self.views.len()
            invariant
                i <= self.views.len(),
                forall|k: int| 0 <= k < i ==> (#[trigger] self.views[k]).entity != entity,
            decreases self.views.len() - i,
        {
            if self.views[i].entity == entity {
                return Some(i);
            }
            i = i + 1;
        }
        None
    }

    /// Whether a tab's page is visible, where it has one.
    pub fn visible(&self, entity: Entity) -> (res: Option<bool>)
        ensures
            match res {
                Some(visible) => self@.dom().contains(entity) && self@[entity] == visible,
                None => !self@.dom().contains(entity),
            },
    {
        proof {
            use_type_invariant(self);
            lemma_visibility(self.views@, entity);
        }
        match self.place(entity) {
            Some(i) => Some(self.views[i].visible),
            None => None,
        }
    }

    /// Takes over the page that was created for a tab, hidden at first. There
    /// is none where it could not be created.
    pub fn claim_pending(&mut self, entity: Entity, created: bool)
        ensures
            final(self)@ == (if created {
                old(self)@.insert(entity, false)
            } else {
                old(self)@
            }),
    {
        if !created {
            return;
        }
        self.destroy(entity);
        proof {
            use_type_invariant(&*self);
            lemma_visibility(self.views@, entity);
        }
        let mut views: Vec<Webview> = Vec::new();
        core::mem::swap(&mut views, &mut self.views);
        let ghost before = views@;
        views.push(Webview { entity, visible: false });
        assert(views@.drop_last() =~= before);
        assert(distinct(views@)) by {
            assert forall|i: int, j: int| 0 <= i < j < views@.len() implies (
            #[trigger] views@[i]).entity != (#[trigger] views@[j]).entity by {
                if j == before.len() {
                    if views@[i].entity == entity {
                        assert(before[i].entity == entity);
                    }
                } else {
                    assert(before[i].entity != before[j].entity);
                }
            }
        }
        self.views = views;
        assert(self@ =~= old(self)@.insert(entity, false));
    }

    /// Drops the page of a tab.
    pub fn destroy(&mut self, entity: Entity)
        ensures
            final(self)@ == old(self)@.remove(entity),
    {
        proof {
            use_type_invariant(&*self);
            lemma_visibility(self.views@, entity);
        }
        match self.place(entity) {
            Some(at) => {
                let mut views: Vec<Webview> = Vec::new();
                core::mem::swap(&mut views, &mut self.views);
                let ghost before = views@;
                views.remove(at);
                proof {
                    assert(distinct(views@)) by {
                        assert forall|i: int, j: int| 0 <= i < j < views@.len() implies (
                        #[trigger] views@[i]).entity != (#[trigger] views@[j]).entity by {
                            let p = if i < at {
                                i
                            } else {
                                i + 1
                            };
                            let q = if j < at {
                                j
                            } else {
                                j + 1
                            };
                            assert(before[p].entity != before[q].entity);
                        }
                    }
                    lemma_removed(before, at as int);
                }
                self.views = views;
            },
            None => {
                assert(self@.remove(entity) =~= self@);
            },
        }
    }

    /// Makes a page visible where its tab is chosen, and hides it elsewhere.
    fn choose_visible(&mut self, entity: Option<Entity>)
        ensures
            final(self)@ == Map::new(
                |e: Entity| old(self)@.dom().contains(e),
                |e: Entity| Some(e) == entity,
            ),
    {
        proof {
            use_type_invariant(&*self);
        }
        let mut views: Vec<Webview> = Vec::new();
        core::mem::swap(&mut views, &mut self.views);
        let ghost before = views@;
        let mut i: usize = 0;
        while i < views.len()
            invariant
                i <= views.len(),
                views.len() == before.len(),
                forall|k: int|
                    0 <= k < views.len() ==> (#[trigger] views[k]).entity == before[k].entity,
                forall|k: int|
                    0 <= k < i ==> (#[trigger] views[k]).visible == (Some(before[k].entity)
                        == entity),
            decreases views.len() - i,
        {
            let e: Entity = views[i].entity;
            let visible: bool = match entity {
                Some(entity) => e == entity,
                None => false,
            };
            views.set(i, Webview { entity: e, visible });
            i = i + 1;
        }
        proof {
            assert(distinct(views@)) by {
                assert forall|i: int, j: int| 0 <= i < j < views@.len() implies (
                #[trigger] views@[i]).entity != (#[trigger] views@[j]).entity by {
                    assert(before[i].entity != before[j].entity);
                }
            }
            assert forall|e: Entity|
                #[trigger] visibility(views@).dom().contains(e) == visibility(
                    before,
                ).dom().contains(e) && (visibility(views@).dom().contains(e) ==> visibility(
                    views@,
                )[e] == (Some(e) == entity)) by {
                lemma_visibility(views@, e);
                lemma_visibility(before, e);
                if visibility(views@).dom().contains(e) {
                    let k = choose|k: int|
                        0 <= k < views@.len() && (#[trigger] views@[k]).entity == e;
                    assert(before[k].entity == e);
                }
                if visibility(before).dom().contains(e) {
                    let k = choose|k: int|
                        0 <= k < before.len() && (#[trigger] before[k]).entity == e;
                    assert(views@[k].entity == e);
                }
            }
        }
        self.views = views;
        assert(self@ =~= Map::new(
            |e: Entity| old(self)@.dom().contains(e),
            |e: Entity| Some(e) == entity,
        ));
    }

    /// Show only the page of a tab; hide every other.
    pub fn show_only(&mut self, entity: Entity)
        ensures
            final(self)@ == only(old(self)@, entity),
    {
        self.choose_visible(Some(entity));
        assert(self@ =~= only(old(self)@, entity));
    }

    /// Hide all pages.
    pub fn hide_all(&mut self)
        ensures
            final(self)@ == hidden(old(self)@),
    {
        self.choose_visible(None);
        assert(self@ =~= hidden(old(self)@));
    }
}

proof fn lemma_removed(views: Seq<Webview>, at: int)
    requires
        0 <= at < views.len(),
        distinct(views),
    ensures
        visibility(views.remove(at)) == visibility(views).remove(views[at].entity),
    decreases views.len(),
{
    let rest = views.drop_last();
    let last = views.last();
    let gone = views[at].entity;
    if at == views.len() - 1 {
        assert(views.remove(at) =~= rest);
        lemma_visibility(rest, gone);
        if visibility(rest).dom().contains(gone) {
            let i = choose|i: int| 0 <= i < rest.len() && (#[trigger] rest[i]).entity == gone;
            assert(views[i].entity == gone);
        }
        assert(visibility(rest) =~= visibility(views).remove(gone));
    } else {
        assert(distinct(rest)) by {
            assert forall|i: int, j: int| 0 <= i < j < rest.len() implies (
            #[trigger] rest[i]).entity != (#[trigger] rest[j]).entity by {
                assert(views[i].entity != views[j].entity);
            }
        }
        lemma_removed(rest, at);
        assert(rest[at] == views[at]);
        assert(views.remove(at).drop_last() =~= rest.remove(at));
        assert(views.remove(at).last() == last);
        assert(last == views[views.len() - 1]);
        assert(last.entity != gone);
        assert(visibility(views.remove(at)) =~= visibility(views).remove(gone));
    }
}

/// Showing the page of one tab leaves at most that page visible, and hiding all
/// leaves none.
pub proof fn law_at_most_one_page_is_visible(pages: Map<Entity, bool>, entity: Entity)
    ensures
        one_in_front(only(pages, entity)),
        pages.dom().contains(entity) ==> only(pages, entity)[entity],
        one_in_front(hidden(pages)),
        forall|e: Entity| pages.dom().contains(e) ==> !(#[trigger] hidden(pages)[e]),
{
}

/// Pages that come and go never bring a second page to the front.
pub proof fn law_new_pages_stay_hidden(pages: Map<Entity, bool>, entity: Entity)
    requires
        one_in_front(pages),
    ensures
        one_in_front(pages.insert(entity, false)),
        one_in_front(pages.remove(entity)),
{
    let claimed = pages.insert(entity, false);
    assert forall|a: Entity, b: Entity|
        claimed.dom().contains(a) && claimed.dom().contains(b) && #[trigger] claimed[a]
            && #[trigger] claimed[b] implies a == b by {
        assert(pages[a] && pages[b]);
    }
    let dropped = pages.remove(entity);
    assert forall|a: Entity, b: Entity|
        dropped.dom().contains(a) && dropped.dom().contains(b) && #[trigger] dropped[a]
            && #[trigger] dropped[b] implies a == b by {
        assert(pages[a] && pages[b]);
    }
}

/// Showing a page hides every other and forgets none, and so does hiding all.
pub proof fn law_no_page_is_lost(pages: Map<Entity, bool>, entity: Entity, other: Entity)
    ensures
        only(pages, entity).dom().contains(other) == pages.dom().contains(other),
        hidden(pages).dom().contains(other) == pages.dom().contains(other),
        pages.dom().contains(other) && other != entity ==> !only(pages, entity)[other],
        pages.dom().contains(entity) ==> only(pages, entity)[entity],
        pages.dom().contains(other) ==> !hidden(pages)[other],
{
}

/// The page of a profile names it, between what is the same for all profiles.
pub proof fn law_page_names_its_profile(profile: Seq<char>, other: Seq<char>)
    ensures
        page(profile).len() == profile.len() + page(other).len() - other.len(),
        page(profile).subrange(
            page_head().len() as int,
            (page_head().len() + profile.len()) as int,
        ) == profile,
        page(profile) == page(other) ==> profile == other,
{
    assert(page(profile).subrange(page_head().len() as int, (page_head().len() + profile.len()) as int)
        =~= profile);
    if page(profile) == page(other) {
        assert(page(other).subrange(page_head().len() as int, (page_head().len() + other.len()) as int)
            =~= other);
    }
}

} // verus!
