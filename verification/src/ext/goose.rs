//! The extension handler for goose: it finds the HTML panels of completed tool
//! calls, and keeps those that were fetched.
//!
//! The name of the extension that a panel is read from comes from
//! `_meta.goose.toolCall.extensionName` where that is present. Replayed history
//! carries no such block, so the host of the panel's URI stands in for it.

use crate::acp::resource::{
    extract_html_from_read_resource_response, read_params, read_request, response_html,
};
use crate::acp::{fetch_views, PendingFetch, PendingFetchView};
use crate::ext::{ext_event_views, ExtEvent, ExtEventView, ExtHandler, ExtRequest};
use crate::json::Json;
use crate::text::{
    contains_text, cut, lemma_cut, lemma_no_cut, occurs_at, opt_text, split_once, str_eq,
};
use crate::tool_call::{ToolCall, ToolCallStatus, ToolCallView};
use vstd::prelude::*;

verus! {

/// The host of a URI `scheme://host/path`, where there is one that is not
/// empty.
pub open spec fn uri_host(uri: Seq<char>) -> Option<Seq<char>> {
    match cut(uri, "://"@) {
        Some((_, rest)) => {
            let host = match cut(rest, "/"@) {
                Some((host, _)) => host,
                None => rest,
            };
            if host.len() == 0 {
                None
            } else {
                Some(host)
            }
        },
        None => None,
    }
}

/// Extract the extension name from the host component of a panel URI.
pub fn extension_name_from_uri(uri: &str) -> (res: Option<String>)
    ensures
        opt_text(res) == uri_host(uri@),
{
    match split_once(uri, "://") {
        Some((_, after_scheme)) => {
            let host: &str = match split_once(after_scheme, "/") {
                Some((host, _)) => host,
                None => after_scheme,
            };
            proof {
                reveal_strlit("");
                assert(host@.len() == 0 ==> host@ =~= ""@);
            }
            if str_eq(host, "") {
                None
            } else {
                Some(host.to_owned())
            }
        },
        None => None,
    }
}

/// A text in which `://` does not occur is cut off in front of the first one.
proof fn lemma_scheme(scheme: Seq<char>, rest: Seq<char>)
    requires
        !contains_text(scheme, "://"@),
    ensures
        cut(scheme + "://"@ + rest, "://"@) == Some((scheme, rest)),
{
    reveal_strlit("://");
    let mark = "://"@;
    let whole = scheme + mark + rest;
    assert forall|at: int| 0 <= at < scheme.len() implies !occurs_at(whole, mark, at) by {
        if occurs_at(whole, mark, at) {
            let found = whole.subrange(at, at + 3);
            assert(found[0] == whole[at] && found[1] == whole[at + 1] && found[2] == whole[at + 2]);
            if at + 3 <= scheme.len() {
                assert(scheme.subrange(at, at + 3) =~= found);
                assert(occurs_at(scheme, mark, at));
            } else {
                assert(whole[scheme.len() as int] == ':');
            }
        }
    }
    lemma_cut(scheme, mark, rest);
}

/// A text without a slash is cut off in front of the first one.
proof fn lemma_first_slash(host: Seq<char>, path: Seq<char>)
    requires
        !host.contains('/'),
    ensures
        cut(host + "/"@ + path, "/"@) == Some((host, path)),
        cut(host, "/"@) is None,
{
    reveal_strlit("/");
    let whole = host + "/"@ + path;
    assert forall|at: int| 0 <= at < host.len() implies !occurs_at(whole, "/"@, at) by {
        if occurs_at(whole, "/"@, at) {
            assert(whole.subrange(at, at + 1)[0] == host[at]);
        }
    }
    lemma_cut(host, "/"@, path);
    if contains_text(host, "/"@) {
        let at = choose|at: int| occurs_at(host, "/"@, at);
        assert(host.subrange(at, at + 1)[0] == host[at]);
    }
    lemma_no_cut(host, "/"@);
}

/// The host of a URI is what stands between its scheme and its path.
pub proof fn law_host_between_scheme_and_path(
    scheme: Seq<char>,
    host: Seq<char>,
    path: Seq<char>,
)
    requires
        !contains_text(scheme, "://"@),
        !host.contains('/'),
    ensures
        uri_host(scheme + "://"@ + (host + "/"@ + path)) == (if host.len() == 0 {
            None
        } else {
            Some(host)
        }),
        uri_host(scheme + "://"@ + host) == (if host.len() == 0 {
            None
        } else {
            Some(host)
        }),
        uri_host(scheme) is None,
{
    lemma_scheme(scheme, host + "/"@ + path);
    lemma_scheme(scheme, host);
    lemma_first_slash(host, path);
    lemma_no_cut(scheme, "://"@);
}

/// The resource that a tool call asks for.
pub open spec fn panel_request(call: ToolCallView) -> Option<ExtEventView> {
    match call.resource_uri() {
        Some(uri) => {
            let name = match call.extension_name() {
                Some(name) => Some(name),
                None => uri_host(uri),
            };
            match name {
                Some(extension_name) => if call.status == ToolCallStatus::Completed {
                    Some(
                        ExtEventView::ReadResource {
                            tool_call_id: call.tool_call_id,
                            uri,
                            extension_name,
                        },
                    )
                } else {
                    None
                },
                None => None,
            }
        },
        None => None,
    }
}

/// Extension handler for goose.
#[derive(Debug)]
pub struct GooseExtHandler;

impl ExtHandler for GooseExtHandler {
    fn on_tool_call_completed(&self, tc: &ToolCall) -> (events: Vec<ExtEvent>)
        ensures
            ext_event_views(events@) == (match panel_request(tc@) {
                Some(request) => seq![request],
                None => Seq::empty(),
            }),
    {
        let mut events: Vec<ExtEvent> = Vec::new();
        assert(ext_event_views(events@) =~= Seq::empty());
        if tc.status != ToolCallStatus::Completed {
            return events;
        }
        let uri: String = match tc.resource_uri() {
            Some(uri) => uri,
            None => {
                return events;
            },
        };
        let extension_name: Option<String> = match tc.extension_name() {
            Some(name) => Some(name),
            None => extension_name_from_uri(uri.as_str()),
        };
        match extension_name {
            Some(extension_name) => {
                let request = ExtEvent::Request(
                    ExtRequest::ReadResource {
                        tool_call_id: tc.tool_call_id.clone(),
                        uri,
                        extension_name,
                    },
                );
                let ghost model = request@;
                events.push(request);
                assert(ext_event_views(events@) =~= seq![model]);
                events
            },
            None => events,
        }
    }
}

/// A panel that was fetched.
#[derive(Debug)]
struct CachedPanel {
    session_id: String,
    uri: String,
    html: String,
}

/// The panels that were fetched, by session and URI.
#[derive(Debug)]
pub struct ResourceCache {
    panels: Vec<CachedPanel>,
}

/// What a panel is kept under.
pub type PanelKey = (Seq<char>, Seq<char>);

impl View for ResourceCache {
    type V = Map<PanelKey, Seq<char>>;

    closed spec fn view(&self) -> Map<PanelKey, Seq<char>> {
        Map::new(
            |key: PanelKey| exists|i: int| self.holds(key, i),
            |key: PanelKey| self.panels[choose|i: int| self.holds(key, i)].html@,
        )
    }
}

impl ResourceCache {
    spec fn holds(self, key: PanelKey, i: int) -> bool {
        0 <= i < self.panels.len() && self.panels[i].session_id@ == key.0 && self.panels[i].uri@
            == key.1
    }

    /// No two panels are kept under the same session and URI.
    #[verifier::type_invariant]
    spec fn distinct(self) -> bool {
        forall|key: PanelKey, i: int, j: int|
            #![trigger self.holds(key, i), self.holds(key, j)]
            self.holds(key, i) && self.holds(key, j) ==> i == j
    }

    proof fn lemma_lookup(self, key: PanelKey, i: int)
        requires
            self.distinct(),
            self.holds(key, i),
        ensures
            self@.contains_key(key),
            self@[key] == self.panels[i].html@,
    {
        let k = choose|k: int| self.holds(key, k);
        assert(self.holds(key, k));
    }

    /// The position of a panel, or the number of panels.
    fn position(&self, session_id: &str, uri: &str) -> (at: usize)
        ensures
            at <= self.panels.len(),
            at < self.panels.len() ==> self.holds((session_id@, uri@), at as int),
            at == self.panels.len() ==> forall|i: int| !self.holds((session_id@, uri@), i),
    {
        let mut at: usize = 0;
        while at < self.panels.len()
            invariant
                at <= self.panels.len(),
                forall|i: int| 0 <= i < at ==> !self.holds((session_id@, uri@), i),
            decreases self.panels.len() - at,
        {
            if str_eq(self.panels[at].session_id.as_str(), session_id) && str_eq(
                self.panels[at].uri.as_str(),
                uri,
            ) {
                return at;
            }
            at += 1;
        }
        at
    }

    /// The panel of a session and URI.
    pub fn get(&self, session_id: &str, uri: &str) -> (res: Option<&String>)
        ensures
            match res {
                Some(html) => self@.contains_key((session_id@, uri@)) && html@ == self@[(
                    session_id@,
                    uri@,
                )],
                None => !self@.contains_key((session_id@, uri@)),
            },
    {
        proof {
            use_type_invariant(self);
        }
        let at: usize = self.position(session_id, uri);
        if at < self.panels.len() {
            proof {
                self.lemma_lookup((session_id@, uri@), at as int);
            }
            Some(&self.panels[at].html)
        } else {
            None
        }
    }

    /// Keeps a panel, in place of an earlier one of that session and URI.
    pub fn insert(&mut self, session_id: &str, uri: &str, html: &str)
        ensures
            final(self)@ == old(self)@.insert((session_id@, uri@), html@),
    {
        proof {
            use_type_invariant(&*self);
        }
        let ghost before = *self;
        let ghost key = (session_id@, uri@);
        let at: usize = self.position(session_id, uri);
        let mut panels: Vec<CachedPanel> = Vec::new();
        core::mem::swap(&mut panels, &mut self.panels);
        let panel = CachedPanel {
            session_id: session_id.to_owned(),
            uri: uri.to_owned(),
            html: html.to_owned(),
        };
        if at < panels.len() {
            panels.set(at, panel);
        } else {
            panels.push(panel);
        }
        proof {
            let now = ResourceCache { panels };
            assert forall|k: PanelKey, i: int| i != at implies now.holds(k, i) == before.holds(
                k,
                i,
            ) by {}
            assert(forall|k: PanelKey| now.holds(k, at as int) <==> k == key);
            assert forall|k: PanelKey, i: int, j: int|
                #![trigger now.holds(k, i), now.holds(k, j)]
                now.holds(k, i) && now.holds(k, j) implies i == j by {
                if i != at {
                    assert(before.holds(k, i));
                }
                if j != at {
                    assert(before.holds(k, j));
                }
            }
        }
        *self = ResourceCache { panels };
        proof {
            let want = before@.insert(key, html@);
            assert forall|k: PanelKey| self@.contains_key(k) == want.contains_key(k) by {
                if self@.contains_key(k) && k != key {
                    let i = choose|i: int| self.holds(k, i);
                    assert(before.holds(k, i));
                }
                if want.contains_key(k) {
                    if k == key {
                        assert(self.holds(k, at as int));
                    } else {
                        let i = choose|i: int| before.holds(k, i);
                        assert(self.holds(k, i));
                    }
                }
            }
            assert forall|k: PanelKey| self@.contains_key(k) implies self@[k] == want[k] by {
                if k == key {
                    assert(self.holds(k, at as int));
                    self.lemma_lookup(k, at as int);
                } else {
                    let i = choose|i: int| self.holds(k, i);
                    self.lemma_lookup(k, i);
                    before.lemma_lookup(k, i);
                }
            }
            assert(self@ =~= want);
        }
    }
}

/// Build an empty [`ResourceCache`].
pub fn new_resource_cache() -> (res: ResourceCache)
    ensures
        res@ == Map::<PanelKey, Seq<char>>::empty(),
{
    let res = ResourceCache { panels: Vec::new() };
    assert(res@ =~= Map::empty());
    res
}

/// The panels of those fetches that were fetched before, as events.
pub open spec fn cached_events(
    fetches: Seq<PendingFetchView>,
    cache: Map<PanelKey, Seq<char>>,
    session_id: Seq<char>,
) -> Seq<ExtEventView> {
    fetches.filter(|f: PendingFetchView| cache.contains_key((session_id, f.uri))).map_values(
        |f: PendingFetchView|
            ExtEventView::ToolResource {
                tool_call_id: f.tool_call_id,
                html: cache[(session_id, f.uri)],
            },
    )
}

/// The fetches that were not fetched before.
pub open spec fn uncached(
    fetches: Seq<PendingFetchView>,
    cache: Map<PanelKey, Seq<char>>,
    session_id: Seq<char>,
) -> Seq<PendingFetchView> {
    fetches.filter(|f: PendingFetchView| !cache.contains_key((session_id, f.uri)))
}

/// Serves the fetches that were fetched before out of the cache, and returns
/// the events for them and the fetches that still need a request.
pub fn pluck_cached(
    fetches: Vec<PendingFetch>,
    cache: &ResourceCache,
    session_id: &str,
) -> (res: (Vec<ExtEvent>, Vec<PendingFetch>))
    ensures
        ext_event_views(res.0@) == cached_events(fetch_views(fetches@), cache@, session_id@),
        fetch_views(res.1@) == uncached(fetch_views(fetches@), cache@, session_id@),
{
    let ghost all = fetch_views(fetches@);
    let ghost hit = |f: PendingFetchView| cache@.contains_key((session_id@, f.uri));
    let ghost miss = |f: PendingFetchView| !cache@.contains_key((session_id@, f.uri));
    let ghost panel = |f: PendingFetchView|
        ExtEventView::ToolResource {
            tool_call_id: f.tool_call_id,
            html: cache@[(session_id@, f.uri)],
        };
    let mut events: Vec<ExtEvent> = Vec::new();
    let mut remaining: Vec<PendingFetch> = Vec::new();
    let mut i: usize = 0;
    proof {
        reveal(Seq::filter);
        assert(all.take(0).filter(hit).map_values(panel) =~= Seq::empty());
        assert(ext_event_views(events@) =~= Seq::empty());
        assert(fetch_views(remaining@) =~= Seq::empty());
    }
    while i < fetches.len()
        invariant
            i <= fetches.len(),
            all == fetch_views(fetches@),
            hit == (|f: PendingFetchView| cache@.contains_key((session_id@, f.uri))),
            miss == (|f: PendingFetchView| !cache@.contains_key((session_id@, f.uri))),
            panel == (|f: PendingFetchView|
                ExtEventView::ToolResource {
                    tool_call_id: f.tool_call_id,
                    html: cache@[(session_id@, f.uri)],
                }),
            ext_event_views(events@) == all.take(i as int).filter(hit).map_values(panel),
            fetch_views(remaining@) == all.take(i as int).filter(miss),
        decreases fetches.len() - i,
    {
        let fetch = &fetches[i];
        let ghost f = all[i as int];
        let ghost seen = all.take(i as int);
        proof {
            assert(f == fetch@);
            assert(all.take(i + 1) =~= seen.push(f));
            lemma_filter_push(seen, f, hit);
            lemma_filter_push(seen, f, miss);
        }
        match cache.get(session_id, fetch.uri.as_str()) {
            Some(html) => {
                let ghost before = ext_event_views(events@);
                events.push(
                    ExtEvent::ToolResource {
                        tool_call_id: fetch.tool_call_id.clone(),
                        html: html.clone(),
                    },
                );
                assert(hit(f) && !miss(f));
                assert(ext_event_views(events@) =~= before.push(panel(f)));
                assert(seen.filter(hit).push(f).map_values(panel) =~= before.push(panel(f)));
            },
            None => {
                remaining.push(
                    PendingFetch {
                        tool_call_id: fetch.tool_call_id.clone(),
                        uri: fetch.uri.clone(),
                        extension_name: fetch.extension_name.clone(),
                    },
                );
                assert(!hit(f) && miss(f));
                assert(fetch_views(remaining@) =~= all.take(i + 1).filter(miss));
            },
        }
        i += 1;
    }
    assert(all.take(i as int) =~= all);
    (events, remaining)
}

proof fn lemma_filter_push(
    list: Seq<PendingFetchView>,
    f: PendingFetchView,
    keep: spec_fn(PendingFetchView) -> bool,
)
    ensures
        list.push(f).filter(keep) == (if keep(f) {
            list.filter(keep).push(f)
        } else {
            list.filter(keep)
        }),
{
    reveal(Seq::filter);
    assert(list.push(f).drop_last() =~= list);
}

/// The next resource to be read, with the parameters of the read.
pub fn next_fetch(fetches: &mut Vec<PendingFetch>, session_id: &str) -> (res: Option<
    (PendingFetch, Json),
>)
    ensures
        ({
            let queue = fetch_views(old(fetches)@);
            match res {
                Some((fetch, params)) => {
                    &&& queue.len() > 0
                    &&& fetch@ == queue[0]
                    &&& params@ == read_request(session_id@, fetch@.uri, fetch@.extension_name)
                    &&& fetch_views(final(fetches)@) == queue.drop_first()
                },
                None => queue.len() == 0 && fetch_views(final(fetches)@) == queue,
            }
        }),
{
    if fetches.len() == 0 {
        return None;
    }
    let ghost queue = fetch_views(fetches@);
    let fetch: PendingFetch = fetches.remove(0);
    assert(fetch_views(fetches@) =~= queue.drop_first());
    let params: Json = read_params(session_id, fetch.uri.as_str(), fetch.extension_name.as_str());
    Some((fetch, params))
}

/// Takes the answer to a read: HTML is kept for the session and URI and goes
/// to the tab, anything else is dropped.
pub fn on_read_response(
    fetch: &PendingFetch,
    response: &Json,
    session_id: &str,
    cache: &mut ResourceCache,
) -> (event: Option<ExtEvent>)
    ensures
        match response_html(response@) {
            Some(html) => {
                &&& event matches Some(event) && event@ == (ExtEventView::ToolResource {
                    tool_call_id: fetch@.tool_call_id,
                    html,
                })
                &&& final(cache)@ == old(cache)@.insert((session_id@, fetch@.uri), html)
            },
            None => event is None && final(cache)@ == old(cache)@,
        },
{
    match extract_html_from_read_resource_response(response) {
        Some(html) => {
            cache.insert(session_id, fetch.uri.as_str(), html.as_str());
            Some(ExtEvent::ToolResource { tool_call_id: fetch.tool_call_id.clone(), html })
        },
        None => None,
    }
}

/// A panel that was fetched is served out of the cache from then on: the same
/// session and URI need no further request, and the same HTML goes out.
pub proof fn law_fetched_once(
    fetch: PendingFetchView,
    html: Seq<char>,
    session_id: Seq<char>,
    cache: Map<PanelKey, Seq<char>>,
)
    ensures
        ({
            let after = cache.insert((session_id, fetch.uri), html);
            &&& uncached(seq![fetch], after, session_id).len() == 0
            &&& cached_events(seq![fetch], after, session_id) == seq![
                ExtEventView::ToolResource { tool_call_id: fetch.tool_call_id, html },
            ]
        }),
{
    let after = cache.insert((session_id, fetch.uri), html);
    let hit = |f: PendingFetchView| after.contains_key((session_id, f.uri));
    let miss = |f: PendingFetchView| !after.contains_key((session_id, f.uri));
    let none = Seq::<PendingFetchView>::empty();
    reveal(Seq::filter);
    assert(seq![fetch] =~= none.push(fetch));
    lemma_filter_push(none, fetch, hit);
    lemma_filter_push(none, fetch, miss);
    assert(cached_events(seq![fetch], after, session_id) =~= seq![
        ExtEventView::ToolResource { tool_call_id: fetch.tool_call_id, html },
    ]);
}

/// A panel kept for one session is not served to another.
pub proof fn law_sessions_are_apart(
    fetch: PendingFetchView,
    html: Seq<char>,
    session_id: Seq<char>,
    other: Seq<char>,
    cache: Map<PanelKey, Seq<char>>,
)
    requires
        session_id != other,
        !cache.contains_key((other, fetch.uri)),
    ensures
        uncached(seq![fetch], cache.insert((session_id, fetch.uri), html), other) == seq![fetch],
{
    let after = cache.insert((session_id, fetch.uri), html);
    let miss = |f: PendingFetchView| !after.contains_key((other, f.uri));
    let none = Seq::<PendingFetchView>::empty();
    reveal(Seq::filter);
    assert(seq![fetch] =~= none.push(fetch));
    lemma_filter_push(none, fetch, miss);
    assert(none.push(fetch) =~= seq![fetch]);
}

/// A panel is asked for exactly where a call has completed, its output names a
/// resource, and the extension is known: by its name in the metadata, or else by
/// the host of the resource. The request is for that call and that resource.
pub proof fn law_completed_call_asks_for_its_panel(
    call: ToolCallView,
    uri: Seq<char>,
    name: Seq<char>,
)
    ensures
        call.status != ToolCallStatus::Completed ==> panel_request(call) is None,
        call.resource_uri() is None ==> panel_request(call) is None,
        call.status == ToolCallStatus::Completed && call.resource_uri() == Some(uri)
            && call.extension_name() == Some(name) ==> panel_request(call) == Some(
            ExtEventView::ReadResource {
                tool_call_id: call.tool_call_id,
                uri,
                extension_name: name,
            },
        ),
        call.status == ToolCallStatus::Completed && call.resource_uri() == Some(uri)
            && call.extension_name() is None && uri_host(uri) == Some(name) ==> panel_request(call)
            == Some(
            ExtEventView::ReadResource {
                tool_call_id: call.tool_call_id,
                uri,
                extension_name: name,
            },
        ),
        call.resource_uri() == Some(uri) && call.extension_name() is None && uri_host(uri) is None
            ==> panel_request(call) is None,
{
}

/// Each fetch of a queue is either served out of the cache or asked for, and
/// keeps its place among those that fare likewise: a further fetch adds its
/// panel behind the others where it was fetched before, for its own call, and
/// itself behind the others where it was not.
pub proof fn law_each_fetch_is_served_or_asked_for(
    fetches: Seq<PendingFetchView>,
    fetch: PendingFetchView,
    cache: Map<PanelKey, Seq<char>>,
    session_id: Seq<char>,
)
    ensures
        cached_events(Seq::empty(), cache, session_id).len() == 0,
        uncached(Seq::empty(), cache, session_id).len() == 0,
        cache.contains_key((session_id, fetch.uri)) ==> {
            &&& cached_events(fetches.push(fetch), cache, session_id) == cached_events(
                fetches,
                cache,
                session_id,
            ).push(
                ExtEventView::ToolResource {
                    tool_call_id: fetch.tool_call_id,
                    html: cache[(session_id, fetch.uri)],
                },
            )
            &&& uncached(fetches.push(fetch), cache, session_id) == uncached(
                fetches,
                cache,
                session_id,
            )
        },
        !cache.contains_key((session_id, fetch.uri)) ==> {
            &&& cached_events(fetches.push(fetch), cache, session_id) == cached_events(
                fetches,
                cache,
                session_id,
            )
            &&& uncached(fetches.push(fetch), cache, session_id) == uncached(
                fetches,
                cache,
                session_id,
            ).push(fetch)
        },
{
    let hit = |f: PendingFetchView| cache.contains_key((session_id, f.uri));
    let miss = |f: PendingFetchView| !cache.contains_key((session_id, f.uri));
    reveal(Seq::filter);
    lemma_filter_push(fetches, fetch, hit);
    lemma_filter_push(fetches, fetch, miss);
    if hit(fetch) {
        assert(cached_events(fetches.push(fetch), cache, session_id) =~= cached_events(
            fetches,
            cache,
            session_id,
        ).push(
            ExtEventView::ToolResource {
                tool_call_id: fetch.tool_call_id,
                html: cache[(session_id, fetch.uri)],
            },
        ));
    }
}

} // verus!
