//! Reading the HTML panel of a tool call.

use crate::json::{lemma_object_view, member_views, views, Json, JsonView};
use crate::text::{starts_with, str_eq};
use crate::tool_call::push_member;
use vstd::prelude::*;

verus! {

/// The method that reads a resource of an extension.
pub open spec fn read_resource_method() -> Seq<char> {
    "_goose/unstable/resources/read"@
}

/// The method that reads a resource of an extension.
pub fn read_method() -> (res: &'static str)
    ensures
        res@ == read_resource_method(),
{
    "_goose/unstable/resources/read"
}

/// The parameters of a read.
pub open spec fn read_request(
    session_id: Seq<char>,
    uri: Seq<char>,
    extension_name: Seq<char>,
) -> JsonView {
    JsonView::Object(
        seq![
            ("sessionId"@, JsonView::String(session_id)),
            ("uri"@, JsonView::String(uri)),
            ("extensionName"@, JsonView::String(extension_name)),
        ],
    )
}

/// The parameters of a read.
pub fn read_params(session_id: &str, uri: &str, extension_name: &str) -> (res: Json)
    ensures
        res@ == read_request(session_id@, uri@, extension_name@),
{
    let mut members: Vec<(String, Json)> = Vec::new();
    push_member(&mut members, "sessionId", Json::String(session_id.to_owned()));
    push_member(&mut members, "uri", Json::String(uri.to_owned()));
    push_member(&mut members, "extensionName", Json::String(extension_name.to_owned()));
    proof {
        lemma_object_view(members);
        assert(member_views(members@) =~= read_request(
            session_id@,
            uri@,
            extension_name@,
        )->Object_0);
    }
    Json::Object(members)
}

/// The type is HTML: `text/html`, or that with parameters behind a semicolon.
pub open spec fn is_html(mime: Seq<char>) -> bool {
    mime == "text/html"@ || "text/html;"@.is_prefix_of(mime)
}

/// The text of a content item whose type is HTML.
pub open spec fn html_of_item(item: JsonView) -> Option<Seq<char>> {
    match item.get_str("mimeType"@) {
        Some(mime) => if is_html(mime) {
            item.get_str("text"@)
        } else {
            None
        },
        None => None,
    }
}

/// The text of the first item that has one.
pub open spec fn first_html(items: Seq<JsonView>) -> Option<Seq<char>>
    decreases items.len(),
{
    if items.len() == 0 {
        None
    } else if html_of_item(items[0]) is Some {
        html_of_item(items[0])
    } else {
        first_html(items.drop_first())
    }
}

/// The HTML in the answer to a read: that of the first item of
/// `result.contents` that has one.
pub open spec fn response_html(response: JsonView) -> Option<Seq<char>> {
    match response.get("result"@) {
        Some(result) => match result.get("contents"@) {
            Some(contents) => match contents.as_array() {
                Some(items) => first_html(items),
                None => None,
            },
            None => None,
        },
        None => None,
    }
}

/// The text of a content item whose type is HTML.
fn item_html(item: &Json) -> (res: Option<String>)
    ensures
        crate::text::opt_text(res) == html_of_item(item@),
{
    match item.get_str("mimeType") {
        Some(mime) => if str_eq(mime, "text/html") || starts_with(mime, "text/html;") {
            match item.get_str("text") {
                Some(text) => Some(text.to_owned()),
                None => None,
            }
        } else {
            None
        },
        None => None,
    }
}

/// Extract the first `text/html` item from the answer to a read.
///
/// The answer has the shape `{ result: { contents: [{ uri, mimeType, text }] } }`.
/// There is none where no item is of type `text/html` or `text/html;…`.
pub fn extract_html_from_read_resource_response(response: &Json) -> (res: Option<String>)
    ensures
        crate::text::opt_text(res) == response_html(response@),
{
    let items: &Vec<Json> = match response.get("result") {
        Some(result) => match result.get("contents") {
            Some(contents) => match contents.as_array() {
                Some(items) => items,
                None => {
                    return None;
                },
            },
            None => {
                return None;
            },
        },
        None => {
            return None;
        },
    };
    let ghost all = views(items@);
    let mut i: usize = 0;
    assert(all.skip(0) =~= all);
    while i < items.len()
        invariant
            i <= items.len(),
            all == views(items@),
            response_html(response@) == first_html(all.skip(i as int)),
        decreases items.len() - i,
    {
        proof {
            assert(all.skip(i as int)[0] == items@[i as int]@);
            assert(all.skip(i as int).drop_first() =~= all.skip(i + 1));
        }
        match item_html(&items[i]) {
            Some(html) => {
                return Some(html);
            },
            None => {},
        }
        i += 1;
    }
    None
}

/// An item of another type has no bearing on what is extracted.
pub proof fn law_other_types_are_skipped(before: Seq<JsonView>, items: Seq<JsonView>)
    requires
        forall|i: int| 0 <= i < before.len() ==> html_of_item(#[trigger] before[i]) is None,
    ensures
        first_html(before + items) == first_html(items),
    decreases before.len(),
{
    if before.len() == 0 {
        assert(before + items =~= items);
    } else {
        assert((before + items).drop_first() =~= before.drop_first() + items);
        assert(html_of_item(before[0]) is None);
        assert forall|i: int| 0 <= i < before.drop_first().len() implies html_of_item(
            #[trigger] before.drop_first()[i],
        ) is None by {
            assert(before.drop_first()[i] == before[i + 1]);
        }
        law_other_types_are_skipped(before.drop_first(), items);
    }
}

} // verus!
