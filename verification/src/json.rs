//! JSON values, and the text they are written in.
//!
//! A [`Json`] is a plain tree, which the rest of the library reads and builds.
//! Its text is read and written by `serde_json`.

use crate::text::str_eq;
use serde_json::{Number, Value};
use vstd::prelude::*;

verus! {

/// A number as `serde_json` holds it.
#[verifier::external_type_specification]
#[verifier::external_body]
pub struct ExNumber(serde_json::Number);

/// A JSON value as `serde_json` holds it.
#[verifier::external_type_specification]
#[verifier::external_body]
pub struct ExValue(serde_json::Value);

/// A number that no 64-bit signed integer holds. It comes out of a text only,
/// and the library carries it along.
#[derive(Debug)]
pub struct OtherNumber {
    number: Number,
    count: u32,
}

impl OtherNumber {
    /// The number as a count: without its fraction, and at most as far from
    /// zero as a count goes.
    pub closed spec fn as_count(self) -> u32 {
        self.count
    }
}

/// A JSON value.
#[derive(Debug)]
pub enum Json {
    Null,
    Bool(bool),
    /// A number that a 64-bit signed integer holds.
    Int(i64),
    /// Any other number.
    Number(OtherNumber),
    String(String),
    Array(Vec<Json>),
    /// The members in their order.
    Object(Vec<(String, Json)>),
}

/// A JSON value as a mathematical tree.
pub ghost enum JsonView {
    Null,
    Bool(bool),
    Int(int),
    Number(OtherNumber),
    String(Seq<char>),
    Array(Seq<JsonView>),
    Object(Seq<(Seq<char>, JsonView)>),
}

impl View for Json {
    type V = JsonView;

    open spec fn view(&self) -> JsonView
        decreases self,
    {
        match self {
            Json::Null => JsonView::Null,
            Json::Bool(b) => JsonView::Bool(*b),
            Json::Int(n) => JsonView::Int(*n as int),
            Json::Number(n) => JsonView::Number(*n),
            Json::String(s) => JsonView::String(s@),
            Json::Array(items) => JsonView::Array(
                Seq::new(
                    items@.len(),
                    |i: int|
                        if 0 <= i < items@.len() {
                            items@[i].view()
                        } else {
                            JsonView::Null
                        },
                ),
            ),
            Json::Object(members) => JsonView::Object(
                Seq::new(
                    members@.len(),
                    |i: int|
                        if 0 <= i < members@.len() {
                            (members@[i].0@, members@[i].1.view())
                        } else {
                            (Seq::empty(), JsonView::Null)
                        },
                ),
            ),
        }
    }
}

/// The members of a JSON object, in their order.
pub type Members = Seq<(Seq<char>, JsonView)>;

/// The value under `key`: that of the first member with this key.
pub open spec fn lookup(members: Members, key: Seq<char>) -> Option<JsonView>
    decreases members.len(),
{
    if members.len() == 0 {
        None
    } else if members[0].0 == key {
        Some(members[0].1)
    } else {
        lookup(members.drop_first(), key)
    }
}

/// The members with `value` under `key`: in the place of the first member with
/// this key, or behind all others where there is none.
pub open spec fn with_member(members: Members, key: Seq<char>, value: JsonView) -> Members
    decreases members.len(),
{
    if members.len() == 0 {
        seq![(key, value)]
    } else if members[0].0 == key {
        members.update(0, (key, value))
    } else {
        seq![members[0]] + with_member(members.drop_first(), key, value)
    }
}

/// The members after each of `update` was put among them, first to last.
pub open spec fn merged(members: Members, update: Members) -> Members
    decreases update.len(),
{
    if update.len() == 0 {
        members
    } else {
        merged(with_member(members, update[0].0, update[0].1), update.drop_first())
    }
}

/// No two members have the same key.
pub open spec fn distinct_keys(members: Members) -> bool {
    forall|i: int, j: int|
        0 <= i < j < members.len() ==> (#[trigger] members[i]).0 != (#[trigger] members[j]).0
}

/// The models of a list of values.
pub open spec fn views(items: Seq<Json>) -> Seq<JsonView> {
    items.map_values(|item: Json| item@)
}

/// The models of a list of object members.
pub open spec fn member_views(members: Seq<(String, Json)>) -> Members {
    members.map_values(|member: (String, Json)| (member.0@, member.1@))
}

impl JsonView {
    /// The value under `key` of an object.
    pub open spec fn get(self, key: Seq<char>) -> Option<JsonView> {
        match self {
            JsonView::Object(members) => lookup(members, key),
            _ => None,
        }
    }

    /// The characters of a string.
    pub open spec fn as_str(self) -> Option<Seq<char>> {
        match self {
            JsonView::String(s) => Some(s),
            _ => None,
        }
    }

    /// The items of an array.
    pub open spec fn as_array(self) -> Option<Seq<JsonView>> {
        match self {
            JsonView::Array(items) => Some(items),
            _ => None,
        }
    }

    /// The number as a count: without its fraction, 0 where it is negative, and
    /// the greatest count where it is greater.
    pub open spec fn as_count(self) -> Option<u32> {
        match self {
            JsonView::Int(n) => Some(
                if n < 0 {
                    0
                } else if n > u32::MAX {
                    u32::MAX
                } else {
                    n as u32
                },
            ),
            JsonView::Number(n) => Some(n.as_count()),
            _ => None,
        }
    }

    /// The string under `key` of an object.
    pub open spec fn get_str(self, key: Seq<char>) -> Option<Seq<char>> {
        match self.get(key) {
            Some(value) => value.as_str(),
            None => None,
        }
    }
}

/// The model of an array is made of the models of its items.
pub proof fn lemma_array_view(items: Vec<Json>)
    ensures
        Json::Array(items)@ == JsonView::Array(views(items@)),
{
    reveal_with_fuel(<Json as View>::view, 2);
    assert(Json::Array(items)@->Array_0 =~= views(items@));
}

/// The model of an object is made of the models of its members.
pub proof fn lemma_object_view(members: Vec<(String, Json)>)
    ensures
        Json::Object(members)@ == JsonView::Object(member_views(members@)),
{
    reveal_with_fuel(<Json as View>::view, 2);
    let model = Json::Object(members)@->Object_0;
    assert forall|i: int| 0 <= i < members@.len() implies #[trigger] model[i] == member_views(
        members@,
    )[i] by {
        assert(model[i] == (members@[i].0@, members@[i].1.view()));
    }
    assert(model =~= member_views(members@));
}

/// The first member with a given key decides a lookup.
proof fn lemma_lookup_at(members: Members, key: Seq<char>, at: int)
    requires
        0 <= at <= members.len(),
        forall|i: int| 0 <= i < at ==> (#[trigger] members[i]).0 != key,
        at < members.len() ==> members[at].0 == key,
    ensures
        lookup(members, key) == (if at < members.len() {
            Some(members[at].1)
        } else {
            None
        }),
        at < members.len() ==> forall|value: JsonView| #[trigger]
            with_member(members, key, value) == members.update(at, (key, value)),
        at == members.len() ==> forall|value: JsonView| #[trigger]
            with_member(members, key, value) == members.push((key, value)),
    decreases at,
{
    if at > 0 {
        let rest = members.drop_first();
        assert forall|i: int| 0 <= i < at - 1 implies (#[trigger] rest[i]).0 != key by {
            assert(rest[i] == members[i + 1]);
        }
        lemma_lookup_at(rest, key, at - 1);
        assert(members[0].0 != key);
        if at < members.len() {
            assert forall|value: JsonView| #[trigger] with_member(members, key, value)
                == members.update(at, (key, value)) by {
                assert(with_member(rest, key, value) == rest.update(at - 1, (key, value)));
                assert(seq![members[0]] + rest.update(at - 1, (key, value)) =~= members.update(
                    at,
                    (key, value),
                ));
            }
        } else {
            assert forall|value: JsonView| #[trigger] with_member(members, key, value)
                == members.push((key, value)) by {
                assert(with_member(rest, key, value) == rest.push((key, value)));
                assert(seq![members[0]] + rest.push((key, value)) =~= members.push((key, value)));
            }
        }
    } else if members.len() == 0 {
        assert forall|value: JsonView| #[trigger] with_member(members, key, value) == members.push(
            (key, value),
        ) by {
            assert(seq![(key, value)] =~= members.push((key, value)));
        }
    }
}

/// Calls the `Clone` of `serde_json::Number`, whose result is the same number.
pub assume_specification[ <serde_json::Number as std::clone::Clone>::clone ](
    number: &serde_json::Number,
) -> (res: serde_json::Number)
    ensures
        res == *number,
;

impl Clone for OtherNumber {
    fn clone(&self) -> (res: Self)
        ensures
            res == *self,
    {
        OtherNumber { number: self.number.clone(), count: self.count }
    }
}

impl Clone for Json {
    fn clone(&self) -> (res: Self)
        ensures
            res@ == self@,
        decreases self,
    {
        match self {
            Json::Null => Json::Null,
            Json::Bool(b) => Json::Bool(*b),
            Json::Int(n) => Json::Int(*n),
            Json::Number(n) => Json::Number(n.clone()),
            Json::String(s) => Json::String(s.clone()),
            Json::Array(items) => {
                let mut copies: Vec<Json> = Vec::new();
                let mut i: usize = 0;
                while i < items.len()
                    invariant
                        i <= items.len(),
                        copies.len() == i,
                        self matches Json::Array(all) && all == items,
                        forall|k: int| 0 <= k < i ==> (#[trigger] copies[k])@ == items[k]@,
                    decreases items.len() - i,
                {
                    assert(decreases_to!(self => items@[i as int]));
                    copies.push(items[i].clone());
                    i += 1;
                }
                proof {
                    lemma_array_view(copies);
                    lemma_array_view(*items);
                    assert(views(copies@) =~= views(items@));
                }
                Json::Array(copies)
            },
            Json::Object(members) => {
                let copies = clone_members(members);
                proof {
                    lemma_object_view(copies);
                    lemma_object_view(*members);
                }
                Json::Object(copies)
            },
        }
    }
}

/// A copy of the members of an object.
pub(crate) fn clone_members(members: &Vec<(String, Json)>) -> (copies: Vec<(String, Json)>)
    ensures
        member_views(copies@) == member_views(members@),
    decreases members,
{
    let mut copies: Vec<(String, Json)> = Vec::new();
    let mut i: usize = 0;
    while i < members.len()
        invariant
            i <= members.len(),
            copies.len() == i,
            forall|k: int|
                0 <= k < i ==> (#[trigger] copies[k]).0@ == members[k].0@ && copies[k].1@
                    == members[k].1@,
        decreases members.len() - i,
    {
        assert(decreases_to!(members => members@[i as int].1));
        let key: String = members[i].0.clone();
        let value: Json = members[i].1.clone();
        copies.push((key, value));
        i += 1;
    }
    assert(member_views(copies@) =~= member_views(members@));
    copies
}

impl Json {
    /// The value under `key` where this is an object that has it.
    pub fn get(&self, key: &str) -> (res: Option<&Json>)
        ensures
            match res {
                Some(value) => self@.get(key@) == Some(value@),
                None => self@.get(key@) is None,
            },
    {
        match self {
            Json::Object(members) => {
                proof {
                    lemma_object_view(*members);
                }
                get_member(members, key)
            },
            _ => None,
        }
    }

    /// The characters where this is a string.
    pub fn as_str(&self) -> (res: Option<&str>)
        ensures
            match res {
                Some(s) => self@.as_str() == Some(s@),
                None => self@.as_str() is None,
            },
    {
        match self {
            Json::String(s) => Some(s.as_str()),
            _ => None,
        }
    }

    /// The items where this is an array.
    pub fn as_array(&self) -> (res: Option<&Vec<Json>>)
        ensures
            match res {
                Some(items) => self@.as_array() == Some(views(items@)),
                None => self@.as_array() is None,
            },
    {
        match self {
            Json::Array(items) => {
                proof {
                    lemma_array_view(*items);
                }
                Some(items)
            },
            _ => None,
        }
    }

    /// The number as a count, where this is a number.
    pub fn as_count(&self) -> (res: Option<u32>)
        ensures
            res == self@.as_count(),
    {
        match self {
            Json::Int(n) => Some(
                if *n < 0 {
                    0
                } else if *n > u32::MAX as i64 {
                    u32::MAX
                } else {
                    *n as u32
                },
            ),
            Json::Number(n) => Some(n.count),
            _ => None,
        }
    }

    /// The string under `key` where this is an object that has one there.
    pub fn get_str(&self, key: &str) -> (res: Option<&str>)
        ensures
            match res {
                Some(s) => self@.get_str(key@) == Some(s@),
                None => self@.get_str(key@) is None,
            },
    {
        match self.get(key) {
            Some(value) => value.as_str(),
            None => None,
        }
    }
}

/// The position of the first member with `key`, or the number of members.
fn member_position(members: &Vec<(String, Json)>, key: &str) -> (at: usize)
    ensures
        at <= members.len(),
        forall|i: int| 0 <= i < at ==> (#[trigger] members[i]).0@ != key@,
        at < members.len() ==> members[at as int].0@ == key@,
{
    let mut at: usize = 0;
    while at < members.len()
        invariant
            at <= members.len(),
            forall|i: int| 0 <= i < at ==> (#[trigger] members[i]).0@ != key@,
        decreases members.len() - at,
    {
        if str_eq(members[at].0.as_str(), key) {
            return at;
        }
        at += 1;
    }
    at
}

/// The value under `key` among the members of an object.
pub fn get_member<'a>(members: &'a Vec<(String, Json)>, key: &str) -> (res: Option<&'a Json>)
    ensures
        match res {
            Some(value) => lookup(member_views(members@), key@) == Some(value@),
            None => lookup(member_views(members@), key@) is None,
        },
{
    let at: usize = member_position(members, key);
    proof {
        lemma_lookup_at(member_views(members@), key@, at as int);
    }
    if at < members.len() {
        Some(&members[at].1)
    } else {
        None
    }
}

/// Puts `value` under `key` among the members of an object.
pub fn insert_member(members: &mut Vec<(String, Json)>, key: String, value: Json)
    ensures
        member_views(final(members)@) == with_member(member_views(old(members)@), key@, value@),
{
    let at: usize = member_position(members, key.as_str());
    let ghost before = member_views(members@);
    proof {
        lemma_lookup_at(before, key@, at as int);
    }
    if at < members.len() {
        let ghost entry = (key@, value@);
        members.set(at, (key, value));
        assert(member_views(members@) =~= before.update(at as int, entry));
    } else {
        let ghost entry = (key@, value@);
        members.push((key, value));
        assert(member_views(members@) =~= before.push(entry));
    }
}

/// Puts each member of `update` among the members of an object, first to last.
pub fn merge_members(members: &mut Vec<(String, Json)>, update: &Vec<(String, Json)>)
    ensures
        member_views(final(members)@) == merged(
            member_views(old(members)@),
            member_views(update@),
        ),
{
    let ghost all = member_views(update@);
    let ghost start = member_views(members@);
    let mut i: usize = 0;
    assert(all.skip(0) =~= all);
    while i < update.len()
        invariant
            i <= update.len(),
            all == member_views(update@),
            merged(member_views(members@), all.skip(i as int)) == merged(start, all),
        decreases update.len() - i,
    {
        let key: String = update[i].0.clone();
        let value: Json = update[i].1.clone();
        proof {
            let rest = all.skip(i as int);
            assert(rest[0] == all[i as int]);
            assert(rest.drop_first() =~= all.skip(i + 1));
        }
        insert_member(members, key, value);
        i += 1;
    }
    assert(all.skip(i as int).len() == 0);
}

/// The tree that a `serde_json` value holds.
pub uninterp spec fn value_model(value: serde_json::Value) -> JsonView;

/// What `serde_json` reads from a text: a tree, or the words of its error.
pub uninterp spec fn parsed(text: Seq<char>) -> Result<JsonView, Seq<char>>;

/// The text on one line that `serde_json` writes for a tree.
pub uninterp spec fn compact(tree: JsonView) -> Seq<char>;

/// The tree with the keys of each object distinct: of members with the same
/// key only the last value stays, in the place of the first.
pub open spec fn keyed(tree: JsonView) -> JsonView
    decreases tree,
{
    match tree {
        JsonView::Array(items) => JsonView::Array(
            Seq::new(
                items.len(),
                |i: int|
                    if 0 <= i < items.len() {
                        keyed(items[i])
                    } else {
                        JsonView::Null
                    },
            ),
        ),
        JsonView::Object(members) => JsonView::Object(
            merged(Seq::empty(), keyed_members(members)),
        ),
        _ => tree,
    }
}

/// The members of an object with each value `keyed`.
pub open spec fn keyed_members(members: Members) -> Members
    decreases members,
{
    Seq::new(
        members.len(),
        |i: int|
            if 0 <= i < members.len() {
                (members[i].0, keyed(members[i].1))
            } else {
                (Seq::empty(), JsonView::Null)
            },
    )
}

/// A tree of integers, texts and constants, with at most `depth` lists and
/// objects around each other, and no key out of the range that `serde_json`
/// keeps for itself.
pub open spec fn plain(tree: JsonView, depth: nat) -> bool
    decreases tree,
{
    match tree {
        JsonView::Number(_) => false,
        JsonView::Array(items) => depth > 0 && forall|i: int|
            0 <= i < items.len() ==> plain(#[trigger] items[i], (depth - 1) as nat),
        JsonView::Object(members) => depth > 0 && forall|i: int|
            0 <= i < members.len() ==> !"$serde_json::private::"@.is_prefix_of(
                (#[trigger] members[i]).0,
            ) && plain(members[i].1, (depth - 1) as nat),
        _ => true,
    }
}

/// `serde_json` reads `tree` from `text`.
pub open spec fn reads_as(text: Seq<char>, tree: JsonView) -> bool {
    parsed(text) == Ok::<JsonView, Seq<char>>(tree)
}

/// Calls `serde_json::from_str`, which reads a whole text as one JSON value,
/// and writes out its error. What it makes of the text is left to the name
/// `parsed`.
#[verifier::external_body]
fn parse_value(text: &str) -> (res: Result<Value, String>)
    ensures
        parsed(text@) == (match res {
            Ok(value) => Ok(value_model(value)),
            Err(words) => Err(words@),
        }),
{
    serde_json::from_str::<Value>(text).map_err(|error| error.to_string())
}

/// Takes a `serde_json` value apart, variant by variant. A number is asked for
/// its `as_i64`, and where it has none for its `as_f64`, cast to a count.
#[verifier::external_body]
fn read_value(value: &Value) -> (res: Json)
    ensures
        res@ == value_model(*value),
{
    match value {
        Value::Null => Json::Null,
        Value::Bool(b) => Json::Bool(*b),
        Value::Number(n) => n.as_i64().map_or_else(
            || Json::Number(
                OtherNumber { number: n.clone(), count: n.as_f64().map_or(0, |x| x as u32) },
            ),
            Json::Int,
        ),
        Value::String(s) => Json::String(s.clone()),
        Value::Array(items) => Json::Array(items.iter().map(read_value).collect()),
        Value::Object(members) => Json::Object(
            members.iter().map(|(k, v)| (k.clone(), read_value(v))).collect(),
        ),
    }
}

/// Builds a `serde_json` value, variant by variant. A map of `serde_json` keeps
/// the order in which its keys came, and one value for each.
#[verifier::external_body]
fn make_value(json: &Json) -> (res: Value)
    ensures
        value_model(res) == keyed(json@),
{
    match json {
        Json::Null => Value::Null,
        Json::Bool(b) => Value::Bool(*b),
        Json::Int(n) => Value::from(*n),
        Json::Number(n) => Value::Number(n.number.clone()),
        Json::String(s) => Value::String(s.clone()),
        Json::Array(items) => Value::Array(items.iter().map(make_value).collect()),
        Json::Object(members) => Value::Object(
            members.iter().map(|(k, v)| (k.clone(), make_value(v))).collect(),
        ),
    }
}

/// Calls the `Display` of `serde_json::Value`, which writes it on one line.
/// `from_str` reads that text back to the same value, where the value holds
/// integers only and nests less deep than `from_str` follows.
#[verifier::external_body]
fn print_value(value: &Value) -> (res: String)
    ensures
        res@ == compact(value_model(*value)),
        plain(value_model(*value), 127) ==> reads_as(res@, value_model(*value)),
{
    value.to_string()
}

impl Json {
    /// Reads a text as one JSON value. The error is that of `serde_json`.
    pub fn parse(text: &str) -> (res: Result<Json, String>)
        ensures
            parsed(text@) == (match res {
                Ok(value) => Ok(value@),
                Err(words) => Err(words@),
            }),
    {
        match parse_value(text) {
            Ok(value) => Ok(read_value(&value)),
            Err(words) => Err(words),
        }
    }

    /// The value on one line.
    pub fn to_text(&self) -> (res: String)
        ensures
            res@ == compact(keyed(self@)),
            plain(keyed(self@), 127) ==> reads_as(res@, keyed(self@)),
    {
        print_value(&make_value(self))
    }
}

/// The value that `update` gives to `key`: that of the last member with it.
pub open spec fn last_of(update: Members, key: Seq<char>) -> Option<JsonView>
    decreases update.len(),
{
    if update.len() == 0 {
        None
    } else if update.last().0 == key {
        Some(update.last().1)
    } else {
        last_of(update.drop_last(), key)
    }
}

/// After a member was put in, its key gives its value, and every other key
/// gives what it gave before.
pub proof fn law_put_then_get(members: Members, key: Seq<char>, value: JsonView, other: Seq<char>)
    ensures
        lookup(with_member(members, key, value), other) == (if other == key {
            Some(value)
        } else {
            lookup(members, other)
        }),
    decreases members.len(),
{
    let put = with_member(members, key, value);
    if members.len() == 0 {
        assert(put.drop_first() =~= members);
    } else if members[0].0 == key {
        assert(put.drop_first() =~= members.drop_first());
    } else {
        law_put_then_get(members.drop_first(), key, value, other);
        assert(put.drop_first() =~= with_member(members.drop_first(), key, value));
    }
}

/// Merging in reverse: the last member of the update is put in last.
proof fn lemma_merged_last(members: Members, update: Members)
    requires
        update.len() > 0,
    ensures
        merged(members, update) == with_member(
            merged(members, update.drop_last()),
            update.last().0,
            update.last().1,
        ),
    decreases update.len(),
{
    let first = with_member(members, update[0].0, update[0].1);
    if update.len() == 1 {
        assert(update.drop_last() =~= Seq::empty());
        assert(update.drop_first() =~= Seq::empty());
        reveal_with_fuel(merged, 2);
    } else {
        lemma_merged_last(first, update.drop_first());
        assert(update.drop_first().drop_last() =~= update.drop_last().drop_first());
        assert(update.drop_last()[0] == update[0]);
    }
}

/// After a merge, a key that the update gives a value has it, and every other
/// key gives what it gave before.
pub proof fn law_merge_then_get(members: Members, update: Members, key: Seq<char>)
    ensures
        lookup(merged(members, update), key) == (match last_of(update, key) {
            Some(value) => Some(value),
            None => lookup(members, key),
        }),
    decreases update.len(),
{
    if update.len() > 0 {
        lemma_merged_last(members, update);
        law_merge_then_get(members, update.drop_last(), key);
        law_put_then_get(
            merged(members, update.drop_last()),
            update.last().0,
            update.last().1,
            key,
        );
    }
}

/// Putting a member in leaves the keys of an object distinct, and the keys are
/// the old ones and the new one.
pub proof fn law_put_keeps_keys_distinct(members: Members, key: Seq<char>, value: JsonView)
    requires
        distinct_keys(members),
    ensures
        distinct_keys(with_member(members, key, value)),
{
    let at = first_position(members, key);
    lemma_first_position(members, key);
    lemma_lookup_at(members, key, at);
}

/// The position of the first member with `key`, or the number of members.
spec fn first_position(members: Members, key: Seq<char>) -> int
    decreases members.len(),
{
    if members.len() == 0 || members[0].0 == key {
        0
    } else {
        1 + first_position(members.drop_first(), key)
    }
}

proof fn lemma_first_position(members: Members, key: Seq<char>)
    ensures
        ({
            let at = first_position(members, key);
            &&& 0 <= at <= members.len()
            &&& forall|i: int| 0 <= i < at ==> (#[trigger] members[i]).0 != key
            &&& at < members.len() ==> members[at].0 == key
        }),
    decreases members.len(),
{
    if members.len() > 0 && members[0].0 != key {
        let rest = members.drop_first();
        lemma_first_position(rest, key);
        let at = first_position(members, key);
        assert forall|i: int| 0 <= i < at implies (#[trigger] members[i]).0 != key by {
            if i > 0 {
                assert(rest[i - 1] == members[i]);
            }
        }
    }
}

/// Merging leaves the keys of an object distinct.
pub proof fn law_merge_keeps_keys_distinct(members: Members, update: Members)
    requires
        distinct_keys(members),
    ensures
        distinct_keys(merged(members, update)),
    decreases update.len(),
{
    if update.len() > 0 {
        law_put_keeps_keys_distinct(members, update[0].0, update[0].1);
        law_merge_keeps_keys_distinct(
            with_member(members, update[0].0, update[0].1),
            update.drop_first(),
        );
    }
}

/// Every object in the tree has distinct keys.
pub open spec fn well_keyed(tree: JsonView) -> bool
    decreases tree,
{
    match tree {
        JsonView::Array(items) => forall|i: int|
            0 <= i < items.len() ==> well_keyed(#[trigger] items[i]),
        JsonView::Object(members) => distinct_keys(members) && forall|i: int|
            0 <= i < members.len() ==> well_keyed((#[trigger] members[i]).1),
        _ => true,
    }
}

/// Merging members with distinct keys into an empty object gives them back.
proof fn lemma_merged_distinct(done: Members, update: Members)
    requires
        distinct_keys(done + update),
    ensures
        merged(done, update) == done + update,
    decreases update.len(),
{
    if update.len() == 0 {
        assert(done + update =~= done);
    } else {
        let all = done + update;
        let key = update[0].0;
        assert(all[done.len() as int] == update[0]);
        assert forall|i: int| 0 <= i < done.len() implies (#[trigger] done[i]).0 != key by {
            assert(all[i] == done[i]);
        }
        lemma_lookup_at(done, key, done.len() as int);
        let next = with_member(done, key, update[0].1);
        assert(next == done.push(update[0]));
        assert(next + update.drop_first() =~= all);
        lemma_merged_distinct(next, update.drop_first());
    }
}

/// A tree whose objects have distinct keys is written as it stands.
pub proof fn law_well_keyed_is_keyed(tree: JsonView)
    requires
        well_keyed(tree),
    ensures
        keyed(tree) == tree,
    decreases tree,
{
    match tree {
        JsonView::Array(items) => {
            assert forall|i: int| 0 <= i < items.len() implies keyed(#[trigger] items[i])
                == items[i] by {
                law_well_keyed_is_keyed(items[i]);
            }
            assert(keyed(tree)->Array_0 =~= items);
        },
        JsonView::Object(members) => {
            let same = keyed_members(members);
            assert forall|i: int| 0 <= i < members.len() implies #[trigger] same[i]
                == members[i] by {
                assert(well_keyed(members[i].1));
                law_well_keyed_is_keyed(members[i].1);
            }
            assert(same =~= members);
            assert(Members::empty() + members =~= members);
            lemma_merged_distinct(Seq::empty(), members);
        },
        _ => {},
    }
}

/// A member of an object is found by its key: the first of those with that key.
/// Nothing is found under a key that no member has, nor in what is no object.
pub proof fn law_members_are_found(members: Members, key: Seq<char>, at: int)
    requires
        0 <= at <= members.len(),
        forall|i: int| 0 <= i < at ==> (#[trigger] members[i]).0 != key,
        at < members.len() ==> members[at].0 == key,
    ensures
        JsonView::Object(members).get(key) == (if at < members.len() {
            Some(members[at].1)
        } else {
            None
        }),
        forall|tree: JsonView| !(tree is Object) ==> (#[trigger] tree.get(key)) is None,
        at < members.len() && members[at].1 is String ==> JsonView::Object(members).get_str(key)
            == Some(members[at].1->String_0),
        at < members.len() && !(members[at].1 is String) ==> JsonView::Object(members).get_str(key)
            is None,
        at == members.len() ==> JsonView::Object(members).get_str(key) is None,
    decreases at,
{
    if at > 0 {
        let rest = members.drop_first();
        assert(members[0].0 != key);
        assert forall|i: int| 0 <= i < at - 1 implies (#[trigger] rest[i]).0 != key by {
            assert(rest[i] == members[i + 1]);
        }
        law_members_are_found(rest, key, at - 1);
    }
}

/// A whole number counts as itself, as far as a count goes.
pub proof fn law_counts(n: int)
    ensures
        0 <= n <= u32::MAX ==> JsonView::Int(n).as_count() == Some(n as u32),
        n < 0 ==> JsonView::Int(n).as_count() == Some(0u32),
        n > u32::MAX ==> JsonView::Int(n).as_count() == Some(u32::MAX),
        JsonView::Null.as_count() is None,
        forall|s: Seq<char>| (#[trigger] JsonView::String(s).as_count()) is None,
{
}

/// A member that is put in takes the place of the first with its key, or stands
/// behind all others. No other member changes or moves.
pub proof fn law_put_keeps_places(members: Members, key: Seq<char>, value: JsonView, at: int)
    requires
        0 <= at <= members.len(),
        forall|i: int| 0 <= i < at ==> (#[trigger] members[i]).0 != key,
        at < members.len() ==> members[at].0 == key,
    ensures
        with_member(members, key, value) == (if at < members.len() {
            members.update(at, (key, value))
        } else {
            members.push((key, value))
        }),
    decreases members.len(),
{
    if members.len() == 0 {
        assert(with_member(members, key, value) =~= members.push((key, value)));
    } else if at > 0 {
        let rest = members.drop_first();
        assert(members[0].0 != key);
        assert forall|i: int| 0 <= i < at - 1 implies (#[trigger] rest[i]).0 != key by {
            assert(rest[i] == members[i + 1]);
        }
        law_put_keeps_places(rest, key, value, at - 1);
        if at < members.len() {
            assert(with_member(members, key, value) =~= members.update(at, (key, value)));
        } else {
            assert(with_member(members, key, value) =~= members.push((key, value)));
        }
    }
}

} // verus!
