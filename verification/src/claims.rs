//! Claim sets: the JSON values that verified tokens and introspection
//! responses carry, and how values are read out of them.

use vstd::prelude::*;
use crate::text::{
    one_piece, pieces, pieces_of_both_sides, same_text, split_at_each, split_words, words,
};

verus! {

/// A JSON value.
pub enum Json {
    Null,
    Bool(bool),
    Number(Seq<char>),
    Text(Seq<char>),
    List(Seq<Json>),
    Object(Seq<(Seq<char>, Json)>),
}

/// A JSON value as the library holds it. A number is kept as
/// `serde_json::Number` writes it; nothing here computes with it.
#[derive(Debug, PartialEq, Eq)]
pub enum ClaimValue {
    Null,
    Bool(bool),
    Number(String),
    String(String),
    Array(Vec<ClaimValue>),
    Object(Vec<(String, ClaimValue)>),
}

/// The JSON value that `v` holds.
pub open spec fn json_of(v: ClaimValue) -> Json
    decreases v,
{
    match v {
        ClaimValue::Null => Json::Null,
        ClaimValue::Bool(b) => Json::Bool(b),
        ClaimValue::Number(n) => Json::Number(n@),
        ClaimValue::String(s) => Json::Text(s@),
        ClaimValue::Array(items) => Json::List(
            Seq::new(
                items@.len(),
                |i: int|
                    if 0 <= i < items@.len() {
                        json_of(items@[i])
                    } else {
                        Json::Null
                    },
            ),
        ),
        ClaimValue::Object(members) => Json::Object(
            Seq::new(
                members@.len(),
                |i: int|
                    if 0 <= i < members@.len() {
                        (members@[i].0@, json_of(members@[i].1))
                    } else {
                        (Seq::empty(), Json::Null)
                    },
            ),
        ),
    }
}

impl View for ClaimValue {
    type V = Json;

    open spec fn view(&self) -> Json {
        json_of(*self)
    }
}

/// `serde_json::Value`, carried through as it is.
#[verifier::external_type_specification]
#[verifier::external_body]
pub struct ExValue(serde_json::Value);

/// The JSON value that a `serde_json::Value` holds: an array's elements in
/// order, an object's members in the order in which its map is walked.
pub uninterp spec fn value_json(v: serde_json::Value) -> Json;

/// One level of a `serde_json::Value`.
enum Shape<'a> {
    Null,
    Bool(bool),
    Number(String),
    Text(&'a str),
    List(Vec<&'a serde_json::Value>),
    Object(Vec<(&'a str, &'a serde_json::Value)>),
}

spec fn shape_json(s: Shape) -> Json {
    match s {
        Shape::Null => Json::Null,
        Shape::Bool(b) => Json::Bool(b),
        Shape::Number(n) => Json::Number(n@),
        Shape::Text(t) => Json::Text(t@),
        Shape::List(items) => Json::List(items@.map_values(|v: &serde_json::Value| value_json(*v))),
        Shape::Object(members) => Json::Object(
            members@.map_values(|m: (&str, &serde_json::Value)| (m.0@, value_json(*m.1))),
        ),
    }
}

/// The variants of `serde_json::Value`, told apart: the value is what its
/// variant says, with the values inside it left as they are. A number comes
/// as `serde_json::Number` writes it.
#[verifier::external_body]
fn shape_of<'a>(v: &'a serde_json::Value) -> (r: Shape<'a>)
    ensures
        value_json(*v) == shape_json(r),
{
    match v {
        serde_json::Value::Null => Shape::Null,
        serde_json::Value::Bool(b) => Shape::Bool(*b),
        serde_json::Value::Number(n) => Shape::Number(n.to_string()),
        serde_json::Value::String(s) => Shape::Text(s.as_str()),
        serde_json::Value::Array(items) => Shape::List(items.iter().collect()),
        serde_json::Value::Object(members) => {
            Shape::Object(members.iter().map(|m| (m.0.as_str(), m.1)).collect())
        },
    }
}

/// What `serde_json::from_slice` makes of `bytes`: the document that they
/// write, or the text of the error.
pub uninterp spec fn json_document(bytes: Seq<u8>) -> Result<Json, Seq<char>>;

/// `serde_json::from_slice` into a `serde_json::Value`, an error by its text.
/// The result is named; that the same bytes give the same result is all that
/// is claimed of it.
#[verifier::external_body]
fn document_value(bytes: &[u8]) -> (r: Result<serde_json::Value, String>)
    ensures
        json_document(bytes@) == (match r {
            Ok(v) => Ok::<Json, Seq<char>>(value_json(v)),
            Err(e) => Err(e@),
        }),
{
    serde_json::from_slice(bytes).map_err(|e| e.to_string())
}

/// Reads a JSON document.
pub fn parse_json(bytes: &[u8]) -> (r: Result<ClaimValue, String>)
    ensures
        json_document(bytes@) == (match r {
            Ok(v) => Ok::<Json, Seq<char>>(v@),
            Err(e) => Err(e@),
        }),
{
    match document_value(bytes) {
        Ok(v) => Ok(claim_value(&v)),
        Err(e) => Err(e),
    }
}

/// The library's own copy of a `serde_json::Value`.
pub(crate) fn claim_value(v: &serde_json::Value) -> (r: ClaimValue)
    ensures
        r@ == value_json(*v),
    decreases value_json(*v),
{
    match shape_of(v) {
        Shape::Null => ClaimValue::Null,
        Shape::Bool(b) => ClaimValue::Bool(b),
        Shape::Number(n) => ClaimValue::Number(n),
        Shape::Text(t) => ClaimValue::String(t.to_owned()),
        Shape::List(items) => {
            let ghost want = value_json(*v)->List_0;
            let mut out: Vec<ClaimValue> = Vec::new();
            let mut i: usize = 0;
            while i < items.len()
                invariant
                    i <= items@.len(),
                    value_json(*v) == Json::List(want),
                    want == items@.map_values(|x: &serde_json::Value| value_json(*x)),
                    out@.len() == i,
                    forall|j: int| 0 <= j < i ==> (#[trigger] out@[j])@ == want[j],
                decreases items@.len() - i,
            {
                assert(want[i as int] == value_json(*items@[i as int]));
                assert(decreases_to!(value_json(*v) => value_json(*v)->List_0));
                assert(decreases_to!(want => want[i as int]));
                let x = claim_value(items[i]);
                out.push(x);
                i = i + 1;
            }
            let r = ClaimValue::Array(out);
            assert(r@->List_0 =~= want);
            r
        },
        Shape::Object(members) => {
            let ghost want = value_json(*v)->Object_0;
            let mut out: Vec<(String, ClaimValue)> = Vec::new();
            let mut i: usize = 0;
            while i < members.len()
                invariant
                    i <= members@.len(),
                    value_json(*v) == Json::Object(want),
                    want == members@.map_values(
                        |m: (&str, &serde_json::Value)| (m.0@, value_json(*m.1)),
                    ),
                    out@.len() == i,
                    forall|j: int|
                        0 <= j < i ==> (#[trigger] out@[j]).0@ == want[j].0 && out@[j].1@
                            == want[j].1,
                decreases members@.len() - i,
            {
                let m = members[i];
                assert(want[i as int] == (m.0@, value_json(*m.1)));
                assert(decreases_to!(value_json(*v) => value_json(*v)->Object_0));
                assert(decreases_to!(want => want[i as int]));
                assert(decreases_to!(want[i as int] => want[i as int].1));
                let x = claim_value(m.1);
                out.push((m.0.to_owned(), x));
                i = i + 1;
            }
            let r = ClaimValue::Object(out);
            assert(r@->Object_0 =~= want);
            r
        },
    }
}

/// The first member of that name.
pub open spec fn first_member(members: Seq<(Seq<char>, Json)>, name: Seq<char>) -> Option<Json>
    decreases members.len(),
{
    if members.len() == 0 {
        None
    } else if members[0].0 == name {
        Some(members[0].1)
    } else {
        first_member(members.drop_first(), name)
    }
}

/// The member `name` of an object; nothing else has members.
pub open spec fn member(j: Json, name: Seq<char>) -> Option<Json> {
    match j {
        Json::Object(members) => first_member(members, name),
        _ => None,
    }
}

/// Where a walk from `j` along the member names `names` ends.
pub open spec fn walk(j: Json, names: Seq<Seq<char>>) -> Option<Json>
    decreases names.len(),
{
    if names.len() == 0 {
        Some(j)
    } else {
        match member(j, names[0]) {
            Some(inner) => walk(inner, names.drop_first()),
            None => None,
        }
    }
}

/// The value at a dotted path: `realm_access.roles` is the member `roles` of
/// the member `realm_access`.
pub open spec fn at_path(j: Json, path: Seq<char>) -> Option<Json> {
    walk(j, pieces(path, '.'))
}

/// The text at a dotted path, if there is a text there.
pub open spec fn text_at(j: Json, path: Seq<char>) -> Option<Seq<char>> {
    match at_path(j, path) {
        Some(Json::Text(t)) => Some(t),
        _ => None,
    }
}

/// The texts among `items`, in order.
pub open spec fn texts_in(items: Seq<Json>) -> Seq<Seq<char>>
    decreases items.len(),
{
    if items.len() == 0 {
        Seq::empty()
    } else {
        match items.last() {
            Json::Text(t) => texts_in(items.drop_last()).push(t),
            _ => texts_in(items.drop_last()),
        }
    }
}

/// The list of texts that `j` stands for: the texts of an array, or the words
/// of a text.
pub open spec fn text_list(j: Option<Json>) -> Seq<Seq<char>> {
    match j {
        Some(Json::List(items)) => texts_in(items),
        Some(Json::Text(t)) => words(t),
        _ => Seq::empty(),
    }
}

/// The lists at `paths`, one after the other.
pub open spec fn texts_at(j: Json, paths: Seq<Seq<char>>) -> Seq<Seq<char>> {
    paths.map_values(|p: Seq<char>| text_list(at_path(j, p))).flatten()
}

/// What an optional reference shows.
pub open spec fn seen(r: Option<&ClaimValue>) -> Option<Json> {
    match r {
        Some(v) => Some(v@),
        None => None,
    }
}

impl ClaimValue {
    /// The member `name` of an object.
    pub fn get(&self, name: &str) -> (r: Option<&ClaimValue>)
        ensures
            seen(r) == member(self@, name@),
    {
        match self {
            ClaimValue::Object(members) => {
                let ghost all = self@->Object_0;
                let mut i: usize = 0;
                assert(all.skip(0) =~= all);
                while i < members.len()
                    invariant
                        i <= members@.len(),
                        *self == ClaimValue::Object(*members),
                        all == self@->Object_0,
                        first_member(all, name@) == first_member(all.skip(i as int), name@),
                    decreases members@.len() - i,
                {
                    assert(all.skip(i as int)[0] == all[i as int]);
                    assert(all[i as int] == (members@[i as int].0@, members@[i as int].1@));
                    if same_text(members[i].0.as_str(), name) {
                        return Some(&members[i].1);
                    }
                    assert(all.skip(i as int).drop_first() =~= all.skip(i + 1));
                    i = i + 1;
                }
                None
            },
            _ => None,
        }
    }

    /// The text, if this is one.
    pub fn as_str(&self) -> (r: Option<&str>)
        ensures
            r.deep_view() == (match self@ {
                Json::Text(t) => Some(t),
                _ => None,
            }),
    {
        match self {
            ClaimValue::String(s) => Some(s.as_str()),
            _ => None,
        }
    }

    /// The truth value, if this is one.
    pub fn as_bool(&self) -> (r: Option<bool>)
        ensures
            r == (match self@ {
                Json::Bool(b) => Some(b),
                _ => None,
            }),
    {
        match self {
            ClaimValue::Bool(b) => Some(*b),
            _ => None,
        }
    }
}

/// Resolves a dotted path like `realm_access.roles` against a claim set.
pub fn resolve_json_path<'a>(value: &'a ClaimValue, path: &str) -> (r: Option<&'a ClaimValue>)
    ensures
        seen(r) == at_path(value@, path@),
{
    let segments = split_at_each(path, '.');
    let ghost names = pieces(path@, '.');
    let mut current = value;
    let mut i: usize = 0;
    assert(names.skip(0) =~= names);
    while i < segments.len()
        invariant
            i <= segments@.len(),
            segments.deep_view() == names,
            at_path(value@, path@) == walk(current@, names.skip(i as int)),
        decreases segments@.len() - i,
    {
        assert(names.skip(i as int)[0] == segments.deep_view()[i as int]);
        assert(names.skip(i as int).drop_first() =~= names.skip(i + 1));
        match current.get(segments[i]) {
            Some(inner) => {
                current = inner;
            },
            None => {
                return None;
            },
        }
        i = i + 1;
    }
    Some(current)
}

/// The text at a dotted path.
pub fn extract_string_claim(claims: &ClaimValue, path: &str) -> (r: Option<String>)
    ensures
        r.deep_view() == text_at(claims@, path@),
{
    match resolve_json_path(claims, path) {
        Some(value) => match value.as_str() {
            Some(s) => Some(s.to_owned()),
            None => None,
        },
        None => None,
    }
}

/// The texts at several dotted paths: the elements of an array that are
/// texts, the words of a text.
pub fn extract_string_list_claims(claims: &ClaimValue, paths: &[String]) -> (r: Vec<String>)
    ensures
        r.deep_view() == texts_at(claims@, paths.deep_view()),
{
    let ghost lists = paths.deep_view().map_values(
        |p: Seq<char>| text_list(at_path(claims@, p)),
    );
    let mut result: Vec<String> = Vec::new();
    let mut i: usize = 0;
    assert(lists.take(0) =~= Seq::empty());
    assert(result.deep_view() =~= lists.take(0).flatten());
    while i < paths.len()
        invariant
            i <= paths@.len(),
            lists == paths.deep_view().map_values(
                |p: Seq<char>| text_list(at_path(claims@, p)),
            ),
            result.deep_view() == lists.take(i as int).flatten(),
        decreases paths@.len() - i,
    {
        let ghost had = result.deep_view();
        proof {
            assert(lists.take(i + 1) =~= lists.take(i as int).push(lists[i as int]));
            lists.take(i as int).lemma_flatten_push(lists[i as int]);
            assert(lists[i as int] == text_list(at_path(claims@, paths@[i as int]@)));
        }
        if let Some(value) = resolve_json_path(claims, paths[i].as_str()) {
            match value {
                ClaimValue::Array(items) => {
                    let ghost all = value@->List_0;
                    let mut k: usize = 0;
                    assert(all.take(0) =~= Seq::empty());
                    assert(had + texts_in(all.take(0)) =~= had);
                    while k < items.len()
                        invariant
                            k <= items@.len(),
                            *value == ClaimValue::Array(*items),
                            all == value@->List_0,
                            result.deep_view() == had + texts_in(all.take(k as int)),
                        decreases items@.len() - k,
                    {
                        let ghost held = result.deep_view();
                        assert(all[k as int] == items@[k as int]@);
                        assert(all.take(k + 1).drop_last() =~= all.take(k as int));
                        assert(all.take(k + 1).last() == all[k as int]);
                        if let Some(s) = items[k].as_str() {
                            result.push(s.to_owned());
                            assert(result.deep_view() =~= held.push(s@));
                        }
                        assert(result.deep_view() =~= had + texts_in(all.take(k + 1)));
                        k = k + 1;
                    }
                    assert(all.take(k as int) =~= all);
                },
                ClaimValue::String(s) => {
                    let mut parts = split_words(s.as_str());
                    let ghost found = parts.deep_view();
                    result.append(&mut parts);
                    assert(result.deep_view() =~= had + found);
                },
                _ => {
                    assert(had + Seq::<Seq<char>>::empty() =~= had);
                },
            }
        } else {
            assert(had + Seq::<Seq<char>>::empty() =~= had);
        }
        i = i + 1;
    }
    assert(lists.take(i as int) =~= lists);
    result
}

/// The scopes at several dotted paths, read as any list of texts is.
pub fn extract_scope_claims(claims: &ClaimValue, paths: &[String]) -> (r: Vec<String>)
    ensures
        r.deep_view() == texts_at(claims@, paths.deep_view()),
{
    extract_string_list_claims(claims, paths)
}

// ---------------------------------------------------------------------------
// How claims are read
// ---------------------------------------------------------------------------

/// A value of the library says what its variant says.
pub proof fn values_say_what_they_hold(v: ClaimValue)
    ensures
        v is Null ==> v@ is Null,
        v matches ClaimValue::Bool(b) ==> v@ == Json::Bool(b),
        v matches ClaimValue::Number(n) ==> v@ == Json::Number(n@),
        v matches ClaimValue::String(s) ==> v@ == Json::Text(s@),
        v matches ClaimValue::Array(items) ==> (v@ matches Json::List(seen) && seen.len()
            == items@.len() && forall|i: int|
            0 <= i < seen.len() ==> (#[trigger] seen[i]) == items@[i]@),
        v matches ClaimValue::Object(members) ==> (v@ matches Json::Object(seen) && seen.len()
            == members@.len() && forall|i: int|
            0 <= i < seen.len() ==> (#[trigger] seen[i]).0 == members@[i].0@ && seen[i].1
                == members@[i].1@),
{
}

/// The member of a name is the first that is written with it; where none is,
/// and in what is no object, there is none.
pub proof fn a_member_is_the_first_of_its_name(
    members: Seq<(Seq<char>, Json)>,
    name: Seq<char>,
    value: Json,
)
    ensures
        member(Json::Object(members), name) == Some(value) <==> exists|i: int|
            0 <= i < members.len() && (#[trigger] members[i]).0 == name && members[i].1 == value && (
            forall|j: int| 0 <= j < i ==> (#[trigger] members[j]).0 != name),
        member(Json::Object(members), name) is None <==> forall|i: int|
            0 <= i < members.len() ==> (#[trigger] members[i]).0 != name,
        !(value is Object) ==> member(value, name) is None,
    decreases members.len(),
{
    if members.len() > 0 {
        let rest = members.drop_first();
        a_member_is_the_first_of_its_name(rest, name, value);
        assert(forall|i: int| 0 <= i < rest.len() ==> rest[i] == members[i + 1]);
        if members[0].0 == name {
            if members[0].1 == value {
                assert(members[0].0 == name && members[0].1 == value);
            }
        } else {
            if member(Json::Object(rest), name) == Some(value) {
                let i = choose|i: int|
                    0 <= i < rest.len() && (#[trigger] rest[i]).0 == name && rest[i].1 == value && (
                    forall|j: int| 0 <= j < i ==> (#[trigger] rest[j]).0 != name);
                assert(members[i + 1].0 == name && members[i + 1].1 == value);
                assert forall|j: int| 0 <= j < i + 1 implies (#[trigger] members[j]).0 != name by {
                    if j > 0 {
                        assert(rest[j - 1].0 != name);
                    }
                }
            }
            if exists|i: int|
                0 <= i < members.len() && (#[trigger] members[i]).0 == name && members[i].1 == value
                    && (forall|j: int| 0 <= j < i ==> (#[trigger] members[j]).0 != name) {
                let i = choose|i: int|
                    0 <= i < members.len() && (#[trigger] members[i]).0 == name && members[i].1
                        == value && (forall|j: int|
                        0 <= j < i ==> (#[trigger] members[j]).0 != name);
                assert(rest[i - 1].0 == name && rest[i - 1].1 == value);
                assert forall|j: int| 0 <= j < i - 1 implies (#[trigger] rest[j]).0 != name by {
                    assert(members[j + 1].0 != name);
                }
            }
            if forall|i: int| 0 <= i < rest.len() ==> (#[trigger] rest[i]).0 != name {
                assert forall|i: int| 0 <= i < members.len() implies (#[trigger] members[i]).0
                    != name by {
                    if i > 0 {
                        assert(rest[i - 1].0 != name);
                    }
                }
            }
            if forall|i: int| 0 <= i < members.len() ==> (#[trigger] members[i]).0 != name {
                assert forall|i: int| 0 <= i < rest.len() implies (#[trigger] rest[i]).0
                    != name by {
                    assert(members[i + 1].0 != name);
                }
            }
        }
    }
}

/// A path without a dot leads to the member of that name, and one with a dot
/// on from there.
pub proof fn paths_go_down_member_by_member(j: Json, name: Seq<char>, rest: Seq<char>)
    requires
        !name.contains('.'),
    ensures
        at_path(j, name) == member(j, name),
        at_path(j, name.push('.') + rest) == (match member(j, name) {
            Some(inner) => at_path(inner, rest),
            None => None,
        }),
{
    one_piece(name, '.');
    pieces_of_both_sides(name, rest, '.');
    let single = seq![name];
    assert(single.drop_first() =~= Seq::empty());
    reveal_with_fuel(walk, 2);
    let both = single + pieces(rest, '.');
    assert(both[0] == name);
    assert(both.drop_first() =~= pieces(rest, '.'));
}

/// The text at a path is what is there, if that is a text.
pub proof fn the_text_at_a_path_is_there(j: Json, path: Seq<char>, text: Seq<char>)
    ensures
        text_at(j, path) == Some(text) <==> at_path(j, path) == Some(Json::Text(text)),
{
}

/// Of the elements of an array, the texts are read, each once and in order.
pub proof fn texts_of_an_array(items: Seq<Json>, last: Json)
    ensures
        texts_in(Seq::empty()).len() == 0,
        last matches Json::Text(t) ==> texts_in(items.push(last)) == texts_in(items).push(t),
        !(last is Text) ==> texts_in(items.push(last)) == texts_in(items),
{
    assert(items.push(last).drop_last() =~= items);
}

/// The lists at several paths come one after the other: an array as its
/// texts, a text as its words, and anything else as nothing.
pub proof fn lists_come_one_after_the_other(j: Json, paths: Seq<Seq<char>>, last: Seq<char>)
    ensures
        texts_at(j, Seq::empty()).len() == 0,
        texts_at(j, paths.push(last)) == texts_at(j, paths) + (match at_path(j, last) {
            Some(Json::List(items)) => texts_in(items),
            Some(Json::Text(t)) => words(t),
            _ => Seq::empty(),
        }),
{
    let list = |p: Seq<char>| text_list(at_path(j, p));
    assert(Seq::<Seq<char>>::empty().map_values(list) =~= Seq::<Seq<Seq<char>>>::empty());
    assert(paths.push(last).map_values(list) =~= paths.map_values(list).push(list(last)));
    paths.map_values(list).lemma_flatten_push(list(last));
}

/// An array holds a text exactly where its texts do.
pub proof fn an_array_holds_its_texts(items: Seq<Json>, t: Seq<char>)
    ensures
        texts_in(items).contains(t) <==> items.contains(Json::Text(t)),
    decreases items.len(),
{
    if items.len() > 0 {
        let init = items.drop_last();
        an_array_holds_its_texts(init, t);
        assert(items =~= init.push(items.last()));
        let held = texts_in(init);
        if let Json::Text(last) = items.last() {
            assert(held.push(last)[held.len() as int] == last);
            if held.contains(t) {
                let i = choose|i: int| 0 <= i < held.len() && held[i] == t;
                assert(held.push(last)[i] == t);
            }
        }
        if init.contains(Json::Text(t)) {
            let i = choose|i: int| 0 <= i < init.len() && init[i] == Json::Text(t);
            assert(items[i] == Json::Text(t));
        }
        if items.contains(Json::Text(t)) {
            let i = choose|i: int| 0 <= i < items.len() && items[i] == Json::Text(t);
            if i < init.len() {
                assert(init[i] == Json::Text(t));
            } else {
                assert(items.last() == Json::Text(t));
            }
        }
        if items.last() == Json::Text(t) {
            assert(items[items.len() - 1] == Json::Text(t));
        }
    }
}

/// Whether a value names a text: as an element of an array, or as a word of a
/// text.
pub open spec fn names_text(value: Option<Json>, t: Seq<char>) -> bool {
    match value {
        Some(Json::List(items)) => items.contains(Json::Text(t)),
        Some(Json::Text(text)) => words(text).contains(t),
        _ => false,
    }
}

/// A text is read exactly where the value at one of the paths names it: with
/// no path there is none.
pub proof fn what_is_read_is_named_at_a_path(j: Json, paths: Seq<Seq<char>>, t: Seq<char>)
    ensures
        texts_at(j, paths).contains(t) <==> exists|i: int|
            0 <= i < paths.len() && names_text(at_path(j, #[trigger] paths[i]), t),
        paths.len() == 0 ==> texts_at(j, paths).len() == 0,
    decreases paths.len(),
{
    if paths.len() == 0 {
        assert(paths =~= Seq::empty());
        lists_come_one_after_the_other(j, paths, Seq::empty());
    } else {
        let init = paths.drop_last();
        let last = paths.last();
        what_is_read_is_named_at_a_path(j, init, t);
        assert(paths =~= init.push(last));
        lists_come_one_after_the_other(j, init, last);
        let had = texts_at(j, init);
        let more = text_list(at_path(j, last));
        if let Some(Json::List(items)) = at_path(j, last) {
            an_array_holds_its_texts(items, t);
        }
        assert(more.contains(t) == names_text(at_path(j, last), t));
        assert(texts_at(j, paths) == had + more);
        if had.contains(t) {
            let i = choose|i: int| 0 <= i < had.len() && had[i] == t;
            assert((had + more)[i] == t);
            let k = choose|k: int|
                0 <= k < init.len() && names_text(at_path(j, #[trigger] init[k]), t);
            assert(paths[k] == init[k]);
        }
        if more.contains(t) {
            let i = choose|i: int| 0 <= i < more.len() && more[i] == t;
            assert((had + more)[had.len() + i] == t);
            assert(paths[paths.len() - 1] == last);
        }
        if exists|i: int| 0 <= i < paths.len() && names_text(at_path(j, #[trigger] paths[i]), t) {
            let k = choose|k: int|
                0 <= k < paths.len() && names_text(at_path(j, #[trigger] paths[k]), t);
            if k < init.len() {
                assert(init[k] == paths[k]);
            }
        }
        if (had + more).contains(t) {
            let i = choose|i: int| 0 <= i < (had + more).len() && (had + more)[i] == t;
            if i < had.len() {
                assert(had[i] == t);
            } else {
                assert(more[i - had.len()] == t);
            }
        }
    }
}

} // verus!
