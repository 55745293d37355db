//! JSON as the commands of Herdr print it.

use vstd::prelude::*;

use crate::outcome::{held, outcome, verdict};
use crate::text::{join, joined, same_text, words};

verus! {

/// Model of [`JsonValue`].
pub enum JsonTree {
    Null,
    Number,
    Bool(bool),
    Text(Seq<char>),
    Array(Seq<JsonTree>),
    Object(Seq<(Seq<char>, JsonTree)>),
}

/// A JSON value. Of a number nothing is kept: no decision depends on one.
#[derive(Debug)]
pub enum JsonValue {
    Null,
    Number,
    Bool(bool),
    Text(String),
    Array(Vec<JsonValue>),
    /// The members, each with its name.
    Object(Vec<(String, JsonValue)>),
}

impl View for JsonValue {
    type V = JsonTree;

    open spec fn view(&self) -> JsonTree {
        self.tree()
    }
}

impl JsonValue {
    /// The model of this value.
    pub open spec fn tree(self) -> JsonTree
        decreases self,
    {
        match self {
            JsonValue::Null => JsonTree::Null,
            JsonValue::Number => JsonTree::Number,
            JsonValue::Bool(b) => JsonTree::Bool(b),
            JsonValue::Text(text) => JsonTree::Text(text@),
            JsonValue::Array(items) => JsonTree::Array(
                Seq::new(
                    items@.len(),
                    |i: int|
                        if 0 <= i < items@.len() {
                            items@[i].tree()
                        } else {
                            JsonTree::Null
                        },
                ),
            ),
            JsonValue::Object(members) => JsonTree::Object(
                Seq::new(
                    members@.len(),
                    |i: int|
                        if 0 <= i < members@.len() {
                            (members@[i].0@, members@[i].1.tree())
                        } else {
                            (Seq::empty(), JsonTree::Null)
                        },
                ),
            ),
        }
    }
}

/// The value type of `serde_json`, opaque here.
#[verifier::external_type_specification]
#[verifier::external_body]
pub struct ExternalJsonValue(serde_json::Value);

/// What a `serde_json::Value` holds.
pub uninterp spec fn json_contents(value: serde_json::Value) -> JsonTree;

/// What `serde_json::from_str` reads from a text, or the message of its error.
pub uninterp spec fn json_reading(text: Seq<char>) -> Result<JsonTree, Seq<char>>;

/// Calls `serde_json::from_str` for a `serde_json::Value`. What the value holds, or the message of
/// the error, is a function of the text alone.
#[verifier::external_body]
fn parse_value(text: &str) -> (r: Result<serde_json::Value, String>)
    ensures
        (match r {
            Ok(value) => Ok(json_contents(value)),
            Err(message) => Err(message@),
        }) == json_reading(text@),
{
    serde_json::from_str(text).map_err(|error| error.to_string())
}

/// One layer of a `serde_json::Value`, the values below still closed.
enum JsonLayer {
    Null,
    Number,
    Bool(bool),
    Text(String),
    Array(Vec<serde_json::Value>),
    Object(Vec<(String, serde_json::Value)>),
}

/// What a layer holds.
spec fn layer_contents(layer: JsonLayer) -> JsonTree {
    match layer {
        JsonLayer::Null => JsonTree::Null,
        JsonLayer::Number => JsonTree::Number,
        JsonLayer::Bool(b) => JsonTree::Bool(b),
        JsonLayer::Text(text) => JsonTree::Text(text@),
        JsonLayer::Array(items) => JsonTree::Array(
            items@.map_values(|item: serde_json::Value| json_contents(item)),
        ),
        JsonLayer::Object(members) => JsonTree::Object(
            members@.map_values(
                |member: (String, serde_json::Value)| (member.0@, json_contents(member.1)),
            ),
        ),
    }
}

/// Takes the outermost layer off a `serde_json::Value`: its variant, with what the variant holds in
/// the order in which `serde_json::Map` hands its members out.
#[verifier::external_body]
fn open_value(value: serde_json::Value) -> (r: JsonLayer)
    ensures
        layer_contents(r) == json_contents(value),
{
    match value {
        serde_json::Value::Null => JsonLayer::Null,
        serde_json::Value::Number(_) => JsonLayer::Number,
        serde_json::Value::Bool(b) => JsonLayer::Bool(b),
        serde_json::Value::String(text) => JsonLayer::Text(text),
        serde_json::Value::Array(items) => JsonLayer::Array(items),
        serde_json::Value::Object(members) => JsonLayer::Object(members.into_iter().collect()),
    }
}

/// The same value, opened all the way down.
fn from_value(value: serde_json::Value) -> (r: JsonValue)
    ensures
        r@ == json_contents(value),
    decreases json_contents(value),
{
    let ghost whole = json_contents(value);
    match open_value(value) {
        JsonLayer::Null => JsonValue::Null,
        JsonLayer::Number => JsonValue::Number,
        JsonLayer::Bool(b) => JsonValue::Bool(b),
        JsonLayer::Text(text) => JsonValue::Text(text),
        JsonLayer::Array(items) => {
            let ghost all = items@;
            let mut rest = items;
            let mut out: Vec<JsonValue> = Vec::new();
            while rest.len() > 0
                invariant
                    whole == JsonTree::Array(
                        all.map_values(|item: serde_json::Value| json_contents(item)),
                    ),
                    whole == json_contents(value),
                    out@.len() + rest@.len() == all.len(),
                    rest@ == all.skip(out@.len() as int),
                    forall|i: int|
                        0 <= i < out@.len() ==> (#[trigger] out@[i])@ == json_contents(all[i]),
                decreases rest@.len(),
            {
                let item = rest.remove(0);
                proof {
                    let children = whole->Array_0;
                    assert(json_contents(item) == children[out@.len() as int]);
                    assert(decreases_to!(whole => children[out@.len() as int]));
                }
                out.push(from_value(item));
            }
            let r = JsonValue::Array(out);
            assert(r@->Array_0 =~= whole->Array_0);
            r
        },
        JsonLayer::Object(members) => {
            let ghost all = members@;
            let mut rest = members;
            let mut out: Vec<(String, JsonValue)> = Vec::new();
            while rest.len() > 0
                invariant
                    whole == JsonTree::Object(
                        all.map_values(
                            |member: (String, serde_json::Value)|
                                (member.0@, json_contents(member.1)),
                        ),
                    ),
                    whole == json_contents(value),
                    out@.len() + rest@.len() == all.len(),
                    rest@ == all.skip(out@.len() as int),
                    forall|i: int|
                        0 <= i < out@.len() ==> (#[trigger] out@[i]).0@ == all[i].0@ && out@[i].1@
                            == json_contents(all[i].1),
                decreases rest@.len(),
            {
                let (name, child) = rest.remove(0);
                proof {
                    let children = whole->Object_0;
                    assert(json_contents(child) == children[out@.len() as int].1);
                    assert(decreases_to!(whole => children[out@.len() as int].1));
                }
                out.push((name, from_value(child)));
            }
            let r = JsonValue::Object(out);
            assert(r@->Object_0 =~= whole->Object_0);
            r
        },
    }
}

/// Reads a text as JSON.
pub fn parse_json(text: &str) -> (r: Result<JsonValue, String>)
    ensures
        outcome(r) == json_reading(text@),
{
    match parse_value(text) {
        Ok(value) => Ok(from_value(value)),
        Err(message) => Err(message),
    }
}

/// The value under `name` among the members of an object, if there is one.
pub open spec fn member_of(members: Seq<(Seq<char>, JsonTree)>, name: Seq<char>) -> Option<JsonTree>
    decreases members.len(),
{
    if members.len() == 0 {
        None
    } else if members[0].0 == name {
        Some(members[0].1)
    } else {
        member_of(members.skip(1), name)
    }
}

/// What a value holds under `name`, if it is an object and holds something there.
pub open spec fn member(tree: JsonTree, name: Seq<char>) -> Option<JsonTree> {
    match tree {
        JsonTree::Object(members) => member_of(members, name),
        _ => None,
    }
}

/// The text that an object holds under one of the names, the first of them that has a text.
pub open spec fn text_under(
    members: Seq<(Seq<char>, JsonTree)>,
    keys: Seq<Seq<char>>,
) -> Option<Seq<char>>
    decreases keys.len(),
{
    if keys.len() == 0 {
        None
    } else {
        match member_of(members, keys[0]) {
            Some(JsonTree::Text(text)) => Some(text),
            _ => text_under(members, keys.skip(1)),
        }
    }
}

/// The first text under one of the names: that of an object itself before those of the values
/// below it, and these in order.
pub open spec fn found_text(tree: JsonTree, keys: Seq<Seq<char>>) -> Option<Seq<char>>
    decreases tree,
{
    match tree {
        JsonTree::Object(members) => match text_under(members, keys) {
            Some(text) => Some(text),
            None => found_in_members(members, keys),
        },
        JsonTree::Array(items) => found_in_items(items, keys),
        _ => None,
    }
}

/// The first text under one of the names in a row of values.
pub open spec fn found_in_items(items: Seq<JsonTree>, keys: Seq<Seq<char>>) -> Option<Seq<char>>
    decreases items,
{
    if items.len() == 0 {
        None
    } else {
        match found_text(items[0], keys) {
            Some(text) => Some(text),
            None => found_in_items(items.skip(1), keys),
        }
    }
}

/// The first text under one of the names in the values of a row of members.
pub open spec fn found_in_members(
    members: Seq<(Seq<char>, JsonTree)>,
    keys: Seq<Seq<char>>,
) -> Option<Seq<char>>
    decreases members,
{
    if members.len() == 0 {
        None
    } else {
        match found_text(members[0].1, keys) {
            Some(text) => Some(text),
            None => found_in_members(members.skip(1), keys),
        }
    }
}

/// Whether some object, at any depth, holds exactly this text under one of the names.
pub open spec fn holds_text(tree: JsonTree, keys: Seq<Seq<char>>, expected: Seq<char>) -> bool
    decreases tree,
{
    match tree {
        JsonTree::Object(members) => {
            ||| exists|k: int|
                0 <= k < keys.len() && member_of(members, #[trigger] keys[k]) == Some(
                    JsonTree::Text(expected),
                )
            ||| exists|i: int|
                0 <= i < members.len() && holds_text((#[trigger] members[i]).1, keys, expected)
        },
        JsonTree::Array(items) => exists|i: int|
            0 <= i < items.len() && holds_text(#[trigger] items[i], keys, expected),
        _ => false,
    }
}

proof fn lemma_member_place(members: Seq<(Seq<char>, JsonTree)>, name: Seq<char>, k: int)
    requires
        0 <= k <= members.len(),
        forall|j: int| 0 <= j < k ==> (#[trigger] members[j]).0 != name,
        k < members.len() ==> members[k].0 == name,
    ensures
        member_of(members, name) == (if k < members.len() {
            Some(members[k].1)
        } else {
            None
        }),
    decreases k,
{
    if k > 0 {
        assert(members[0].0 != name);
        lemma_member_place(members.skip(1), name, k - 1);
    }
}

/// The value under `name` among the members of an object.
fn find_member<'a>(members: &'a Vec<(String, JsonValue)>, name: &str) -> (r: Option<&'a JsonValue>)
    ensures
        (match r {
            Some(value) => Some(value@),
            None => None,
        }) == member_of(JsonValue::Object(*members)@->Object_0, name@),
{
    let ghost models = JsonValue::Object(*members)@->Object_0;
    let mut i: usize = 0;
    while i < members.len()
        invariant
            i <= members@.len(),
            models == JsonValue::Object(*members)@->Object_0,
            models.len() == members@.len(),
            forall|j: int| 0 <= j < i ==> (#[trigger] models[j]).0 != name@,
        decreases members@.len() - i,
    {
        assert(models[i as int] == (members@[i as int].0@, members@[i as int].1@));
        if same_text(members[i].0.as_str(), name) {
            proof {
                lemma_member_place(models, name@, i as int);
            }
            return Some(&members[i].1);
        }
        i += 1;
    }
    proof {
        lemma_member_place(models, name@, i as int);
    }
    None
}

impl JsonValue {
    /// What the value holds under `name`, if it is an object and holds something there.
    pub fn get(&self, name: &str) -> (r: Option<&JsonValue>)
        ensures
            (match r {
                Some(value) => Some(value@),
                None => None,
            }) == member(self@, name@),
    {
        match self {
            JsonValue::Object(members) => find_member(members, name),
            _ => None,
        }
    }

    /// The text that this value is, if it is one.
    pub fn as_str(&self) -> (r: Option<&str>)
        ensures
            (match r {
                Some(text) => Some(JsonTree::Text(text@)),
                None => None,
            }) == (if self@ is Text {
                Some(self@)
            } else {
                None
            }),
    {
        match self {
            JsonValue::Text(text) => Some(text.as_str()),
            _ => None,
        }
    }

    /// The truth value that this value is, if it is one.
    pub fn as_bool(&self) -> (r: Option<bool>)
        ensures
            r == (match self@ {
                JsonTree::Bool(b) => Some(b),
                _ => None,
            }),
    {
        match self {
            JsonValue::Bool(b) => Some(*b),
            _ => None,
        }
    }
}

/// The text under one of the names among the members of an object.
fn find_text_under<'a>(members: &'a Vec<(String, JsonValue)>, keys: &[&str]) -> (r: Option<&'a str>)
    ensures
        held(r) == text_under(JsonValue::Object(*members)@->Object_0, words(keys@)),
{
    let ghost models = JsonValue::Object(*members)@->Object_0;
    let ghost names = words(keys@);
    let mut k: usize = 0;
    assert(names.skip(0) =~= names);
    while k < keys.len()
        invariant
            k <= keys@.len(),
            names == words(keys@),
            models == JsonValue::Object(*members)@->Object_0,
            text_under(models, names) == text_under(models, names.skip(k as int)),
        decreases keys@.len() - k,
    {
        assert(names.skip(k as int)[0] == keys@[k as int]@);
        assert(names.skip(k as int).skip(1) =~= names.skip(k + 1));
        let key = keys[k];
        if let Some(value) = find_member(members, key) {
            if let Some(text) = value.as_str() {
                return Some(text);
            }
        }
        k += 1;
    }
    None
}

/// The first text under one of the names.
pub fn find_json_string<'a>(value: &'a JsonValue, keys: &[&str]) -> (r: Option<&'a str>)
    ensures
        held(r) == found_text(value@, words(keys@)),
    decreases value,
{
    let ghost names = words(keys@);
    match value {
        JsonValue::Object(members) => {
            if let Some(text) = find_text_under(members, keys) {
                return Some(text);
            }
            let ghost models = value@->Object_0;
            let mut i: usize = 0;
            assert(models.skip(0) =~= models);
            while i < members.len()
                invariant
                    i <= members@.len(),
                    *value == JsonValue::Object(*members),
                    names == words(keys@),
                    models == value@->Object_0,
                    models.len() == members@.len(),
                    found_text(value@, names) == found_in_members(models.skip(i as int), names),
                decreases members@.len() - i,
            {
                assert(models.skip(i as int)[0].1 == members@[i as int].1@);
                assert(models.skip(i as int).skip(1) =~= models.skip(i + 1));
                let child = &members[i].1;
                assert(decreases_to!(*value => members@[i as int].1));
                if let Some(text) = find_json_string(child, keys) {
                    return Some(text);
                }
                i += 1;
            }
            None
        },
        JsonValue::Array(items) => {
            let ghost models = value@->Array_0;
            let mut i: usize = 0;
            assert(models.skip(0) =~= models);
            while i < items.len()
                invariant
                    i <= items@.len(),
                    *value == JsonValue::Array(*items),
                    names == words(keys@),
                    models == value@->Array_0,
                    models.len() == items@.len(),
                    found_text(value@, names) == found_in_items(models.skip(i as int), names),
                decreases items@.len() - i,
            {
                assert(models.skip(i as int)[0] == items@[i as int]@);
                assert(models.skip(i as int).skip(1) =~= models.skip(i + 1));
                let child = &items[i];
                assert(decreases_to!(*value => items@[i as int]));
                if let Some(text) = find_json_string(child, keys) {
                    return Some(text);
                }
                i += 1;
            }
            None
        },
        _ => None,
    }
}

/// Whether an object holds exactly this text under one of the names.
fn names_text(members: &Vec<(String, JsonValue)>, keys: &[&str], expected: &str) -> (r: bool)
    ensures
        r == exists|k: int|
            0 <= k < words(keys@).len() && member_of(
                JsonValue::Object(*members)@->Object_0,
                #[trigger] words(keys@)[k],
            ) == Some(JsonTree::Text(expected@)),
{
    let ghost models = JsonValue::Object(*members)@->Object_0;
    let ghost names = words(keys@);
    let mut k: usize = 0;
    while k < keys.len()
        invariant
            k <= keys@.len(),
            names == words(keys@),
            models == JsonValue::Object(*members)@->Object_0,
            forall|j: int|
                0 <= j < k ==> member_of(models, #[trigger] names[j]) != Some(
                    JsonTree::Text(expected@),
                ),
        decreases keys@.len() - k,
    {
        assert(names[k as int] == keys@[k as int]@);
        let key = keys[k];
        if let Some(value) = find_member(members, key) {
            if let Some(text) = value.as_str() {
                if same_text(text, expected) {
                    return true;
                }
            }
        }
        k += 1;
    }
    false
}

/// Whether some object, at any depth, holds exactly this text under one of the names.
pub fn json_contains_exact_string(value: &JsonValue, keys: &[&str], expected: &str) -> (r: bool)
    ensures
        r == holds_text(value@, words(keys@), expected@),
    decreases value,
{
    let ghost names = words(keys@);
    match value {
        JsonValue::Object(members) => {
            if names_text(members, keys, expected) {
                return true;
            }
            let ghost models = value@->Object_0;
            let mut i: usize = 0;
            while i < members.len()
                invariant
                    i <= members@.len(),
                    *value == JsonValue::Object(*members),
                    names == words(keys@),
                    models == value@->Object_0,
                    value@ == JsonTree::Object(models),
                    models.len() == members@.len(),
                    forall|j: int|
                        0 <= j < i ==> !holds_text((#[trigger] models[j]).1, names, expected@),
                decreases members@.len() - i,
            {
                assert(models[i as int].1 == members@[i as int].1@);
                let child = &members[i].1;
                assert(decreases_to!(*value => members@[i as int].1));
                if json_contains_exact_string(child, keys, expected) {
                    return true;
                }
                i += 1;
            }
            false
        },
        JsonValue::Array(items) => {
            let ghost models = value@->Array_0;
            let mut i: usize = 0;
            while i < items.len()
                invariant
                    i <= items@.len(),
                    *value == JsonValue::Array(*items),
                    names == words(keys@),
                    models == value@->Array_0,
                    value@ == JsonTree::Array(models),
                    models.len() == items@.len(),
                    forall|j: int| 0 <= j < i ==> !holds_text(#[trigger] models[j], names, expected@),
                decreases items@.len() - i,
            {
                assert(models[i as int] == items@[i as int]@);
                let child = &items[i];
                assert(decreases_to!(*value => items@[i as int]));
                if json_contains_exact_string(child, keys, expected) {
                    return true;
                }
                i += 1;
            }
            false
        },
        _ => false,
    }
}

/// The text that a response owes under one of the names, or what it left out.
pub open spec fn required_text(tree: JsonTree, keys: Seq<Seq<char>>) -> Result<
    Seq<char>,
    Seq<char>,
> {
    match found_text(tree, keys) {
        Some(text) => Ok(text),
        None => Err("Herdr response omitted required field "@ + joined(keys, " or "@)),
    }
}

/// The text that a response owes under one of the names.
pub fn json_required_string(value: &JsonValue, keys: &[&str]) -> (r: Result<String, String>)
    ensures
        outcome(r) == required_text(value@, words(keys@)),
{
    match find_json_string(value, keys) {
        Some(text) => Ok(text.to_owned()),
        None => Err(
            "Herdr response omitted required field ".to_owned().concat(join(keys, " or ").as_str()),
        ),
    }
}

/// Why a response does not prove a text, if it does not: the first text under one of the names has
/// to be this one.
pub open spec fn unproved_text(
    tree: JsonTree,
    keys: Seq<Seq<char>>,
    expected: Seq<char>,
) -> Option<Seq<char>> {
    if found_text(tree, keys) == Some(expected) {
        None
    } else {
        Some("Herdr response does not prove exact "@ + joined(keys, " or "@))
    }
}

/// Whether the first text under one of the names is exactly this one.
pub fn json_has_exact_string(value: &JsonValue, keys: &[&str], expected: &str) -> (r: Result<
    (),
    String,
>)
    ensures
        outcome(r) == verdict(unproved_text(value@, words(keys@), expected@)),
{
    if let Some(actual) = find_json_string(value, keys) {
        if same_text(actual, expected) {
            return Ok(());
        }
    }
    Err("Herdr response does not prove exact ".to_owned().concat(join(keys, " or ").as_str()))
}

proof fn lemma_text_under_is_named(
    members: Seq<(Seq<char>, JsonTree)>,
    keys: Seq<Seq<char>>,
)
    ensures
        text_under(members, keys) matches Some(text) ==> exists|k: int|
            0 <= k < keys.len() && member_of(members, #[trigger] keys[k]) == Some(
                JsonTree::Text(text),
            ),
        text_under(members, keys) is None ==> forall|k: int|
            0 <= k < keys.len() ==> !(member_of(members, #[trigger] keys[k]) matches Some(
                JsonTree::Text(_),
            )),
    decreases keys.len(),
{
    if keys.len() > 0 {
        let rest = keys.skip(1);
        lemma_text_under_is_named(members, rest);
        match text_under(members, rest) {
            Some(text) => {
                let k = choose|k: int|
                    0 <= k < rest.len() && member_of(members, #[trigger] rest[k]) == Some(
                        JsonTree::Text(text),
                    );
                assert(keys[k + 1] == rest[k]);
            },
            None => {
                assert forall|k: int| 0 <= k < keys.len() && text_under(members, keys) is None implies !(
                member_of(members, #[trigger] keys[k]) matches Some(JsonTree::Text(_))) by {
                    if k > 0 {
                        assert(keys[k] == rest[k - 1]);
                    }
                }
            },
        }
    }
}

proof fn lemma_found_in_items(items: Seq<JsonTree>, keys: Seq<Seq<char>>)
    ensures
        found_in_items(items, keys) matches Some(text) ==> exists|i: int|
            0 <= i < items.len() && holds_text(#[trigger] items[i], keys, text),
        found_in_items(items, keys) is None ==> forall|i: int, text: Seq<char>|
            0 <= i < items.len() ==> !#[trigger] holds_text(items[i], keys, text),
    decreases items,
{
    if items.len() > 0 {
        let rest = items.skip(1);
        assert(decreases_to!(items => items[0]));
        found_text_is_held(items[0], keys);
        lemma_found_in_items(rest, keys);
        if found_text(items[0], keys) is None {
            match found_in_items(rest, keys) {
                Some(text) => {
                    let i = choose|i: int|
                        0 <= i < rest.len() && holds_text(#[trigger] rest[i], keys, text);
                    assert(items[i + 1] == rest[i]);
                },
                None => {
                    assert forall|i: int, text: Seq<char>| 0 <= i < items.len() implies !#[trigger] holds_text(
                        items[i],
                        keys,
                        text,
                    ) by {
                        if i > 0 {
                            assert(items[i] == rest[i - 1]);
                        }
                    }
                },
            }
        } else {
            assert(holds_text(items[0], keys, found_text(items[0], keys)->0));
        }
    }
}

proof fn lemma_found_in_members(members: Seq<(Seq<char>, JsonTree)>, keys: Seq<Seq<char>>)
    ensures
        found_in_members(members, keys) matches Some(text) ==> exists|i: int|
            0 <= i < members.len() && holds_text((#[trigger] members[i]).1, keys, text),
        found_in_members(members, keys) is None ==> forall|i: int, text: Seq<char>|
            0 <= i < members.len() ==> !#[trigger] holds_text(members[i].1, keys, text),
    decreases members,
{
    if members.len() > 0 {
        let rest = members.skip(1);
        assert(decreases_to!(members => members[0].1));
        found_text_is_held(members[0].1, keys);
        lemma_found_in_members(rest, keys);
        if found_text(members[0].1, keys) is None {
            match found_in_members(rest, keys) {
                Some(text) => {
                    let i = choose|i: int|
                        0 <= i < rest.len() && holds_text((#[trigger] rest[i]).1, keys, text);
                    assert(members[i + 1] == rest[i]);
                },
                None => {
                    assert forall|i: int, text: Seq<char>| 0 <= i < members.len() implies !#[trigger] holds_text(
                        members[i].1,
                        keys,
                        text,
                    ) by {
                        if i > 0 {
                            assert(members[i] == rest[i - 1]);
                        }
                    }
                },
            }
        } else {
            assert(holds_text(members[0].1, keys, found_text(members[0].1, keys)->0));
        }
    }
}

/// The two ways to search a response agree: the first text that is found is one that the response
/// holds, and where none is found the response holds no text under the names at all.
pub proof fn found_text_is_held(tree: JsonTree, keys: Seq<Seq<char>>)
    ensures
        found_text(tree, keys) matches Some(text) ==> holds_text(tree, keys, text),
        forall|text: Seq<char>| #[trigger]
            holds_text(tree, keys, text) ==> found_text(tree, keys) is Some,
    decreases tree,
{
    match tree {
        JsonTree::Object(members) => {
            lemma_text_under_is_named(members, keys);
            assert(decreases_to!(tree => members));
            lemma_found_in_members(members, keys);
            assert forall|text: Seq<char>| #[trigger] holds_text(tree, keys, text) implies found_text(
                tree,
                keys,
            ) is Some by {
                if text_under(members, keys) is None {
                    let i = choose|i: int|
                        0 <= i < members.len() && holds_text((#[trigger] members[i]).1, keys, text);
                    assert(holds_text(members[i].1, keys, text));
                }
            }
        },
        JsonTree::Array(items) => {
            assert(decreases_to!(tree => items));
            lemma_found_in_items(items, keys);
            assert forall|text: Seq<char>| #[trigger] holds_text(tree, keys, text) implies found_text(
                tree,
                keys,
            ) is Some by {
                let i = choose|i: int|
                    0 <= i < items.len() && holds_text(#[trigger] items[i], keys, text);
                assert(holds_text(items[i], keys, text));
            }
        },
        _ => {},
    }
}

/// What stands under a name in an object is the first member of that name, and nothing where no member
/// has it or the value is no object.
pub proof fn member_is_the_first_of_its_name(
    members: Seq<(Seq<char>, JsonTree)>,
    name: Seq<char>,
    i: int,
)
    requires
        0 <= i <= members.len(),
        forall|j: int| 0 <= j < i ==> (#[trigger] members[j]).0 != name,
    ensures
        i < members.len() && members[i].0 == name ==> member(JsonTree::Object(members), name) == Some(
            members[i].1,
        ),
        i == members.len() ==> member(JsonTree::Object(members), name) is None,
        forall|tree: JsonTree| !(tree is Object) ==> (#[trigger] member(tree, name)) is None,
{
    if i < members.len() ==> members[i].0 == name {
        lemma_member_place(members, name, i);
    }
}

/// Where a response holds a text: in an object under one of the names, as the member of that name, or
/// anywhere below an object or in an array; nowhere else.
pub proof fn text_is_held_where_it_stands(tree: JsonTree, keys: Seq<Seq<char>>, text: Seq<char>)
    ensures
        tree matches JsonTree::Object(members) ==> (holds_text(tree, keys, text) <==> {
            ||| exists|k: int|
                0 <= k < keys.len() && member(tree, #[trigger] keys[k]) == Some(JsonTree::Text(text))
            ||| exists|i: int|
                0 <= i < members.len() && holds_text((#[trigger] members[i]).1, keys, text)
        }),
        tree matches JsonTree::Array(items) ==> (holds_text(tree, keys, text) <==> exists|i: int|
            0 <= i < items.len() && holds_text(#[trigger] items[i], keys, text)),
        !(tree is Object) && !(tree is Array) ==> !holds_text(tree, keys, text),
{
    if tree is Object {
        let members = tree->Object_0;
        if exists|k: int|
            0 <= k < keys.len() && member(tree, #[trigger] keys[k]) == Some(JsonTree::Text(text)) {
            let k = choose|k: int|
                0 <= k < keys.len() && member(tree, #[trigger] keys[k]) == Some(
                    JsonTree::Text(text),
                );
            assert(member_of(members, keys[k]) == Some(JsonTree::Text(text)));
        }
        if exists|k: int|
            0 <= k < keys.len() && member_of(members, #[trigger] keys[k]) == Some(
                JsonTree::Text(text),
            ) {
            let k = choose|k: int|
                0 <= k < keys.len() && member_of(members, #[trigger] keys[k]) == Some(
                    JsonTree::Text(text),
                );
            assert(member(tree, keys[k]) == Some(JsonTree::Text(text)));
        }
    }
}

proof fn lemma_first_name(members: Seq<(Seq<char>, JsonTree)>, keys: Seq<Seq<char>>, k: int)
    requires
        0 <= k <= keys.len(),
        forall|j: int|
            0 <= j < k ==> !(member_of(members, #[trigger] keys[j]) matches Some(JsonTree::Text(_))),
        k < keys.len() ==> (member_of(members, keys[k]) matches Some(JsonTree::Text(_))),
    ensures
        k < keys.len() ==> (member_of(members, keys[k]) matches Some(JsonTree::Text(text))
            && text_under(members, keys) == Some(text)),
        k == keys.len() ==> text_under(members, keys) is None,
    decreases k,
{
    if k > 0 {
        assert(!(member_of(members, keys[0]) matches Some(JsonTree::Text(_))));
        let rest = keys.skip(1);
        assert forall|j: int| 0 <= j < k - 1 implies !(member_of(members, #[trigger] rest[j]) matches Some(
            JsonTree::Text(_),
        )) by {
            assert(rest[j] == keys[j + 1]);
        }
        lemma_first_name(members, rest, k - 1);
    }
}

/// In an object the names are tried in order, and the first under which a text stands gives it.
pub proof fn earlier_name_is_found_first(
    members: Seq<(Seq<char>, JsonTree)>,
    keys: Seq<Seq<char>>,
    k: int,
    text: Seq<char>,
)
    requires
        0 <= k < keys.len(),
        member(JsonTree::Object(members), keys[k]) == Some(JsonTree::Text(text)),
        forall|j: int|
            0 <= j < k ==> !(member(JsonTree::Object(members), #[trigger] keys[j]) matches Some(
                JsonTree::Text(_),
            )),
    ensures
        found_text(JsonTree::Object(members), keys) == Some(text),
{
    assert forall|j: int| 0 <= j < k implies !(member_of(members, #[trigger] keys[j]) matches Some(
        JsonTree::Text(_),
    )) by {
        assert(!(member(JsonTree::Object(members), keys[j]) matches Some(JsonTree::Text(_))));
    }
    lemma_first_name(members, keys, k);
}

proof fn lemma_first_item(items: Seq<JsonTree>, keys: Seq<Seq<char>>, i: int)
    requires
        0 <= i <= items.len(),
        forall|j: int| 0 <= j < i ==> found_text(#[trigger] items[j], keys) is None,
        i < items.len() ==> found_text(items[i], keys) is Some,
    ensures
        found_in_items(items, keys) == (if i < items.len() {
            found_text(items[i], keys)
        } else {
            None
        }),
    decreases i,
{
    if i > 0 {
        assert(found_text(items[0], keys) is None);
        let rest = items.skip(1);
        assert forall|j: int| 0 <= j < i - 1 implies found_text(#[trigger] rest[j], keys) is None by {
            assert(rest[j] == items[j + 1]);
        }
        lemma_first_item(rest, keys, i - 1);
    }
}

proof fn lemma_first_member(members: Seq<(Seq<char>, JsonTree)>, keys: Seq<Seq<char>>, i: int)
    requires
        0 <= i <= members.len(),
        forall|j: int| 0 <= j < i ==> found_text((#[trigger] members[j]).1, keys) is None,
        i < members.len() ==> found_text(members[i].1, keys) is Some,
    ensures
        found_in_members(members, keys) == (if i < members.len() {
            found_text(members[i].1, keys)
        } else {
            None
        }),
    decreases i,
{
    if i > 0 {
        assert(found_text(members[0].1, keys) is None);
        let rest = members.skip(1);
        assert forall|j: int| 0 <= j < i - 1 implies found_text((#[trigger] rest[j]).1, keys) is None by {
            assert(rest[j] == members[j + 1]);
        }
        lemma_first_member(rest, keys, i - 1);
    }
}

/// Below an object without such a text of its own, and in an array, the first value that has one gives
/// it; a value that is neither has none.
pub proof fn first_value_below_is_found(tree: JsonTree, keys: Seq<Seq<char>>, i: int)
    ensures
        tree matches JsonTree::Array(items) ==> (0 <= i < items.len() && found_text(
            items[i],
            keys,
        ) is Some && (forall|j: int|
            0 <= j < i ==> found_text(#[trigger] items[j], keys) is None) ==> found_text(tree, keys)
            == found_text(items[i], keys)),
        tree matches JsonTree::Object(members) ==> (0 <= i < members.len() && found_text(
            members[i].1,
            keys,
        ) is Some && (forall|j: int|
            0 <= j < i ==> found_text((#[trigger] members[j]).1, keys) is None) && (forall|k: int|
            0 <= k < keys.len() ==> !(member(tree, #[trigger] keys[k]) matches Some(
                JsonTree::Text(_),
            ))) ==> found_text(tree, keys) == found_text(members[i].1, keys)),
        !(tree is Object) && !(tree is Array) ==> found_text(tree, keys) is None,
{
    match tree {
        JsonTree::Array(items) => {
            if 0 <= i < items.len() && found_text(items[i], keys) is Some && (forall|j: int|
                0 <= j < i ==> found_text(#[trigger] items[j], keys) is None) {
                lemma_first_item(items, keys, i);
            }
        },
        JsonTree::Object(members) => {
            if 0 <= i < members.len() && found_text(members[i].1, keys) is Some && (forall|j: int|
                0 <= j < i ==> found_text((#[trigger] members[j]).1, keys) is None) && (forall|k: int|
                0 <= k < keys.len() ==> !(member(tree, #[trigger] keys[k]) matches Some(
                    JsonTree::Text(_),
                ))) {
                assert forall|k: int| 0 <= k < keys.len() implies !(member_of(
                    members,
                    #[trigger] keys[k],
                ) matches Some(JsonTree::Text(_))) by {
                    assert(!(member(tree, keys[k]) matches Some(JsonTree::Text(_))));
                }
                lemma_first_name(members, keys, keys.len() as int);
                lemma_first_member(members, keys, i);
            }
        },
        _ => {},
    }
}

/// A required text is the one that is found, and a text is proved exactly when it is the one that is
/// found.
pub proof fn required_and_proved_texts(
    tree: JsonTree,
    keys: Seq<Seq<char>>,
    text: Seq<char>,
)
    ensures
        required_text(tree, keys) == Ok::<Seq<char>, Seq<char>>(text) <==> found_text(tree, keys)
            == Some(text),
        unproved_text(tree, keys, text) is None <==> found_text(tree, keys) == Some(text),
{
}

/// A value is seen as what it is: a truth value and a text by what they say, a list and an object by
/// what they hold, in order.
pub proof fn values_are_seen_as_they_are(value: JsonValue)
    ensures
        match value {
            JsonValue::Null => value@ is Null,
            JsonValue::Number => value@ is Number,
            JsonValue::Bool(b) => value@ == JsonTree::Bool(b),
            JsonValue::Text(text) => value@ == JsonTree::Text(text@),
            JsonValue::Array(items) => value@ matches JsonTree::Array(seen) && seen.len()
                == items@.len() && forall|i: int|
                0 <= i < items@.len() ==> #[trigger] seen[i] == items@[i]@,
            JsonValue::Object(members) => value@ matches JsonTree::Object(seen) && seen.len()
                == members@.len() && forall|i: int|
                0 <= i < members@.len() ==> #[trigger] seen[i] == (members@[i].0@, members@[i].1@),
        },
{
    reveal_with_fuel(JsonValue::tree, 2);
}

} // verus!
