//! JSON documents, read with the `json` crate, and what they show along paths.
use vstd::prelude::*;

verus! {

/// The json crate's `JsonValue`: a JSON value, opaque here; what it holds is
/// seen through `json_contents`.
#[verifier::external_type_specification]
#[verifier::external_body]
pub struct ExJsonValue(json::JsonValue);

/// The json crate's `Error`: why `json::parse` refused a text.
#[verifier::external_type_specification]
#[verifier::external_body]
pub struct ExJsonError(json::Error);

/// A step from a JSON value to one inside it: `(true, k, 0)` is its member
/// `k`, `(false, [], i)` its element `i`.
pub type JsonStep = (bool, Seq<char>, nat);

/// What a JSON value shows of itself: what `to_string()` gives, what `len()`
/// gives, and its text when it is a string (what `== "..."` compares with).
pub type JsonLeaf = (Seq<char>, nat, Option<Seq<char>>);

/// What a JSON value shows along each path.
pub type JsonContents = Map<Seq<JsonStep>, JsonLeaf>;

/// What a JSON value shows along every path of steps from it: the leaf of
/// the value that indexing it step by step (`value[k]`, `value[i]`) reaches.
/// The json crate's indexing reaches `null` wherever there is nothing, so
/// every path has a leaf.
pub uninterp spec fn json_contents(value: json::JsonValue) -> Map<Seq<(bool, Seq<char>, nat)>, (Seq<char>, nat, Option<Seq<char>>)>;

/// What `json::parse` reads in a text: the contents of the value it makes,
/// or `None` where it refuses the text.
pub uninterp spec fn json_document(text: Seq<char>) -> Option<Map<Seq<(bool, Seq<char>, nat)>, (Seq<char>, nat, Option<Seq<char>>)>>;

/// The step to the member `k` of an object.
pub open spec fn member(k: Seq<char>) -> JsonStep {
    (true, k, 0nat)
}

/// The step to the element `i` of an array.
pub open spec fn element(i: int) -> JsonStep {
    (false, Seq::empty(), i as nat)
}

/// What `null` shows of itself.
pub open spec fn null_leaf() -> JsonLeaf {
    ("null"@, 0nat, None)
}

/// The text that the value along `p` gives (`to_string()`).
pub open spec fn text_at(c: JsonContents, p: Seq<JsonStep>) -> Seq<char> {
    c[p].0
}

/// The length of the array or object along `p` (`len()`).
pub open spec fn len_at(c: JsonContents, p: Seq<JsonStep>) -> nat {
    c[p].1
}

/// The text of the string along `p`, if it is a string.
pub open spec fn string_at(c: JsonContents, p: Seq<JsonStep>) -> Option<Seq<char>> {
    c[p].2
}

/// `json::parse`: reads a JSON text. It refuses exactly the texts for which
/// `json_document` is `None`; otherwise what it reads shows `json_document`.
#[verifier::external_body]
fn parse_json(text: &str) -> (r: Result<json::JsonValue, json::Error>)
    ensures
        match r {
            Ok(v) => json_document(text@) == Some(json_contents(v)),
            Err(_) => json_document(text@) is None,
        },
{
    json::parse(text)
}

/// `value[k]` (json's `Index<&str>`): the member `k` of an object, `null` for
/// anything else. Along each path it shows what `value` shows along the step
/// to `k` followed by that path.
#[verifier::external_body]
fn json_member<'a>(value: &'a json::JsonValue, k: &str) -> (r: &'a json::JsonValue)
    ensures
        forall|p: Seq<JsonStep>| #[trigger]
            json_contents(*r)[p] == json_contents(*value)[seq![member(k@)] + p],
{
    &value[k]
}

/// `value[i]` (json's `Index<usize>`): the element `i` of an array, `null` for
/// anything else. Along each path it shows what `value` shows along the step
/// to `i` followed by that path.
#[verifier::external_body]
fn json_element<'a>(value: &'a json::JsonValue, i: usize) -> (r: &'a json::JsonValue)
    ensures
        forall|p: Seq<JsonStep>| #[trigger]
            json_contents(*r)[p] == json_contents(*value)[seq![element(i as int)] + p],
{
    &value[i]
}

/// `JsonValue::len`: the length of an array, the number of members of an
/// object, 0 for anything else. Every element at or past it is `null`: an
/// array has none there, and anything else has no elements at all.
#[verifier::external_body]
fn json_len(value: &json::JsonValue) -> (r: usize)
    ensures
        r == len_at(json_contents(*value), Seq::empty()),
        forall|i: int, p: Seq<JsonStep>|
            i >= r ==> #[trigger] json_contents(*value)[seq![element(i)] + p] == null_leaf(),
{
    value.len()
}

/// `value.to_string()` (json's `Display`); a string gives its own text.
#[verifier::external_body]
fn json_text(value: &json::JsonValue) -> (r: String)
    ensures
        r@ == text_at(json_contents(*value), Seq::empty()),
        string_at(json_contents(*value), Seq::empty()) is Some ==> Some(r@) == string_at(
            json_contents(*value),
            Seq::empty(),
        ),
{
    value.to_string()
}

/// `*value == s` (json's `PartialEq<&str>`): whether `value` is a string
/// with the text of `s`.
#[verifier::external_body]
fn json_is_str(value: &json::JsonValue, s: &str) -> (r: bool)
    ensures
        r == (string_at(json_contents(*value), Seq::empty()) == Some(s@)),
{
    *value == s
}

/// Why the tracker cannot take what it wants from a text.
#[derive(Debug, PartialEq, Eq, Structural)]
pub enum DataError {
    /// The text is not JSON.
    NotJson,
}

/// Reads a JSON text, or says that it is not JSON.
pub fn parse_document(text: &str) -> (r: Result<json::JsonValue, DataError>)
    ensures
        match r {
            Ok(v) => json_document(text@) == Some(json_contents(v)),
            Err(e) => json_document(text@) is None && e == DataError::NotJson,
        },
{
    match parse_json(text) {
        Ok(v) => Ok(v),
        Err(_) => Err(DataError::NotJson),
    }
}

/// A step of a path, as the tracker writes it.
pub enum PathStep {
    Member(&'static str),
    Element(usize),
}

/// The step that a `PathStep` takes.
pub open spec fn step_of(s: PathStep) -> JsonStep {
    match s {
        PathStep::Member(k) => member(k@),
        PathStep::Element(i) => element(i as int),
    }
}

/// The steps of a path.
pub open spec fn path_of(path: Seq<PathStep>) -> Seq<JsonStep> {
    path.map_values(|s: PathStep| step_of(s))
}

/// The value that `path` reaches from `value`.
fn value_at<'a>(value: &'a json::JsonValue, path: &[PathStep]) -> (r: &'a json::JsonValue)
    ensures
        forall|p: Seq<JsonStep>| #[trigger]
            json_contents(*r)[p] == json_contents(*value)[path_of(path@) + p],
{
    let mut cur = value;
    let mut i: usize = 0;
    assert forall|p: Seq<JsonStep>| #[trigger]
        json_contents(*cur)[p] == json_contents(*value)[path_of(path@.take(0)) + p] by {
        assert(path_of(path@.take(0)) + p =~= p);
    }
    while i < path.len()
        invariant
            0 <= i <= path@.len(),
            forall|p: Seq<JsonStep>| #[trigger]
                json_contents(*cur)[p] == json_contents(*value)[path_of(path@.take(i as int)) + p],
        decreases path@.len() - i,
    {
        let next = match path[i] {
            PathStep::Member(k) => json_member(cur, k),
            PathStep::Element(j) => json_element(cur, j),
        };
        let ghost s = step_of(path@[i as int]);
        assert forall|p: Seq<JsonStep>| #[trigger]
            json_contents(*next)[p] == json_contents(*value)[path_of(path@.take(i + 1)) + p] by {
            assert(json_contents(*next)[p] == json_contents(*cur)[seq![s] + p]);
            assert(path_of(path@.take(i + 1)) + p =~= path_of(path@.take(i as int)) + (seq![s]
                + p));
        }
        cur = next;
        i = i + 1;
    }
    assert(path@.take(i as int) =~= path@);
    cur
}

/// The text that the value along `path` gives.
pub(crate) fn text_along(value: &json::JsonValue, path: &[PathStep]) -> (r: String)
    ensures
        r@ == text_at(json_contents(*value), path_of(path@)),
{
    let v = value_at(value, path);
    let r = json_text(v);
    assert(path_of(path@) + Seq::<JsonStep>::empty() =~= path_of(path@));
    assert(json_contents(*v)[Seq::empty()] == json_contents(*value)[path_of(path@)
        + Seq::<JsonStep>::empty()]);
    r
}

/// The length of the value along `path`; every element past it is `null`.
pub(crate) fn len_along(value: &json::JsonValue, path: &[PathStep]) -> (r: usize)
    ensures
        r == len_at(json_contents(*value), path_of(path@)),
        forall|i: int, p: Seq<JsonStep>|
            i >= r ==> #[trigger] json_contents(*value)[path_of(path@) + (seq![element(i)] + p)]
                == null_leaf(),
{
    let v = value_at(value, path);
    let r = json_len(v);
    assert(path_of(path@) + Seq::<JsonStep>::empty() =~= path_of(path@));
    assert(json_contents(*v)[Seq::empty()] == json_contents(*value)[path_of(path@)
        + Seq::<JsonStep>::empty()]);
    assert forall|i: int, p: Seq<JsonStep>| i >= r implies #[trigger] json_contents(*value)[path_of(
        path@,
    ) + (seq![element(i)] + p)] == null_leaf() by {
        assert(json_contents(*v)[seq![element(i)] + p] == null_leaf());
    }
    r
}

/// The text of the string along `path`, if it is one.
pub(crate) fn string_along(value: &json::JsonValue, path: &[PathStep]) -> (r: Option<String>)
    ensures
        match r {
            Some(s) => string_at(json_contents(*value), path_of(path@)) == Some(s@),
            None => string_at(json_contents(*value), path_of(path@)) is None,
        },
{
    let v = value_at(value, path);
    assert(path_of(path@) + Seq::<JsonStep>::empty() =~= path_of(path@));
    assert(json_contents(*v)[Seq::empty()] == json_contents(*value)[path_of(path@)
        + Seq::<JsonStep>::empty()]);
    let text = json_text(v);
    if json_is_str(v, text.as_str()) {
        Some(text)
    } else {
        None
    }
}

} // verus!
