//! JSON documents, read with `serde_json`. Verus sees nothing inside a
//! `serde_json::Value`; what a value holds is named here as two maps, from the
//! member names that lead to a leaf to the leaf.

use vstd::prelude::*;

verus! {

/// `serde_json::Value`: a JSON value of any kind.
#[verifier::external_type_specification]
#[verifier::external_body]
pub struct ExValue(serde_json::Value);

/// `serde_json::Error`: what went wrong when a text was read as JSON.
#[verifier::external_type_specification]
#[verifier::external_body]
pub struct ExError(serde_json::Error);

/// A sequence of member names: the way from a value down to one inside it.
pub type JsonPath = Seq<Seq<char>>;

/// The strings in `v`. A value that is a string holds itself under the empty
/// path. An object holds, under a member's name followed by a path, what that
/// member holds under the path. Values of every other kind hold no strings.
pub uninterp spec fn json_strings(v: serde_json::Value) -> Map<JsonPath, Seq<char>>;

/// The numbers in `v` that `serde_json` holds as unsigned integers: those
/// written without sign, fraction or exponent that are no larger than
/// `u64::MAX`. They are laid out as `json_strings` lays out the strings.
pub uninterp spec fn json_numbers(v: serde_json::Value) -> Map<JsonPath, u64>;

/// What a JSON value holds for this crate: its strings and its numbers.
pub type Document = (Map<JsonPath, Seq<char>>, Map<JsonPath, u64>);

/// What reading `text` as a JSON document gives: the strings and numbers that
/// it holds, or, where it is no JSON document, what is wrong with it, in the
/// words of `serde_json`.
pub uninterp spec fn json_read(text: Seq<char>) -> Result<
    (Map<JsonPath, Seq<char>>, Map<JsonPath, u64>),
    Seq<char>,
>;

/// What the error `e` says, in words.
pub uninterp spec fn json_error_words(e: serde_json::Error) -> Seq<char>;

/// What `v` holds.
pub open spec fn document_of(v: serde_json::Value) -> Document {
    (json_strings(v), json_numbers(v))
}

/// The part of `m` that lies under the member `key`, with `key` taken off the
/// paths.
pub open spec fn under<T>(m: Map<JsonPath, T>, key: Seq<char>) -> Map<JsonPath, T> {
    Map::new(|p: JsonPath| m.contains_key(seq![key] + p), |p: JsonPath| m[seq![key] + p])
}

/// `serde_json::from_str`, for a `Value`: the document that `text` holds, or
/// the error where it holds none.
#[verifier::external_body]
pub(crate) fn json_parse(text: &str) -> (r: Result<serde_json::Value, serde_json::Error>)
    ensures
        match r {
            Ok(v) => json_read(text@) == Ok::<Document, Seq<char>>(document_of(v)),
            Err(e) => json_read(text@) == Err::<Document, Seq<char>>(json_error_words(e)),
        },
{
    serde_json::from_str(text)
}

/// `serde_json::Value::get` with a string: the member `key` of an object, and
/// `None` where `v` is no object or has no such member. What the member holds
/// is what `v` holds under `key`; without the member, `v` holds nothing there.
#[verifier::external_body]
pub(crate) fn json_get<'a>(v: &'a serde_json::Value, key: &str) -> (r: Option<
    &'a serde_json::Value,
>)
    ensures
        match r {
            Some(m) => json_strings(*m) == under(json_strings(*v), key@) && json_numbers(*m)
                == under(json_numbers(*v), key@),
            None => under(json_strings(*v), key@) == Map::<JsonPath, Seq<char>>::empty() && under(
                json_numbers(*v),
                key@,
            ) == Map::<JsonPath, u64>::empty(),
        },
{
    v.get(key)
}

/// `serde_json::Value::as_str`: the text of a value that is a string.
#[verifier::external_body]
pub(crate) fn json_as_str<'a>(v: &'a serde_json::Value) -> (r: Option<&'a str>)
    ensures
        match r {
            Some(s) => json_strings(*v).contains_key(Seq::empty()) && json_strings(*v)[Seq::empty()]
                == s@,
            None => !json_strings(*v).contains_key(Seq::empty()),
        },
{
    v.as_str()
}

/// `serde_json::Value::as_u64`: the number of a value that is held as an
/// unsigned integer.
#[verifier::external_body]
pub(crate) fn json_as_u64(v: &serde_json::Value) -> (r: Option<u64>)
    ensures
        match r {
            Some(n) => json_numbers(*v).contains_key(Seq::empty()) && json_numbers(*v)[Seq::empty()]
                == n,
            None => !json_numbers(*v).contains_key(Seq::empty()),
        },
{
    v.as_u64()
}

/// The `Display` of a `serde_json::Error`: what went wrong and where, in
/// words. Nothing is claimed of the wording but that the same error says the
/// same.
#[verifier::external_body]
pub(crate) fn json_error_text(e: &serde_json::Error) -> (text: String)
    ensures
        text@ == json_error_words(*e),
{
    e.to_string()
}

/// What reading `text` as a JSON document gives.
pub fn parse_json(text: &str) -> (r: Result<serde_json::Value, String>)
    ensures
        match r {
            Ok(v) => json_read(text@) == Ok::<Document, Seq<char>>(document_of(v)),
            Err(m) => json_read(text@) == Err::<Document, Seq<char>>(m@),
        },
{
    match json_parse(text) {
        Ok(v) => Ok(v),
        Err(e) => Err(json_error_text(&e)),
    }
}

/// The part of `m` that lies under `path`, with `path` taken off the paths.
pub open spec fn below<T>(m: Map<JsonPath, T>, path: JsonPath) -> Map<JsonPath, T> {
    Map::new(|p: JsonPath| m.contains_key(path + p), |p: JsonPath| m[path + p])
}

/// The member names that `path` holds.
pub open spec fn names(path: Seq<&str>) -> JsonPath {
    path.map_values(|key: &str| key@)
}

/// The string that a document holds at `path`, if it holds one there.
pub open spec fn string_at(doc: Document, path: JsonPath) -> Option<Seq<char>> {
    if doc.0.contains_key(path) {
        Some(doc.0[path])
    } else {
        None
    }
}

/// The number that a document holds at `path`, if it holds one there.
pub open spec fn number_at(doc: Document, path: JsonPath) -> Option<u64> {
    if doc.1.contains_key(path) {
        Some(doc.1[path])
    } else {
        None
    }
}

/// Follows `path` from `v` down, member by member.
fn descend<'a>(v: &'a serde_json::Value, path: &Vec<&str>) -> (r: Option<&'a serde_json::Value>)
    ensures
        match r {
            Some(m) => json_strings(*m) == below(json_strings(*v), names(path@)) && json_numbers(*m)
                == below(json_numbers(*v), names(path@)),
            None => below(json_strings(*v), names(path@)) == Map::<JsonPath, Seq<char>>::empty()
                && below(json_numbers(*v), names(path@)) == Map::<JsonPath, u64>::empty(),
        },
{
    let mut cur: &'a serde_json::Value = v;
    let mut i: usize = 0;
    let ghost all = names(path@);
    assert(forall|p: JsonPath| all.take(0) + p == p);
    assert(json_strings(*v) == below(json_strings(*v), all.take(0)));
    assert(json_numbers(*v) == below(json_numbers(*v), all.take(0)));
    while i < path.len()
        invariant
            i <= path.len(),
            all == names(path@),
            json_strings(*cur) == below(json_strings(*v), all.take(i as int)),
            json_numbers(*cur) == below(json_numbers(*v), all.take(i as int)),
        decreases path.len() - i,
    {
        let ghost here = all.take(i as int);
        let ghost key = path@[i as int]@;
        proof {
            assert(all[i as int] == key);
            assert(all.take(i + 1) == here + seq![key]);
            assert forall|p: JsonPath| here + (seq![key] + p) == all.take(i + 1) + p by {
                assert(here + (seq![key] + p) == (here + seq![key]) + p);
            }
        }
        match json_get(cur, path[i]) {
            Some(m) => {
                proof {
                    assert(json_strings(*m) == below(json_strings(*v), all.take(i + 1)));
                    assert(json_numbers(*m) == below(json_numbers(*v), all.take(i + 1)));
                }
                cur = m;
            },
            None => {
                proof {
                    let rest = all.skip(i + 1);
                    assert(all == all.take(i + 1) + rest);
                    assert forall|p: JsonPath| all + p == here + (seq![key] + (rest + p)) by {
                        assert(all + p == (here + seq![key] + rest) + p);
                        assert((here + seq![key] + rest) + p == here + (seq![key] + (rest + p)));
                    }
                    assert forall|p: JsonPath| !below(json_strings(*v), all).contains_key(p) by {
                        assert(!under(json_strings(*cur), key).contains_key(rest + p));
                    }
                    assert forall|p: JsonPath| !below(json_numbers(*v), all).contains_key(p) by {
                        assert(!under(json_numbers(*cur), key).contains_key(rest + p));
                    }
                    assert(below(json_strings(*v), all) == Map::<JsonPath, Seq<char>>::empty());
                    assert(below(json_numbers(*v), all) == Map::<JsonPath, u64>::empty());
                }
                return None;
            },
        }
        i += 1;
    }
    assert(all.take(path.len() as int) == all);
    Some(cur)
}

/// The string that `v` holds at `path`.
pub fn text_at(v: &serde_json::Value, path: &Vec<&str>) -> (r: Option<String>)
    ensures
        match r {
            Some(s) => string_at(document_of(*v), names(path@)) == Some(s@),
            None => string_at(document_of(*v), names(path@)) is None,
        },
{
    let ghost all = names(path@);
    assert(all + Seq::<Seq<char>>::empty() == all);
    match descend(v, path) {
        Some(m) => match json_as_str(m) {
            Some(s) => Some(s.to_owned()),
            None => None,
        },
        None => {
            assert(!below(json_strings(*v), all).contains_key(Seq::empty()));
            None
        },
    }
}

/// The number that `v` holds at `path`.
pub fn count_at(v: &serde_json::Value, path: &Vec<&str>) -> (r: Option<u64>)
    ensures
        r == number_at(document_of(*v), names(path@)),
{
    let ghost all = names(path@);
    assert(all + Seq::<Seq<char>>::empty() == all);
    match descend(v, path) {
        Some(m) => json_as_u64(m),
        None => {
            assert(!below(json_numbers(*v), all).contains_key(Seq::empty()));
            None
        },
    }
}

} // verus!
