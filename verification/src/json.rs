//! JSON documents as plain values, read and written with `serde_json`.

use crate::text::{owned, same_text};
use vstd::prelude::*;

verus! {

// ---------------------------------------------------------------------------
// The model
// ---------------------------------------------------------------------------

/// What a JSON document holds. Of a number only this is kept: its value where it
/// is an integer that fits in 64 bits without a sign.
pub enum Tree {
    Null,
    Bool(bool),
    Number(Option<u64>),
    Text(Seq<char>),
    Array(Seq<Tree>),
    Object(Seq<(Seq<char>, Tree)>),
}

/// The value of the first entry with the key `key`.
pub open spec fn lookup(entries: Seq<(Seq<char>, Tree)>, key: Seq<char>) -> Option<Tree>
    decreases entries.len(),
{
    if entries.len() == 0 {
        None
    } else if entries[0].0 == key {
        Some(entries[0].1)
    } else {
        lookup(entries.drop_first(), key)
    }
}

impl Tree {
    /// The member `key` of an object. Nothing else has members.
    pub open spec fn member(self, key: Seq<char>) -> Option<Tree> {
        match self {
            Tree::Object(entries) => lookup(entries, key),
            _ => None,
        }
    }

    /// The characters of a text.
    pub open spec fn text(self) -> Option<Seq<char>> {
        match self {
            Tree::Text(s) => Some(s),
            _ => None,
        }
    }

    /// The value of a number that is an unsigned 64-bit integer.
    pub open spec fn unsigned(self) -> Option<u64> {
        match self {
            Tree::Number(n) => n,
            _ => None,
        }
    }

    /// The value of a truth value.
    pub open spec fn truth(self) -> Option<bool> {
        match self {
            Tree::Bool(b) => Some(b),
            _ => None,
        }
    }
}

/// The member `key` of what may be an object, where there is one.
pub open spec fn member_of(t: Option<Tree>, key: Seq<char>) -> Option<Tree> {
    match t {
        Some(t) => t.member(key),
        None => None,
    }
}

/// The unsigned integer that is there.
pub open spec fn unsigned_of(t: Option<Tree>) -> Option<u64> {
    match t {
        Some(t) => t.unsigned(),
        None => None,
    }
}

/// The text that is there.
pub open spec fn text_of(t: Option<Tree>) -> Option<Seq<char>> {
    match t {
        Some(t) => t.text(),
        None => None,
    }
}

/// Whether a truth value is there and is true.
pub open spec fn is_true(t: Option<Tree>) -> bool {
    match t {
        Some(t) => t.truth() == Some(true),
        None => false,
    }
}

// ---------------------------------------------------------------------------
// Documents in memory
// ---------------------------------------------------------------------------

/// A JSON document.
pub enum Json {
    Null,
    Bool(bool),
    /// A number: its value where it is an unsigned 64-bit integer.
    Number(Option<u64>),
    Text(String),
    Array(Vec<Json>),
    /// The entries of an object.
    Object(Vec<Entry>),
}

/// An entry of an object.
pub struct Entry {
    pub key: String,
    pub value: Json,
}

impl Json {
    /// What the document holds.
    pub open spec fn tree(self) -> Tree
        decreases self,
    {
        match self {
            Json::Null => Tree::Null,
            Json::Bool(b) => Tree::Bool(b),
            Json::Number(n) => Tree::Number(n),
            Json::Text(s) => Tree::Text(s@),
            Json::Array(v) => Tree::Array(
                Seq::new(v@.len(), |i: int| if 0 <= i < v@.len() { v@[i].tree() } else { Tree::Null }),
            ),
            Json::Object(v) => Tree::Object(
                Seq::new(
                    v@.len(),
                    |i: int| if 0 <= i < v@.len() { (v@[i].key@, v@[i].value.tree()) } else { (Seq::empty(), Tree::Null) },
                ),
            ),
        }
    }
}

pub open spec fn trees(v: Seq<Json>) -> Seq<Tree> {
    Seq::new(v.len(), |i: int| v[i].tree())
}

pub open spec fn entry_trees(v: Seq<Entry>) -> Seq<(Seq<char>, Tree)> {
    Seq::new(v.len(), |i: int| (v[i].key@, v[i].value.tree()))
}

/// A document that may be absent, by what it holds.
pub open spec fn tree_opt(j: Option<&Json>) -> Option<Tree> {
    match j {
        Some(j) => Some(j.tree()),
        None => None,
    }
}

proof fn array_tree(v: Vec<Json>)
    ensures
        Json::Array(v).tree() == Tree::Array(trees(v@)),
{
    assert(Json::Array(v).tree()->Array_0 =~= trees(v@));
}

proof fn object_tree(v: Vec<Entry>)
    ensures
        Json::Object(v).tree() == Tree::Object(entry_trees(v@)),
{
    assert(Json::Object(v).tree()->Object_0 =~= entry_trees(v@));
}

impl Json {
    /// The member `key` of an object.
    pub fn get(&self, key: &str) -> (r: Option<&Json>)
        ensures
            tree_opt(r) == self.tree().member(key@),
    {
        match self {
            Json::Object(entries) => {
                proof {
                    object_tree(*entries);
                }
                let ghost all = entry_trees(entries@);
                let mut i: usize = 0;
                assert(all.skip(0) =~= all);
                while i < entries.len()
                    invariant
                        i <= entries@.len(),
                        all == entry_trees(entries@),
                        self.tree() == Tree::Object(all),
                        lookup(all, key@) == lookup(all.skip(i as int), key@),
                    decreases entries@.len() - i,
                {
                    assert(all.skip(i as int)[0] == all[i as int]);
                    if same_text(entries[i].key.as_str(), key) {
                        return Some(&entries[i].value);
                    }
                    assert(all.skip(i as int).drop_first() =~= all.skip(i + 1));
                    i += 1;
                }
                None
            },
            _ => None,
        }
    }

    /// The text, where it is one.
    pub fn as_text(&self) -> (r: Option<&String>)
        ensures
            (match r {
                Some(s) => self.tree().text() == Some(s@),
                None => self.tree().text() is None,
            }),
    {
        match self {
            Json::Text(s) => Some(s),
            _ => None,
        }
    }

    /// The value, where it is an unsigned 64-bit integer.
    pub fn as_unsigned(&self) -> (r: Option<u64>)
        ensures
            r == self.tree().unsigned(),
    {
        match self {
            Json::Number(n) => *n,
            _ => None,
        }
    }

    /// The value, where it is a truth value.
    pub fn as_truth(&self) -> (r: Option<bool>)
        ensures
            r == self.tree().truth(),
    {
        match self {
            Json::Bool(b) => Some(*b),
            _ => None,
        }
    }

    /// The elements, where it is an array.
    pub fn as_array(&self) -> (r: Option<&Vec<Json>>)
        ensures
            (match r {
                Some(v) => self.tree() == Tree::Array(trees(v@)),
                None => !(self.tree() is Array),
            }),
    {
        match self {
            Json::Array(v) => {
                proof {
                    array_tree(*v);
                }
                Some(v)
            },
            _ => None,
        }
    }

    /// The entries, where it is an object.
    pub fn as_object(&self) -> (r: Option<&Vec<Entry>>)
        ensures
            (match r {
                Some(v) => self.tree() == Tree::Object(entry_trees(v@)),
                None => !(self.tree() is Object),
            }),
    {
        match self {
            Json::Object(v) => {
                proof {
                    object_tree(*v);
                }
                Some(v)
            },
            _ => None,
        }
    }
}

// ---------------------------------------------------------------------------
// Reading with `serde_json`
// ---------------------------------------------------------------------------

/// A document as `serde_json` holds it.
#[verifier::external_type_specification]
#[verifier::external_body]
pub struct ExValue(serde_json::Value);

/// What `serde_json` reports where a text is no JSON document.
#[verifier::external_type_specification]
#[verifier::external_body]
pub struct ExError(serde_json::Error);

/// What a `serde_json::Value` holds. The entries of an object stand in the order
/// in which its map is walked.
pub uninterp spec fn contents(v: serde_json::Value) -> Tree;

/// The document that `serde_json::from_str` reads in a text.
pub uninterp spec fn document(text: Seq<char>) -> Option<Tree>;

/// The document that `serde_json::from_slice` reads in a row of bytes.
pub uninterp spec fn document_in(bytes: Seq<u8>) -> Option<Tree>;

/// Calls `serde_json::from_str` for a `serde_json::Value`. Whether the text is
/// a document, and which, depends on the text alone; the names stand for it.
#[verifier::external_body]
fn value_from_str(text: &str) -> (r: Result<serde_json::Value, serde_json::Error>)
    ensures
        (match r {
            Ok(v) => document(text@) == Some(contents(v)),
            Err(_) => document(text@) is None,
        }),
{
    serde_json::from_str(text)
}

/// Calls `serde_json::from_slice` for a `serde_json::Value`. Whether the bytes
/// are a document, and which, depends on the bytes alone; the names stand for it.
#[verifier::external_body]
fn value_from_slice(bytes: &[u8]) -> (r: Result<serde_json::Value, serde_json::Error>)
    ensures
        (match r {
            Ok(v) => document_in(bytes@) == Some(contents(v)),
            Err(_) => document_in(bytes@) is None,
        }),
{
    serde_json::from_slice(bytes)
}

/// `serde_json::Value::as_bool` gives the value of a truth value, and nothing of
/// any other document.
pub assume_specification[ serde_json::Value::as_bool ](v: &serde_json::Value) -> (r: Option<bool>)
    ensures
        r == contents(*v).truth(),
;

/// `serde_json::Value::is_number` tells the numbers from the other documents.
pub assume_specification[ serde_json::Value::is_number ](v: &serde_json::Value) -> (r: bool)
    ensures
        r == (contents(*v) is Number),
;

/// `serde_json::Value::as_u64` gives the value of a number that is an integer
/// between 0 and `u64::MAX`, and nothing of any other document.
pub assume_specification[ serde_json::Value::as_u64 ](v: &serde_json::Value) -> (r: Option<u64>)
    ensures
        r == contents(*v).unsigned(),
;

/// `serde_json::Value::as_str` gives the text of a string, and nothing of any
/// other document.
pub assume_specification[ serde_json::Value::as_str ](v: &serde_json::Value) -> (r: Option<&str>)
    ensures
        (match r {
            Some(s) => contents(*v) == Tree::Text(s@),
            None => !(contents(*v) is Text),
        }),
;

/// `serde_json::Value::as_array` gives the elements of an array, in order, and
/// nothing of any other document.
pub assume_specification[ serde_json::Value::as_array ](v: &serde_json::Value) -> (r: Option<
    &Vec<serde_json::Value>,
>)
    ensures
        (match r {
            Some(items) => contents(*v) == Tree::Array(
                Seq::new(items@.len(), |i: int| contents(items@[i])),
            ),
            None => !(contents(*v) is Array),
        }),
;

/// Calls `serde_json::Value::as_object` and walks the map with `Map::iter`: every
/// entry of an object once, and nothing of any other document.
#[verifier::external_body]
fn object_entries(v: &serde_json::Value) -> (r: Option<Vec<(&String, &serde_json::Value)>>)
    ensures
        (match r {
            Some(entries) => contents(*v) == Tree::Object(
                Seq::new(entries@.len(), |i: int| (entries@[i].0@, contents(*entries@[i].1))),
            ),
            None => !(contents(*v) is Object),
        }),
{
    match v.as_object() {
        Some(map) => Some(map.iter().collect()),
        None => None,
    }
}

/// The document that a `serde_json::Value` holds.
fn from_value(v: &serde_json::Value) -> (j: Json)
    ensures
        j.tree() == contents(*v),
    decreases contents(*v),
{
    if let Some(b) = v.as_bool() {
        return Json::Bool(b);
    }
    if v.is_number() {
        return Json::Number(v.as_u64());
    }
    if let Some(s) = v.as_str() {
        return Json::Text(owned(s));
    }
    if let Some(items) = v.as_array() {
        let mut out: Vec<Json> = Vec::new();
        let mut i: usize = 0;
        while i < items.len()
            invariant
                i <= items@.len(),
                contents(*v) == Tree::Array(Seq::new(items@.len(), |i: int| contents(items@[i]))),
                out@.len() == i,
                forall|j: int| 0 <= j < i ==> (#[trigger] out@[j]).tree() == contents(items@[j]),
            decreases items@.len() - i,
        {
            assert(contents(*v)->Array_0[i as int] == contents(items@[i as int]));
            assert(decreases_to!(contents(*v) => contents(*v)->Array_0));
            assert(decreases_to!(contents(*v)->Array_0 => contents(*v)->Array_0[i as int]));
            let item = from_value(&items[i]);
            out.push(item);
            i += 1;
        }
        proof {
            array_tree(out);
            assert(trees(out@) =~= contents(*v)->Array_0);
        }
        return Json::Array(out);
    }
    if let Some(entries) = object_entries(v) {
        let mut out: Vec<Entry> = Vec::new();
        let mut i: usize = 0;
        while i < entries.len()
            invariant
                i <= entries@.len(),
                contents(*v) == Tree::Object(
                    Seq::new(entries@.len(), |i: int| (entries@[i].0@, contents(*entries@[i].1))),
                ),
                out@.len() == i,
                forall|j: int|
                    0 <= j < i ==> (#[trigger] out@[j]).key@ == entries@[j].0@
                        && out@[j].value.tree() == contents(*entries@[j].1),
            decreases entries@.len() - i,
        {
            let ghost all = contents(*v)->Object_0;
            assert(all[i as int].1 == contents(*entries@[i as int].1));
            assert(decreases_to!(contents(*v) => all));
            assert(decreases_to!(all => all[i as int]));
            assert(decreases_to!(all[i as int] => all[i as int].1));
            let value = from_value(entries[i].1);
            out.push(Entry { key: entries[i].0.clone(), value });
            i += 1;
        }
        proof {
            object_tree(out);
            assert(entry_trees(out@) =~= contents(*v)->Object_0);
        }
        return Json::Object(out);
    }
    Json::Null
}

/// A document that was read, by what it holds.
pub open spec fn tree_read(j: Option<Json>) -> Option<Tree> {
    match j {
        Some(j) => Some(j.tree()),
        None => None,
    }
}

/// Reads a document from a text.
pub fn parse(text: &str) -> (r: Option<Json>)
    ensures
        tree_read(r) == document(text@),
{
    match value_from_str(text) {
        Ok(v) => Some(from_value(&v)),
        Err(_) => None,
    }
}

/// Reads a document from bytes.
pub fn parse_bytes(bytes: &[u8]) -> (r: Option<Json>)
    ensures
        tree_read(r) == document_in(bytes@),
{
    match value_from_slice(bytes) {
        Ok(v) => Some(from_value(&v)),
        Err(_) => None,
    }
}

// ---------------------------------------------------------------------------
// Writing with `serde_json`
// ---------------------------------------------------------------------------

/// Calls the `From<bool>` of `serde_json::Value`, which makes a truth value.
#[verifier::external_body]
pub(crate) fn truth_value(b: bool) -> (v: serde_json::Value)
    ensures
        contents(v) == Tree::Bool(b),
{
    serde_json::Value::from(b)
}

/// Calls the `From<u64>` of `serde_json::Value`, which makes a number.
#[verifier::external_body]
pub(crate) fn number_value(n: u64) -> (v: serde_json::Value)
    ensures
        contents(v) == Tree::Number(Some(n)),
{
    serde_json::Value::from(n)
}

/// Calls the `From<&str>` of `serde_json::Value`, which makes a string.
#[verifier::external_body]
pub(crate) fn text_value(s: &str) -> (v: serde_json::Value)
    ensures
        contents(v) == Tree::Text(s@),
{
    serde_json::Value::from(s)
}

/// The entries of an object that is to be written, in order.
pub open spec fn field_entries(fields: Seq<(String, serde_json::Value)>) -> Seq<(Seq<char>, Tree)> {
    Seq::new(fields.len(), |i: int| (fields[i].0@, contents(fields[i].1)))
}

/// Whether a document is a truth value, a text or an unsigned integer.
pub open spec fn is_scalar(t: Tree) -> bool {
    match t {
        Tree::Bool(_) | Tree::Text(_) | Tree::Number(Some(_)) => true,
        _ => false,
    }
}

/// Whether no key occurs twice, and every value is a scalar.
pub open spec fn is_flat(entries: Seq<(Seq<char>, Tree)>) -> bool {
    &&& forall|i: int, j: int|
        0 <= i < j < entries.len() ==> (#[trigger] entries[i]).0 != (#[trigger] entries[j]).0
    &&& forall|i: int| 0 <= i < entries.len() ==> is_scalar((#[trigger] entries[i]).1)
}

/// The text in which `serde_json` writes the object with the given entries.
pub uninterp spec fn object_text(entries: Seq<(Seq<char>, Tree)>) -> Seq<char>;

/// Whether a text is a document that holds an object with just these entries, in
/// whatever order.
pub open spec fn writes_object(text: Seq<char>, entries: Seq<(Seq<char>, Tree)>) -> bool {
    match document(text) {
        Some(Tree::Object(read)) => read.to_multiset() == entries.to_multiset(),
        _ => false,
    }
}

/// Calls `to_string` on the `serde_json::Value::Object` of the fields. The text
/// depends on the fields alone; reading it with `serde_json::from_str` gives an
/// object with the same entries.
#[verifier::external_body]
pub(crate) fn write_object(fields: Vec<(String, serde_json::Value)>) -> (r: String)
    requires
        is_flat(field_entries(fields@)),
    ensures
        r@ == object_text(field_entries(fields@)),
        writes_object(r@, field_entries(fields@)),
{
    serde_json::Value::Object(fields.into_iter().collect()).to_string()
}

// ---------------------------------------------------------------------------
// Laws
// ---------------------------------------------------------------------------

/// The member of an object is the value of the first entry that has the key, and there
/// is none where no entry has it.
pub proof fn a_member_is_found_by_its_key(entries: Seq<(Seq<char>, Tree)>, key: Seq<char>, i: int)
    requires
        0 <= i <= entries.len(),
        forall|j: int| 0 <= j < i ==> (#[trigger] entries[j]).0 != key,
    ensures
        i < entries.len() && entries[i].0 == key ==> Tree::Object(entries).member(key) == Some(
            entries[i].1,
        ),
        i == entries.len() ==> Tree::Object(entries).member(key) is None,
    decreases i,
{
    if i > 0 {
        let tail = entries.drop_first();
        assert(entries[0].0 != key);
        assert forall|j: int| 0 <= j < i - 1 implies (#[trigger] tail[j]).0 != key by {
            assert(entries[j + 1] == tail[j]);
        }
        a_member_is_found_by_its_key(tail, key, i - 1);
    }
}

/// A value is taken for what it is: a text for its characters, a number for its value, a
/// truth value for its truth; and a value of one kind for none of the others.
pub proof fn a_value_is_taken_for_what_it_is(s: Seq<char>, n: u64, key: Seq<char>)
    ensures
        text_of(Some(Tree::Text(s))) == Some(s),
        unsigned_of(Some(Tree::Number(Some(n)))) == Some(n),
        unsigned_of(Some(Tree::Number(None))) is None,
        is_true(Some(Tree::Bool(true))),
        !is_true(Some(Tree::Bool(false))),
        text_of(Some(Tree::Number(Some(n)))) is None,
        text_of(Some(Tree::Bool(true))) is None,
        text_of(Some(Tree::Null)) is None,
        text_of(None) is None,
        unsigned_of(Some(Tree::Text(s))) is None,
        unsigned_of(Some(Tree::Bool(true))) is None,
        unsigned_of(Some(Tree::Null)) is None,
        unsigned_of(None) is None,
        !is_true(Some(Tree::Text(s))),
        !is_true(Some(Tree::Number(Some(n)))),
        !is_true(Some(Tree::Null)),
        !is_true(None),
        member_of(None, key) is None,
        member_of(Some(Tree::Text(s)), key) is None,
        member_of(Some(Tree::Null), key) is None,
        forall|t: Tree| #[trigger] member_of(Some(t), key) == t.member(key),
{
}

} // verus!
