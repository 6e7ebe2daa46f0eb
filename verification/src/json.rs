//! Small JSON objects, read and written with `serde_json`.

use vstd::prelude::*;

verus! {

/// `serde_json`'s object type.
#[verifier::external_type_specification]
#[verifier::external_body]
#[verifier::reject_recursive_types(K)]
#[verifier::reject_recursive_types(V)]
pub struct ExJsonMap<K, V>(serde_json::Map<K, V>);

/// `serde_json`'s value type.
#[verifier::external_type_specification]
#[verifier::external_body]
pub struct ExJsonValue(serde_json::Value);

/// What a member of an object is, as far as this crate tells values apart.
pub enum Member {
    /// A string.
    Text(Seq<char>),
    /// A whole number from 0 to 2^64 - 1.
    Natural(u64),
    /// Anything else.
    Other,
}

/// The members of an object, by their names.
pub uninterp spec fn members(object: serde_json::Map<String, serde_json::Value>) -> Map<
    Seq<char>,
    Member,
>;

/// What a run of bytes is as a JSON document.
pub enum Document {
    /// An object with these members.
    Object(Map<Seq<char>, Member>),
    /// A value that is no object.
    Other,
    /// No JSON document; the error in `serde_json`'s words.
    Malformed(Seq<char>),
}

/// The JSON document in a run of bytes.
pub uninterp spec fn json_document(text: Seq<u8>) -> Document;

/// The compact text of an object with the given members.
pub uninterp spec fn json_text(contents: Map<Seq<char>, Member>) -> Seq<u8>;

/// The members of an empty object.
pub open spec fn no_members() -> Map<Seq<char>, Member> {
    Map::empty()
}

/// Calls `serde_json::Map::new`: an object without members.
#[verifier::external_body]
pub(crate) fn new_object() -> (object: serde_json::Map<String, serde_json::Value>)
    ensures
        members(object) == no_members(),
{
    serde_json::Map::new()
}

/// Calls `serde_json::Map::insert` with a string: the member is set, in
/// place of one of the same name, and the others stay.
#[verifier::external_body]
pub(crate) fn insert_text(
    object: &mut serde_json::Map<String, serde_json::Value>,
    name: &str,
    text: &str,
)
    ensures
        members(*final(object)) == members(*old(object)).insert(name@, Member::Text(text@)),
{
    object.insert(name.to_string(), serde_json::Value::String(text.to_string()));
}

/// Calls `serde_json::Map::insert` with a whole number: the member is set,
/// in place of one of the same name, and the others stay.
#[verifier::external_body]
pub(crate) fn insert_natural(
    object: &mut serde_json::Map<String, serde_json::Value>,
    name: &str,
    number: u64,
)
    ensures
        members(*final(object)) == members(*old(object)).insert(name@, Member::Natural(number)),
{
    object.insert(name.to_string(), serde_json::Value::from(number));
}

/// Whether there is a member of that name and it is a string.
pub open spec fn is_text(contents: Map<Seq<char>, Member>, name: Seq<char>) -> bool {
    contents.contains_key(name) && contents[name] is Text
}

/// The text of a string member.
pub open spec fn text_of(contents: Map<Seq<char>, Member>, name: Seq<char>) -> Seq<char> {
    contents[name]->Text_0
}

/// Calls `serde_json::Map::get`: the text of the member of that name, if
/// there is one and it is a string.
#[verifier::external_body]
pub(crate) fn text_member(
    object: &serde_json::Map<String, serde_json::Value>,
    name: &str,
) -> (found: Option<String>)
    ensures
        found is None ==> !is_text(members(*object), name@),
        found matches Some(text) ==> is_text(members(*object), name@) && text@ == text_of(
            members(*object),
            name@,
        ),
{
    match object.get(name) {
        Some(serde_json::Value::String(text)) => Some(text.clone()),
        Some(_) => None,
        None => None,
    }
}

/// Calls `serde_json::to_vec` on an object of strings and whole numbers.
/// Claimed of it: it succeeds on such an object, the bytes are a function of
/// the members, and read as a JSON document they are an object with the same
/// members. What bytes they are is not stated.
#[verifier::external_body]
pub(crate) fn object_text(object: &serde_json::Map<String, serde_json::Value>) -> (text: Result<
    Vec<u8>,
    String,
>)
    requires
        forall|name: Seq<char>| #[trigger]
            members(*object).contains_key(name) ==> !(members(*object)[name] is Other),
    ensures
        text is Ok,
        text->Ok_0@ == json_text(members(*object)),
        json_document(text->Ok_0@) == Document::Object(members(*object)),
{
    serde_json::to_vec(object).map_err(|error| error.to_string())
}

/// Calls `serde_json::from_slice` for a `serde_json::Value`. Claimed of it:
/// whether the bytes are a JSON document, what it holds, and the words of
/// the error if they are none, are a function of the bytes. Which bytes are
/// a document, and what it holds, is stated for what [`object_text`] writes
/// and for nothing else.
#[verifier::external_body]
pub(crate) fn parse_document(text: &[u8]) -> (document: Result<
    Option<serde_json::Map<String, serde_json::Value>>,
    String,
>)
    ensures
        document matches Ok(Some(object)) ==> json_document(text@) == Document::Object(
            members(object),
        ),
        document matches Ok(None) ==> json_document(text@) == Document::Other,
        document matches Err(error) ==> json_document(text@) == Document::Malformed(error@),
{
    match serde_json::from_slice(text) {
        Ok(serde_json::Value::Object(object)) => Ok(Some(object)),
        Ok(_) => Ok(None),
        Err(error) => Err(error.to_string()),
    }
}

/// What looking for a string member in a run of bytes comes to.
pub enum Lookup {
    /// The bytes are no JSON document; the error in `serde_json`'s words.
    Malformed(Seq<char>),
    /// The document is no object, has no such member, or it is no string.
    Missing,
    /// The text of the member.
    Found(Seq<char>),
}

/// The string member of a JSON document, in these three cases.
pub open spec fn lookup(text: Seq<u8>, name: Seq<char>) -> Lookup {
    match json_document(text) {
        Document::Malformed(error) => Lookup::Malformed(error),
        Document::Other => Lookup::Missing,
        Document::Object(contents) => if is_text(contents, name) {
            Lookup::Found(text_of(contents, name))
        } else {
            Lookup::Missing
        },
    }
}

/// Looks for a string member: `Err` with the words of the error if the bytes
/// are no JSON document, `Ok(None)` if there is no such string.
pub fn string_member(text: &[u8], name: &str) -> (found: Result<Option<String>, String>)
    ensures
        match found {
            Ok(Some(value)) => lookup(text@, name@) == Lookup::Found(value@),
            Ok(None) => lookup(text@, name@) == Lookup::Missing,
            Err(error) => lookup(text@, name@) == Lookup::Malformed(error@),
        },
{
    match parse_document(text) {
        Ok(Some(object)) => Ok(text_member(&object, name)),
        Ok(None) => Ok(None),
        Err(error) => Err(error),
    }
}

} // verus!
