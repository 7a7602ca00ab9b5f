//! What the library takes on trust from std and from other crates.

use base64::Engine;
use vstd::prelude::*;
use vstd::utf8::{decode_utf8, valid_utf8};

use crate::encoding::base64_of;
use crate::text::decimal;

verus! {

// ---------------------------------------------------------------------------
// std

/// `String::push` appends one character to the end of the string.
pub assume_specification[ String::push ](s: &mut String, c: char)
    ensures
        final(s)@ == old(s)@.push(c),
;

/// What `String::from_utf8_lossy` makes of bytes.
pub uninterp spec fn lossy_text(bytes: Seq<u8>) -> Seq<char>;

/// The text that bytes show: the characters that they encode where they are
/// valid UTF-8, and otherwise what `String::from_utf8_lossy` makes of them.
pub open spec fn shown(bytes: Seq<u8>) -> Seq<char> {
    if valid_utf8(bytes) {
        decode_utf8(bytes)
    } else {
        lossy_text(bytes)
    }
}

/// `String::from_utf8_lossy`: the text is a function of the bytes, and bytes
/// that are valid UTF-8 give exactly the characters that they encode. How
/// invalid bytes are replaced is left to the name.
#[verifier::external_body]
pub(crate) fn from_utf8_lossy(bytes: &[u8]) -> (s: String)
    ensures
        s@ == lossy_text(bytes@),
        valid_utf8(bytes@) ==> s@ == decode_utf8(bytes@),
{
    String::from_utf8_lossy(bytes).into_owned()
}

// ---------------------------------------------------------------------------
// base64

/// Whether `n` bytes have an encoding that fits into memory: four characters
/// for each three bytes begun.
pub open spec fn encodable(n: nat) -> bool {
    4 * ((n + 2) / 3) <= isize::MAX
}

/// `base64::engine::general_purpose::STANDARD.encode`: the bytes in base64, with
/// the standard alphabet and padding. A text that would not fit into a `String`
/// is left out, because the call panics on it.
#[verifier::external_body]
pub(crate) fn base64_encode(bytes: &[u8]) -> (s: String)
    requires
        encodable(bytes@.len()),
    ensures
        s@ == base64_of(bytes@),
{
    base64::engine::general_purpose::STANDARD.encode(bytes)
}

/// `base64::engine::general_purpose::STANDARD.decode`: it takes exactly the texts
/// that are the encoding of some bytes, padded as they have to be and with no
/// bits left over, and returns these bytes. Every other text is an error; which
/// one is not said.
#[verifier::external_body]
pub(crate) fn base64_decode(text: &str) -> (bytes: Option<Vec<u8>>)
    ensures
        match bytes {
            Some(v) => base64_of(v@) == text@,
            None => forall|b: Seq<u8>| #[trigger] base64_of(b) != text@,
        },
{
    base64::engine::general_purpose::STANDARD.decode(text).ok()
}

// ---------------------------------------------------------------------------
// serde_json

/// `serde_json::Value`, a JSON value.
#[verifier::external_type_specification]
#[verifier::external_body]
pub struct ExValue(serde_json::Value);

/// `serde_json::Map`, the members of a JSON object.
#[verifier::external_type_specification]
#[verifier::external_body]
#[verifier::reject_recursive_types(K)]
#[verifier::reject_recursive_types(V)]
pub struct ExJsonMap<K, V>(serde_json::Map<K, V>);

/// The members of a JSON object: for each name, the member's value as compact
/// JSON.
pub uninterp spec fn members(m: serde_json::Map<String, serde_json::Value>) -> Map<
    Seq<char>,
    Seq<char>,
>;

/// Whether JSON writes `s` between quotes as it is: no quote, no backslash and
/// no control character below the space.
pub open spec fn plain(s: Seq<char>) -> bool {
    forall|i: int| 0 <= i < s.len() ==> #[trigger] s[i] >= ' ' && s[i] != '"' && s[i] != '\\'
}

/// A plain text as a JSON string.
pub open spec fn quoted(s: Seq<char>) -> Seq<char> {
    seq!['"'] + s + seq!['"']
}

/// Whether `a` stands before `b` in the order of their characters: at the first
/// place where they differ, `a` has ended or has the smaller character.
pub open spec fn before(a: Seq<char>, b: Seq<char>) -> bool {
    exists|i: int|
        0 <= i <= a.len() && i < b.len() && #[trigger] a.take(i) == b.take(i) && (i == a.len()
            || a[i] < b[i])
}

/// Whether the fields, each a name and a value as compact JSON, stand in
/// ascending order of their names, none twice.
pub open spec fn in_name_order(fields: Seq<(Seq<char>, Seq<char>)>) -> bool {
    forall|i: int, j: int|
        0 <= i < j < fields.len() ==> before(#[trigger] fields[i].0, #[trigger] fields[j].0)
}

/// Whether the fields are the members of `values`, all of them.
pub open spec fn lists_members(
    fields: Seq<(Seq<char>, Seq<char>)>,
    values: Map<Seq<char>, Seq<char>>,
) -> bool {
    &&& forall|i: int|
        0 <= i < fields.len() ==> values.contains_key(#[trigger] fields[i].0)
            && values[fields[i].0] == fields[i].1
    &&& forall|name: Seq<char>| #[trigger]
        values.contains_key(name) ==> exists|i: int|
            0 <= i < fields.len() && #[trigger] fields[i].0 == name
}

/// One field as compact JSON.
pub open spec fn field_text(field: (Seq<char>, Seq<char>)) -> Seq<char> {
    quoted(field.0) + seq![':'] + field.1
}

/// The fields as compact JSON, with commas between them.
pub open spec fn field_list(fields: Seq<(Seq<char>, Seq<char>)>) -> Seq<char>
    decreases fields.len(),
{
    if fields.len() == 0 {
        Seq::empty()
    } else if fields.len() == 1 {
        field_text(fields[0])
    } else {
        field_list(fields.drop_last()) + seq![','] + field_text(fields.last())
    }
}

/// The object with these fields, in this order, as compact JSON.
pub open spec fn object_text(fields: Seq<(Seq<char>, Seq<char>)>) -> Seq<char> {
    seq!['{'] + field_list(fields) + seq!['}']
}

/// `serde_json::Map::new`: an object without members.
#[verifier::external_body]
pub(crate) fn json_object() -> (m: serde_json::Map<String, serde_json::Value>)
    ensures
        members(m).dom() == Set::<Seq<char>>::empty(),
{
    serde_json::Map::new()
}

/// `serde_json::Map::insert` of a string: the member of this name is now the
/// text between quotes, and the other members are as before.
#[verifier::external_body]
pub(crate) fn insert_text(
    m: &mut serde_json::Map<String, serde_json::Value>,
    name: &str,
    value: &str,
)
    requires
        plain(value@),
    ensures
        members(*final(m)) == members(*old(m)).insert(name@, quoted(value@)),
{
    m.insert(name.to_owned(), serde_json::Value::from(value));
}

/// `serde_json::Map::insert` of an unsigned number: the member of this name is
/// now the number in decimal, and the other members are as before.
#[verifier::external_body]
pub(crate) fn insert_number(
    m: &mut serde_json::Map<String, serde_json::Value>,
    name: &str,
    value: u64,
)
    ensures
        members(*final(m)) == members(*old(m)).insert(name@, decimal(value as nat)),
{
    m.insert(name.to_owned(), serde_json::Value::from(value));
}

/// `to_string` of a `serde_json::Value` that is an object: its members in
/// ascending order of their names, as compact JSON. An object with a name that
/// JSON would have to escape is left out.
#[verifier::external_body]
pub(crate) fn json_text(m: serde_json::Map<String, serde_json::Value>) -> (s: String)
    requires
        forall|name: Seq<char>| #[trigger] members(m).contains_key(name) ==> plain(name),
    ensures
        forall|fields: Seq<(Seq<char>, Seq<char>)>|
            in_name_order(fields) && lists_members(fields, members(m)) ==> s@
                == #[trigger] object_text(fields),
{
    serde_json::Value::Object(m).to_string()
}

/// Bytes that are valid UTF-8 show the characters that they encode; others show
/// what `String::from_utf8_lossy` makes of them.
pub proof fn bytes_show_their_text(bytes: Seq<u8>)
    ensures
        valid_utf8(bytes) ==> shown(bytes) == decode_utf8(bytes),
        !valid_utf8(bytes) ==> shown(bytes) == lossy_text(bytes),
{
}

} // verus!
