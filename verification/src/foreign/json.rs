//! JSON texts: `serde_json`.
use vstd::prelude::*;

verus! {

/// The JSON text of an object with the given members, some of which are texts
/// and some numbers.
pub uninterp spec fn object_text(
    texts: Seq<(Seq<char>, Seq<char>)>,
    numbers: Seq<(Seq<char>, u64)>,
) -> Seq<char>;

/// The names and the texts of an object's members.
pub open spec fn text_members(members: Seq<(String, String)>) -> Seq<(Seq<char>, Seq<char>)> {
    members.map_values(|member: (String, String)| (member.0@, member.1@))
}

/// The names and the numbers of an object's members.
pub open spec fn number_members(members: Seq<(String, u64)>) -> Seq<(Seq<char>, u64)> {
    members.map_values(|member: (String, u64)| (member.0@, member.1))
}

/// `serde_json::to_string` of an object.
#[verifier::external_body]
pub(crate) fn write_object(texts: Vec<(String, String)>, numbers: Vec<(String, u64)>) -> (text:
    String)
    ensures
        text@ == object_text(text_members(texts@), number_members(numbers@)),
{
    let mut object = serde_json::Map::new();
    object.extend(texts.into_iter().map(|(name, text)| (name, serde_json::Value::from(text))));
    object.extend(numbers.into_iter().map(|(name, n)| (name, serde_json::Value::from(n))));
    serde_json::to_string(&object).unwrap_or_default()
}

} // verus!
