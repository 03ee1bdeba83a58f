//! The YAML codec and path handling that the library relies on.
use vstd::prelude::*;

verus! {

#[verifier::external_type_specification]
#[verifier::external_body]
pub struct ExMapping(serde_yaml::Mapping);

/// Whether the YAML codec reads the text as a mapping.
pub uninterp spec fn yaml_accepts(s: Seq<char>) -> bool;

/// The mapping that the YAML codec reads from the text, where it reads one.
pub uninterp spec fn decoded(s: Seq<char>) -> serde_yaml::Mapping;

/// Whether the YAML codec can render the mapping as text.
pub uninterp spec fn renders(m: serde_yaml::Mapping) -> bool;

/// The text that the YAML codec renders the mapping as, where it can.
pub uninterp spec fn rendered(m: serde_yaml::Mapping) -> Seq<char>;

/// The fields of a mapping whose key is a string and whose value is a string,
/// each with that string value.
pub uninterp spec fn text_fields(m: serde_yaml::Mapping) -> Map<Seq<char>, Seq<char>>;

/// The fields of a mapping whose key is a string and whose value the codec
/// reads as a `u64`, each with that number.
pub uninterp spec fn key_fields(m: serde_yaml::Mapping) -> Map<Seq<char>, u64>;

/// The parent directory of a path, as the standard library computes it.
pub uninterp spec fn parent_of(p: Seq<char>) -> Option<Seq<char>>;

/// Relies on `serde_yaml::from_str`, which parses a YAML document into a
/// mapping or reports why it could not.
#[verifier::external_body]
pub(crate) fn decode_mapping(s: &str) -> (r: Result<serde_yaml::Mapping, serde_yaml::Error>)
    ensures
        r is Ok <==> yaml_accepts(s@),
        r is Ok ==> r->Ok_0 == decoded(s@),
{
    serde_yaml::from_str::<serde_yaml::Mapping>(s)
}

/// Relies on `serde_yaml::to_string`, which renders a mapping as a YAML document.
#[verifier::external_body]
pub(crate) fn encode_mapping(m: &serde_yaml::Mapping) -> (r: Result<String, serde_yaml::Error>)
    ensures
        r is Ok <==> renders(*m),
        r is Ok ==> r->Ok_0@ == rendered(*m),
{
    serde_yaml::to_string(m)
}

/// Relies on `serde_yaml::Mapping::get`, which looks a field up by its string
/// key, and on `serde_yaml::Value::as_str`, which gives the text of a string value.
#[verifier::external_body]
pub(crate) fn field_text(m: &serde_yaml::Mapping, field: &str) -> (r: Option<String>)
    ensures
        match r {
            Some(t) => text_fields(*m).contains_key(field@) && text_fields(*m)[field@] == t@,
            None => !text_fields(*m).contains_key(field@),
        },
{
    m.get(field).and_then(|v| v.as_str()).map(|t| t.to_owned())
}

/// Relies on `serde_yaml::Mapping::get`, which looks a field up by its string
/// key, and on `serde_yaml::from_value`, which reads the field's value as a `u64`.
#[verifier::external_body]
pub(crate) fn field_key(m: &serde_yaml::Mapping, field: &str) -> (r: Option<u64>)
    ensures
        match r {
            Some(k) => key_fields(*m).contains_key(field@) && key_fields(*m)[field@] == k,
            None => !key_fields(*m).contains_key(field@),
        },
{
    m.get(field).and_then(|v| serde_yaml::from_value::<u64>(v.clone()).ok())
}

/// Relies on `std::path::Path::parent`: the path without its final component,
/// or nothing for an empty path or a root.
#[verifier::external_body]
pub(crate) fn path_parent(p: &str) -> (r: Option<String>)
    ensures
        match r {
            Some(q) => parent_of(p@) == Some(q@),
            None => parent_of(p@) is None,
        },
{
    std::path::Path::new(p).parent().map(|q| q.to_string_lossy().into_owned())
}

} // verus!
