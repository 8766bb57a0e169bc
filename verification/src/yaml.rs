//! The trusted boundary around `serde_yaml`. The library keeps a parsed
//! frontmatter as an opaque `serde_yaml::Mapping` and reaches it only
//! through the wrappers below. Each wrapper's result is pinned to an
//! uninterpreted name, so that everything downstream is a function of the
//! document text alone: parsing, the `title` lookup and the
//! re-serialization are deterministic in `serde_yaml` (a `Mapping` keeps
//! its entries in insertion order).

use vstd::prelude::*;

verus! {

/// Declares `serde_yaml::Mapping`, the ordered map a YAML document
/// parses into; the library carries it opaquely between the wrappers.
#[verifier::external_type_specification]
#[verifier::external_body]
pub struct ExMapping(serde_yaml::Mapping);

/// Declares `serde_yaml::Value`, one YAML value of a mapping.
#[verifier::external_type_specification]
#[verifier::external_body]
pub struct ExValue(serde_yaml::Value);

/// Declares `serde_yaml::Error`, carried inside the library's own error
/// type for the caller to print.
#[verifier::external_type_specification]
#[verifier::external_body]
pub struct ExError(serde_yaml::Error);

/// The mapping that `serde_yaml::from_str` parses a YAML document into;
/// `None` where the text is not a YAML mapping.
pub uninterp spec fn yaml_mapping_of(s: Seq<char>) -> Option<serde_yaml::Mapping>;

/// The result of `serde_yaml::to_string` on a mapping: the serialized
/// text, or `None` where the serializer rejects the mapping.
pub uninterp spec fn yaml_emit_of(m: serde_yaml::Mapping) -> Option<Seq<char>>;

/// The entry of a mapping under the string key `title`.
pub uninterp spec fn title_value_of(m: serde_yaml::Mapping) -> Option<serde_yaml::Value>;

/// The characters of a YAML value that is a string; `None` for any other
/// kind of value.
pub uninterp spec fn str_of_value(v: serde_yaml::Value) -> Option<Seq<char>>;

/// Relies on `serde_yaml::from_str::<Mapping>`: the result is a function
/// of the text alone; it is `Ok` exactly when the text parses as a YAML
/// mapping. An empty document parses to the empty mapping, which has no
/// entry under any key.
#[verifier::external_body]
pub(crate) fn parse_yaml_mapping(s: &str) -> (r: Result<serde_yaml::Mapping, serde_yaml::Error>)
    ensures
        r is Ok <==> yaml_mapping_of(s@) is Some,
        r matches Ok(m) ==> yaml_mapping_of(s@) == Some(m),
        s@.len() == 0 ==> r is Ok && title_value_of(r->Ok_0) is None,
{
    serde_yaml::from_str::<serde_yaml::Mapping>(s)
}

/// Relies on `serde_yaml::to_string` on a `Mapping`: the result is a
/// function of the mapping alone (entries are written in their stored
/// order), and it is `Ok` exactly where the serializer accepts the
/// mapping.
#[verifier::external_body]
pub(crate) fn mapping_to_yaml(m: &serde_yaml::Mapping) -> (r: Result<String, serde_yaml::Error>)
    ensures
        r is Ok <==> yaml_emit_of(*m) is Some,
        r matches Ok(t) ==> yaml_emit_of(*m) == Some(t@),
{
    serde_yaml::to_string(m)
}

/// Relies on `serde_yaml::Mapping::get` with a `str` index: returns the
/// entry whose key is the string `title`, a function of the mapping
/// alone.
#[verifier::external_body]
pub(crate) fn mapping_title<'a>(m: &'a serde_yaml::Mapping) -> (r: Option<&'a serde_yaml::Value>)
    ensures
        match r {
            Some(v) => title_value_of(*m) == Some(*v),
            None => title_value_of(*m) is None,
        },
{
    m.get("title")
}

/// Relies on `serde_yaml::Value::as_str`: `Some` exactly when the value
/// is a (possibly tagged) string, a function of the value alone.
#[verifier::external_body]
pub(crate) fn value_as_str(v: &serde_yaml::Value) -> (r: Option<String>)
    ensures
        r is Some <==> str_of_value(*v) is Some,
        r matches Some(s) ==> str_of_value(*v) == Some(s@),
{
    v.as_str().map(|s| s.to_owned())
}

} // verus!
