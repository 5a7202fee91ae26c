//! YAML documents, read through `yaml_rust`, as values of the library.
use vstd::prelude::*;
use yaml_rust::Yaml;

verus! {

/// `yaml_rust::Yaml`, a node of a loaded document, carried opaquely.
#[verifier::external_type_specification]
#[verifier::external_body]
pub struct ExYaml(yaml_rust::Yaml);

/// A YAML node, one variant for each variant of `yaml_rust::Yaml`; a hash
/// keeps its entries in document order.
pub enum YamlValue {
    Real(String),
    Integer(i64),
    String(String),
    Boolean(bool),
    Array(Vec<YamlValue>),
    Hash(Vec<(YamlValue, YamlValue)>),
    Alias(usize),
    Null,
    BadValue,
}

/// The documents that `yaml_rust::YamlLoader::load_from_str` reads from
/// `source`, or `None` where it reports a scan error.
pub uninterp spec fn spec_load_yaml(source: Seq<char>) -> Option<Seq<YamlValue>>;

/// Converts a `yaml_rust::Yaml` node variant for variant.
#[verifier::external_body]
fn yaml_value_of(y: &Yaml) -> YamlValue {
    match y {
        Yaml::Real(s) => YamlValue::Real(s.clone()),
        Yaml::Integer(i) => YamlValue::Integer(*i),
        Yaml::String(s) => YamlValue::String(s.clone()),
        Yaml::Boolean(b) => YamlValue::Boolean(*b),
        Yaml::Array(a) => YamlValue::Array(a.iter().map(yaml_value_of).collect()),
        Yaml::Hash(h) => YamlValue::Hash(h.iter().map(|(k, v)| (yaml_value_of(k), yaml_value_of(v))).collect()),
        Yaml::Alias(n) => YamlValue::Alias(*n),
        Yaml::Null => YamlValue::Null,
        Yaml::BadValue => YamlValue::BadValue,
    }
}

/// `yaml_rust::YamlLoader::load_from_str(source)`, each document converted
/// to a [`YamlValue`]; the documents are named, not stated.
#[verifier::external_body]
pub(crate) fn load_yaml(source: &str) -> (r: Option<Vec<YamlValue>>)
    ensures
        match r {
            Some(docs) => spec_load_yaml(source@) == Some(docs@),
            None => spec_load_yaml(source@) is None,
        },
{
    yaml_rust::YamlLoader::load_from_str(source).ok().map(|docs| docs.iter().map(yaml_value_of).collect())
}

/// The value of the first entry of a hash whose key is the string `key`.
pub open spec fn hash_lookup(entries: Seq<(YamlValue, YamlValue)>, key: Seq<char>) -> Option<YamlValue>
    decreases entries.len(),
{
    if entries.len() == 0 {
        None
    } else {
        match entries[0].0 {
            YamlValue::String(k) => if k@ == key {
                Some(entries[0].1)
            } else {
                hash_lookup(entries.drop_first(), key)
            },
            _ => hash_lookup(entries.drop_first(), key),
        }
    }
}

/// `node[key]`: the value under the string `key` where `node` is a hash;
/// `None` stands for `yaml_rust`'s `BadValue`.
pub open spec fn yaml_get(node: YamlValue, key: Seq<char>) -> Option<YamlValue> {
    match node {
        YamlValue::Hash(entries) => hash_lookup(entries@, key),
        _ => None,
    }
}

/// `node.as_str()`.
pub open spec fn as_str(node: Option<YamlValue>) -> Option<Seq<char>> {
    match node {
        Some(YamlValue::String(s)) => Some(s@),
        _ => None,
    }
}

/// `node.as_bool()`.
pub open spec fn as_bool(node: Option<YamlValue>) -> Option<bool> {
    match node {
        Some(YamlValue::Boolean(b)) => Some(b),
        _ => None,
    }
}

/// `node.as_str().unwrap_or(default)`.
pub open spec fn str_or(node: Option<YamlValue>, default: Seq<char>) -> Seq<char> {
    match as_str(node) {
        Some(s) => s,
        None => default,
    }
}

fn hash_lookup_exec<'a>(entries: &'a Vec<(YamlValue, YamlValue)>, key: &String) -> (r: Option<&'a YamlValue>)
    ensures
        match r {
            Some(v) => hash_lookup(entries@, key@) == Some(*v),
            None => hash_lookup(entries@, key@) is None,
        },
{
    let mut i: usize = 0;
    assert(entries@.skip(0) =~= entries@);
    while i < entries.len()
        invariant
            0 <= i <= entries@.len(),
            hash_lookup(entries@, key@) == hash_lookup(entries@.skip(i as int), key@),
        decreases entries.len() - i,
    {
        proof {
            assert(entries@.skip(i as int).drop_first() =~= entries@.skip(i + 1));
        }
        match &entries[i].0 {
            YamlValue::String(k) => {
                if *k == *key {
                    return Some(&entries[i].1);
                }
            },
            _ => {},
        }
        i = i + 1;
    }
    None
}

/// `node[key]`, with `None` for `BadValue`.
pub fn yaml_get_exec<'a>(node: &'a YamlValue, key: &String) -> (r: Option<&'a YamlValue>)
    ensures
        match r {
            Some(v) => yaml_get(*node, key@) == Some(*v),
            None => yaml_get(*node, key@) is None,
        },
{
    match node {
        YamlValue::Hash(entries) => hash_lookup_exec(entries, key),
        _ => None,
    }
}

/// `node.as_str().unwrap_or(default)`, as an owned string.
pub fn str_or_exec(node: Option<&YamlValue>, default: &str) -> (r: String)
    ensures
        r@ == str_or(
            match node {
                Some(v) => Some(*v),
                None => None,
            },
            default@,
        ),
{
    match node {
        Some(YamlValue::String(s)) => s.clone(),
        _ => default.to_owned(),
    }
}

} // verus!
