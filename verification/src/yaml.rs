//! YAML documents, as the `yaml-rust` crate loads and reads them.

use vstd::prelude::*;
use yaml_rust::Yaml;
use yaml_rust::YamlLoader;

verus! {

/// `yaml_rust::Yaml`, a node of a loaded document. Nothing is known of one
/// but what the functions below say.
#[verifier::external_type_specification]
#[verifier::external_body]
pub struct ExYaml(Yaml);

/// What `YamlLoader::load_from_str` makes of a text: the documents it holds,
/// or `None` where the text is not YAML.
pub uninterp spec fn yaml_documents(text: Seq<char>) -> Option<Seq<Yaml>>;

/// What indexing a node by a string key gives: the value under that key
/// where the node is a mapping that has it, the crate's bad value otherwise.
pub uninterp spec fn yaml_member(node: Yaml, key: Seq<char>) -> Yaml;

/// What `Yaml::as_str` gives: the text of a string node, `None` for any
/// other node.
pub uninterp spec fn yaml_string(node: Yaml) -> Option<Seq<char>>;

/// What `Yaml::as_vec` gives: the items of a sequence node, `None` for any
/// other node.
pub uninterp spec fn yaml_array(node: Yaml) -> Option<Seq<Yaml>>;

/// Calls `YamlLoader::load_from_str` and drops the scan error. The outcome
/// depends on the text alone.
#[verifier::external_body]
pub(crate) fn load_from_str(text: &str) -> (docs: Option<Vec<Yaml>>)
    ensures
        match docs {
            Some(ds) => yaml_documents(text@) == Some(ds@),
            None => yaml_documents(text@) is None,
        },
{
    YamlLoader::load_from_str(text).ok()
}

/// Indexes a node by a string key, through the crate's `Index<&str>` for
/// `Yaml`. The node handed back depends on the node and the key alone.
#[verifier::external_body]
pub(crate) fn member<'a>(node: &'a Yaml, key: &str) -> (value: &'a Yaml)
    ensures
        *value == yaml_member(*node, key@),
{
    &node[key]
}

/// Calls `Yaml::as_str`. The outcome depends on the node alone.
#[verifier::external_body]
pub(crate) fn as_str<'a>(node: &'a Yaml) -> (text: Option<&'a str>)
    ensures
        match text {
            Some(s) => yaml_string(*node) == Some(s@),
            None => yaml_string(*node) is None,
        },
{
    node.as_str()
}

/// Calls `Yaml::as_vec`. The outcome depends on the node alone.
#[verifier::external_body]
pub(crate) fn as_vec<'a>(node: &'a Yaml) -> (items: Option<&'a Vec<Yaml>>)
    ensures
        match items {
            Some(v) => yaml_array(*node) == Some(v@),
            None => yaml_array(*node) is None,
        },
{
    node.as_vec()
}

} // verus!
