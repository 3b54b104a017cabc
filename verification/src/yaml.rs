//! Reading YAML text into documents, by the `yaml-rust` crate.

use crate::document::Node;
use vstd::prelude::*;
use yaml_rust::{ScanError, Yaml, YamlLoader};

verus! {

#[verifier::external_type_specification]
#[verifier::external_body]
pub struct ExYaml(yaml_rust::Yaml);

#[verifier::external_type_specification]
#[verifier::external_body]
pub struct ExScanError(yaml_rust::ScanError);

/// The documents that `yaml-rust` reads from `text`, each as a [`Node`];
/// `None` where it reports a scan error.
pub uninterp spec fn yaml_documents(text: Seq<char>) -> Option<Seq<Node>>;

/// Trusted, not proved. Changes a `yaml_rust::Yaml` into a [`Node`], variant
/// by variant: `String` becomes `Text`, `Array` becomes `List`, `Hash` becomes
/// `Mapping` with its entries in the order the hash holds them, every other
/// variant becomes `Other`.
#[verifier::external_body]
fn tree_of(node: &Yaml) -> Node {
    match node {
        Yaml::String(s) => Node::Text(s.clone()),
        Yaml::Array(items) => Node::List(items.iter().map(tree_of).collect()),
        Yaml::Hash(entries) => Node::Mapping(
            entries.iter().map(|(key, value)| (tree_of(key), tree_of(value))).collect(),
        ),
        _ => Node::Other,
    }
}

/// Trusted, not proved. Calls `yaml_rust::YamlLoader::load_from_str` on
/// `text` and hands its documents out as [`Node`]s. The contract claims that
/// what comes back depends on `text` alone: the documents, or the scan error
/// where the text is not YAML.
#[verifier::external_body]
pub(crate) fn load_documents(text: &str) -> (res: Result<Vec<Node>, ScanError>)
    ensures
        match res {
            Ok(documents) => yaml_documents(text@) == Some(documents@),
            Err(_) => yaml_documents(text@) is None,
        },
{
    match YamlLoader::load_from_str(text) {
        Ok(documents) => Ok(documents.iter().map(tree_of).collect()),
        Err(error) => Err(error),
    }
}

/// The documents that `text` holds, `None` where it is not YAML.
pub fn read_documents(text: &str) -> (res: Option<Vec<Node>>)
    ensures
        res is Some <==> yaml_documents(text@) is Some,
        res matches Some(documents) ==> yaml_documents(text@) == Some(documents@),
{
    match load_documents(text) {
        Ok(documents) => Some(documents),
        Err(_) => None,
    }
}

} // verus!
