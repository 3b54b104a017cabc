//! A structured document: scalars, lists and mappings, as a manifest is read
//! from.

use vstd::prelude::*;

verus! {

/// One node of a structured document.
#[derive(Debug, PartialEq, Eq)]
pub enum Node {
    /// A scalar that is a string.
    Text(String),
    /// An ordered list of nodes.
    List(Vec<Node>),
    /// A mapping, as its entries of key and value in the order they were
    /// written.
    Mapping(Vec<(Node, Node)>),
    /// Anything else: a number, a boolean, null, an alias, a value that could
    /// not be read.
    Other,
}

/// The value of the first of `entries` whose key is the string `key`.
pub open spec fn lookup(entries: Seq<(Node, Node)>, key: Seq<char>) -> Option<Node>
    decreases entries.len(),
{
    if entries.len() == 0 {
        None
    } else if entries[0].0.text() == Some(key) {
        Some(entries[0].1)
    } else {
        lookup(entries.drop_first(), key)
    }
}

impl Node {
    /// The string that a string scalar holds.
    pub open spec fn text(self) -> Option<Seq<char>> {
        match self {
            Node::Text(s) => Some(s@),
            _ => None,
        }
    }

    /// The items of a list.
    pub open spec fn items(self) -> Option<Seq<Node>> {
        match self {
            Node::List(items) => Some(items@),
            _ => None,
        }
    }

    /// The entries of a mapping; a node that is no mapping has none.
    pub open spec fn entries(self) -> Seq<(Node, Node)> {
        match self {
            Node::Mapping(entries) => entries@,
            _ => Seq::empty(),
        }
    }

    /// The value that a mapping holds under the string key `key`.
    pub open spec fn field(self, key: Seq<char>) -> Option<Node> {
        lookup(self.entries(), key)
    }

    /// The string of a string scalar, `None` for any other node.
    pub fn as_text(&self) -> (res: Option<&String>)
        ensures
            match res {
                Some(s) => self.text() == Some(s@),
                None => self.text() is None,
            },
    {
        match self {
            Node::Text(s) => Some(s),
            _ => None,
        }
    }

    /// The items of a list, `None` for any other node.
    pub fn as_list(&self) -> (res: Option<&Vec<Node>>)
        ensures
            match res {
                Some(items) => self.items() == Some(items@),
                None => self.items() is None,
            },
    {
        match self {
            Node::List(items) => Some(items),
            _ => None,
        }
    }

    /// Looks `key` up in a mapping: the value of the first entry whose key is
    /// that string. `None` where there is no such entry or the node is no
    /// mapping.
    pub fn get(&self, key: &str) -> (res: Option<&Node>)
        ensures
            match res {
                Some(value) => self.field(key@) == Some(*value),
                None => self.field(key@) is None,
            },
    {
        match self {
            Node::Mapping(entries) => {
                let wanted = key.to_owned();
                let mut i: usize = 0;
                proof {
                    assert(entries@.skip(0) =~= entries@);
                }
                while i < entries.len()
                    invariant
                        i <= entries.len(),
                        self.entries() == entries@,
                        wanted@ == key@,
                        lookup(entries@, key@) == lookup(entries@.skip(i as int), key@),
                    decreases entries.len() - i,
                {
                    let ghost rest = entries@.skip(i as int);
                    proof {
                        assert(rest[0] == entries@[i as int]);
                        assert(rest.drop_first() =~= entries@.skip(i + 1));
                    }
                    match &entries[i].0 {
                        Node::Text(name) => {
                            if *name == wanted {
                                return Some(&entries[i].1);
                            }
                        },
                        _ => {},
                    }
                    i += 1;
                }
                None
            },
            _ => None,
        }
    }
}

} // verus!
