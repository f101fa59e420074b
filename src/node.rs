use vstd::prelude::*;

verus! {

/// A parsed document node: a mapping, a sequence or a scalar.
///
/// Real numbers are kept in the text they were written in.
#[derive(Debug, PartialEq)]
pub enum Node {
    Real(String),
    Integer(i64),
    Str(String),
    Boolean(bool),
    Array(Vec<Node>),
    /// Key and value pairs, in the order of the document. Keys need not be
    /// unique: a path segment selects the first entry whose key is that
    /// string, and keys of other kinds are never selected.
    Hash(Vec<(Node, Node)>),
    Alias(usize),
    Null,
    BadValue,
}

} // verus!
