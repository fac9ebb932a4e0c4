//! Errors met while reading and validating a connector's configuration, and
//! the text each one is shown as.
//!
//! File paths are held as the text they are displayed as.

use vstd::prelude::*;

use crate::text::{append_decimal, debug_quoted, decimal, quoted};

verus! {

#[verifier::external_type_specification]
#[verifier::external_body]
pub struct ExIoError(std::io::Error);

/// Relies on std's `Display` for `io::Error`: no promise on the text, which
/// depends on the operating system.
#[verifier::external_body]
fn io_error_text(e: &std::io::Error) -> (r: String) {
    e.to_string()
}

/// A segment in a node path, used with [`InvalidNode`].
pub enum KeyOrIndex {
    Key(String),
    Index(u32),
}

/// An error associated with the position of a single character in a text file.
pub struct LocatedError {
    pub file_path: String,
    pub line: usize,
    pub column: usize,
    pub message: String,
}

/// An error associated with a node in a graph structure.
pub struct InvalidNode {
    pub file_path: String,
    pub node_path: Vec<KeyOrIndex>,
    pub message: String,
}

/// A set of invalid nodes.
pub struct InvalidNodes(pub Vec<InvalidNode>);

/// Errors which occur when trying to validate connector configuration.
pub enum ParseError {
    ParseError(LocatedError),
    ValidateError(InvalidNodes),
    CouldNotFindConfiguration(String),
    IoError(std::io::Error),
}

/// `[index]` for an index, `["key"]` (quoted as `{:?}` does) for a key.
pub open spec fn segment_text(k: KeyOrIndex) -> Seq<char> {
    match k {
        KeyOrIndex::Key(key) => "["@ + debug_quoted(key@) + "]"@,
        KeyOrIndex::Index(i) => "["@ + decimal(i as nat) + "]"@,
    }
}

/// `path:line:column: message`.
pub open spec fn located_text(e: LocatedError) -> Seq<char> {
    e.file_path@ + ":"@ + decimal(e.line as nat) + ":"@ + decimal(e.column as nat) + ": "@
        + e.message@
}

/// Each segment preceded by a dot.
pub open spec fn node_path_text(path: Seq<KeyOrIndex>) -> Seq<char>
    decreases path.len(),
{
    if path.len() == 0 {
        seq![]
    } else {
        node_path_text(path.drop_last()) + "."@ + segment_text(path.last())
    }
}

/// `path, at .seg.seg: message`.
pub open spec fn node_text(n: InvalidNode) -> Seq<char> {
    n.file_path@ + ", at "@ + node_path_text(n.node_path@) + ": "@ + n.message@
}

/// The nodes' texts separated by `, `.
pub open spec fn nodes_text(ns: Seq<InvalidNode>) -> Seq<char>
    decreases ns.len(),
{
    if ns.len() == 0 {
        seq![]
    } else if ns.len() == 1 {
        node_text(ns[0])
    } else {
        nodes_text(ns.drop_last()) + ", "@ + node_text(ns.last())
    }
}

impl KeyOrIndex {
    pub fn to_string(&self) -> (r: String)
        ensures
            r@ == segment_text(*self),
    {
        let mut r = String::from_str("[");
        match self {
            KeyOrIndex::Key(key) => {
                let q = quoted(key.as_str());
                r.append(q.as_str());
            },
            KeyOrIndex::Index(i) => {
                append_decimal(&mut r, *i as u64);
            },
        }
        r.append("]");
        r
    }
}

impl LocatedError {
    pub fn to_string(&self) -> (r: String)
        ensures
            r@ == located_text(*self),
    {
        let mut r = self.file_path.clone();
        r.append(":");
        append_decimal(&mut r, self.line as u64);
        r.append(":");
        append_decimal(&mut r, self.column as u64);
        r.append(": ");
        r.append(self.message.as_str());
        r
    }
}

impl InvalidNode {
    pub fn to_string(&self) -> (r: String)
        ensures
            r@ == node_text(*self),
    {
        let mut r = self.file_path.clone();
        r.append(", at ");
        let mut i: usize = 0;
        while i < self.node_path.len()
            invariant
                i <= self.node_path@.len(),
                r@ == self.file_path@ + ", at "@ + node_path_text(
                    self.node_path@.subrange(0, i as int),
                ),
            decreases self.node_path@.len() - i,
        {
            let seg = self.node_path[i].to_string();
            r.append(".");
            r.append(seg.as_str());
            proof {
                let next = self.node_path@.subrange(0, i as int + 1);
                assert(next.drop_last() =~= self.node_path@.subrange(0, i as int));
            }
            i = i + 1;
        }
        assert(self.node_path@.subrange(0, i as int) =~= self.node_path@);
        r.append(": ");
        r.append(self.message.as_str());
        r
    }
}

impl InvalidNodes {
    pub fn to_string(&self) -> (r: String)
        ensures
            r@ == nodes_text(self.0@),
    {
        let mut r = String::new();
        let mut i: usize = 0;
        while i < self.0.len()
            invariant
                i <= self.0@.len(),
                r@ == nodes_text(self.0@.subrange(0, i as int)),
            decreases self.0@.len() - i,
        {
            let t = self.0[i].to_string();
            if i > 0 {
                r.append(", ");
            }
            r.append(t.as_str());
            proof {
                let next = self.0@.subrange(0, i as int + 1);
                assert(next.drop_last() =~= self.0@.subrange(0, i as int));
                if i == 0 {
                    assert(r@ =~= nodes_text(next));
                }
            }
            i = i + 1;
        }
        assert(self.0@.subrange(0, i as int) =~= self.0@);
        r
    }
}

/// The text of a parse error; for an I/O error, the part that precedes the
/// error's own text.
pub open spec fn parse_error_text(e: ParseError) -> Seq<char> {
    match e {
        ParseError::ParseError(l) => "error parsing configuration: "@ + located_text(l),
        ParseError::ValidateError(ns) => "error validating configuration: "@ + nodes_text(ns.0@),
        ParseError::CouldNotFindConfiguration(p) => "could not find configuration file: "@ + p@,
        ParseError::IoError(_) => "error processing configuration: "@,
    }
}

impl ParseError {
    /// The message; for an I/O error it is followed by the error's own text.
    pub fn to_string(&self) -> (r: String)
        ensures
            !(*self is IoError) ==> r@ == parse_error_text(*self),
            *self is IoError ==> r@.len() >= parse_error_text(*self).len() && r@.subrange(
                0,
                parse_error_text(*self).len() as int,
            ) == parse_error_text(*self),
    {
        match self {
            ParseError::ParseError(l) => {
                let mut r = String::from_str("error parsing configuration: ");
                r.append(l.to_string().as_str());
                r
            },
            ParseError::ValidateError(ns) => {
                let mut r = String::from_str("error validating configuration: ");
                r.append(ns.to_string().as_str());
                r
            },
            ParseError::CouldNotFindConfiguration(p) => {
                let mut r = String::from_str("could not find configuration file: ");
                r.append(p.as_str());
                r
            },
            ParseError::IoError(e) => {
                let mut r = String::from_str("error processing configuration: ");
                let ghost prefix = r@;
                r.append(io_error_text(e).as_str());
                assert(r@.subrange(0, prefix.len() as int) =~= prefix);
                r
            },
        }
    }
}

} // verus!
