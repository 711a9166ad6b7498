//! Syntax trees as plain data: what the graph builder reads of a parsed
//! file.

use crate::text::texts;
use crate::text::{str_eq, utf8_text};
use vstd::slice::slice_subrange;
use vstd::prelude::*;
use vstd::utf8::{decode_utf8, valid_utf8};

verus! {

/// One node of a concrete syntax tree.
#[derive(Debug)]
pub struct SyntaxNode {
    /// The node kind, as the grammar names it.
    pub kind: String,
    /// The field name under which the parent holds this node, if any.
    pub field: Option<String>,
    pub start_byte: usize,
    pub end_byte: usize,
    /// Row and column of the first byte, both counted from zero.
    pub start_row: usize,
    pub start_col: usize,
    pub children: Vec<SyntaxNode>,
}

/// The text between two byte offsets of a file, where the offsets lie in the
/// file and the bytes between them are well-formed UTF-8.
pub open spec fn span_text(code: Seq<u8>, start: int, end: int) -> Option<Seq<char>> {
    if 0 <= start <= end <= code.len() && valid_utf8(code.subrange(start, end)) {
        Some(decode_utf8(code.subrange(start, end)))
    } else {
        None
    }
}

/// The first index at or after `i` whose node is held under the field
/// `name`, or the length.
pub open spec fn field_index(children: Seq<SyntaxNode>, name: Seq<char>, i: int) -> int
    decreases children.len() - i,
{
    if 0 <= i < children.len() && !(children[i].field matches Some(f) && f@ == name) {
        field_index(children, name, i + 1)
    } else {
        i
    }
}

fn holds_field(n: &SyntaxNode, name: &str) -> (r: bool)
    ensures
        r == (n.field matches Some(f) && f@ == name@),
{
    match &n.field {
        Some(f) => str_eq(f.as_str(), name),
        None => false,
    }
}

impl SyntaxNode {
    /// The text that the node spans.
    pub open spec fn text(self, code: Seq<u8>) -> Option<Seq<char>> {
        span_text(code, self.start_byte as int, self.end_byte as int)
    }

    /// The first child held under the field `name`.
    pub open spec fn field_child(self, name: Seq<char>) -> Option<SyntaxNode> {
        let i = field_index(self.children@, name, 0);
        if i < self.children@.len() {
            Some(self.children@[i])
        } else {
            None
        }
    }

    /// The identifiers in the subtree, in the order of a depth-first walk. A
    /// node of kind `identifier` is an identifier and is not entered.
    pub open spec fn idents(self, code: Seq<u8>) -> Seq<Seq<char>>
        decreases self, self.children@.len() + 1,
    {
        if self.kind@ == "identifier"@ {
            match self.text(code) {
                Some(t) => seq![t],
                None => Seq::empty(),
            }
        } else {
            self.idents_upto(code, self.children@.len())
        }
    }

    /// The identifiers in the subtrees of the first `k` children.
    pub open spec fn idents_upto(self, code: Seq<u8>, k: nat) -> Seq<Seq<char>>
        decreases self, k,
    {
        if k == 0 || k > self.children@.len() {
            Seq::empty()
        } else {
            self.idents_upto(code, (k - 1) as nat) + self.children@[k - 1].idents(code)
        }
    }

    /// The text that the node spans.
    pub fn text_of(&self, code: &[u8]) -> (r: Option<String>)
        ensures
            crate::text::opt_text(r) == self.text(code@),
    {
        if self.start_byte <= self.end_byte && self.end_byte <= code.len() {
            utf8_text(slice_subrange(code, self.start_byte, self.end_byte))
        } else {
            None
        }
    }

    /// The index of the first child held under the field `name`, or the
    /// number of children.
    pub fn field_position(&self, name: &str) -> (i: usize)
        ensures
            i == field_index(self.children@, name@, 0),
            i <= self.children@.len(),
    {
        let mut i: usize = 0;
        while i < self.children.len() && !holds_field(&self.children[i], name)
            invariant
                i <= self.children.len(),
                field_index(self.children@, name@, 0) == field_index(
                    self.children@,
                    name@,
                    i as int,
                ),
            decreases self.children.len() - i,
        {
            i += 1;
        }
        i
    }

    /// The first child held under the field `name`.
    pub fn child_by_field_name(&self, name: &str) -> (r: Option<&SyntaxNode>)
        ensures
            match r {
                Some(c) => self.field_child(name@) == Some(*c),
                None => self.field_child(name@) is None,
            },
    {
        let i = self.field_position(name);
        if i < self.children.len() {
            Some(&self.children[i])
        } else {
            None
        }
    }

    /// Appends the identifiers of the subtree to `out`.
    pub fn collect_idents(&self, code: &[u8], out: &mut Vec<String>)
        ensures
            texts(final(out)@) == texts(old(out)@) + self.idents(code@),
        decreases self,
    {
        if str_eq(self.kind.as_str(), "identifier") {
            match self.text_of(code) {
                Some(t) => {
                    out.push(t);
                },
                None => {
                },
            }
        } else {
            let mut i: usize = 0;
            while i < self.children.len()
                invariant
                    i <= self.children.len(),
                    texts(out@) == texts(old(out)@) + self.idents_upto(code@, i as nat),
                decreases self.children.len() - i,
            {
                self.children[i].collect_idents(code, out);
                i += 1;
            }
        }
    }
}

} // verus!
