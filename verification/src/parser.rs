//! The boundary to the external syntax analysis: `satysfi_parser` turns raw
//! text into a concrete syntax tree.  The tree is handed over as a flat
//! depth-first dump of plain values (rule name, byte span, child count),
//! which `crate::cst::build_tree` validates and rebuilds; nothing about the
//! parse result is assumed beyond what the validation checks.

use vstd::prelude::*;

use crate::cst::{raw_views_of, RawNode, RawNodeView};

verus! {

/// What parsing a text yields: the flat depth-first dump of the syntax
/// tree, or the zero-based line and column of the failure.  The parser is a
/// pure function of the text — same bytes, same outcome, in every process —
/// so its result carries a name; no contract says what the name is on any
/// given text.
pub uninterp spec fn parse_dump(text: Seq<u8>) -> Result<Seq<RawNodeView>, (int, int)>;

/// The external parser's tree node type, opaque to the verifier; it only
/// passes through `flatten`.
#[verifier::external_type_specification]
#[verifier::external_body]
pub struct ExCst(satysfi_parser::Cst);

/// Relies on `satysfi_parser::CstText::parse` with
/// `satysfi_parser::grammar::program`: parses the text as a whole program
/// and returns its tree flattened depth-first, or the zero-based line and
/// column of the failure (bytes that are not UTF-8 are reported as a
/// failure at the origin).  The result is exactly `parse_dump` of the text;
/// nothing more is assumed, and the caller validates the dump.
#[verifier::external_body]
pub fn parse_program(text: &Vec<u8>) -> (r: Result<Vec<RawNode>, (usize, usize)>)
    ensures
        match r {
            Ok(flat) => parse_dump(text@) matches Ok(d) && raw_views_of(flat@) == d,
            Err(lc) => parse_dump(text@) matches Err(e) && e.0 == lc.0 as int && e.1 == lc.1
                as int,
        },
{
    let s = match std::str::from_utf8(text) {
        Ok(s) => s,
        Err(_) => return Err((0, 0)),
    };
    match satysfi_parser::CstText::parse(s, satysfi_parser::grammar::program) {
        Ok(ct) => {
            let mut out: Vec<RawNode> = Vec::new();
            flatten(&ct.cst, &mut out);
            Ok(out)
        },
        Err((lc, _)) => Err((lc.line, lc.column)),
    }
}

/// Relies on the public fields of `satysfi_parser::Cst` (`rule`, `span`,
/// `inner`) and on its `Debug` form of `rule`, which prints the grammar
/// rule's name: copies each node of the tree, depth-first, into the flat
/// dump.
#[verifier::external_body]
fn flatten(cst: &satysfi_parser::Cst, out: &mut Vec<RawNode>) {
    out.push(
        RawNode {
            name: format!("{:?}", cst.rule).into_bytes(),
            start: cst.span.start,
            end: cst.span.end,
            n_inner: cst.inner.len(),
        },
    );
    for c in cst.inner.iter() {
        flatten(c, out);
    }
}

} // verus!
