//! A source formatter for the SATySFi document language: it re-renders a
//! parsed document into canonical, stably indented text, recovering and
//! preserving the comments the grammar drops.  All text is handled as UTF-8
//! bytes, because the parser reports spans as byte offsets.

use vstd::prelude::*;

pub mod bytes;
pub mod comment;
pub mod config;
pub mod cst;
pub mod formatter;
pub mod helper;
pub mod laws;
pub mod parser;

use crate::bytes::B_NL;
use crate::comment::{lines_as_ints, spec_attached, spec_line_table, wf_lines};
use crate::config::OptionData;
use crate::cst::{spec_build, CstNode, CstView};
use crate::formatter::{s_cst, Formatter};
use crate::parser::parse_dump;

verus! {

/// Why one format call produced no formatted text.
pub enum FormatError {
    /// The external parser rejected the text, at this zero-based line and
    /// column.
    Parse { line: usize, column: usize },
    /// The parse tree broke the renderer's structural expectations (an
    /// unknown or error-recovery node kind, or spans that do not fit the
    /// text): the document is left unformatted rather than corrupted.
    Broken,
}

/// The formatted text of a well-formed tree: comments reattached, the tree
/// rendered from depth zero, and exactly one trailing line feed (whatever
/// number the rendering itself ends in).
pub open spec fn spec_format_parsed(
    text: Seq<u8>,
    lines: Seq<int>,
    cv: CstView,
    option: OptionData,
) -> Seq<u8> {
    let attached = spec_attached(text, lines, cv);
    let body = s_cst(text, option, attached, 0);
    crate::bytes::spec_trim_end_nl(body) + seq![B_NL]
}

/// Formats an already-parsed document: recovers the comments of `text`,
/// attaches them to the tree, renders it, and closes the output with
/// exactly one line feed.
pub fn format_parsed(text: &Vec<u8>, lines: &Vec<usize>, cst: &CstNode, option: OptionData) -> (out:
    Vec<u8>)
    requires
        cst@.wf(text@.len() as int),
        wf_lines(text@, lines_as_ints(lines@)),
    ensures
        out@ == spec_format_parsed(text@, lines_as_ints(lines@), cst@, option),
{
    let attached = crate::comment::csttext_insert_comments(cst, text, lines);
    proof {
        crate::comment::lemma_attached_wf(text@, lines_as_ints(lines@), cst@);
    }
    let fmt = Formatter::new(option);
    let body = fmt.to_string_cst(text, &attached, 0);
    let mut out = crate::bytes::trim_end_nl(&body);
    out.push(B_NL);
    proof {
        assert(out@ =~= spec_format_parsed(text@, lines_as_ints(lines@), cst@, option));
    }
    out
}

/// Parses and formats a document.  Success is owed exactly when the parse
/// succeeds and its dump decodes: the output is then the canonical
/// rendering, under the text's own line table, of the tree the dump
/// denotes.  A parse failure carries the failure position, and a dump that
/// does not decode aborts the call rather than corrupting the document.
pub fn try_format(input: &Vec<u8>, option: OptionData) -> (r: Result<Vec<u8>, FormatError>)
    ensures
        match r {
            Ok(out) => parse_dump(input@) matches Ok(d) && spec_build(d, input@.len() as int)
                matches Some(cv) && cv.wf(input@.len() as int) && out@ == spec_format_parsed(
                input@,
                spec_line_table(input@),
                cv,
                option,
            ),
            Err(FormatError::Parse { line, column }) => parse_dump(input@) matches Err(e) && e.0
                == line as int && e.1 == column as int,
            Err(FormatError::Broken) => parse_dump(input@) matches Ok(d) && spec_build(
                d,
                input@.len() as int,
            ) is None,
        },
{
    let flat = match crate::parser::parse_program(input) {
        Ok(f) => f,
        Err((line, column)) => {
            return Err(FormatError::Parse { line, column });
        },
    };
    let cst = match crate::cst::build_tree(&flat, input.len()) {
        Some(c) => c,
        None => {
            return Err(FormatError::Broken);
        },
    };
    let lines = crate::comment::line_starts(input);
    let out = format_parsed(input, &lines, &cst, option);
    proof {
        assert(cst@.wf(input@.len() as int) && out@ == spec_format_parsed(
            input@,
            spec_line_table(input@),
            cst@,
            option,
        ));
    }
    Ok(out)
}

/// Formats a document, or returns it unchanged (with the reason) when it
/// cannot be formatted: the parse fails, or its dump does not decode.
pub fn format(input: &Vec<u8>, option: OptionData) -> (r: (Vec<u8>, Option<FormatError>))
    ensures
        r.1 is Some ==> r.0@ == input@,
        match r.1 {
            Some(FormatError::Parse { line, column }) => parse_dump(input@) matches Err(e) && e.0
                == line as int && e.1 == column as int,
            Some(FormatError::Broken) => parse_dump(input@) matches Ok(d) && spec_build(
                d,
                input@.len() as int,
            ) is None,
            None => parse_dump(input@) matches Ok(d) && spec_build(d, input@.len() as int)
                matches Some(cv) && cv.wf(input@.len() as int) && r.0@ == spec_format_parsed(
                input@,
                spec_line_table(input@),
                cv,
                option,
            ),
        },
{
    match try_format(input, option) {
        Ok(out) => (out, None),
        Err(e) => {
            let mut copy: Vec<u8> = Vec::new();
            crate::bytes::app(&mut copy, input);
            (copy, Some(e))
        },
    }
}

} // verus!
