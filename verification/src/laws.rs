//! The library's general guarantees, stated and proved once over the spec
//! functions that the executable contracts use: what escaping means for
//! comment recovery, that header lines yield no comments, that reattachment
//! loses no child and materializes exactly the claimed comments, that the
//! output closes with exactly one line feed, and how a record's arity and a
//! text argument's width decide its layout.

use vstd::prelude::*;

use vstd::seq_lib::lemma_multiset_commutative;

use crate::bytes::{first_byte, is_ws, spec_trim, B_NL, B_PERCENT};
use crate::comment::{
    esc_run, is_comment_start, is_header_line, line_comment_pos, spec_check, spec_comments_from,
    spec_insert, spec_insert_children, spec_insert_sorted, spec_matched, spec_sort, wf_lines,
    CommentView,
};
use crate::config::OptionData;
use crate::cst::{CstView, Rule};
use crate::formatter::{bump, new_depth_of, nl_ind, s_cst, s_inner};

use crate::bytes::lemma_trim_end_nl_free;

verus! {

/// Escape correctness: on a non-header line, a `%` behind an odd run of
/// backslashes (`\%`) never starts the comment, while an unescaped `%`
/// (`\\%` included) guarantees one, at the first such position.
pub proof fn lemma_escape_correctness(line: Seq<u8>, k: int)
    requires
        !is_header_line(line),
        0 <= k < line.len(),
        line[k] == B_PERCENT,
    ensures
        esc_run(line, k) % 2 == 1 ==> line_comment_pos(line) != k,
        esc_run(line, k) % 2 == 0 ==> 0 <= line_comment_pos(line) <= k && is_comment_start(
            line,
            line_comment_pos(line),
        ),
{
    crate::comment::lemma_scan_props(line, 0);
    if esc_run(line, k) % 2 == 0 {
        assert(is_comment_start(line, k));
        let r = line_comment_pos(line);
        if r == -1 {
            assert(!is_comment_start(line, k));
            assert(false);
        }
        if r > k {
            assert(!is_comment_start(line, k));
            assert(false);
        }
    }
}

/// Header exclusion: a line that opens with a header introducer contributes
/// no comment, whatever it holds after that.
pub proof fn lemma_header_exclusion(text: Seq<u8>, lines: Seq<int>, i: int)
    requires
        wf_lines(text, lines),
        1 <= i < lines.len(),
        is_header_line(text.subrange(lines[i - 1], lines[i])),
    ensures
        spec_comments_from(text, lines, i) == spec_comments_from(text, lines, i + 1),
{
    assert(spec_comments_from(text, lines, i) =~= spec_comments_from(text, lines, i + 1));
}

proof fn lemma_insert_sorted_multiset(x: CstView, s: Seq<CstView>)
    ensures
        spec_insert_sorted(x, s).to_multiset() == s.to_multiset().insert(x),
    decreases s.len(),
{
    broadcast use vstd::seq_lib::group_to_multiset_ensures;
    broadcast use vstd::multiset::group_multiset_axioms;

    if s.len() == 0 {
        assert(seq![x] =~= Seq::<CstView>::empty().push(x));
        assert(spec_insert_sorted(x, s).to_multiset() =~= s.to_multiset().insert(x));
    } else if x.start < s[0].start {
        lemma_multiset_commutative(seq![x], s);
        assert(seq![x] =~= Seq::<CstView>::empty().push(x));
        assert(spec_insert_sorted(x, s).to_multiset() =~= s.to_multiset().insert(x));
    } else {
        let t = s.subrange(1, s.len() as int);
        lemma_insert_sorted_multiset(x, t);
        lemma_multiset_commutative(seq![s[0]], spec_insert_sorted(x, t));
        lemma_multiset_commutative(seq![s[0]], t);
        assert(seq![s[0]] + t =~= s);
        assert(spec_insert_sorted(x, s).to_multiset() =~= s.to_multiset().insert(x));
    }
}

/// Re-sorting a rebuilt child list permutes it: no child appears or
/// disappears.
pub proof fn lemma_sort_multiset(s: Seq<CstView>)
    ensures
        spec_sort(s).to_multiset() == s.to_multiset(),
    decreases s.len(),
{
    broadcast use vstd::seq_lib::group_to_multiset_ensures;

    if s.len() > 0 {
        lemma_sort_multiset(s.drop_last());
        lemma_insert_sorted_multiset(s.last(), spec_sort(s.drop_last()));
        assert(s =~= s.drop_last().push(s.last()));
    }
}

/// Comment conservation at a node: after one reattachment step, the node's
/// children are exactly the recursively rebuilt children plus one `comments`
/// leaf for each comment the node claimed, with its span — nothing else is
/// added or lost (the re-sort only permutes).
pub proof fn lemma_node_comment_conservation(cv: CstView, q: Seq<CommentView>)
    ensures
        spec_insert(cv, q).0.inner.to_multiset() == (spec_insert_children(cv, 0, q).0
            + spec_matched(cv, q, 0).map_values(
            |c: CommentView| CstView::leaf(Rule::comments, c.start, c.end),
        )).to_multiset(),
{
    broadcast use vstd::seq_lib::group_to_multiset_ensures;

    let matched = spec_matched(cv, q, 0);
    let kids = spec_insert_children(cv, 0, q).0;
    let leaves = matched.map_values(|c: CommentView| CstView::leaf(Rule::comments, c.start, c.end));
    if matched.len() == 0 {
        assert(leaves =~= Seq::<CstView>::empty());
        assert(kids + leaves =~= kids);
    } else {
        lemma_sort_multiset(kids + leaves);
    }
}

/// A comment claimed by a node is one the queue held, and the claims keep
/// the queue's order position by position.
pub proof fn lemma_matched_from_queue(cv: CstView, q: Seq<CommentView>, i: int, k: int)
    requires
        0 <= k < spec_matched(cv, q, i).len(),
        0 <= i,
    ensures
        exists|j: int|
            i <= j < q.len() && q[j] == spec_matched(cv, q, i)[k] && spec_check(cv, q[j]),
    decreases q.len() - i,
{
    if i < q.len() {
        let m = spec_matched(cv, q, i);
        let rest = spec_matched(cv, q, i + 1);
        if spec_check(cv, q[i]) && k == 0 {
            assert(m[0] == q[i]);
        } else {
            if spec_check(cv, q[i]) {
                assert(m[k] == rest[k - 1]);
                lemma_matched_from_queue(cv, q, i + 1, k - 1);
            } else {
                assert(m[k] == rest[k]);
                lemma_matched_from_queue(cv, q, i + 1, k);
            }
        }
    }
}

/// Record arity: a record (or type record) with exactly one field stays on
/// one line between its delimiters; with two or more fields it always takes
/// the indented multi-line form.
pub proof fn lemma_record_arity(t: Seq<u8>, o: OptionData, c: CstView, depth: int)
    requires
        c.rule == Rule::record || c.rule == Rule::type_record,
    ensures
        c.inner.len() == 1 ==> s_cst(t, o, c, depth) == crate::bytes::ascii_of("(|"@)
            + s_cst(t, o, c.inner[0], bump(depth)) + crate::bytes::ascii_of("|)"@),
        c.inner.len() > 1 ==> s_cst(t, o, c, depth) == crate::bytes::ascii_of("(|"@)
            + nl_ind(o, bump(depth)) + s_inner(t, o, c, bump(depth)) + nl_ind(o, depth)
            + crate::bytes::ascii_of("|)"@),
{
}

/// The formatted output of any well-formed tree ends with exactly one line
/// feed.
pub proof fn lemma_single_trailing_newline(
    text: Seq<u8>,
    lines: Seq<int>,
    cv: CstView,
    o: OptionData,
)
    ensures
        crate::spec_format_parsed(text, lines, cv, o).len() >= 1,
        crate::spec_format_parsed(text, lines, cv, o).last() == B_NL,
        crate::spec_format_parsed(text, lines, cv, o).len() >= 2 ==> crate::spec_format_parsed(
            text,
            lines,
            cv,
            o,
        )[crate::spec_format_parsed(text, lines, cv, o).len() - 2] != B_NL,
{
    let attached = crate::comment::spec_attached(text, lines, cv);
    let body = s_cst(text, o, attached, 0);
    lemma_trim_end_nl_free(body);
}

/// Width-sensitive wrapping: a command text argument whose rendered body is
/// plain (no line break, no leading comment or whitespace, no vertical
/// opener) stays on one line with single spaces while the un-stripped body
/// fits the configured row length, and switches to the indented multi-line
/// form the moment it exceeds it.
pub proof fn lemma_width_wrapping(t: Seq<u8>, o: OptionData, c: CstView, depth: int)
    requires
        c.rule == Rule::cmd_text_arg,
        spec_trim(s_inner(t, o, c, bump(depth))).len() > 0,
        !s_inner(t, o, c, bump(depth)).contains(B_NL),
        first_byte(s_inner(t, o, c, bump(depth))) != B_PERCENT,
        !is_ws(first_byte(s_inner(t, o, c, bump(depth)))),
        first_byte(t.subrange(c.start, c.end)) != 60,
    ensures
        s_inner(t, o, c, bump(depth)).len() <= o.row_length ==> s_cst(t, o, c, depth) == seq![
            first_byte(t.subrange(c.start, c.end)),
            crate::bytes::B_SP,
        ] + s_inner(t, o, c, bump(depth)) + seq![
            crate::bytes::B_SP,
            crate::bytes::last_byte(t.subrange(c.start, c.end)),
        ],
        s_inner(t, o, c, bump(depth)).len() > o.row_length ==> s_cst(t, o, c, depth) == seq![
            first_byte(t.subrange(c.start, c.end)),
        ] + nl_ind(o, bump(depth)) + s_inner(t, o, c, bump(depth)) + nl_ind(o, depth) + seq![
            crate::bytes::last_byte(t.subrange(c.start, c.end)),
        ],
{
    assert(new_depth_of(c.rule, depth) == bump(depth));
}

} // verus!
