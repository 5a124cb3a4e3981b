//! Comment recovery: the parser's grammar treats everything after an
//! unescaped `%` up to the end of the line as insignificant, so comments are
//! recovered from the raw text line by line, independently of the parsed
//! tree, and later reattached to the tree as synthetic leaves.

use vstd::prelude::*;

use crate::bytes::{
    ascii_of, is_ws, lit, spec_find, spec_trim_end, spec_trim_start, B_BACKSLASH, B_NL, B_PERCENT,
    B_SP,
};
use crate::cst::Span;

verus! {

/// One recovered comment: its renderable text and the byte range it came
/// from (from the `%` to the end of its line).
pub struct Comment {
    pub text: Vec<u8>,
    pub span: Span,
}

/// Mathematical shape of a recovered comment.
pub struct CommentView {
    pub text: Seq<u8>,
    pub start: int,
    pub end: int,
}

impl View for Comment {
    type V = CommentView;

    open spec fn view(&self) -> CommentView {
        CommentView {
            text: self.text@,
            start: self.span.start as int,
            end: self.span.end as int,
        }
    }
}

impl Comment {
    pub fn clone_comment(&self) -> (r: Comment)
        ensures
            r@ == self@,
    {
        let mut text: Vec<u8> = Vec::new();
        crate::bytes::app(&mut text, &self.text);
        Comment { text, span: self.span }
    }
}

/// The views of a comment queue.
pub open spec fn views_of(q: Seq<Comment>) -> Seq<CommentView> {
    q.map_values(|c: Comment| c@)
}

/// The normalized rendering of a comment's source text (which starts at a
/// `%` and runs to the end of its line): the body after the first `%` is
/// trimmed at its end; a body that is empty, starts with whitespace or with
/// another `%` is kept verbatim behind a single `%`, anything else gets
/// exactly one separating space.
pub open spec fn spec_comment_string(s: Seq<u8>) -> Seq<u8> {
    let idx = spec_find(s, B_PERCENT);
    let body = spec_trim_end(s.subrange(idx + 1, s.len() as int));
    if body.len() == 0 || is_ws(body[0]) || body[0] == B_PERCENT {
        seq![B_PERCENT] + body
    } else {
        seq![B_PERCENT, B_SP] + body
    }
}

/// Renders a comment's source text in its normalized form; a text without
/// `%` is treated as if the `%` stood just before it.
pub fn comment_string(text: &Vec<u8>) -> (r: Vec<u8>)
    ensures
        r@ == spec_comment_string(text@),
{
    let n = text.len();
    let from = match crate::bytes::find_byte(text, B_PERCENT) {
        Some(i) => {
            assert(i < text@.len());
            i + 1
        },
        None => 0,
    };
    let tail = crate::bytes::subvec(text, from, n);
    let body = crate::bytes::trim_end(&tail);
    let mut r: Vec<u8> = Vec::new();
    r.push(B_PERCENT);
    if !(body.len() == 0 || crate::bytes::ws_byte(body[0]) || body[0] == B_PERCENT) {
        r.push(B_SP);
    }
    crate::bytes::app(&mut r, &body);
    proof {
        assert(r@ =~= spec_comment_string(text@));
    }
    r
}

/// Renders a comment's source text in its normalized form.  The text must
/// hold a `%`, as every recovered comment does.
pub fn to_comment_string(text: Vec<u8>) -> (r: Vec<u8>)
    requires
        spec_find(text@, B_PERCENT) >= 0,
    ensures
        r@ == spec_comment_string(text@),
{
    comment_string(&text)
}

/// Length of the run of backslashes immediately before position `k`.
pub open spec fn esc_run(line: Seq<u8>, k: int) -> int
    decreases k,
{
    if 0 < k <= line.len() && line[k - 1] == B_BACKSLASH {
        1 + esc_run(line, k - 1)
    } else {
        0
    }
}

proof fn lemma_esc_run(line: Seq<u8>, p: int, k: int)
    requires
        0 <= k <= p <= line.len(),
        forall|j: int| k <= j < p ==> line[j] == B_BACKSLASH,
        k > 0 ==> line[k - 1] != B_BACKSLASH,
    ensures
        esc_run(line, p) == p - k,
    decreases p - k,
{
    if p > k {
        lemma_esc_run(line, p - 1, k);
    }
}

/// A line whose content (after leading whitespace) is a header declaration;
/// such lines are never scanned for comments.
pub open spec fn is_header_line(line: Seq<u8>) -> bool {
    ascii_of("@require"@).is_prefix_of(spec_trim_start(line))
        || ascii_of("@import"@).is_prefix_of(spec_trim_start(line))
}

/// Whether position `k` of the line is an unescaped `%` (escaped means:
/// preceded by an odd run of backslashes).
pub open spec fn is_comment_start(line: Seq<u8>, k: int) -> bool {
    0 <= k < line.len() && line[k] == B_PERCENT && esc_run(line, k) % 2 == 0
}

/// The first unescaped `%` at position `k` or later, or `-1` if none is
/// left.
pub open spec fn line_comment_scan(line: Seq<u8>, k: int) -> int
    decreases line.len() - k,
{
    if k < 0 || k >= line.len() {
        -1
    } else if is_comment_start(line, k) {
        k
    } else {
        line_comment_scan(line, k + 1)
    }
}

/// What the scan finds: either nothing is left, or the first unescaped `%`
/// from `k` on.
pub proof fn lemma_scan_props(line: Seq<u8>, k: int)
    requires
        0 <= k,
    ensures
        line_comment_scan(line, k) == -1 ==> forall|j: int|
            k <= j < line.len() ==> !is_comment_start(line, j),
        line_comment_scan(line, k) != -1 ==> k <= line_comment_scan(line, k) < line.len()
            && is_comment_start(line, line_comment_scan(line, k)) && forall|j: int|
            k <= j < line_comment_scan(line, k) ==> !is_comment_start(line, j),
    decreases line.len() - k,
{
    if k < line.len() && !is_comment_start(line, k) {
        lemma_scan_props(line, k + 1);
    }
}

/// Where the comment of one line starts, relative to the line: the position
/// of the first unescaped `%`, unless the line is a header line; `-1` when
/// the line yields no comment.
pub open spec fn line_comment_pos(line: Seq<u8>) -> int {
    if is_header_line(line) {
        -1
    } else {
        line_comment_scan(line, 0)
    }
}

/// A line-start table for `text`: starts at zero, non-decreasing, bounded by
/// the text's length.
pub open spec fn wf_lines(text: Seq<u8>, lines: Seq<int>) -> bool {
    &&& forall|i: int| 0 <= i < lines.len() ==> 0 <= #[trigger] lines[i] <= text.len()
    &&& forall|i: int| 0 < i < lines.len() ==> #[trigger] lines[i - 1] <= lines[i]
}

/// The comments recovered from the lines `i, i+1, ...` of the table, oldest
/// first; line `i` is the byte range `lines[i-1] .. lines[i]`.
pub open spec fn spec_comments_from(text: Seq<u8>, lines: Seq<int>, i: int) -> Seq<CommentView>
    decreases lines.len() - i,
{
    if i < 1 || i >= lines.len() {
        Seq::empty()
    } else {
        let start = lines[i - 1];
        let end = lines[i];
        let line = text.subrange(start, end);
        let p = line_comment_pos(line);
        let here: Seq<CommentView> = if p >= 0 {
            seq![
                CommentView {
                    text: spec_comment_string(text.subrange(start + p, end)),
                    start: start + p,
                    end: end,
                },
            ]
        } else {
            Seq::empty()
        };
        here + spec_comments_from(text, lines, i + 1)
    }
}

/// All comments recovered from `text` under the line table `lines`.
pub open spec fn spec_comments(text: Seq<u8>, lines: Seq<int>) -> Seq<CommentView> {
    spec_comments_from(text, lines, 1)
}

pub open spec fn lines_as_ints(lines: Seq<usize>) -> Seq<int> {
    lines.map_values(|v: usize| v as int)
}

/// Scans the raw text line by line and recovers every comment the grammar
/// dropped: at most one per line, at its first unescaped `%`, none from
/// header lines.
pub fn get_comments(text: &Vec<u8>, lines: &Vec<usize>) -> (r: Vec<Comment>)
    requires
        wf_lines(text@, lines_as_ints(lines@)),
    ensures
        views_of(r@) == spec_comments(text@, lines_as_ints(lines@)),
        forall|k: int|
            0 <= k < r@.len() ==> (#[trigger] r@[k]).span.start <= r@[k].span.end <= text@.len(),
{
    let ghost gl = lines_as_ints(lines@);
    proof {
        reveal_strlit("@require");
        reveal_strlit("@import");
    }
    let req = lit("@require");
    let imp = lit("@import");
    let mut r: Vec<Comment> = Vec::new();
    let mut i: usize = 1;
    while i < lines.len()
        invariant
            wf_lines(text@, gl),
            gl == lines_as_ints(lines@),
            req@ == ascii_of("@require"@),
            imp@ == ascii_of("@import"@),
            1 <= i <= gl.len() || (gl.len() == 0 && i == 1),
            spec_comments(text@, gl) == views_of(r@) + spec_comments_from(text@, gl, i as int),
            forall|k: int|
                0 <= k < r@.len() ==> (#[trigger] r@[k]).span.start <= r@[k].span.end
                    <= text@.len(),
        decreases lines@.len() - i,
    {
        let start = lines[i - 1];
        let end = lines[i];
        assert(gl[i - 1] <= gl[i as int] <= text@.len());
        let line = crate::bytes::subvec(text, start, end);
        let t = crate::bytes::trim_start(&line);
        let is_header = crate::bytes::starts_with(&t, &req) || crate::bytes::starts_with(&t, &imp);
        if !is_header {
            let mut found: Option<usize> = None;
            let mut p: usize = 0;
            while p < line.len() && found.is_none()
                invariant
                    0 <= p <= line@.len(),
                    found is None ==> forall|j: int| 0 <= j < p ==> !is_comment_start(line@, j),
                    found matches Some(q) ==> is_comment_start(line@, q as int) && forall|j: int|
                        0 <= j < q ==> !is_comment_start(line@, j),
                decreases line@.len() - p + (if found is None {
                    1int
                } else {
                    0int
                }),
            {
                if line[p] == B_PERCENT {
                    let mut k: usize = p;
                    while k > 0 && line[k - 1] == B_BACKSLASH
                        invariant
                            0 <= k <= p < line@.len(),
                            forall|j: int| k <= j < p ==> line@[j] == B_BACKSLASH,
                        decreases k,
                    {
                        k -= 1;
                    }
                    proof {
                        lemma_esc_run(line@, p as int, k as int);
                    }
                    if (p - k) % 2 != 1 {
                        found = Some(p);
                    } else {
                        p += 1;
                    }
                } else {
                    p += 1;
                }
            }
            proof {
                lemma_scan_props(line@, 0);
                if found is None {
                    assert(p == line@.len());
                }
            }
            if let Some(p) = found {
                let ctext = crate::bytes::subvec(text, start + p, end);
                proof {
                    assert(ctext@[0] == line@[p as int]);
                    crate::bytes::lemma_find_at(ctext@, B_PERCENT, 0);
                }
                let c = Comment {
                    text: to_comment_string(ctext),
                    span: Span { start: start + p, end },
                };
                r.push(c);
            }
        }
        i += 1;
        proof {
            assert(spec_comments(text@, gl) =~= views_of(r@) + spec_comments_from(
                text@,
                gl,
                i as int,
            ));
        }
    }
    proof {
        assert(views_of(r@) =~= spec_comments(text@, gl));
    }
    r
}

} // verus!

verus! {

use crate::cst::{CstNode, CstView, Rule, lemma_view};

/// Whether the span `[start, end)` lies inside the node's span.
pub open spec fn spec_contains(cv: CstView, start: int, end: int) -> bool {
    cv.start <= start && end <= cv.end
}

/// Whether a comment belongs directly under this node: the node's span
/// holds the comment's span and no child does — except that `headers`
/// children never count as holding a comment, and a `headers` node itself
/// takes none (header entries are rendered from fixed templates with no
/// comment slot).
pub open spec fn spec_check(cv: CstView, c: CommentView) -> bool {
    &&& spec_contains(cv, c.start, c.end)
    &&& !(exists|i: int|
        0 <= i < cv.inner.len() && (#[trigger] cv.inner[i]).rule != Rule::headers
            && spec_contains(cv.inner[i], c.start, c.end))
    &&& cv.rule != Rule::headers
}

pub fn check_comment(cst: &CstNode, c: &Comment) -> (r: bool)
    ensures
        r == spec_check(cst@, c@),
{
    proof {
        lemma_view(*cst);
    }
    if !(cst.span.start <= c.span.start && c.span.end <= cst.span.end) {
        return false;
    }
    if matches!(cst.rule, Rule::headers) {
        return false;
    }
    let mut j: usize = 0;
    while j < cst.inner.len()
        invariant
            0 <= j <= cst.inner@.len(),
            cst@.inner.len() == cst.inner@.len(),
            forall|i: int| 0 <= i < cst.inner@.len() ==> cst@.inner[i] == #[trigger] cst.inner@[i]@,
            cst@.rule == cst.rule,
            spec_contains(cst@, c@.start, c@.end),
            !(cst.rule == Rule::headers),
            forall|i: int|
                0 <= i < j ==> !((#[trigger] cst@.inner[i]).rule != Rule::headers && spec_contains(
                    cst@.inner[i],
                    c@.start,
                    c@.end,
                )),
        decreases cst.inner@.len() - j,
    {
        let child = &cst.inner[j];
        proof {
            assert(cst@.inner[j as int] == cst.inner@[j as int]@);
            assert(cst@.inner[j as int].rule == child.rule);
            assert(cst@.inner[j as int].start == child.span.start as int);
            assert(cst@.inner[j as int].end == child.span.end as int);
        }
        if !matches!(child.rule, Rule::headers) && child.span.start <= c.span.start
            && c.span.end <= child.span.end {
            assert(spec_contains(cst@.inner[j as int], c@.start, c@.end));
            return false;
        }
        j += 1;
    }
    true
}

/// The comments of the queue (from index `i` on) that attach to this node,
/// oldest first.
pub open spec fn spec_matched(cv: CstView, q: Seq<CommentView>, i: int) -> Seq<CommentView>
    decreases q.len() - i,
{
    if i < 0 || i >= q.len() {
        Seq::empty()
    } else {
        (if spec_check(cv, q[i]) {
            seq![q[i]]
        } else {
            Seq::empty()
        }) + spec_matched(cv, q, i + 1)
    }
}

/// The queue with its first `n` entries removed (all of them when fewer
/// than `n` are left).
pub open spec fn spec_pop_n(q: Seq<CommentView>, n: int) -> Seq<CommentView>
    decreases n,
{
    if n <= 0 || q.len() == 0 {
        q
    } else {
        spec_pop_n(q.subrange(1, q.len() as int), n - 1)
    }
}

/// Inserts `x` behind every element whose span does not start later; used
/// as the (stable) ordering step for a node's rebuilt child list.
pub open spec fn spec_insert_sorted(x: CstView, s: Seq<CstView>) -> Seq<CstView>
    decreases s.len(),
{
    if s.len() == 0 {
        seq![x]
    } else if x.start < s[0].start {
        seq![x] + s
    } else {
        seq![s[0]] + spec_insert_sorted(x, s.subrange(1, s.len() as int))
    }
}

/// Stable insertion sort of a child list by span start.
pub open spec fn spec_sort(s: Seq<CstView>) -> Seq<CstView>
    decreases s.len(),
{
    if s.len() == 0 {
        Seq::empty()
    } else {
        spec_insert_sorted(s.last(), spec_sort(s.drop_last()))
    }
}

/// The views of a rebuilt child list.
pub open spec fn cst_views_of(s: Seq<CstNode>) -> Seq<CstView> {
    s.map_values(|c: CstNode| c@)
}

pub proof fn lemma_cst_views(s: Seq<CstNode>)
    ensures
        cst_views_of(s).len() == s.len(),
        forall|i: int| 0 <= i < s.len() ==> cst_views_of(s)[i] == (#[trigger] s[i])@,
{
}

pub proof fn lemma_views(q: Seq<Comment>)
    ensures
        views_of(q).len() == q.len(),
        forall|i: int| 0 <= i < q.len() ==> views_of(q)[i] == (#[trigger] q[i])@,
{
}

/// One reattachment step, in depth-first pre-order: the comments that
/// attach here are decided first, then the children consume what belongs to
/// them, then this node's claimed comments are materialized as leaves, the
/// same number of entries leaves the front of the queue, and the child list
/// is re-sorted by span start.
pub open spec fn spec_insert(cv: CstView, q: Seq<CommentView>) -> (CstView, Seq<CommentView>)
    decreases cv, 1int, 0int,
{
    let matched = spec_matched(cv, q, 0);
    let pair = spec_insert_children(cv, 0, q);
    let kids = pair.0;
    let q2 = pair.1;
    if matched.len() == 0 {
        (CstView { inner: kids, ..cv }, q2)
    } else {
        let leaves = matched.map_values(
            |c: CommentView| CstView::leaf(Rule::comments, c.start, c.end),
        );
        (CstView { inner: spec_sort(kids + leaves), ..cv }, spec_pop_n(q2, matched.len() as int))
    }
}

pub open spec fn spec_insert_children(cv: CstView, i: int, q: Seq<CommentView>) -> (
    Seq<CstView>,
    Seq<CommentView>,
)
    decreases cv, 0int, cv.inner.len() - i,
{
    if i < 0 || i >= cv.inner.len() {
        (Seq::empty(), q)
    } else {
        let pair = spec_insert(cv.inner[i], q);
        let rest = spec_insert_children(cv, i + 1, pair.1);
        (seq![pair.0] + rest.0, rest.1)
    }
}

} // verus!

verus! {

/// A full structural copy of a tree node (reattachment rebuilds rather than
/// mutates).
pub fn clone_cst(cst: &CstNode) -> (r: CstNode)
    ensures
        r@ == cst@,
    decreases *cst,
{
    proof {
        lemma_view(*cst);
    }
    let mut kids: Vec<CstNode> = Vec::new();
    let mut j: usize = 0;
    while j < cst.inner.len()
        invariant
            0 <= j <= cst.inner@.len(),
            kids@.len() == j,
            forall|i: int| 0 <= i < j ==> (#[trigger] kids@[i])@ == cst.inner@[i]@,
        decreases cst.inner@.len() - j,
    {
        let c = clone_cst(&cst.inner[j]);
        kids.push(c);
        j += 1;
    }
    let r = CstNode { rule: cst.rule, span: cst.span, inner: kids };
    proof {
        lemma_view(r);
        assert forall|i: int| 0 <= i < cst.inner@.len() implies r@.inner[i] == cst@.inner[i] by {
            assert(r@.inner[i] == r.inner@[i]@);
            assert(cst@.inner[i] == cst.inner@[i]@);
        }
        assert(r@.inner =~= cst@.inner);
    }
    r
}

proof fn lemma_insert_sorted_at(x: CstView, s: Seq<CstView>, p: int)
    requires
        0 <= p <= s.len(),
        forall|j: int| 0 <= j < p ==> !(x.start < (#[trigger] s[j]).start),
        p < s.len() ==> x.start < s[p].start,
    ensures
        spec_insert_sorted(x, s) == s.subrange(0, p) + seq![x] + s.subrange(p, s.len() as int),
    decreases p + 1,
{
    if s.len() == 0 {
        assert(spec_insert_sorted(x, s) =~= s.subrange(0, p) + seq![x] + s.subrange(
            p,
            s.len() as int,
        ));
    } else if x.start < s[0].start {
        assert(p == 0);
        assert(spec_insert_sorted(x, s) =~= s.subrange(0, p) + seq![x] + s.subrange(
            p,
            s.len() as int,
        ));
    } else {
        assert(p >= 1);
        let t = s.subrange(1, s.len() as int);
        lemma_insert_sorted_at(x, t, p - 1);
        assert(t.subrange(0, p - 1) =~= s.subrange(1, p));
        assert(t.subrange(p - 1, t.len() as int) =~= s.subrange(p, s.len() as int));
        assert(spec_insert_sorted(x, s) =~= s.subrange(0, p) + seq![x] + s.subrange(
            p,
            s.len() as int,
        ));
    }
}

/// Puts `x` behind every element whose span does not start later than its
/// own (keeping the insertion order of equal starts stable).
fn insert_one(v: &mut Vec<CstNode>, x: CstNode)
    ensures
        cst_views_of(final(v)@) == spec_insert_sorted(x@, cst_views_of(old(v)@)),
{
    let mut p: usize = 0;
    while p < v.len() && !(x.span.start < v[p].span.start)
        invariant
            0 <= p <= v@.len(),
            v@ == old(v)@,
            forall|j: int|
                0 <= j < p ==> !(x@.start < (#[trigger] cst_views_of(v@)[j]).start),
        decreases v@.len() - p,
    {
        proof {
            assert(cst_views_of(v@)[p as int] == v@[p as int]@);
        }
        p += 1;
    }
    proof {
        if p < v@.len() {
            assert(cst_views_of(v@)[p as int] == v@[p as int]@);
        }
        lemma_insert_sorted_at(x@, cst_views_of(v@), p as int);
    }
    let ghost vold = v@;
    v.insert(p, x);
    proof {
        assert(cst_views_of(v@) =~= cst_views_of(vold).subrange(0, p as int) + seq![x@]
            + cst_views_of(vold).subrange(p as int, vold.len() as int));
    }
}

/// Stable insertion sort of a rebuilt child list by span start.
fn sort_by_start(v: Vec<CstNode>) -> (r: Vec<CstNode>)
    ensures
        cst_views_of(r@) == spec_sort(cst_views_of(v@)),
{
    let ghost orig = cst_views_of(v@);
    let mut rest = v;
    let mut out: Vec<CstNode> = Vec::new();
    let ghost n = orig.len();
    while rest.len() > 0
        invariant
            rest@.len() <= n,
            orig.len() == n,
            cst_views_of(rest@) == orig.subrange(n - rest@.len(), n as int),
            cst_views_of(out@) == spec_sort(orig.subrange(0, n - rest@.len())),
        decreases rest@.len(),
    {
        let ghost k = n - rest@.len();
        let ghost prevrest = rest@;
        let x = rest.remove(0);
        proof {
            lemma_cst_views(prevrest);
            lemma_cst_views(rest@);
            assert(x@ == cst_views_of(prevrest)[0]);
            assert(x@ == orig[k]);
            assert forall|i: int| 0 <= i < rest@.len() implies cst_views_of(rest@)[i]
                == orig.subrange(k + 1, n as int)[i] by {
                assert(rest@[i] == prevrest[i + 1]);
                assert(cst_views_of(prevrest)[i + 1] == orig.subrange(k, n as int)[i + 1]);
            }
            assert(cst_views_of(rest@) =~= orig.subrange(k + 1, n as int));
        }
        insert_one(&mut out, x);
        proof {
            assert(orig.subrange(0, k + 1).drop_last() =~= orig.subrange(0, k));
            assert(orig.subrange(0, k + 1).last() == orig[k]);
        }
    }
    proof {
        assert(orig.subrange(0, n as int) =~= orig);
    }
    out
}

/// Reattaches queued comments below this node, depth-first: the comments
/// that attach here are decided first, the children then consume what
/// belongs to them, and finally this node's claimed comments become
/// `comments` leaves, as many queue entries are dropped from the front, and
/// the children are re-sorted by span start.
pub fn cst_insert_comment(cst: &CstNode, comments: &mut Vec<Comment>) -> (r: CstNode)
    ensures
        r@ == spec_insert(cst@, views_of(old(comments)@)).0,
        views_of(final(comments)@) == spec_insert(cst@, views_of(old(comments)@)).1,
    decreases *cst,
{
    proof {
        lemma_view(*cst);
    }
    let ghost q0 = views_of(comments@);
    let mut matched: Vec<Comment> = Vec::new();
    let mut j: usize = 0;
    while j < comments.len()
        invariant
            0 <= j <= comments@.len(),
            comments@ == old(comments)@,
            q0 == views_of(comments@),
            spec_matched(cst@, q0, 0) == views_of(matched@) + spec_matched(cst@, q0, j as int),
        decreases comments@.len() - j,
    {
        proof {
            assert(q0[j as int] == comments@[j as int]@);
        }
        if check_comment(cst, &comments[j]) {
            let c = comments[j].clone_comment();
            matched.push(c);
            proof {
                assert(views_of(matched@) =~= views_of(matched@.drop_last()) + seq![
                    comments@[j as int]@,
                ]);
            }
        }
        j += 1;
        proof {
            assert(spec_matched(cst@, q0, 0) =~= views_of(matched@) + spec_matched(
                cst@,
                q0,
                j as int,
            ));
        }
    }
    proof {
        assert(views_of(matched@) =~= spec_matched(cst@, q0, 0));
    }
    let ghost mviews = views_of(matched@);
    let mut kids: Vec<CstNode> = Vec::new();
    let mut k: usize = 0;
    while k < cst.inner.len()
        invariant
            0 <= k <= cst.inner@.len(),
            cst@.inner.len() == cst.inner@.len(),
            forall|i: int| 0 <= i < cst.inner@.len() ==> cst@.inner[i] == #[trigger] cst.inner@[i]@,
            spec_insert_children(cst@, 0, q0).0 == cst_views_of(kids@) + spec_insert_children(
                cst@,
                k as int,
                views_of(comments@),
            ).0,
            spec_insert_children(cst@, 0, q0).1 == spec_insert_children(
                cst@,
                k as int,
                views_of(comments@),
            ).1,
        decreases cst.inner@.len() - k,
    {
        let c2 = cst_insert_comment(&cst.inner[k], comments);
        kids.push(c2);
        k += 1;
        proof {
            assert(spec_insert_children(cst@, 0, q0).0 =~= cst_views_of(kids@)
                + spec_insert_children(cst@, k as int, views_of(comments@)).0);
        }
    }
    proof {
        assert(cst_views_of(kids@) =~= spec_insert_children(cst@, 0, q0).0);
    }
    let ghost kids0 = cst_views_of(kids@);
    let ghost q2 = views_of(comments@);
    let r: CstNode;
    if matched.len() > 0 {
        let ghost leaves = mviews.map_values(
            |c: CommentView| CstView::leaf(Rule::comments, c.start, c.end),
        );
        let mut m: usize = 0;
        while m < matched.len()
            invariant
                0 <= m <= matched@.len(),
                mviews == views_of(matched@),
                leaves == mviews.map_values(
                    |c: CommentView| CstView::leaf(Rule::comments, c.start, c.end),
                ),
                cst_views_of(kids@) == kids0 + leaves.subrange(0, m as int),
            decreases matched@.len() - m,
        {
            let leaf = CstNode {
                rule: Rule::comments,
                span: matched[m].span,
                inner: Vec::new(),
            };
            proof {
                lemma_view(leaf);
                assert(leaf@.inner =~= Seq::<CstView>::empty());
                assert(leaf@ == CstView::leaf(Rule::comments, leaf.span.start as int, leaf.span.end as int));
                assert(leaves[m as int] == CstView::leaf(
                    Rule::comments,
                    mviews[m as int].start,
                    mviews[m as int].end,
                ));
                assert(mviews[m as int] == matched@[m as int]@);
            }
            let ghost prevkids = kids@;
            kids.push(leaf);
            m += 1;
            proof {
                lemma_cst_views(prevkids);
                lemma_cst_views(kids@);
                lemma_views(matched@);
                assert forall|i: int| 0 <= i < kids@.len() implies cst_views_of(kids@)[i] == (
                kids0 + leaves.subrange(0, m as int))[i] by {
                    if i < prevkids.len() {
                        assert(kids@[i] == prevkids[i]);
                        assert(cst_views_of(prevkids)[i] == (kids0 + leaves.subrange(
                            0,
                            m - 1,
                        ))[i]);
                    } else {
                        assert(kids@[i] == leaf);
                        assert(leaves[m - 1] == CstView::leaf(
                            Rule::comments,
                            mviews[m - 1].start,
                            mviews[m - 1].end,
                        ));
                    }
                }
                assert(cst_views_of(kids@) =~= kids0 + leaves.subrange(0, m as int));
            }
        }
        proof {
            assert(leaves.subrange(0, leaves.len() as int) =~= leaves);
        }
        let mut t: usize = matched.len();
        while t > 0 && comments.len() > 0
            invariant
                spec_pop_n(q2, mviews.len() as int) == spec_pop_n(views_of(comments@), t as int),
            decreases t,
        {
            let ghost prevq = comments@;
            comments.remove(0);
            t -= 1;
            proof {
                lemma_views(prevq);
                lemma_views(comments@);
                assert forall|i: int| 0 <= i < comments@.len() implies views_of(comments@)[i]
                    == views_of(prevq).subrange(1, prevq.len() as int)[i] by {
                    assert(comments@[i] == prevq[i + 1]);
                }
                assert(views_of(comments@) =~= views_of(prevq).subrange(
                    1,
                    prevq.len() as int,
                ));
                assert(spec_pop_n(views_of(prevq), t + 1) == spec_pop_n(
                    views_of(comments@),
                    t as int,
                ));
            }
        }
        proof {
            if t == 0 {
                assert(spec_pop_n(views_of(comments@), 0) == views_of(comments@));
            } else {
                assert(views_of(comments@).len() == 0);
            }
        }
        let kids2 = sort_by_start(kids);
        r = CstNode { rule: cst.rule, span: cst.span, inner: kids2 };
    } else {
        r = CstNode { rule: cst.rule, span: cst.span, inner: kids };
    }
    proof {
        lemma_view(r);
        assert(r@.inner =~= cst_views_of(r.inner@));
        assert(r@ == spec_insert(cst@, q0).0);
    }
    r
}

/// The tree after comment reattachment: unchanged when the text holds no
/// comments, otherwise the result of the depth-first insertion pass.  A
/// comment that attaches nowhere is dropped (it cannot occur for the spans
/// a real parse produces).
pub open spec fn spec_attached(text: Seq<u8>, lines: Seq<int>, cv: CstView) -> CstView {
    let q = spec_comments(text, lines);
    if q.len() == 0 {
        cv
    } else {
        spec_insert(cv, q).0
    }
}

/// Recovers the comments of `text` and rebuilds the tree with each of them
/// attached as a leaf.
pub fn csttext_insert_comments(cst: &CstNode, text: &Vec<u8>, lines: &Vec<usize>) -> (r: CstNode)
    requires
        wf_lines(text@, lines_as_ints(lines@)),
    ensures
        r@ == spec_attached(text@, lines_as_ints(lines@), cst@),
{
    let mut q = get_comments(text, lines);
    if q.len() > 0 {
        cst_insert_comment(cst, &mut q)
    } else {
        proof {
            assert(views_of(q@).len() == 0);
        }
        clone_cst(cst)
    }
}

} // verus!

verus! {

/// Every queued comment's span is an ordered range inside the text.
pub open spec fn spans_ok(q: Seq<CommentView>, len: int) -> bool {
    forall|i: int| 0 <= i < q.len() ==> 0 <= (#[trigger] q[i]).start <= q[i].end <= len
}

proof fn lemma_matched_ok(cv: CstView, q: Seq<CommentView>, i: int, len: int)
    requires
        spans_ok(q, len),
    ensures
        spans_ok(spec_matched(cv, q, i), len),
    decreases q.len() - i,
{
    if 0 <= i < q.len() {
        lemma_matched_ok(cv, q, i + 1, len);
        let m = spec_matched(cv, q, i);
        let rest = spec_matched(cv, q, i + 1);
        assert forall|j: int| 0 <= j < m.len() implies 0 <= (#[trigger] m[j]).start <= m[j].end
            <= len by {
            if spec_check(cv, q[i]) {
                if j > 0 {
                    assert(m[j] == rest[j - 1]);
                }
            } else {
                assert(m[j] == rest[j]);
            }
        }
    }
}

proof fn lemma_pop_ok(q: Seq<CommentView>, n: int, len: int)
    requires
        spans_ok(q, len),
    ensures
        spans_ok(spec_pop_n(q, n), len),
    decreases n,
{
    if n > 0 && q.len() > 0 {
        let t = q.subrange(1, q.len() as int);
        assert(spans_ok(t, len));
        lemma_pop_ok(t, n - 1, len);
    }
}

proof fn lemma_insert_sorted_wf(x: CstView, s: Seq<CstView>, len: int)
    requires
        x.wf(len),
        forall|i: int| 0 <= i < s.len() ==> (#[trigger] s[i]).wf(len),
    ensures
        forall|i: int|
            0 <= i < spec_insert_sorted(x, s).len() ==> (#[trigger] spec_insert_sorted(
                x,
                s,
            )[i]).wf(len),
    decreases s.len(),
{
    if s.len() == 0 {
    } else if x.start < s[0].start {
    } else {
        let t = s.subrange(1, s.len() as int);
        assert(forall|i: int| 0 <= i < t.len() ==> (#[trigger] t[i]).wf(len));
        lemma_insert_sorted_wf(x, t, len);
        let r = spec_insert_sorted(x, s);
        let rt = spec_insert_sorted(x, t);
        assert forall|i: int| 0 <= i < r.len() implies (#[trigger] r[i]).wf(len) by {
            if i > 0 {
                assert(r[i] == rt[i - 1]);
            }
        }
    }
}

proof fn lemma_sort_wf(s: Seq<CstView>, len: int)
    requires
        forall|i: int| 0 <= i < s.len() ==> (#[trigger] s[i]).wf(len),
    ensures
        forall|i: int| 0 <= i < spec_sort(s).len() ==> (#[trigger] spec_sort(s)[i]).wf(len),
    decreases s.len(),
{
    if s.len() > 0 {
        let t = s.drop_last();
        assert(forall|i: int| 0 <= i < t.len() ==> (#[trigger] t[i]).wf(len));
        lemma_sort_wf(t, len);
        lemma_insert_sorted_wf(s.last(), spec_sort(t), len);
    }
}

/// Reattachment keeps the tree well-formed: comment leaves are ordinary
/// leaves with in-range spans, and the queue only ever shrinks from the
/// front.
pub proof fn lemma_insert_wf(cv: CstView, q: Seq<CommentView>, len: int)
    requires
        cv.wf(len),
        spans_ok(q, len),
    ensures
        spec_insert(cv, q).0.wf(len),
        spans_ok(spec_insert(cv, q).1, len),
    decreases cv, 1int, 0int,
{
    let matched = spec_matched(cv, q, 0);
    lemma_matched_ok(cv, q, 0, len);
    lemma_insert_children_wf(cv, 0, q, len);
    let pair = spec_insert_children(cv, 0, q);
    if matched.len() == 0 {
        let r = spec_insert(cv, q).0;
        assert(forall|i: int| 0 <= i < r.inner.len() ==> (#[trigger] r.inner[i]).wf(len));
    } else {
        let leaves = matched.map_values(
            |c: CommentView| CstView::leaf(Rule::comments, c.start, c.end),
        );
        let all = pair.0 + leaves;
        assert forall|i: int| 0 <= i < all.len() implies (#[trigger] all[i]).wf(len) by {
            if i >= pair.0.len() {
                assert(all[i] == leaves[i - pair.0.len()]);
                assert(matched[i - pair.0.len()].start <= matched[i - pair.0.len()].end);
            }
        }
        lemma_sort_wf(all, len);
        lemma_pop_ok(pair.1, matched.len() as int, len);
        let r = spec_insert(cv, q).0;
        assert(forall|i: int| 0 <= i < r.inner.len() ==> (#[trigger] r.inner[i]).wf(len));
    }
}

proof fn lemma_insert_children_wf(cv: CstView, i: int, q: Seq<CommentView>, len: int)
    requires
        cv.wf(len),
        spans_ok(q, len),
    ensures
        forall|j: int|
            0 <= j < spec_insert_children(cv, i, q).0.len() ==> (
            #[trigger] spec_insert_children(cv, i, q).0[j]).wf(len),
        spans_ok(spec_insert_children(cv, i, q).1, len),
    decreases cv, 0int, cv.inner.len() - i,
{
    if 0 <= i < cv.inner.len() {
        reveal_with_fuel(CstView::wf, 2);
        assert(cv.inner[i].wf(len));
        lemma_insert_wf(cv.inner[i], q, len);
        let pair = spec_insert(cv.inner[i], q);
        lemma_insert_children_wf(cv, i + 1, pair.1, len);
        let r = spec_insert_children(cv, i, q);
        let rest = spec_insert_children(cv, i + 1, pair.1);
        assert forall|j: int| 0 <= j < r.0.len() implies (#[trigger] r.0[j]).wf(len) by {
            if j > 0 {
                assert(r.0[j] == rest.0[j - 1]);
            }
        }
    }
}

} // verus!

verus! {

/// The positions just after each line feed from index `i` on.
pub open spec fn spec_nl_starts(text: Seq<u8>, i: int) -> Seq<int>
    decreases text.len() - i,
{
    if i < 0 || i >= text.len() {
        Seq::empty()
    } else {
        (if text[i] == B_NL {
            seq![i + 1]
        } else {
            Seq::empty()
        }) + spec_nl_starts(text, i + 1)
    }
}

/// The line-start table of a text: a leading zero, then the position after
/// every line feed.
pub open spec fn spec_line_table(text: Seq<u8>) -> Seq<int> {
    seq![0int] + spec_nl_starts(text, 0)
}

/// Computes the line-start table.
pub fn line_starts(text: &Vec<u8>) -> (r: Vec<usize>)
    ensures
        lines_as_ints(r@) == spec_line_table(text@),
        wf_lines(text@, lines_as_ints(r@)),
{
    let mut r: Vec<usize> = Vec::new();
    r.push(0);
    proof {
        assert(lines_as_ints(r@) =~= seq![0int]);
    }
    let mut i: usize = 0;
    while i < text.len()
        invariant
            0 <= i <= text@.len(),
            r@.len() >= 1,
            spec_line_table(text@) == lines_as_ints(r@) + spec_nl_starts(text@, i as int),
            forall|k: int| 0 <= k < r@.len() ==> (#[trigger] r@[k]) <= i,
            forall|k: int| 0 < k < r@.len() ==> #[trigger] r@[k - 1] <= r@[k],
        decreases text@.len() - i,
    {
        if text[i] == B_NL {
            let ghost prev = r@;
            r.push(i + 1);
            proof {
                assert(lines_as_ints(r@) =~= lines_as_ints(prev) + seq![i + 1 as int]);
            }
        }
        i += 1;
        proof {
            assert(spec_line_table(text@) =~= lines_as_ints(r@) + spec_nl_starts(
                text@,
                i as int,
            ));
        }
    }
    proof {
        assert(lines_as_ints(r@) =~= spec_line_table(text@));
    }
    r
}

/// Every recovered comment's span is an ordered range inside the text.
pub proof fn lemma_comments_spans_ok(text: Seq<u8>, lines: Seq<int>, i: int)
    requires
        wf_lines(text, lines),
    ensures
        spans_ok(spec_comments_from(text, lines, i), text.len() as int),
    decreases lines.len() - i,
{
    if 1 <= i < lines.len() {
        lemma_comments_spans_ok(text, lines, i + 1);
        let start = lines[i - 1];
        let end = lines[i];
        let line = text.subrange(start, end);
        let p = line_comment_pos(line);
        let all = spec_comments_from(text, lines, i);
        let rest = spec_comments_from(text, lines, i + 1);
        assert(lines[i - 1] <= lines[i]);
        if p >= 0 {
            lemma_scan_props(line, 0);
            assert(p < end - start);
        }
        assert forall|j: int| 0 <= j < all.len() implies 0 <= (#[trigger] all[j]).start
            <= all[j].end <= text.len() by {
            if p >= 0 {
                if j > 0 {
                    assert(all[j] == rest[j - 1]);
                }
            } else {
                assert(all[j] == rest[j]);
            }
        }
    }
}

/// Reattachment keeps a well-formed tree well-formed.
pub proof fn lemma_attached_wf(text: Seq<u8>, lines: Seq<int>, cv: crate::cst::CstView)
    requires
        wf_lines(text, lines),
        cv.wf(text.len() as int),
    ensures
        spec_attached(text, lines, cv).wf(text.len() as int),
{
    let q = spec_comments(text, lines);
    if q.len() > 0 {
        lemma_comments_spans_ok(text, lines, 1);
        lemma_insert_wf(cv, q, text.len() as int);
    }
}

} // verus!
